//! Scenario tests for the documented properties of the transform: the three
//! context shapes, the placeholder guarantee, branch order, single-child
//! collapsing, and the documented resolution of ambiguous directive usage.

use condition_transform::ast::{
    Attr, AttrEntry, AttrVal, Child, DeclKind, Declarator, Elem, ElemName, Expr, LambdaBody,
    Program, Stmt,
};
use condition_transform::driver::{process_transform, Config};
use condition_transform::post::post_process;
use condition_transform::rewrite::rewrite;

fn tag(name: &str) -> ElemName {
    ElemName::Tag(name.to_string())
}

fn case_name() -> ElemName {
    ElemName::Member("Switch".to_string(), "Case".to_string())
}

fn ident(s: &str) -> Expr {
    Expr::Ident(s.to_string())
}

fn boolean(e: Expr) -> Expr {
    Expr::Call(Box::new(ident("Boolean")), vec![e])
}

fn cond(t: Expr, c: Expr, a: Expr) -> Expr {
    Expr::Cond(Box::new(t), Box::new(c), Box::new(a))
}

fn attr_if(e: Expr) -> AttrEntry {
    AttrEntry::Attr(Attr { name: "if".to_string(), value: Some(AttrVal::Expr(Box::new(e))) })
}

fn attr_flag(name: &str) -> AttrEntry {
    AttrEntry::Attr(Attr { name: name.to_string(), value: None })
}

fn el(name: ElemName, attrs: Vec<AttrEntry>, children: Vec<Child>) -> Elem {
    Elem { name, attrs, children }
}

fn cel(name: &str, children: Vec<Child>) -> Child {
    Child::Elem(el(tag(name), vec![], children))
}

fn eel(name: &str, children: Vec<Child>) -> Expr {
    Expr::Elem(Box::new(el(tag(name), vec![], children)))
}

fn text(s: &str) -> Child {
    Child::Text(s.to_string())
}

fn cont(e: Expr) -> Child {
    Child::Container(Some(Box::new(e)))
}

fn wrapper(e: Expr) -> Child {
    Child::Elem(el(tag("React.Fragment"), vec![], vec![cont(e)]))
}

fn ret(e: Expr) -> Stmt {
    Stmt::Return(Some(Box::new(e)))
}

fn decl_const(name: &str, init: Expr) -> Stmt {
    Stmt::Decl(
        DeclKind::Const,
        vec![Declarator { name: name.to_string(), init: Some(Box::new(init)) }],
    )
}

fn prog(body: Vec<Stmt>) -> Program {
    Program { body }
}

fn run(p: Program) -> Program {
    process_transform(p, Config {})
}

fn condition_elem(test: Expr, children: Vec<Child>) -> Elem {
    el(tag("Condition"), vec![attr_if(test)], children)
}

fn case_if(test: Expr, children: Vec<Child>) -> Child {
    Child::Elem(el(case_name(), vec![attr_if(test)], children))
}

fn case_else(children: Vec<Child>) -> Child {
    Child::Elem(el(case_name(), vec![attr_flag("else")], children))
}

// ---- the three context shapes ---------------------------------------------

#[test]
fn conditional_as_return_operand_uses_raw_guard() {
    // `<Condition if={show}><p>hi</p></Condition>` as a return operand: no
    // boolean coercion, no placeholder once unwrapped; the children keep
    // their grouping fragment.
    let input = prog(vec![ret(Expr::Elem(Box::new(condition_elem(
        ident("show"),
        vec![cel("p", vec![text("hi")])],
    ))))]);
    let expected = prog(vec![ret(cond(
        ident("show"),
        Expr::Frag(vec![cel("p", vec![text("hi")])]),
        Expr::Null,
    ))]);
    assert_eq!(run(input), expected);
}

#[test]
fn conditional_as_template_child_coerces_and_wraps() {
    // The same directive as a template child of a `<div>`: coercion applied,
    // fragment-wrapped.
    let input = prog(vec![ret(eel(
        "div",
        vec![Child::Elem(condition_elem(ident("show"), vec![cel("p", vec![text("hi")])]))],
    ))]);
    let expected = prog(vec![ret(eel(
        "div",
        vec![wrapper(cond(
            boolean(ident("show")),
            Expr::Frag(vec![cel("p", vec![text("hi")])]),
            Expr::Null,
        ))],
    ))]);
    assert_eq!(run(input), expected);
}

#[test]
fn conditional_as_initializer_coerces_without_wrapper() {
    let input = prog(vec![decl_const(
        "x",
        Expr::Elem(Box::new(condition_elem(ident("show"), vec![cel("p", vec![text("hi")])]))),
    )]);
    let expected = prog(vec![decl_const(
        "x",
        cond(boolean(ident("show")), Expr::Frag(vec![cel("p", vec![text("hi")])]), Expr::Null),
    )]);
    assert_eq!(run(input), expected);
}

// ---- the switch scenario of the specification ------------------------------

#[test]
fn switch_short_circuit_with_else_as_return_operand() {
    // `<Switch shortCircuit><Switch.Case if={a}><X/></Switch.Case>
    //  <Switch.Case else><Y/></Switch.Case></Switch>` as a return operand.
    let input = prog(vec![ret(Expr::Elem(Box::new(el(
        tag("Switch"),
        vec![attr_flag("shortCircuit")],
        vec![
            case_if(ident("a"), vec![cel("X", vec![])]),
            case_else(vec![cel("Y", vec![])]),
        ],
    ))))]);
    let expected = prog(vec![ret(cond(ident("a"), eel("X", vec![]), eel("Y", vec![])))]);
    assert_eq!(run(input), expected);
}

// ---- no placeholder leakage ------------------------------------------------

fn marker_free_children(cs: &[Child]) -> bool {
    cs.iter().all(marker_free_child)
}

fn marker_free_child(c: &Child) -> bool {
    match c {
        Child::Elem(el) => marker_free_elem(el),
        Child::Frag(cs) => marker_free_children(cs),
        Child::Container(Some(e)) => marker_free_expr(e),
        Child::Container(None) => true,
        Child::Text(_) => true,
    }
}

fn marker_free_elem(el: &Elem) -> bool {
    let name_ok = match &el.name {
        ElemName::Tag(t) => t != "__CONDITION_PLACEHOLDER__" && t != "__SWITCH_PLACEHOLDER__",
        ElemName::Member(_, _) => true,
    };
    name_ok && marker_free_children(&el.children)
}

fn marker_free_expr(e: &Expr) -> bool {
    match e {
        Expr::Elem(el) => marker_free_elem(el),
        Expr::Frag(cs) => marker_free_children(cs),
        Expr::Cond(t, c, a) => {
            marker_free_expr(t) && marker_free_expr(c) && marker_free_expr(a)
        },
        Expr::Call(f, args) => marker_free_expr(f) && args.iter().all(marker_free_expr),
        Expr::Member(o, _) => marker_free_expr(o),
        Expr::Not(x) | Expr::Paren(x) => marker_free_expr(x),
        Expr::And(x, y) | Expr::Assign(x, y) => marker_free_expr(x) && marker_free_expr(y),
        Expr::Lambda(LambdaBody::Expr(b)) => marker_free_expr(b),
        Expr::Lambda(LambdaBody::Block(ss)) => ss.iter().all(marker_free_stmt),
        Expr::Opaque(_, subs) => subs.iter().all(marker_free_expr),
        _ => true,
    }
}

fn marker_free_stmt(s: &Stmt) -> bool {
    match s {
        Stmt::Return(Some(e)) => marker_free_expr(e),
        Stmt::Return(None) => true,
        Stmt::Decl(_, ds) => ds.iter().all(|d| match &d.init {
            Some(e) => marker_free_expr(e),
            None => true,
        }),
        Stmt::Expr(e) => marker_free_expr(e),
        Stmt::Func(_, body) | Stmt::Block(body) => body.iter().all(marker_free_stmt),
        Stmt::Opaque(_, es, ss) => {
            es.iter().all(marker_free_expr) && ss.iter().all(marker_free_stmt)
        },
    }
}

#[test]
fn no_placeholder_marker_in_output() {
    // Directives in all three contexts at once; the output holds no marker
    // tag anywhere.
    let input = prog(vec![Stmt::Func(
        "App".to_string(),
        vec![
            decl_const(
                "x",
                Expr::Elem(Box::new(condition_elem(ident("a"), vec![cel("p", vec![])]))),
            ),
            ret(eel(
                "div",
                vec![
                    Child::Elem(condition_elem(
                        ident("b"),
                        vec![Child::Elem(el(
                            tag("Switch"),
                            vec![attr_flag("shortCircuit")],
                            vec![
                                case_if(ident("c"), vec![cel("X", vec![])]),
                                case_else(vec![cel("Y", vec![])]),
                            ],
                        ))],
                    )),
                ],
            )),
        ],
    )]);
    let out = run(input);
    assert!(out.body.iter().all(marker_free_stmt));
}

// ---- branch order and guards ----------------------------------------------

#[test]
fn parallel_switch_preserves_order_and_negates_all_for_else() {
    let input = prog(vec![ret(eel(
        "main",
        vec![Child::Elem(el(
            tag("Switch"),
            vec![],
            vec![
                case_if(ident("a"), vec![cel("A", vec![])]),
                case_if(ident("b"), vec![cel("B", vec![])]),
                case_if(ident("c"), vec![cel("C", vec![])]),
                case_else(vec![cel("D", vec![])]),
            ],
        ))],
    ))]);
    let else_guard = Expr::And(
        Box::new(Expr::And(
            Box::new(Expr::Not(Box::new(ident("a")))),
            Box::new(Expr::Not(Box::new(ident("b")))),
        )),
        Box::new(Expr::Not(Box::new(ident("c")))),
    );
    let expected = prog(vec![ret(eel(
        "main",
        vec![Child::Elem(el(
            tag("React.Fragment"),
            vec![],
            vec![
                cont(cond(ident("a"), Expr::Frag(vec![cel("A", vec![])]), Expr::Null)),
                cont(cond(ident("b"), Expr::Frag(vec![cel("B", vec![])]), Expr::Null)),
                cont(cond(ident("c"), Expr::Frag(vec![cel("C", vec![])]), Expr::Null)),
                cont(cond(else_guard, Expr::Frag(vec![cel("D", vec![])]), Expr::Null)),
            ],
        ))],
    ))]);
    assert_eq!(run(input), expected);
}

#[test]
fn chain_keeps_source_order() {
    let input = prog(vec![ret(Expr::Elem(Box::new(el(
        tag("Switch"),
        vec![attr_flag("shortCircuit")],
        vec![
            case_if(ident("first"), vec![cel("A", vec![])]),
            case_if(ident("second"), vec![cel("B", vec![])]),
            case_if(ident("third"), vec![cel("C", vec![])]),
        ],
    ))))]);
    let expected = prog(vec![ret(cond(
        ident("first"),
        eel("A", vec![]),
        cond(ident("second"), eel("B", vec![]), cond(ident("third"), eel("C", vec![]), Expr::Null)),
    ))]);
    assert_eq!(run(input), expected);
}

// ---- single-child collapsing ----------------------------------------------

#[test]
fn whitespace_only_siblings_collapse_to_bare_element() {
    // Whitespace runs do not count, so the branch renders as the bare element.
    let input = prog(vec![ret(Expr::Elem(Box::new(el(
        tag("Switch"),
        vec![attr_flag("shortCircuit")],
        vec![case_if(
            ident("a"),
            vec![text("\n  "), cel("Only", vec![]), text("\n")],
        )],
    ))))]);
    let expected = prog(vec![ret(cond(ident("a"), eel("Only", vec![]), Expr::Null))]);
    assert_eq!(run(input), expected);
}

#[test]
fn two_real_children_keep_their_grouping() {
    // Two meaningful children: the grouping fragment stays, whitespace runs
    // and all.
    let input = prog(vec![ret(Expr::Elem(Box::new(el(
        tag("Switch"),
        vec![attr_flag("shortCircuit")],
        vec![case_if(
            ident("a"),
            vec![text("\n  "), cel("One", vec![]), cel("Two", vec![])],
        )],
    ))))]);
    let expected = prog(vec![ret(cond(
        ident("a"),
        Expr::Frag(vec![text("\n  "), cel("One", vec![]), cel("Two", vec![])]),
        Expr::Null,
    ))]);
    assert_eq!(run(input), expected);
}

#[test]
fn single_container_child_keeps_fragment() {
    let input = prog(vec![ret(Expr::Elem(Box::new(el(
        tag("Switch"),
        vec![attr_flag("shortCircuit")],
        vec![case_if(ident("a"), vec![cont(ident("value"))])],
    ))))]);
    let expected = prog(vec![ret(cond(
        ident("a"),
        Expr::Frag(vec![cont(ident("value"))]),
        Expr::Null,
    ))]);
    assert_eq!(run(input), expected);
}

// ---- inert and malformed directive usage ----------------------------------

#[test]
fn condition_without_if_attribute_is_inert() {
    let input = prog(vec![ret(eel(
        "div",
        vec![Child::Elem(el(tag("Condition"), vec![], vec![cel("p", vec![])]))],
    ))]);
    let expected = prog(vec![ret(eel(
        "div",
        vec![Child::Elem(el(tag("Condition"), vec![], vec![cel("p", vec![])]))],
    ))]);
    assert_eq!(run(input), expected);
}

#[test]
fn condition_with_bare_if_attribute_is_inert() {
    // `if` without an expression container does not arm the directive.
    let input = prog(vec![ret(eel(
        "div",
        vec![Child::Elem(el(tag("Condition"), vec![attr_flag("if")], vec![cel("p", vec![])]))],
    ))]);
    let expected = prog(vec![ret(eel(
        "div",
        vec![Child::Elem(el(tag("Condition"), vec![attr_flag("if")], vec![cel("p", vec![])]))],
    ))]);
    assert_eq!(run(input), expected);
}

#[test]
fn switch_with_attrless_case_renders_nothing() {
    // A recognized switch whose only case carries neither attribute: no
    // usable branch, an empty fragment-like element results.
    let input = prog(vec![ret(Expr::Elem(Box::new(el(
        tag("Switch"),
        vec![],
        vec![Child::Elem(el(case_name(), vec![], vec![cel("p", vec![])]))],
    ))))]);
    let expected = prog(vec![ret(eel("React.Fragment", vec![]))]);
    assert_eq!(run(input), expected);
}

#[test]
fn last_else_case_wins() {
    let input = prog(vec![ret(Expr::Elem(Box::new(el(
        tag("Switch"),
        vec![],
        vec![
            case_else(vec![cel("First", vec![])]),
            case_else(vec![cel("Second", vec![])]),
        ],
    ))))]);
    let expected = prog(vec![ret(eel("Second", vec![]))]);
    assert_eq!(run(input), expected);
}

#[test]
fn only_else_multi_child_keeps_wrapper() {
    let input = prog(vec![ret(eel(
        "div",
        vec![Child::Elem(el(
            tag("Switch"),
            vec![],
            vec![case_else(vec![cel("A", vec![]), cel("B", vec![])])],
        ))],
    ))]);
    let expected = prog(vec![ret(eel(
        "div",
        vec![Child::Elem(el(
            tag("React.Fragment"),
            vec![],
            vec![cel("A", vec![]), cel("B", vec![])],
        ))],
    ))]);
    assert_eq!(run(input), expected);
}

#[test]
fn directive_free_tree_is_unchanged() {
    let make = || {
        prog(vec![Stmt::Func(
            "App".to_string(),
            vec![
                Stmt::Expr(Box::new(Expr::Assign(
                    Box::new(ident("x")),
                    Box::new(Expr::Opaque(7, vec![ident("y")])),
                ))),
                Stmt::Block(vec![ret(eel(
                    "section",
                    vec![
                        text("hello"),
                        Child::Frag(vec![cel("em", vec![])]),
                        Child::Container(None),
                        cont(ident("value")),
                    ],
                ))]),
            ],
        )])
    };
    assert_eq!(run(make()), make());
}

#[test]
fn spread_attributes_pass_through() {
    let make_attrs = || {
        vec![
            AttrEntry::Spread(Box::new(ident("rest"))),
            attr_if(ident("go")),
        ]
    };
    let input = prog(vec![ret(eel(
        "div",
        vec![Child::Elem(el(tag("Condition"), make_attrs(), vec![cel("p", vec![])]))],
    ))]);
    // The spread is ignored by recognition; the `if` attribute still arms the
    // directive.
    let expected = prog(vec![ret(eel(
        "div",
        vec![wrapper(cond(
            boolean(ident("go")),
            Expr::Frag(vec![cel("p", vec![])]),
            Expr::Null,
        ))],
    ))]);
    assert_eq!(run(input), expected);
}

#[test]
fn first_arming_if_attribute_provides_the_condition() {
    let attrs = vec![
        AttrEntry::Attr(Attr { name: "if".to_string(), value: None }),
        attr_if(ident("real")),
        attr_if(ident("ignored")),
    ];
    let input = prog(vec![ret(eel(
        "div",
        vec![Child::Elem(el(tag("Condition"), attrs, vec![cel("p", vec![])]))],
    ))]);
    let expected = prog(vec![ret(eel(
        "div",
        vec![wrapper(cond(
            boolean(ident("real")),
            Expr::Frag(vec![cel("p", vec![])]),
            Expr::Null,
        ))],
    ))]);
    assert_eq!(run(input), expected);
}

#[test]
fn return_inside_lambda_block_gets_return_context() {
    // const f = () => { return <Condition .../> }: the inner return resets
    // the context from assignment to return.
    let input = prog(vec![decl_const(
        "f",
        Expr::Lambda(LambdaBody::Block(vec![ret(Expr::Elem(Box::new(condition_elem(
            ident("ok"),
            vec![cel("p", vec![])],
        ))))])),
    )]);
    let expected = prog(vec![decl_const(
        "f",
        Expr::Lambda(LambdaBody::Block(vec![ret(cond(
            ident("ok"),
            Expr::Frag(vec![cel("p", vec![])]),
            Expr::Null,
        ))])),
    )]);
    assert_eq!(run(input), expected);
}

#[test]
fn lambda_expression_body_inherits_context() {
    // const x = arr.map(item => <Switch>...</Switch>): the arrow body
    // inherits the assignment context, so the degenerate switch becomes a
    // bare ternary.
    let input = prog(vec![decl_const(
        "x",
        Expr::Call(
            Box::new(Expr::Member(Box::new(ident("arr")), "map".to_string())),
            vec![Expr::Lambda(LambdaBody::Expr(Box::new(Expr::Elem(Box::new(el(
                tag("Switch"),
                vec![],
                vec![case_if(ident("go"), vec![cel("li", vec![])])],
            ))))))],
        ),
    )]);
    let expected = prog(vec![decl_const(
        "x",
        Expr::Call(
            Box::new(Expr::Member(Box::new(ident("arr")), "map".to_string())),
            vec![Expr::Lambda(LambdaBody::Expr(Box::new(cond(
                ident("go"),
                eel("li", vec![]),
                Expr::Null,
            ))))],
        ),
    )]);
    assert_eq!(run(input), expected);
}

#[test]
fn primary_pass_introduces_marker_and_post_pass_removes_it() {
    // In a return slot the primary pass must package the conditional inside
    // a placeholder marker element, because the slot expects an element; the
    // post-processing pass strips it.
    let input = prog(vec![ret(Expr::Elem(Box::new(condition_elem(
        ident("go"),
        vec![cel("p", vec![])],
    ))))]);
    let halfway = rewrite(&input);
    let marker = eel(
        "__CONDITION_PLACEHOLDER__",
        vec![cont(cond(ident("go"), Expr::Frag(vec![cel("p", vec![])]), Expr::Null))],
    );
    assert_eq!(halfway, prog(vec![ret(marker)]));
    let done = post_process(&halfway);
    assert_eq!(
        done,
        prog(vec![ret(cond(ident("go"), Expr::Frag(vec![cel("p", vec![])]), Expr::Null))])
    );
}
