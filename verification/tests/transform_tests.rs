//! The directive-rewriting scenarios, each built as a syntax tree and checked
//! against the exact tree the transform must produce.

use condition_transform::ast::{
    Attr, AttrEntry, AttrVal, Child, DeclKind, Declarator, Elem, ElemName, Expr, LambdaBody,
    Program, Stmt,
};
use condition_transform::driver::{process_transform, Config};

// ---- builders -------------------------------------------------------------

fn tag(name: &str) -> ElemName {
    ElemName::Tag(name.to_string())
}

fn case_name() -> ElemName {
    ElemName::Member("Switch".to_string(), "Case".to_string())
}

fn ident(s: &str) -> Expr {
    Expr::Ident(s.to_string())
}

fn member(obj: Expr, prop: &str) -> Expr {
    Expr::Member(Box::new(obj), prop.to_string())
}

fn call(f: Expr, args: Vec<Expr>) -> Expr {
    Expr::Call(Box::new(f), args)
}

fn lambda(body: Expr) -> Expr {
    Expr::Lambda(LambdaBody::Expr(Box::new(body)))
}

fn boolean(e: Expr) -> Expr {
    call(ident("Boolean"), vec![e])
}

fn cond(t: Expr, c: Expr, a: Expr) -> Expr {
    Expr::Cond(Box::new(t), Box::new(c), Box::new(a))
}

fn paren(e: Expr) -> Expr {
    Expr::Paren(Box::new(e))
}

fn attr_if(e: Expr) -> AttrEntry {
    AttrEntry::Attr(Attr { name: "if".to_string(), value: Some(AttrVal::Expr(Box::new(e))) })
}

fn attr_flag(name: &str) -> AttrEntry {
    AttrEntry::Attr(Attr { name: name.to_string(), value: None })
}

fn attr_expr(name: &str, e: Expr) -> AttrEntry {
    AttrEntry::Attr(Attr { name: name.to_string(), value: Some(AttrVal::Expr(Box::new(e))) })
}

fn attr_lit(name: &str, id: u64) -> AttrEntry {
    AttrEntry::Attr(Attr { name: name.to_string(), value: Some(AttrVal::Opaque(id)) })
}

fn el(name: ElemName, attrs: Vec<AttrEntry>, children: Vec<Child>) -> Elem {
    Elem { name, attrs, children }
}

fn cel(name: &str, children: Vec<Child>) -> Child {
    Child::Elem(el(tag(name), vec![], children))
}

fn eel(name: &str, children: Vec<Child>) -> Expr {
    Expr::Elem(Box::new(el(tag(name), vec![], children)))
}

fn text(s: &str) -> Child {
    Child::Text(s.to_string())
}

fn cont(e: Expr) -> Child {
    Child::Container(Some(Box::new(e)))
}

/// The fragment-like wrapper element the transform produces in a
/// template-child slot.
fn wrapper(e: Expr) -> Child {
    Child::Elem(el(tag("React.Fragment"), vec![], vec![cont(e)]))
}

fn ret(e: Expr) -> Stmt {
    Stmt::Return(Some(Box::new(e)))
}

fn decl(kind: DeclKind, name: &str, init: Expr) -> Stmt {
    Stmt::Decl(
        kind,
        vec![Declarator { name: name.to_string(), init: Some(Box::new(init)) }],
    )
}

fn app(body: Vec<Stmt>) -> Program {
    Program { body: vec![Stmt::Func("App".to_string(), body)] }
}

fn run(p: Program) -> Program {
    process_transform(p, Config {})
}

fn condition(test: Expr, children: Vec<Child>) -> Child {
    Child::Elem(el(tag("Condition"), vec![attr_if(test)], children))
}

fn switch(attrs: Vec<AttrEntry>, children: Vec<Child>) -> Elem {
    el(tag("Switch"), attrs, children)
}

fn case_if(test: Expr, children: Vec<Child>) -> Child {
    Child::Elem(el(case_name(), vec![attr_if(test)], children))
}

fn case_else(children: Vec<Child>) -> Child {
    Child::Elem(el(case_name(), vec![attr_flag("else")], children))
}

// ---- conditional scenarios ------------------------------------------------

#[test]
fn test_basic_jsx_condition() {
    let input = app(vec![ret(paren(eel(
        "div",
        vec![condition(ident("showMessage"), vec![cel("p", vec![text("Hello World")])])],
    )))]);
    let expected = app(vec![ret(paren(eel(
        "div",
        vec![wrapper(cond(
            boolean(ident("showMessage")),
            Expr::Frag(vec![cel("p", vec![text("Hello World")])]),
            Expr::Null,
        ))],
    )))]);
    assert_eq!(run(input), expected);
}

#[test]
fn test_return_condition() {
    let input = app(vec![ret(Expr::Elem(Box::new(el(
        tag("Condition"),
        vec![attr_if(ident("condition"))],
        vec![cel("div", vec![text("Return context")])],
    ))))]);
    let expected = app(vec![ret(cond(
        ident("condition"),
        Expr::Frag(vec![cel("div", vec![text("Return context")])]),
        Expr::Null,
    ))]);
    assert_eq!(run(input), expected);
}

#[test]
fn test_assignment_condition() {
    let input = app(vec![
        decl(
            DeclKind::Const,
            "element",
            Expr::Elem(Box::new(el(
                tag("Condition"),
                vec![attr_if(ident("condition"))],
                vec![cel("span", vec![text("Expression context")])],
            ))),
        ),
        ret(ident("element")),
    ]);
    let expected = app(vec![
        decl(
            DeclKind::Const,
            "element",
            cond(
                boolean(ident("condition")),
                Expr::Frag(vec![cel("span", vec![text("Expression context")])]),
                Expr::Null,
            ),
        ),
        ret(ident("element")),
    ]);
    assert_eq!(run(input), expected);
}

#[test]
fn test_complex_condition_expression() {
    let test_expr = Expr::And(Box::new(ident("user")), Box::new(ident("isLoggedIn")));
    let body = vec![cel(
        "p",
        vec![text("Welcome "), cont(member(ident("user"), "name"))],
    )];
    let input = app(vec![ret(paren(eel(
        "div",
        vec![condition(test_expr.clone_for_test(), body.clone_for_test())],
    )))]);
    let expected = app(vec![ret(paren(eel(
        "div",
        vec![wrapper(cond(boolean(test_expr), Expr::Frag(body), Expr::Null))],
    )))]);
    assert_eq!(run(input), expected);
}

#[test]
fn test_function_call_condition() {
    let test_expr = Expr::Opaque(10, vec![member(ident("items"), "length")]);
    let body = vec![cel(
        "ul",
        vec![cont(call(
            member(ident("items"), "map"),
            vec![lambda(Expr::Elem(Box::new(el(
                tag("li"),
                vec![attr_expr("key", member(ident("item"), "id"))],
                vec![cont(member(ident("item"), "name"))],
            ))))],
        ))],
    )];
    let input = app(vec![ret(paren(eel(
        "div",
        vec![condition(test_expr.clone_for_test(), body.clone_for_test())],
    )))]);
    let expected = app(vec![ret(paren(eel(
        "div",
        vec![wrapper(cond(boolean(test_expr), Expr::Frag(body), Expr::Null))],
    )))]);
    assert_eq!(run(input), expected);
}

#[test]
fn test_nested_conditions() {
    // Directives nested inside another directive's children are rewritten
    // independently.
    let input = app(vec![ret(paren(eel(
        "div",
        vec![condition(
            ident("showOuter"),
            vec![cel(
                "div",
                vec![
                    cel("p", vec![text("Outer content")]),
                    condition(ident("showInner"), vec![cel("p", vec![text("Inner content")])]),
                ],
            )],
        )],
    )))]);
    let expected = app(vec![ret(paren(eel(
        "div",
        vec![wrapper(cond(
            boolean(ident("showOuter")),
            Expr::Frag(vec![cel(
                "div",
                vec![
                    cel("p", vec![text("Outer content")]),
                    wrapper(cond(
                        boolean(ident("showInner")),
                        Expr::Frag(vec![cel("p", vec![text("Inner content")])]),
                        Expr::Null,
                    )),
                ],
            )]),
            Expr::Null,
        ))],
    )))]);
    assert_eq!(run(input), expected);
}

#[test]
fn test_multiple_parallel_conditions() {
    let input = app(vec![ret(paren(eel(
        "div",
        vec![
            condition(ident("showFirst"), vec![cel("p", vec![text("First condition")])]),
            condition(ident("showSecond"), vec![cel("p", vec![text("Second condition")])]),
        ],
    )))]);
    let expected = app(vec![ret(paren(eel(
        "div",
        vec![
            wrapper(cond(
                boolean(ident("showFirst")),
                Expr::Frag(vec![cel("p", vec![text("First condition")])]),
                Expr::Null,
            )),
            wrapper(cond(
                boolean(ident("showSecond")),
                Expr::Frag(vec![cel("p", vec![text("Second condition")])]),
                Expr::Null,
            )),
        ],
    )))]);
    assert_eq!(run(input), expected);
}

#[test]
fn test_let_assignment() {
    let input = app(vec![
        decl(
            DeclKind::Let,
            "element",
            Expr::Elem(Box::new(el(
                tag("Condition"),
                vec![attr_if(ident("show"))],
                vec![cel("span", vec![text("Let assignment")])],
            ))),
        ),
        ret(ident("element")),
    ]);
    let expected = app(vec![
        decl(
            DeclKind::Let,
            "element",
            cond(
                boolean(ident("show")),
                Expr::Frag(vec![cel("span", vec![text("Let assignment")])]),
                Expr::Null,
            ),
        ),
        ret(ident("element")),
    ]);
    assert_eq!(run(input), expected);
}

#[test]
fn test_var_assignment() {
    let input = app(vec![
        decl(
            DeclKind::Var,
            "element",
            Expr::Elem(Box::new(el(
                tag("Condition"),
                vec![attr_if(ident("show"))],
                vec![cel("span", vec![text("Var assignment")])],
            ))),
        ),
        ret(ident("element")),
    ]);
    let expected = app(vec![
        decl(
            DeclKind::Var,
            "element",
            cond(
                boolean(ident("show")),
                Expr::Frag(vec![cel("span", vec![text("Var assignment")])]),
                Expr::Null,
            ),
        ),
        ret(ident("element")),
    ]);
    assert_eq!(run(input), expected);
}

#[test]
fn test_empty_condition() {
    let input = app(vec![ret(paren(eel(
        "div",
        vec![condition(ident("condition"), vec![])],
    )))]);
    let expected = app(vec![ret(paren(eel(
        "div",
        vec![wrapper(cond(boolean(ident("condition")), Expr::Frag(vec![]), Expr::Null))],
    )))]);
    assert_eq!(run(input), expected);
}

#[test]
fn test_single_line_condition() {
    let input = app(vec![ret(paren(eel(
        "div",
        vec![condition(ident("show"), vec![cel("span", vec![text("Single line")])])],
    )))]);
    let expected = app(vec![ret(paren(eel(
        "div",
        vec![wrapper(cond(
            boolean(ident("show")),
            Expr::Frag(vec![cel("span", vec![text("Single line")])]),
            Expr::Null,
        ))],
    )))]);
    assert_eq!(run(input), expected);
}

#[test]
fn test_complex_nested_structure() {
    let inner_most = condition(
        member(ident("user"), "verified"),
        vec![Child::Elem(el(
            tag("span"),
            vec![attr_lit("className", 1)],
            vec![text("\u{2713} Verified")],
        ))],
    );
    let middle = condition(
        member(ident("settings"), "showProfile"),
        vec![cel(
            "div",
            vec![
                Child::Elem(el(
                    tag("img"),
                    vec![attr_expr("src", member(ident("user"), "avatar")), attr_lit("alt", 2)],
                    vec![],
                )),
                inner_most,
            ],
        )],
    );
    let outer = condition(
        ident("user"),
        vec![cel(
            "header",
            vec![
                cel("h1", vec![text("Welcome "), cont(member(ident("user"), "name"))]),
                middle,
            ],
        )],
    );
    let input = app(vec![ret(paren(eel("div", vec![outer])))]);

    let inner_most_out = wrapper(cond(
        boolean(member(ident("user"), "verified")),
        Expr::Frag(vec![Child::Elem(el(
            tag("span"),
            vec![attr_lit("className", 1)],
            vec![text("\u{2713} Verified")],
        ))]),
        Expr::Null,
    ));
    let middle_out = wrapper(cond(
        boolean(member(ident("settings"), "showProfile")),
        Expr::Frag(vec![cel(
            "div",
            vec![
                Child::Elem(el(
                    tag("img"),
                    vec![attr_expr("src", member(ident("user"), "avatar")), attr_lit("alt", 2)],
                    vec![],
                )),
                inner_most_out,
            ],
        )]),
        Expr::Null,
    ));
    let outer_out = wrapper(cond(
        boolean(ident("user")),
        Expr::Frag(vec![cel(
            "header",
            vec![
                cel("h1", vec![text("Welcome "), cont(member(ident("user"), "name"))]),
                middle_out,
            ],
        )]),
        Expr::Null,
    ));
    let expected = app(vec![ret(paren(eel("div", vec![outer_out])))]);
    assert_eq!(run(input), expected);
}

#[test]
fn test_no_condition_tags() {
    let input = app(vec![ret(paren(eel(
        "div",
        vec![
            cel("h1", vec![text("Hello World")]),
            cel("p", vec![cont(ident("message"))]),
        ],
    )))]);
    let expected = app(vec![ret(paren(eel(
        "div",
        vec![
            cel("h1", vec![text("Hello World")]),
            cel("p", vec![cont(ident("message"))]),
        ],
    )))]);
    assert_eq!(run(input), expected);
}

// ---- switch scenarios -----------------------------------------------------

#[test]
fn test_switch_nested_in_jsx_structure() {
    // The switch nested inside the case's children is rewritten too.
    let inner = Child::Elem(switch(
        vec![],
        vec![case_if(Expr::Bool(true), vec![cel("p", vec![text("Deeply nested")])])],
    ));
    let input = app(vec![ret(paren(eel(
        "div",
        vec![
            cel("header", vec![text("Header")]),
            Child::Elem(switch(
                vec![],
                vec![case_if(
                    ident("condition"),
                    vec![cel("div", vec![cel("span", vec![text("Nested content")]), inner])],
                )],
            )),
        ],
    )))]);
    let inner_out = Child::Elem(el(
        tag("React.Fragment"),
        vec![],
        vec![cont(cond(
            Expr::Bool(true),
            Expr::Frag(vec![cel("p", vec![text("Deeply nested")])]),
            Expr::Null,
        ))],
    ));
    let expected = app(vec![ret(paren(eel(
        "div",
        vec![
            cel("header", vec![text("Header")]),
            Child::Elem(el(
                tag("React.Fragment"),
                vec![],
                vec![cont(cond(
                    ident("condition"),
                    Expr::Frag(vec![cel(
                        "div",
                        vec![cel("span", vec![text("Nested content")]), inner_out],
                    )]),
                    Expr::Null,
                ))],
            )),
        ],
    )))]);
    assert_eq!(run(input), expected);
}

#[test]
fn test_switch_with_condition_mixed() {
    // The conditional nested inside the first case is rewritten too.
    let input = app(vec![ret(paren(Expr::Elem(Box::new(switch(
        vec![],
        vec![
            case_if(
                ident("admin"),
                vec![condition(
                    member(ident("user"), "permissions"),
                    vec![cel("AdminPanel", vec![])],
                )],
            ),
            case_if(ident("user"), vec![cel("UserPanel", vec![])]),
        ],
    )))))]);
    let case1_out = wrapper(cond(
        boolean(member(ident("user"), "permissions")),
        Expr::Frag(vec![cel("AdminPanel", vec![])]),
        Expr::Null,
    ));
    let expected = app(vec![ret(paren(eel(
        "React.Fragment",
        vec![
            cont(cond(ident("admin"), Expr::Frag(vec![case1_out]), Expr::Null)),
            cont(cond(ident("user"), Expr::Frag(vec![cel("UserPanel", vec![])]), Expr::Null)),
        ],
    )))]);
    assert_eq!(run(input), expected);
}

#[test]
fn test_switch_case_with_function_expressions() {
    let c1 = call(
        member(ident("items"), "some"),
        vec![lambda(member(ident("item"), "active"))],
    );
    let c2 = call(
        member(ident("items"), "every"),
        vec![lambda(Expr::Not(Box::new(member(ident("item"), "active"))))],
    );
    let input = app(vec![ret(paren(Expr::Elem(Box::new(switch(
        vec![attr_flag("shortCircuit")],
        vec![
            case_if(c1.clone_for_test(), vec![cel("div", vec![text("Has active items")])]),
            case_if(c2.clone_for_test(), vec![cel("div", vec![text("No active items")])]),
        ],
    )))))]);
    let expected = app(vec![ret(cond(
        c1,
        eel("div", vec![text("Has active items")]),
        cond(c2, eel("div", vec![text("No active items")]), Expr::Null),
    ))]);
    assert_eq!(run(input), expected);
}

#[test]
fn test_switch_in_array_map() {
    let badge = |name: &str| {
        el(tag(name), vec![attr_expr("user", ident("user"))], vec![])
    };
    // The switch is the parenthesized body of the arrow handed to map, inside
    // an expression container: a template-child slot, so parallel mode.
    let input = app(vec![ret(paren(eel(
        "div",
        vec![cont(call(
            member(ident("users"), "map"),
            vec![lambda(paren(Expr::Elem(Box::new(el(
                tag("Switch"),
                vec![attr_expr("key", member(ident("user"), "id"))],
                vec![
                    case_if(member(ident("user"), "isAdmin"), vec![Child::Elem(badge("AdminBadge"))]),
                    case_if(
                        member(ident("user"), "isPremium"),
                        vec![Child::Elem(badge("PremiumBadge"))],
                    ),
                ],
            )))))],
        ))],
    )))]);
    let expected_switch = paren(eel(
        "React.Fragment",
        vec![
            cont(cond(
                member(ident("user"), "isAdmin"),
                Expr::Frag(vec![Child::Elem(badge("AdminBadge"))]),
                Expr::Null,
            )),
            cont(cond(
                member(ident("user"), "isPremium"),
                Expr::Frag(vec![Child::Elem(badge("PremiumBadge"))]),
                Expr::Null,
            )),
        ],
    ));
    let expected = app(vec![ret(paren(eel(
        "div",
        vec![cont(call(
            member(ident("users"), "map"),
            vec![lambda(expected_switch)],
        ))],
    )))]);
    assert_eq!(run(input), expected);
}

#[test]
fn test_switch_case_with_complex_ternary_conditions() {
    let c1 = cond(Expr::Opaque(20, vec![ident("status")]), Expr::Opaque(21, vec![ident("priority")]), Expr::Opaque(22, vec![ident("priority")]));
    let c2 = Expr::Opaque(23, vec![ident("status")]);
    let input = app(vec![ret(paren(Expr::Elem(Box::new(switch(
        vec![],
        vec![
            case_if(c1.clone_for_test(), vec![cel("HighPriorityAlert", vec![])]),
            case_if(c2.clone_for_test(), vec![cel("NormalAlert", vec![])]),
        ],
    )))))]);
    let expected = app(vec![ret(paren(eel(
        "React.Fragment",
        vec![
            cont(cond(c1, Expr::Frag(vec![cel("HighPriorityAlert", vec![])]), Expr::Null)),
            cont(cond(c2, Expr::Frag(vec![cel("NormalAlert", vec![])]), Expr::Null)),
        ],
    )))]);
    assert_eq!(run(input), expected);
}

#[test]
fn test_switch_with_empty_case() {
    // A case holding only whitespace: nothing meaningful, so the branch keeps
    // its raw grouping, and the consequent is re-parenthesized.
    let input = app(vec![ret(paren(Expr::Elem(Box::new(switch(
        vec![],
        vec![case_if(ident("show"), vec![text("\n      ")])],
    )))))]);
    let expected = app(vec![ret(cond(
        ident("show"),
        paren(Expr::Frag(vec![text("\n      ")])),
        Expr::Null,
    ))]);
    assert_eq!(run(input), expected);
}

#[test]
fn test_switch_multiple_cases_with_complex_jsx() {
    let c1 = Expr::And(
        Box::new(Expr::Opaque(30, vec![ident("role")])),
        Box::new(call(member(ident("permissions"), "includes"), vec![Expr::Str("write".to_string())])),
    );
    let c2 = Expr::And(Box::new(Expr::Opaque(31, vec![ident("role")])), Box::new(ident("isActive")));
    let c3 = Expr::Not(Box::new(ident("isActive")));
    let div1 = el(
        tag("div"),
        vec![attr_lit("className", 40)],
        vec![cel("h2", vec![text("Admin Panel")]), cel("button", vec![text("Manage Users")])],
    );
    let div2 = el(
        tag("div"),
        vec![attr_lit("className", 41)],
        vec![
            cel("p", vec![text("Welcome User")]),
            cont(call(member(ident("permissions"), "map"), vec![lambda(ident("perm"))])),
        ],
    );
    let div3 = el(
        tag("div"),
        vec![attr_lit("className", 42)],
        vec![text("Account Inactive")],
    );
    let input = app(vec![ret(paren(Expr::Elem(Box::new(switch(
        vec![attr_flag("shortCircuit")],
        vec![
            case_if(c1.clone_for_test(), vec![Child::Elem(div1.clone_for_test())]),
            case_if(c2.clone_for_test(), vec![Child::Elem(div2.clone_for_test())]),
            case_if(c3.clone_for_test(), vec![Child::Elem(div3.clone_for_test())]),
        ],
    )))))]);
    // Only the topmost consequent sits directly under the dropped outer
    // parentheses, so only it is re-wrapped.
    let expected = app(vec![ret(cond(
        c1,
        paren(Expr::Elem(Box::new(div1))),
        cond(c2, Expr::Elem(Box::new(div2)), cond(c3, Expr::Elem(Box::new(div3)), Expr::Null)),
    ))]);
    assert_eq!(run(input), expected);
}

#[test]
fn test_switch_with_else_short_circuit() {
    let input = app(vec![ret(paren(Expr::Elem(Box::new(switch(
        vec![attr_flag("shortCircuit")],
        vec![
            case_if(ident("condition"), vec![cel("div", vec![text("If case")])]),
            case_else(vec![cel("div", vec![text("Else case")])]),
        ],
    )))))]);
    let expected = app(vec![ret(cond(
        ident("condition"),
        eel("div", vec![text("If case")]),
        eel("div", vec![text("Else case")]),
    ))]);
    assert_eq!(run(input), expected);
}

#[test]
fn test_switch_with_else_non_short_circuit() {
    let input = app(vec![ret(paren(Expr::Elem(Box::new(switch(
        vec![],
        vec![
            case_if(ident("condition1"), vec![cel("div", vec![text("Case 1")])]),
            case_if(ident("condition2"), vec![cel("div", vec![text("Case 2")])]),
            case_else(vec![cel("div", vec![text("Else case")])]),
        ],
    )))))]);
    let else_guard = Expr::And(
        Box::new(Expr::Not(Box::new(ident("condition1")))),
        Box::new(Expr::Not(Box::new(ident("condition2")))),
    );
    let expected = app(vec![ret(paren(eel(
        "React.Fragment",
        vec![
            cont(cond(ident("condition1"), Expr::Frag(vec![cel("div", vec![text("Case 1")])]), Expr::Null)),
            cont(cond(ident("condition2"), Expr::Frag(vec![cel("div", vec![text("Case 2")])]), Expr::Null)),
            cont(cond(else_guard, Expr::Frag(vec![cel("div", vec![text("Else case")])]), Expr::Null)),
        ],
    )))]);
    assert_eq!(run(input), expected);
}

#[test]
fn test_switch_multiple_cases_with_else_short_circuit() {
    let input = app(vec![ret(paren(Expr::Elem(Box::new(switch(
        vec![attr_flag("shortCircuit")],
        vec![
            case_if(ident("admin"), vec![cel("AdminPanel", vec![])]),
            case_if(ident("user"), vec![cel("UserPanel", vec![])]),
            case_if(ident("guest"), vec![cel("GuestPanel", vec![])]),
            case_else(vec![cel("DefaultPanel", vec![])]),
        ],
    )))))]);
    let expected = app(vec![ret(cond(
        ident("admin"),
        eel("AdminPanel", vec![]),
        cond(
            ident("user"),
            eel("UserPanel", vec![]),
            cond(ident("guest"), eel("GuestPanel", vec![]), eel("DefaultPanel", vec![])),
        ),
    ))]);
    assert_eq!(run(input), expected);
}

#[test]
fn test_switch_only_else_case() {
    let input = Program {
        body: vec![Stmt::Func(
            "App".to_string(),
            vec![ret(paren(Expr::Elem(Box::new(switch(
                vec![],
                vec![case_else(vec![cel("div", vec![text("Only else")])])],
            )))))],
        )],
    };
    // The hoisted element is not a conditional, so the outer grouping stays.
    let expected = Program {
        body: vec![Stmt::Func(
            "App".to_string(),
            vec![ret(paren(eel("div", vec![text("Only else")])))],
        )],
    };
    assert_eq!(run(input), expected);
}

#[test]
fn test_switch_assignment_with_else() {
    let input = app(vec![
        decl(
            DeclKind::Const,
            "element",
            Expr::Elem(Box::new(switch(
                vec![attr_flag("shortCircuit")],
                vec![
                    case_if(ident("condition"), vec![cel("span", vec![text("Conditional")])]),
                    case_else(vec![cel("span", vec![text("Default")])]),
                ],
            ))),
        ),
        ret(ident("element")),
    ]);
    let expected = app(vec![
        decl(
            DeclKind::Const,
            "element",
            cond(
                ident("condition"),
                eel("span", vec![text("Conditional")]),
                eel("span", vec![text("Default")]),
            ),
        ),
        ret(ident("element")),
    ]);
    assert_eq!(run(input), expected);
}

#[test]
fn test_switch_else_with_complex_jsx() {
    let div1 = el(
        tag("div"),
        vec![],
        vec![cel("h1", vec![text("Welcome")]), cel("p", vec![text("You are logged in")])],
    );
    let div2 = el(
        tag("div"),
        vec![],
        vec![cel("h1", vec![text("Please Login")]), cel("button", vec![text("Login")])],
    );
    let input = app(vec![ret(paren(Expr::Elem(Box::new(switch(
        vec![attr_flag("shortCircuit")],
        vec![
            case_if(ident("isLoggedIn"), vec![Child::Elem(div1.clone_for_test())]),
            case_else(vec![Child::Elem(div2.clone_for_test())]),
        ],
    )))))]);
    let expected = app(vec![ret(cond(
        ident("isLoggedIn"),
        paren(Expr::Elem(Box::new(div1))),
        Expr::Elem(Box::new(div2)),
    ))]);
    assert_eq!(run(input), expected);
}

#[test]
fn test_switch_single_if_with_else_non_short_circuit() {
    // An else case disables the degenerate short-circuit rule: parallel mode.
    let input = app(vec![ret(paren(Expr::Elem(Box::new(switch(
        vec![],
        vec![
            case_if(ident("condition"), vec![cel("div", vec![text("If case")])]),
            case_else(vec![cel("div", vec![text("Else case")])]),
        ],
    )))))]);
    let expected = app(vec![ret(paren(eel(
        "React.Fragment",
        vec![
            cont(cond(ident("condition"), Expr::Frag(vec![cel("div", vec![text("If case")])]), Expr::Null)),
            cont(cond(
                Expr::Not(Box::new(ident("condition"))),
                Expr::Frag(vec![cel("div", vec![text("Else case")])]),
                Expr::Null,
            )),
        ],
    )))]);
    assert_eq!(run(input), expected);
}

#[test]
fn test_switch_non_short_circuit_multiple_cases() {
    let input = app(vec![ret(paren(Expr::Elem(Box::new(switch(
        vec![],
        vec![
            case_if(
                ident("condition1"),
                vec![cel("p", vec![text("Case 1")]), cel("p", vec![text("Case 2")])],
            ),
            case_if(ident("condition2"), vec![cel("p", vec![text("Case 2")])]),
        ],
    )))))]);
    let expected = app(vec![ret(paren(eel(
        "React.Fragment",
        vec![
            cont(cond(
                ident("condition1"),
                Expr::Frag(vec![cel("p", vec![text("Case 1")]), cel("p", vec![text("Case 2")])]),
                Expr::Null,
            )),
            cont(cond(
                ident("condition2"),
                Expr::Frag(vec![cel("p", vec![text("Case 2")])]),
                Expr::Null,
            )),
        ],
    )))]);
    assert_eq!(run(input), expected);
}

#[test]
fn test_switch_short_circuit_simple() {
    let input = app(vec![ret(paren(Expr::Elem(Box::new(switch(
        vec![attr_flag("shortCircuit")],
        vec![
            case_if(ident("condition1"), vec![cel("p", vec![text("Case 1")])]),
            case_if(ident("condition2"), vec![cel("p", vec![text("Case 2")])]),
        ],
    )))))]);
    let expected = app(vec![ret(cond(
        ident("condition1"),
        eel("p", vec![text("Case 1")]),
        cond(ident("condition2"), eel("p", vec![text("Case 2")]), Expr::Null),
    ))]);
    assert_eq!(run(input), expected);
}

#[test]
fn test_switch_short_circuit_complex() {
    // The whitespace runs around the list keep the consequent multi-child, so
    // it is re-parenthesized.
    let ul = el(
        tag("ul"),
        vec![],
        vec![
            text("\n          "),
            cont(call(
                member(ident("items"), "map"),
                vec![lambda(Expr::Elem(Box::new(el(
                    tag("li"),
                    vec![attr_expr("key", member(ident("item"), "id"))],
                    vec![cont(member(ident("item"), "name"))],
                ))))],
            )),
            text("\n        "),
        ],
    );
    let c1 = Expr::Opaque(50, vec![member(ident("items"), "length")]);
    let c2 = Expr::Opaque(51, vec![member(ident("items"), "length")]);
    let input = app(vec![ret(paren(Expr::Elem(Box::new(switch(
        vec![attr_flag("shortCircuit")],
        vec![
            case_if(c1.clone_for_test(), vec![Child::Elem(ul.clone_for_test())]),
            case_if(c2.clone_for_test(), vec![cel("p", vec![text("No items found")])]),
        ],
    )))))]);
    let expected = app(vec![ret(cond(
        c1,
        paren(Expr::Elem(Box::new(ul))),
        cond(c2, eel("p", vec![text("No items found")]), Expr::Null),
    ))]);
    assert_eq!(run(input), expected);
}

#[test]
fn test_switch_short_circuit_multiple_conditions() {
    let c1 = Expr::Opaque(60, vec![ident("priority")]);
    let mk = |cls: u64, label: &str| {
        Expr::Elem(Box::new(el(tag("div"), vec![attr_lit("className", cls)], vec![text(label)])))
    };
    let input = app(vec![ret(paren(Expr::Elem(Box::new(switch(
        vec![attr_flag("shortCircuit")],
        vec![
            case_if(
                c1.clone_for_test(),
                vec![Child::Elem(el(
                    tag("div"),
                    vec![attr_lit("className", 61)],
                    vec![text("High Priority")],
                ))],
            ),
            case_if(
                ident("user"),
                vec![Child::Elem(el(
                    tag("div"),
                    vec![attr_lit("className", 62)],
                    vec![text("User Content")],
                ))],
            ),
            case_if(
                ident("guest"),
                vec![Child::Elem(el(
                    tag("div"),
                    vec![attr_lit("className", 63)],
                    vec![text("Guest Content")],
                ))],
            ),
        ],
    )))))]);
    let expected = app(vec![ret(cond(
        c1,
        mk(61, "High Priority"),
        cond(
            ident("user"),
            mk(62, "User Content"),
            cond(ident("guest"), mk(63, "Guest Content"), Expr::Null),
        ),
    ))]);
    assert_eq!(run(input), expected);
}

#[test]
fn test_switch_normal_content_no_transform() {
    let input = app(vec![ret(paren(Expr::Elem(Box::new(switch(
        vec![],
        vec![
            cel("p", vec![text("This is normal Switch content")]),
            cel("span", vec![text("Another element")]),
        ],
    )))))]);
    let expected = app(vec![ret(paren(Expr::Elem(Box::new(switch(
        vec![],
        vec![
            cel("p", vec![text("This is normal Switch content")]),
            cel("span", vec![text("Another element")]),
        ],
    )))))]);
    assert_eq!(run(input), expected);
}

#[test]
fn test_switch_empty_no_transform() {
    let input = app(vec![ret(Expr::Elem(Box::new(switch(vec![], vec![]))))]);
    let expected = app(vec![ret(Expr::Elem(Box::new(switch(vec![], vec![]))))]);
    assert_eq!(run(input), expected);
}

#[test]
fn test_switch_return_context() {
    let input = app(vec![ret(paren(Expr::Elem(Box::new(switch(
        vec![],
        vec![case_if(ident("location"), vec![cel("div", vec![text("case 1")])])],
    )))))]);
    let expected = app(vec![ret(cond(
        ident("location"),
        eel("div", vec![text("case 1")]),
        Expr::Null,
    ))]);
    assert_eq!(run(input), expected);
}

#[test]
fn test_switch_assignment_context() {
    let input = app(vec![
        decl(
            DeclKind::Const,
            "element",
            Expr::Elem(Box::new(switch(
                vec![attr_flag("shortCircuit")],
                vec![case_if(ident("condition"), vec![cel("span", vec![text("Assignment context")])])],
            ))),
        ),
        ret(ident("element")),
    ]);
    let expected = app(vec![
        decl(
            DeclKind::Const,
            "element",
            cond(ident("condition"), eel("span", vec![text("Assignment context")]), Expr::Null),
        ),
        ret(ident("element")),
    ]);
    assert_eq!(run(input), expected);
}

#[test]
fn test_switch_assignment_context_with_map() {
    // A single container child is not an element, so the branch keeps its
    // grouping fragment.
    let map_call = call(
        member(ident("items"), "map"),
        vec![lambda(Expr::Elem(Box::new(el(
            tag("li"),
            vec![attr_expr("key", member(ident("item"), "id"))],
            vec![cont(member(ident("item"), "name"))],
        ))))],
    );
    let input = app(vec![
        decl(
            DeclKind::Const,
            "element",
            Expr::Elem(Box::new(switch(
                vec![],
                vec![case_if(ident("condition"), vec![cont(map_call.clone_for_test())])],
            ))),
        ),
        ret(ident("element")),
    ]);
    let expected = app(vec![
        decl(
            DeclKind::Const,
            "element",
            cond(ident("condition"), Expr::Frag(vec![cont(map_call)]), Expr::Null),
        ),
        ret(ident("element")),
    ]);
    assert_eq!(run(input), expected);
}

// ---- a clone helper for test data ----------------------------------------

trait CloneForTest {
    fn clone_for_test(&self) -> Self;
}

impl CloneForTest for Expr {
    fn clone_for_test(&self) -> Expr {
        self.deep_clone()
    }
}

impl CloneForTest for Elem {
    fn clone_for_test(&self) -> Elem {
        self.deep_clone()
    }
}

impl CloneForTest for Child {
    fn clone_for_test(&self) -> Child {
        self.deep_clone()
    }
}

impl CloneForTest for Vec<Child> {
    fn clone_for_test(&self) -> Vec<Child> {
        self.iter().map(|c| c.deep_clone()).collect()
    }
}
