//! The post-processing pass: a depth-first traversal that strips every
//! placeholder marker down to the expression it carries, collapses a
//! single-element fragment in the consequent of a switch-produced ternary
//! chain, and re-parenthesizes the consequent of a conditional that stood
//! inside a parenthesized expression when it would not re-parse bare.
//!
//! The pass is specified by the `pp_*` spec functions; the executable
//! functions are proved to implement them exactly.

use vstd::prelude::*;

use crate::ast::{
    child_view, children_view, declarator_view, declarators_view, expr_view, exprs_view,
    lambda_body_view, lemma_children_view, lemma_declarators_view, lemma_exprs_view,
    lemma_stmts_view, stmt_view, stmts_view, Child, Declarator, Elem, Expr, LambdaBody, Program,
    SpecChild, SpecDeclarator, SpecElem, SpecExpr, SpecLambdaBody, SpecName, SpecProgram,
    SpecStmt, Stmt,
};
use crate::directives::{
    condition_marker_tag, name_is_tag, switch_marker_tag,
};
use crate::rewrite::{branch_body, make_branch_body};

verus! {

// ---------------------------------------------------------------------------
// Chain collapsing and parenthesization, as spec functions
// ---------------------------------------------------------------------------

/// Walk a ternary chain: wherever a consequent is a fragment with exactly one
/// meaningful element child, replace it by that bare element; recurse into
/// the alternative for the rest of the chain.
pub open spec fn unwrap_frags(e: SpecExpr) -> SpecExpr
    decreases e,
{
    match e {
        SpecExpr::Cond(t, c, a) => {
            let collapsed = match *c {
                SpecExpr::Frag(cs) => branch_body(cs),
                _ => *c,
            };
            SpecExpr::Cond(t, Box::new(collapsed), Box::new(unwrap_frags(*a)))
        },
        _ => e,
    }
}

/// A text run containing a line break.
pub open spec fn text_has_newline(s: Seq<char>) -> bool {
    exists|i: int| 0 <= i < s.len() && s[i] == '\n'
}

/// A consequent that would not re-parse bare inside an enclosing grouping: a
/// multi-child element, an element with a line break in a text child, or any
/// fragment.
pub open spec fn needs_parens(e: SpecExpr) -> bool {
    match e {
        SpecExpr::Elem(el) => el.children.len() > 1 || exists|i: int|
            0 <= i < el.children.len() && ((#[trigger] el.children[i]) matches SpecChild::Text(t)
                && text_has_newline(t)),
        SpecExpr::Frag(_) => true,
        _ => false,
    }
}

// ---------------------------------------------------------------------------
// The pass, as spec functions
// ---------------------------------------------------------------------------

/// Expression visitation: a well-formed placeholder marker is replaced by its
/// carried expression (itself post-processed; a switch marker's chain is
/// collapsed besides); a parenthesized conditional loses the outer grouping
/// and may gain one around its consequent; everything else recurses
/// structurally.
pub open spec fn pp_expr(e: SpecExpr) -> SpecExpr
    decreases e,
{
    match e {
        SpecExpr::Elem(el) => {
            if el.children.len() > 0 {
                match el.children[0] {
                    SpecChild::Container(Some(inner)) => {
                        if el.name == SpecName::Tag(condition_marker_tag()) {
                            pp_expr(*inner)
                        } else if el.name == SpecName::Tag(switch_marker_tag()) {
                            unwrap_frags(pp_expr(*inner))
                        } else {
                            SpecExpr::Elem(pp_elem(el))
                        }
                    },
                    _ => SpecExpr::Elem(pp_elem(el)),
                }
            } else {
                SpecExpr::Elem(pp_elem(el))
            }
        },
        SpecExpr::Frag(cs) => SpecExpr::Frag(pp_children(cs)),
        SpecExpr::Cond(t, c, a) => SpecExpr::Cond(
            Box::new(pp_expr(*t)),
            Box::new(pp_expr(*c)),
            Box::new(pp_expr(*a)),
        ),
        SpecExpr::Call(f, args) => SpecExpr::Call(Box::new(pp_expr(*f)), pp_exprs(args)),
        SpecExpr::Member(obj, prop) => SpecExpr::Member(Box::new(pp_expr(*obj)), prop),
        SpecExpr::Ident(_) => e,
        SpecExpr::Str(_) => e,
        SpecExpr::Bool(_) => e,
        SpecExpr::Null => e,
        SpecExpr::Not(x) => SpecExpr::Not(Box::new(pp_expr(*x))),
        SpecExpr::And(x, y) => SpecExpr::And(Box::new(pp_expr(*x)), Box::new(pp_expr(*y))),
        SpecExpr::Paren(x) => {
            let inner = pp_expr(*x);
            match inner {
                SpecExpr::Cond(t, c, a) => if needs_parens(*c) {
                    SpecExpr::Cond(t, Box::new(SpecExpr::Paren(c)), a)
                } else {
                    inner
                },
                _ => SpecExpr::Paren(Box::new(inner)),
            }
        },
        SpecExpr::Assign(l, r) => SpecExpr::Assign(Box::new(pp_expr(*l)), Box::new(pp_expr(*r))),
        SpecExpr::Lambda(SpecLambdaBody::Expr(b)) => SpecExpr::Lambda(
            SpecLambdaBody::Expr(Box::new(pp_expr(*b))),
        ),
        SpecExpr::Lambda(SpecLambdaBody::Block(ss)) => SpecExpr::Lambda(
            SpecLambdaBody::Block(pp_stmts(ss)),
        ),
        SpecExpr::Opaque(h, subs) => SpecExpr::Opaque(h, pp_exprs(subs)),
    }
}

/// Elements keep their name and attributes; only the children are visited.
pub open spec fn pp_elem(el: SpecElem) -> SpecElem
    decreases el,
{
    SpecElem { name: el.name, attrs: el.attrs, children: pp_children(el.children) }
}

pub open spec fn pp_child(c: SpecChild) -> SpecChild
    decreases c,
{
    match c {
        SpecChild::Elem(el) => SpecChild::Elem(pp_elem(el)),
        SpecChild::Frag(cs) => SpecChild::Frag(pp_children(cs)),
        SpecChild::Container(oe) => SpecChild::Container(
            match oe {
                Some(e) => Some(Box::new(pp_expr(*e))),
                None => None,
            },
        ),
        SpecChild::Text(_) => c,
    }
}

pub open spec fn pp_children(cs: Seq<SpecChild>) -> Seq<SpecChild>
    decreases cs,
{
    if cs.len() == 0 {
        Seq::empty()
    } else {
        seq![pp_child(cs[0])] + pp_children(cs.subrange(1, cs.len() as int))
    }
}

pub open spec fn pp_exprs(es: Seq<SpecExpr>) -> Seq<SpecExpr>
    decreases es,
{
    if es.len() == 0 {
        Seq::empty()
    } else {
        seq![pp_expr(es[0])] + pp_exprs(es.subrange(1, es.len() as int))
    }
}

pub open spec fn pp_declarator(d: SpecDeclarator) -> SpecDeclarator
    decreases d,
{
    SpecDeclarator {
        name: d.name,
        init: match d.init {
            Some(e) => Some(Box::new(pp_expr(*e))),
            None => None,
        },
    }
}

pub open spec fn pp_declarators(ds: Seq<SpecDeclarator>) -> Seq<SpecDeclarator>
    decreases ds,
{
    if ds.len() == 0 {
        Seq::empty()
    } else {
        seq![pp_declarator(ds[0])] + pp_declarators(ds.subrange(1, ds.len() as int))
    }
}

pub open spec fn pp_stmt(s: SpecStmt) -> SpecStmt
    decreases s,
{
    match s {
        SpecStmt::Return(oe) => SpecStmt::Return(
            match oe {
                Some(e) => Some(Box::new(pp_expr(*e))),
                None => None,
            },
        ),
        SpecStmt::Decl(k, ds) => SpecStmt::Decl(k, pp_declarators(ds)),
        SpecStmt::Expr(e) => SpecStmt::Expr(Box::new(pp_expr(*e))),
        SpecStmt::Func(name, body) => SpecStmt::Func(name, pp_stmts(body)),
        SpecStmt::Block(ss) => SpecStmt::Block(pp_stmts(ss)),
        SpecStmt::Opaque(h, es, ss) => SpecStmt::Opaque(h, pp_exprs(es), pp_stmts(ss)),
    }
}

pub open spec fn pp_stmts(ss: Seq<SpecStmt>) -> Seq<SpecStmt>
    decreases ss,
{
    if ss.len() == 0 {
        Seq::empty()
    } else {
        seq![pp_stmt(ss[0])] + pp_stmts(ss.subrange(1, ss.len() as int))
    }
}

/// The whole post-processing pass.
pub open spec fn pp_program(p: SpecProgram) -> SpecProgram {
    SpecProgram { body: pp_stmts(p.body) }
}

// ---------------------------------------------------------------------------
// Pointwise characterization of the sequence visits
// ---------------------------------------------------------------------------

pub broadcast proof fn lemma_pp_children(cs: Seq<SpecChild>)
    ensures
        (#[trigger] pp_children(cs)).len() == cs.len(),
        forall|i: int|
            #![trigger pp_children(cs)[i]]
            #![trigger pp_child(cs[i])]
            0 <= i < cs.len() ==> pp_children(cs)[i] == pp_child(cs[i]),
    decreases cs,
{
    if cs.len() > 0 {
        lemma_pp_children(cs.subrange(1, cs.len() as int));
        assert forall|i: int| 0 <= i < cs.len() implies pp_children(cs)[i] == pp_child(cs[i]) by {
            if i > 0 {
                assert(cs.subrange(1, cs.len() as int)[i - 1] == cs[i]);
            }
        }
    }
}

pub broadcast proof fn lemma_pp_exprs(es: Seq<SpecExpr>)
    ensures
        (#[trigger] pp_exprs(es)).len() == es.len(),
        forall|i: int|
            #![trigger pp_exprs(es)[i]]
            #![trigger pp_expr(es[i])]
            0 <= i < es.len() ==> pp_exprs(es)[i] == pp_expr(es[i]),
    decreases es,
{
    if es.len() > 0 {
        lemma_pp_exprs(es.subrange(1, es.len() as int));
        assert forall|i: int| 0 <= i < es.len() implies pp_exprs(es)[i] == pp_expr(es[i]) by {
            if i > 0 {
                assert(es.subrange(1, es.len() as int)[i - 1] == es[i]);
            }
        }
    }
}

pub broadcast proof fn lemma_pp_declarators(ds: Seq<SpecDeclarator>)
    ensures
        (#[trigger] pp_declarators(ds)).len() == ds.len(),
        forall|i: int|
            #![trigger pp_declarators(ds)[i]]
            #![trigger pp_declarator(ds[i])]
            0 <= i < ds.len() ==> pp_declarators(ds)[i] == pp_declarator(ds[i]),
    decreases ds,
{
    if ds.len() > 0 {
        lemma_pp_declarators(ds.subrange(1, ds.len() as int));
        assert forall|i: int| 0 <= i < ds.len() implies pp_declarators(ds)[i] == pp_declarator(
            ds[i],
        ) by {
            if i > 0 {
                assert(ds.subrange(1, ds.len() as int)[i - 1] == ds[i]);
            }
        }
    }
}

pub broadcast proof fn lemma_pp_stmts(ss: Seq<SpecStmt>)
    ensures
        (#[trigger] pp_stmts(ss)).len() == ss.len(),
        forall|i: int|
            #![trigger pp_stmts(ss)[i]]
            #![trigger pp_stmt(ss[i])]
            0 <= i < ss.len() ==> pp_stmts(ss)[i] == pp_stmt(ss[i]),
    decreases ss,
{
    if ss.len() > 0 {
        lemma_pp_stmts(ss.subrange(1, ss.len() as int));
        assert forall|i: int| 0 <= i < ss.len() implies pp_stmts(ss)[i] == pp_stmt(ss[i]) by {
            if i > 0 {
                assert(ss.subrange(1, ss.len() as int)[i - 1] == ss[i]);
            }
        }
    }
}

// ---------------------------------------------------------------------------
// The pass, executable
// ---------------------------------------------------------------------------

/// Whether an element's text child at this position holds a line break.
#[verifier::loop_isolation(false)]
fn text_child_has_newline(c: &Child) -> (r: bool)
    ensures
        r == (c@ matches SpecChild::Text(t) && text_has_newline(t)),
{
    match c {
        Child::Text(s) => {
            let st: &str = s.as_str();
            let n: usize = st.unicode_len();
            let mut i: usize = 0;
            while i < n
                invariant
                    n == st@.len(),
                    st@ == s@,
                    0 <= i <= n,
                    forall|j: int| 0 <= j < i ==> st@[j] != '\n',
                decreases n - i,
            {
                let ch = st.get_char(i);
                if ch == '\n' {
                    proof {
                        assert(s@[i as int] == '\n');
                    }
                    return true;
                }
                i += 1;
            }
            false
        },
        _ => false,
    }
}

/// Whether a conditional's consequent must be re-parenthesized.
#[verifier::loop_isolation(false)]
fn consequent_needs_parens(e: &Expr) -> (r: bool)
    ensures
        r == needs_parens(e@),
{
    proof {
        reveal_with_fuel(expr_view, 2);
    }
    match e {
        Expr::Elem(el) => {
            proof {
                lemma_children_view(el.children@);
            }
            if el.children.len() > 1 {
                return true;
            }
            let n = el.children.len();
            for i in 0..n
                invariant
                    n == el.children.len(),
                    forall|j: int|
                        0 <= j < i ==> !((#[trigger] children_view(el.children@)[j])
                            matches SpecChild::Text(t) && text_has_newline(t)),
            {
                if text_child_has_newline(&el.children[i]) {
                    proof {
                        assert(children_view(el.children@)[i as int] matches SpecChild::Text(t)
                            && text_has_newline(t));
                    }
                    return true;
                }
            }
            false
        },
        Expr::Frag(_) => true,
        _ => false,
    }
}

/// Walk a ternary chain collapsing single-element fragment consequents.
fn unwrap_chain(e: Expr) -> (r: Expr)
    ensures
        r@ == unwrap_frags(e@),
    decreases e,
{
    proof {
        reveal_with_fuel(expr_view, 2);
    }
    match e {
        Expr::Cond(t, c, a) => {
            let collapsed = match *c {
                Expr::Frag(cs) => make_branch_body(cs),
                other => other,
            };
            Expr::Cond(t, Box::new(collapsed), Box::new(unwrap_chain(*a)))
        },
        other => other,
    }
}

/// Expression visitation of the post-processing pass.
#[verifier::rlimit(100)]
pub fn post_expr(e: &Expr) -> (r: Expr)
    ensures
        r@ == pp_expr(e@),
    decreases e,
{
    proof {
        reveal_with_fuel(expr_view, 2);
        reveal_with_fuel(lambda_body_view, 2);
        reveal_strlit("__CONDITION_PLACEHOLDER__");
        reveal_strlit("__SWITCH_PLACEHOLDER__");
    }
    match e {
        Expr::Elem(el) => {
            proof {
                lemma_children_view(el.children@);
            }
            if el.children.len() > 0 {
                if let Child::Container(Some(inner)) = &el.children[0] {
                    if name_is_tag(&el.name, "__CONDITION_PLACEHOLDER__") {
                        return post_expr(inner);
                    }
                    if name_is_tag(&el.name, "__SWITCH_PLACEHOLDER__") {
                        let carried = post_expr(inner);
                        return unwrap_chain(carried);
                    }
                }
            }
            Expr::Elem(Box::new(post_elem(el)))
        },
        Expr::Frag(cs) => Expr::Frag(post_children(cs)),
        Expr::Cond(t, c, a) => Expr::Cond(
            Box::new(post_expr(t)),
            Box::new(post_expr(c)),
            Box::new(post_expr(a)),
        ),
        Expr::Call(f, args) => Expr::Call(Box::new(post_expr(f)), post_exprs(args)),
        Expr::Member(obj, prop) => Expr::Member(Box::new(post_expr(obj)), prop.clone()),
        Expr::Ident(s) => Expr::Ident(s.clone()),
        Expr::Str(s) => Expr::Str(s.clone()),
        Expr::Bool(b) => Expr::Bool(*b),
        Expr::Null => Expr::Null,
        Expr::Not(x) => Expr::Not(Box::new(post_expr(x))),
        Expr::And(x, y) => Expr::And(Box::new(post_expr(x)), Box::new(post_expr(y))),
        Expr::Paren(x) => {
            let inner = post_expr(x);
            match inner {
                Expr::Cond(t, c, a) => {
                    if consequent_needs_parens(&c) {
                        Expr::Cond(t, Box::new(Expr::Paren(c)), a)
                    } else {
                        Expr::Cond(t, c, a)
                    }
                },
                other => Expr::Paren(Box::new(other)),
            }
        },
        Expr::Assign(l, r2) => Expr::Assign(Box::new(post_expr(l)), Box::new(post_expr(r2))),
        Expr::Lambda(LambdaBody::Expr(b)) => Expr::Lambda(
            LambdaBody::Expr(Box::new(post_expr(b))),
        ),
        Expr::Lambda(LambdaBody::Block(ss)) => Expr::Lambda(LambdaBody::Block(post_stmts(ss))),
        Expr::Opaque(h, subs) => Expr::Opaque(*h, post_exprs(subs)),
    }
}

/// Element visitation: children only.
pub fn post_elem(el: &Elem) -> (r: Elem)
    ensures
        r@ == pp_elem(el@),
    decreases el,
{
    Elem {
        name: el.name.deep_clone(),
        attrs: crate::ast::clone_attrs(&el.attrs),
        children: post_children(&el.children),
    }
}

pub fn post_child(c: &Child) -> (r: Child)
    ensures
        r@ == pp_child(c@),
    decreases c,
{
    match c {
        Child::Elem(el) => Child::Elem(post_elem(el)),
        Child::Frag(cs) => Child::Frag(post_children(cs)),
        Child::Container(oe) => Child::Container(
            match oe {
                Some(e) => Some(Box::new(post_expr(e))),
                None => None,
            },
        ),
        Child::Text(s) => Child::Text(s.clone()),
    }
}

#[verifier::loop_isolation(false)]
pub fn post_children(cs: &Vec<Child>) -> (r: Vec<Child>)
    ensures
        children_view(r@) == pp_children(children_view(cs@)),
    decreases cs,
{
    let mut out: Vec<Child> = Vec::new();
    let n = cs.len();
    proof {
        lemma_children_view(cs@);
    }
    for i in 0..n
        invariant
            n == cs.len(),
            children_view(cs@).len() == n,
            out@.len() == i,
            forall|j: int|
                0 <= j < i ==> child_view(#[trigger] out@[j]) == pp_child(children_view(cs@)[j]),
    {
        let rc = post_child(&cs[i]);
        proof {
            assert(child_view(rc) == pp_child(children_view(cs@)[i as int]));
        }
        out.push(rc);
    }
    proof {
        lemma_children_view(out@);
        lemma_pp_children(children_view(cs@));
        assert(children_view(out@) =~= pp_children(children_view(cs@)));
    }
    out
}

#[verifier::loop_isolation(false)]
pub fn post_exprs(es: &Vec<Expr>) -> (r: Vec<Expr>)
    ensures
        exprs_view(r@) == pp_exprs(exprs_view(es@)),
    decreases es,
{
    let mut out: Vec<Expr> = Vec::new();
    let n = es.len();
    proof {
        lemma_exprs_view(es@);
    }
    for i in 0..n
        invariant
            n == es.len(),
            exprs_view(es@).len() == n,
            out@.len() == i,
            forall|j: int|
                0 <= j < i ==> expr_view(#[trigger] out@[j]) == pp_expr(exprs_view(es@)[j]),
    {
        let re = post_expr(&es[i]);
        proof {
            assert(expr_view(re) == pp_expr(exprs_view(es@)[i as int]));
        }
        out.push(re);
    }
    proof {
        lemma_exprs_view(out@);
        lemma_pp_exprs(exprs_view(es@));
        assert(exprs_view(out@) =~= pp_exprs(exprs_view(es@)));
    }
    out
}

pub fn post_declarator(d: &Declarator) -> (r: Declarator)
    ensures
        r@ == pp_declarator(d@),
    decreases d,
{
    Declarator {
        name: d.name.clone(),
        init: match &d.init {
            Some(e) => Some(Box::new(post_expr(e))),
            None => None,
        },
    }
}

#[verifier::loop_isolation(false)]
pub fn post_declarators(ds: &Vec<Declarator>) -> (r: Vec<Declarator>)
    ensures
        declarators_view(r@) == pp_declarators(declarators_view(ds@)),
    decreases ds,
{
    let mut out: Vec<Declarator> = Vec::new();
    let n = ds.len();
    proof {
        lemma_declarators_view(ds@);
    }
    for i in 0..n
        invariant
            n == ds.len(),
            declarators_view(ds@).len() == n,
            out@.len() == i,
            forall|j: int|
                0 <= j < i ==> declarator_view(#[trigger] out@[j]) == pp_declarator(
                    declarators_view(ds@)[j],
                ),
    {
        let rd = post_declarator(&ds[i]);
        proof {
            assert(declarator_view(rd) == pp_declarator(declarators_view(ds@)[i as int]));
        }
        out.push(rd);
    }
    proof {
        lemma_declarators_view(out@);
        lemma_pp_declarators(declarators_view(ds@));
        assert(declarators_view(out@) =~= pp_declarators(declarators_view(ds@)));
    }
    out
}

pub fn post_stmt(s: &Stmt) -> (r: Stmt)
    ensures
        r@ == pp_stmt(s@),
    decreases s,
{
    match s {
        Stmt::Return(oe) => Stmt::Return(
            match oe {
                Some(e) => Some(Box::new(post_expr(e))),
                None => None,
            },
        ),
        Stmt::Decl(k, ds) => Stmt::Decl(*k, post_declarators(ds)),
        Stmt::Expr(e) => Stmt::Expr(Box::new(post_expr(e))),
        Stmt::Func(name, body) => Stmt::Func(name.clone(), post_stmts(body)),
        Stmt::Block(ss) => Stmt::Block(post_stmts(ss)),
        Stmt::Opaque(h, es, ss) => Stmt::Opaque(*h, post_exprs(es), post_stmts(ss)),
    }
}

#[verifier::loop_isolation(false)]
pub fn post_stmts(ss: &Vec<Stmt>) -> (r: Vec<Stmt>)
    ensures
        stmts_view(r@) == pp_stmts(stmts_view(ss@)),
    decreases ss,
{
    let mut out: Vec<Stmt> = Vec::new();
    let n = ss.len();
    proof {
        lemma_stmts_view(ss@);
    }
    for i in 0..n
        invariant
            n == ss.len(),
            stmts_view(ss@).len() == n,
            out@.len() == i,
            forall|j: int|
                0 <= j < i ==> stmt_view(#[trigger] out@[j]) == pp_stmt(stmts_view(ss@)[j]),
    {
        let rs = post_stmt(&ss[i]);
        proof {
            assert(stmt_view(rs) == pp_stmt(stmts_view(ss@)[i as int]));
        }
        out.push(rs);
    }
    proof {
        lemma_stmts_view(out@);
        lemma_pp_stmts(stmts_view(ss@));
        assert(stmts_view(out@) =~= pp_stmts(stmts_view(ss@)));
    }
    out
}

/// The whole post-processing pass over a program.
pub fn post_process(p: &Program) -> (r: Program)
    ensures
        r@ == pp_program(p@),
{
    Program { body: post_stmts(&p.body) }
}

} // verus!
