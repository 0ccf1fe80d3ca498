//! Laws of the transform that relate several functions: the order of the
//! generated branches, the single-child collapsing rule, and the guarantee
//! that a tree using no directive is passed through untouched by both passes.

use vstd::prelude::*;

use crate::ast::{
    Ctx, SpecChild, SpecDeclarator, SpecElem, SpecExpr, SpecLambdaBody, SpecName,
    SpecProgram, SpecStmt,
};
use crate::directives::{condition_tag, meaningful_of, switch_tag};
use crate::driver::transformed;
use crate::post::{
    pp_children, pp_declarator, pp_declarators, pp_elem, pp_expr, pp_exprs, pp_program, pp_stmt,
    pp_stmts, unwrap_frags,
};
use crate::rewrite::{
    branch_body, chain, chain_guard, parallel_child, parallel_children, parallel_else_child,
    rw_child, rw_children, rw_declarator, rw_declarators, rw_elem, rw_expr, rw_exprs, rw_program,
    rw_stmt, rw_stmts, SpecBranch,
};

verus! {

// ---------------------------------------------------------------------------
// Branch order preservation
// ---------------------------------------------------------------------------

/// Peel `k` alternatives off a ternary chain.
pub open spec fn chain_peel(e: SpecExpr, k: nat) -> SpecExpr
    decreases k,
{
    if k == 0 {
        e
    } else if e is Cond {
        chain_peel(*e->Cond_2, (k - 1) as nat)
    } else {
        e
    }
}

/// A short-circuit switch preserves source order exactly: after peeling `i`
/// alternatives off the generated chain, what remains is the conditional
/// testing branch `i`'s guard, rendering branch `i`'s body, and falling
/// through to the chain over the branches after `i`.
pub proof fn lemma_branch_order_chain(branches: Seq<SpecBranch>, tail: SpecExpr, ctx: Ctx, i: int)
    requires
        0 <= i < branches.len(),
    ensures
        chain_peel(chain(branches, tail, ctx), i as nat) == SpecExpr::Cond(
            Box::new(chain_guard(branches[i].cond, ctx)),
            Box::new(branch_body(branches[i].children)),
            Box::new(chain(branches.subrange(i + 1, branches.len() as int), tail, ctx)),
        ),
    decreases i,
{
    let rest = branches.subrange(1, branches.len() as int);
    if i == 0 {
        assert(chain_peel(chain(branches, tail, ctx), 0) == chain(branches, tail, ctx));
    } else {
        lemma_branch_order_chain(rest, tail, ctx, i - 1);
        assert(rest[i - 1] == branches[i]);
        assert(rest.subrange(i, rest.len() as int) =~= branches.subrange(
            i + 1,
            branches.len() as int,
        ));
        assert(chain(branches, tail, ctx)->Cond_2 == Box::new(chain(rest, tail, ctx)));
        reveal_with_fuel(chain_peel, 2);
    }
}

/// A parallel switch preserves source order exactly: child `i` of the
/// generated fragment is branch `i`'s guarded container, and the guarded else
/// content, when present, comes last.
pub proof fn lemma_branch_order_parallel(branches: Seq<SpecBranch>, els: Option<Seq<SpecChild>>)
    ensures
        parallel_children(branches, els).len() == branches.len() + if els is Some {
            1int
        } else {
            0
        },
        forall|i: int|
            0 <= i < branches.len() ==> #[trigger] parallel_children(branches, els)[i]
                == parallel_child(branches[i]),
        els matches Some(cs) ==> parallel_children(branches, els)[branches.len() as int]
            == parallel_else_child(branches, cs),
{
}

// ---------------------------------------------------------------------------
// Single-child collapsing
// ---------------------------------------------------------------------------

/// A branch with exactly one meaningful element child renders as that bare
/// element; any other branch keeps its grouping fragment (with its whitespace
/// runs intact).
pub proof fn lemma_single_child_collapse(children: Seq<SpecChild>)
    ensures
        (meaningful_of(children).len() == 1 && meaningful_of(children)[0] is Elem) ==> branch_body(
            children,
        ) == SpecExpr::Elem(meaningful_of(children)[0]->Elem_0),
        !(meaningful_of(children).len() == 1 && meaningful_of(children)[0] is Elem) ==> branch_body(
            children,
        ) == SpecExpr::Frag(children),
{
}

/// The post-processing walk applies the same collapse to the consequent of a
/// switch-produced conditional and continues down the chain's alternative.
pub proof fn lemma_unwrap_collapses(t: SpecExpr, cs: Seq<SpecChild>, a: SpecExpr)
    ensures
        unwrap_frags(
            SpecExpr::Cond(Box::new(t), Box::new(SpecExpr::Frag(cs)), Box::new(a)),
        ) == SpecExpr::Cond(Box::new(t), Box::new(branch_body(cs)), Box::new(unwrap_frags(a))),
{
    reveal_with_fuel(unwrap_frags, 2);
}

// ---------------------------------------------------------------------------
// Trees free of directives
// ---------------------------------------------------------------------------

/// An element name that is neither directive tag.
pub open spec fn dir_free_name(n: SpecName) -> bool {
    n != SpecName::Tag(condition_tag()) && n != SpecName::Tag(switch_tag())
}

/// No element of the tree carries a directive tag.  Attribute values are not
/// constrained: neither pass ever looks inside an attribute list except on an
/// element it replaces.
pub open spec fn dir_free_elem(el: SpecElem) -> bool
    decreases el,
{
    dir_free_name(el.name) && dir_free_children(el.children)
}

pub open spec fn dir_free_children(cs: Seq<SpecChild>) -> bool
    decreases cs,
{
    forall|i: int| 0 <= i < cs.len() ==> dir_free_child(#[trigger] cs[i])
}

pub open spec fn dir_free_child(c: SpecChild) -> bool
    decreases c,
{
    match c {
        SpecChild::Elem(el) => dir_free_elem(el),
        SpecChild::Frag(cs) => dir_free_children(cs),
        SpecChild::Container(oe) => match oe {
            Some(e) => dir_free_expr(*e),
            None => true,
        },
        SpecChild::Text(_) => true,
    }
}

pub open spec fn dir_free_expr(e: SpecExpr) -> bool
    decreases e,
{
    match e {
        SpecExpr::Elem(el) => dir_free_elem(el),
        SpecExpr::Frag(cs) => dir_free_children(cs),
        SpecExpr::Cond(t, c, a) => dir_free_expr(*t) && dir_free_expr(*c) && dir_free_expr(*a),
        SpecExpr::Call(f, args) => dir_free_expr(*f) && dir_free_exprs(args),
        SpecExpr::Member(obj, _) => dir_free_expr(*obj),
        SpecExpr::Ident(_) => true,
        SpecExpr::Str(_) => true,
        SpecExpr::Bool(_) => true,
        SpecExpr::Null => true,
        SpecExpr::Not(x) => dir_free_expr(*x),
        SpecExpr::And(x, y) => dir_free_expr(*x) && dir_free_expr(*y),
        SpecExpr::Paren(x) => dir_free_expr(*x),
        SpecExpr::Assign(l, r) => dir_free_expr(*l) && dir_free_expr(*r),
        SpecExpr::Lambda(SpecLambdaBody::Expr(b)) => dir_free_expr(*b),
        SpecExpr::Lambda(SpecLambdaBody::Block(ss)) => dir_free_stmts(ss),
        SpecExpr::Opaque(_, subs) => dir_free_exprs(subs),
    }
}

pub open spec fn dir_free_exprs(es: Seq<SpecExpr>) -> bool
    decreases es,
{
    forall|i: int| 0 <= i < es.len() ==> dir_free_expr(#[trigger] es[i])
}

pub open spec fn dir_free_declarator(d: SpecDeclarator) -> bool
    decreases d,
{
    match d.init {
        Some(e) => dir_free_expr(*e),
        None => true,
    }
}

pub open spec fn dir_free_declarators(ds: Seq<SpecDeclarator>) -> bool
    decreases ds,
{
    forall|i: int| 0 <= i < ds.len() ==> dir_free_declarator(#[trigger] ds[i])
}

pub open spec fn dir_free_stmt(s: SpecStmt) -> bool
    decreases s,
{
    match s {
        SpecStmt::Return(oe) => match oe {
            Some(e) => dir_free_expr(*e),
            None => true,
        },
        SpecStmt::Decl(_, ds) => dir_free_declarators(ds),
        SpecStmt::Expr(e) => dir_free_expr(*e),
        SpecStmt::Func(_, body) => dir_free_stmts(body),
        SpecStmt::Block(ss) => dir_free_stmts(ss),
        SpecStmt::Opaque(_, es, ss) => dir_free_exprs(es) && dir_free_stmts(ss),
    }
}

pub open spec fn dir_free_stmts(ss: Seq<SpecStmt>) -> bool
    decreases ss,
{
    forall|i: int| 0 <= i < ss.len() ==> dir_free_stmt(#[trigger] ss[i])
}

pub open spec fn dir_free_program(p: SpecProgram) -> bool {
    dir_free_stmts(p.body)
}

// ---------------------------------------------------------------------------
// The primary pass is the identity on directive-free trees
// ---------------------------------------------------------------------------

pub proof fn lemma_rw_elem_id(el: SpecElem, ctx: Ctx)
    requires
        dir_free_elem(el),
    ensures
        rw_elem(el, ctx) == el,
    decreases el,
{
    lemma_rw_children_id(el.children);
    assert(rw_elem(el, ctx) =~= el);
}

pub proof fn lemma_rw_child_id(c: SpecChild)
    requires
        dir_free_child(c),
    ensures
        rw_child(c) == c,
    decreases c,
{
    match c {
        SpecChild::Elem(el) => lemma_rw_elem_id(el, Ctx::TemplateChild),
        SpecChild::Frag(cs) => lemma_rw_children_id(cs),
        SpecChild::Container(oe) => match oe {
            Some(e) => lemma_rw_expr_id(*e, Ctx::TemplateChild),
            None => {},
        },
        SpecChild::Text(_) => {},
    }
}

pub proof fn lemma_rw_children_id(cs: Seq<SpecChild>)
    requires
        dir_free_children(cs),
    ensures
        rw_children(cs) == cs,
    decreases cs,
{
    if cs.len() > 0 {
        let tail = cs.subrange(1, cs.len() as int);
        lemma_rw_child_id(cs[0]);
        assert(forall|i: int| 0 <= i < tail.len() ==> #[trigger] tail[i] == cs[i + 1]);
        lemma_rw_children_id(tail);
        assert(rw_children(cs) =~= cs);
    } else {
        assert(rw_children(cs) =~= cs);
    }
}

pub proof fn lemma_rw_expr_id(e: SpecExpr, ctx: Ctx)
    requires
        dir_free_expr(e),
    ensures
        rw_expr(e, ctx) == e,
    decreases e,
{
    match e {
        SpecExpr::Elem(el) => lemma_rw_elem_id(el, ctx),
        SpecExpr::Frag(cs) => lemma_rw_children_id(cs),
        SpecExpr::Cond(t, c, a) => {
            lemma_rw_expr_id(*t, ctx);
            lemma_rw_expr_id(*c, ctx);
            lemma_rw_expr_id(*a, ctx);
        },
        SpecExpr::Call(f, args) => {
            lemma_rw_expr_id(*f, ctx);
            lemma_rw_exprs_id(args, ctx);
        },
        SpecExpr::Member(obj, _) => lemma_rw_expr_id(*obj, ctx),
        SpecExpr::Ident(_) => {},
        SpecExpr::Str(_) => {},
        SpecExpr::Bool(_) => {},
        SpecExpr::Null => {},
        SpecExpr::Not(x) => lemma_rw_expr_id(*x, ctx),
        SpecExpr::And(x, y) => {
            lemma_rw_expr_id(*x, ctx);
            lemma_rw_expr_id(*y, ctx);
        },
        SpecExpr::Paren(x) => lemma_rw_expr_id(*x, ctx),
        SpecExpr::Assign(_, r) => lemma_rw_expr_id(*r, Ctx::Assignment),
        SpecExpr::Lambda(SpecLambdaBody::Expr(b)) => lemma_rw_expr_id(*b, ctx),
        SpecExpr::Lambda(SpecLambdaBody::Block(ss)) => lemma_rw_stmts_id(ss, ctx),
        SpecExpr::Opaque(_, subs) => lemma_rw_exprs_id(subs, ctx),
    }
}

pub proof fn lemma_rw_exprs_id(es: Seq<SpecExpr>, ctx: Ctx)
    requires
        dir_free_exprs(es),
    ensures
        rw_exprs(es, ctx) == es,
    decreases es,
{
    if es.len() > 0 {
        let tail = es.subrange(1, es.len() as int);
        lemma_rw_expr_id(es[0], ctx);
        assert(forall|i: int| 0 <= i < tail.len() ==> #[trigger] tail[i] == es[i + 1]);
        lemma_rw_exprs_id(tail, ctx);
        assert(rw_exprs(es, ctx) =~= es);
    } else {
        assert(rw_exprs(es, ctx) =~= es);
    }
}

pub proof fn lemma_rw_declarator_id(d: SpecDeclarator)
    requires
        dir_free_declarator(d),
    ensures
        rw_declarator(d) == d,
    decreases d,
{
    match d.init {
        Some(e) => {
            lemma_rw_expr_id(*e, Ctx::Assignment);
            assert(rw_declarator(d) =~= d);
        },
        None => {
            assert(rw_declarator(d) =~= d);
        },
    }
}

pub proof fn lemma_rw_declarators_id(ds: Seq<SpecDeclarator>)
    requires
        dir_free_declarators(ds),
    ensures
        rw_declarators(ds) == ds,
    decreases ds,
{
    if ds.len() > 0 {
        let tail = ds.subrange(1, ds.len() as int);
        lemma_rw_declarator_id(ds[0]);
        assert(forall|i: int| 0 <= i < tail.len() ==> #[trigger] tail[i] == ds[i + 1]);
        lemma_rw_declarators_id(tail);
        assert(rw_declarators(ds) =~= ds);
    } else {
        assert(rw_declarators(ds) =~= ds);
    }
}

pub proof fn lemma_rw_stmt_id(s: SpecStmt, ctx: Ctx)
    requires
        dir_free_stmt(s),
    ensures
        rw_stmt(s, ctx) == s,
    decreases s,
{
    match s {
        SpecStmt::Return(oe) => match oe {
            Some(e) => lemma_rw_expr_id(*e, Ctx::Return),
            None => {},
        },
        SpecStmt::Decl(_, ds) => lemma_rw_declarators_id(ds),
        SpecStmt::Expr(e) => lemma_rw_expr_id(*e, ctx),
        SpecStmt::Func(_, body) => lemma_rw_stmts_id(body, ctx),
        SpecStmt::Block(ss) => lemma_rw_stmts_id(ss, ctx),
        SpecStmt::Opaque(_, es, ss) => {
            lemma_rw_exprs_id(es, ctx);
            lemma_rw_stmts_id(ss, ctx);
        },
    }
}

pub proof fn lemma_rw_stmts_id(ss: Seq<SpecStmt>, ctx: Ctx)
    requires
        dir_free_stmts(ss),
    ensures
        rw_stmts(ss, ctx) == ss,
    decreases ss,
{
    if ss.len() > 0 {
        let tail = ss.subrange(1, ss.len() as int);
        lemma_rw_stmt_id(ss[0], ctx);
        assert(forall|i: int| 0 <= i < tail.len() ==> #[trigger] tail[i] == ss[i + 1]);
        lemma_rw_stmts_id(tail, ctx);
        assert(rw_stmts(ss, ctx) =~= ss);
    } else {
        assert(rw_stmts(ss, ctx) =~= ss);
    }
}

/// The primary pass returns a tree containing neither directive tag
/// unchanged.
pub proof fn lemma_rewrite_no_directives(p: SpecProgram)
    requires
        dir_free_program(p),
    ensures
        rw_program(p) == p,
{
    lemma_rw_stmts_id(p.body, Ctx::TemplateChild);
}

// ---------------------------------------------------------------------------
// Trees the post-processing pass leaves alone
// ---------------------------------------------------------------------------

/// A placeholder marker tag.
pub open spec fn marker_name(n: SpecName) -> bool {
    n == SpecName::Tag(crate::directives::condition_marker_tag()) || n == SpecName::Tag(
        crate::directives::switch_marker_tag(),
    )
}

/// No element carries a marker tag and no parenthesized expression
/// immediately wraps a conditional (the two patterns the post-processing pass
/// rewrites).  Attribute values are again unconstrained.
pub open spec fn settled_elem(el: SpecElem) -> bool
    decreases el,
{
    !marker_name(el.name) && settled_children(el.children)
}

pub open spec fn settled_children(cs: Seq<SpecChild>) -> bool
    decreases cs,
{
    forall|i: int| 0 <= i < cs.len() ==> settled_child(#[trigger] cs[i])
}

pub open spec fn settled_child(c: SpecChild) -> bool
    decreases c,
{
    match c {
        SpecChild::Elem(el) => settled_elem(el),
        SpecChild::Frag(cs) => settled_children(cs),
        SpecChild::Container(oe) => match oe {
            Some(e) => settled_expr(*e),
            None => true,
        },
        SpecChild::Text(_) => true,
    }
}

pub open spec fn settled_expr(e: SpecExpr) -> bool
    decreases e,
{
    match e {
        SpecExpr::Elem(el) => settled_elem(el),
        SpecExpr::Frag(cs) => settled_children(cs),
        SpecExpr::Cond(t, c, a) => settled_expr(*t) && settled_expr(*c) && settled_expr(*a),
        SpecExpr::Call(f, args) => settled_expr(*f) && settled_exprs(args),
        SpecExpr::Member(obj, _) => settled_expr(*obj),
        SpecExpr::Ident(_) => true,
        SpecExpr::Str(_) => true,
        SpecExpr::Bool(_) => true,
        SpecExpr::Null => true,
        SpecExpr::Not(x) => settled_expr(*x),
        SpecExpr::And(x, y) => settled_expr(*x) && settled_expr(*y),
        SpecExpr::Paren(x) => !(*x is Cond) && settled_expr(*x),
        SpecExpr::Assign(l, r) => settled_expr(*l) && settled_expr(*r),
        SpecExpr::Lambda(SpecLambdaBody::Expr(b)) => settled_expr(*b),
        SpecExpr::Lambda(SpecLambdaBody::Block(ss)) => settled_stmts(ss),
        SpecExpr::Opaque(_, subs) => settled_exprs(subs),
    }
}

pub open spec fn settled_exprs(es: Seq<SpecExpr>) -> bool
    decreases es,
{
    forall|i: int| 0 <= i < es.len() ==> settled_expr(#[trigger] es[i])
}

pub open spec fn settled_declarator(d: SpecDeclarator) -> bool
    decreases d,
{
    match d.init {
        Some(e) => settled_expr(*e),
        None => true,
    }
}

pub open spec fn settled_declarators(ds: Seq<SpecDeclarator>) -> bool
    decreases ds,
{
    forall|i: int| 0 <= i < ds.len() ==> settled_declarator(#[trigger] ds[i])
}

pub open spec fn settled_stmt(s: SpecStmt) -> bool
    decreases s,
{
    match s {
        SpecStmt::Return(oe) => match oe {
            Some(e) => settled_expr(*e),
            None => true,
        },
        SpecStmt::Decl(_, ds) => settled_declarators(ds),
        SpecStmt::Expr(e) => settled_expr(*e),
        SpecStmt::Func(_, body) => settled_stmts(body),
        SpecStmt::Block(ss) => settled_stmts(ss),
        SpecStmt::Opaque(_, es, ss) => settled_exprs(es) && settled_stmts(ss),
    }
}

pub open spec fn settled_stmts(ss: Seq<SpecStmt>) -> bool
    decreases ss,
{
    forall|i: int| 0 <= i < ss.len() ==> settled_stmt(#[trigger] ss[i])
}

pub open spec fn settled_program(p: SpecProgram) -> bool {
    settled_stmts(p.body)
}

// ---------------------------------------------------------------------------
// The post-processing pass is the identity on settled trees
// ---------------------------------------------------------------------------

pub proof fn lemma_pp_elem_id(el: SpecElem)
    requires
        settled_elem(el),
    ensures
        pp_elem(el) == el,
    decreases el,
{
    lemma_pp_children_id(el.children);
    assert(pp_elem(el) =~= el);
}

pub proof fn lemma_pp_child_id(c: SpecChild)
    requires
        settled_child(c),
    ensures
        crate::post::pp_child(c) == c,
    decreases c,
{
    match c {
        SpecChild::Elem(el) => lemma_pp_elem_id(el),
        SpecChild::Frag(cs) => lemma_pp_children_id(cs),
        SpecChild::Container(oe) => match oe {
            Some(e) => lemma_pp_expr_id(*e),
            None => {},
        },
        SpecChild::Text(_) => {},
    }
}

pub proof fn lemma_pp_children_id(cs: Seq<SpecChild>)
    requires
        settled_children(cs),
    ensures
        pp_children(cs) == cs,
    decreases cs,
{
    if cs.len() > 0 {
        let tail = cs.subrange(1, cs.len() as int);
        lemma_pp_child_id(cs[0]);
        assert(forall|i: int| 0 <= i < tail.len() ==> #[trigger] tail[i] == cs[i + 1]);
        lemma_pp_children_id(tail);
        assert(pp_children(cs) =~= cs);
    } else {
        assert(pp_children(cs) =~= cs);
    }
}

pub proof fn lemma_pp_expr_id(e: SpecExpr)
    requires
        settled_expr(e),
    ensures
        pp_expr(e) == e,
    decreases e,
{
    match e {
        SpecExpr::Elem(el) => {
            lemma_pp_elem_id(el);
        },
        SpecExpr::Frag(cs) => lemma_pp_children_id(cs),
        SpecExpr::Cond(t, c, a) => {
            lemma_pp_expr_id(*t);
            lemma_pp_expr_id(*c);
            lemma_pp_expr_id(*a);
        },
        SpecExpr::Call(f, args) => {
            lemma_pp_expr_id(*f);
            lemma_pp_exprs_id(args);
        },
        SpecExpr::Member(obj, _) => lemma_pp_expr_id(*obj),
        SpecExpr::Ident(_) => {},
        SpecExpr::Str(_) => {},
        SpecExpr::Bool(_) => {},
        SpecExpr::Null => {},
        SpecExpr::Not(x) => lemma_pp_expr_id(*x),
        SpecExpr::And(x, y) => {
            lemma_pp_expr_id(*x);
            lemma_pp_expr_id(*y);
        },
        SpecExpr::Paren(x) => lemma_pp_expr_id(*x),
        SpecExpr::Assign(l, r) => {
            lemma_pp_expr_id(*l);
            lemma_pp_expr_id(*r);
        },
        SpecExpr::Lambda(SpecLambdaBody::Expr(b)) => lemma_pp_expr_id(*b),
        SpecExpr::Lambda(SpecLambdaBody::Block(ss)) => lemma_pp_stmts_id(ss),
        SpecExpr::Opaque(_, subs) => lemma_pp_exprs_id(subs),
    }
}

pub proof fn lemma_pp_exprs_id(es: Seq<SpecExpr>)
    requires
        settled_exprs(es),
    ensures
        pp_exprs(es) == es,
    decreases es,
{
    if es.len() > 0 {
        let tail = es.subrange(1, es.len() as int);
        lemma_pp_expr_id(es[0]);
        assert(forall|i: int| 0 <= i < tail.len() ==> #[trigger] tail[i] == es[i + 1]);
        lemma_pp_exprs_id(tail);
        assert(pp_exprs(es) =~= es);
    } else {
        assert(pp_exprs(es) =~= es);
    }
}

pub proof fn lemma_pp_declarator_id(d: SpecDeclarator)
    requires
        settled_declarator(d),
    ensures
        pp_declarator(d) == d,
    decreases d,
{
    match d.init {
        Some(e) => {
            lemma_pp_expr_id(*e);
            assert(pp_declarator(d) =~= d);
        },
        None => {
            assert(pp_declarator(d) =~= d);
        },
    }
}

pub proof fn lemma_pp_declarators_id(ds: Seq<SpecDeclarator>)
    requires
        settled_declarators(ds),
    ensures
        pp_declarators(ds) == ds,
    decreases ds,
{
    if ds.len() > 0 {
        let tail = ds.subrange(1, ds.len() as int);
        lemma_pp_declarator_id(ds[0]);
        assert(forall|i: int| 0 <= i < tail.len() ==> #[trigger] tail[i] == ds[i + 1]);
        lemma_pp_declarators_id(tail);
        assert(pp_declarators(ds) =~= ds);
    } else {
        assert(pp_declarators(ds) =~= ds);
    }
}

pub proof fn lemma_pp_stmt_id(s: SpecStmt)
    requires
        settled_stmt(s),
    ensures
        pp_stmt(s) == s,
    decreases s,
{
    match s {
        SpecStmt::Return(oe) => match oe {
            Some(e) => lemma_pp_expr_id(*e),
            None => {},
        },
        SpecStmt::Decl(_, ds) => lemma_pp_declarators_id(ds),
        SpecStmt::Expr(e) => lemma_pp_expr_id(*e),
        SpecStmt::Func(_, body) => lemma_pp_stmts_id(body),
        SpecStmt::Block(ss) => lemma_pp_stmts_id(ss),
        SpecStmt::Opaque(_, es, ss) => {
            lemma_pp_exprs_id(es);
            lemma_pp_stmts_id(ss);
        },
    }
}

pub proof fn lemma_pp_stmts_id(ss: Seq<SpecStmt>)
    requires
        settled_stmts(ss),
    ensures
        pp_stmts(ss) == ss,
    decreases ss,
{
    if ss.len() > 0 {
        let tail = ss.subrange(1, ss.len() as int);
        lemma_pp_stmt_id(ss[0]);
        assert(forall|i: int| 0 <= i < tail.len() ==> #[trigger] tail[i] == ss[i + 1]);
        lemma_pp_stmts_id(tail);
        assert(pp_stmts(ss) =~= ss);
    } else {
        assert(pp_stmts(ss) =~= ss);
    }
}

/// The post-processing pass returns a tree with no marker element and no
/// parenthesized conditional unchanged.
pub proof fn lemma_post_settled(p: SpecProgram)
    requires
        settled_program(p),
    ensures
        pp_program(p) == p,
{
    lemma_pp_stmts_id(p.body);
}

/// A tree containing neither directive tag — and none of the two patterns
/// the post-processor rewrites on any input: a marker element, a
/// parenthesized conditional — is returned unchanged by the whole transform.
pub proof fn lemma_no_directive_no_op(p: SpecProgram)
    requires
        dir_free_program(p),
        settled_program(p),
    ensures
        transformed(p) == p,
{
    lemma_rewrite_no_directives(p);
    lemma_post_settled(p);
}

} // verus!
