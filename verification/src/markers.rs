//! No placeholder leakage.
//!
//! The primary pass smuggles bare expressions through element-shaped slots
//! inside placeholder marker elements; the post-processing pass must remove
//! every one of them.  This module proves it: for any input tree free of the
//! marker tags, the output of the whole transform is free of them too.
//!
//! The proof goes through an intermediate invariant on the output of the
//! primary pass: a marker element appears only in expression position and
//! only in its well-formed shape, a single expression container holding a
//! carried expression with the same property (`marked_ok`).  The primary
//! pass is shown to establish the invariant, and the post-processing pass to
//! eliminate every marker from a tree satisfying it.

use vstd::prelude::*;

use crate::ast::{
    Ctx, SpecAttrEntry, SpecAttrVal, SpecChild, SpecDeclarator, SpecElem, SpecExpr,
    SpecLambdaBody, SpecName, SpecProgram, SpecStmt,
};
use crate::directives::{
    condition_marker_tag, fragment_tag, lemma_meaningful_member, meaningful_of, spec_if_cond,
    switch_marker_tag,
};
use crate::driver::transformed;
use crate::laws::marker_name;
use crate::post::{
    pp_child, pp_children, pp_declarator, pp_declarators, pp_elem, pp_expr, pp_exprs, pp_program,
    pp_stmt, pp_stmts, unwrap_frags,
};
use crate::rewrite::{
    branch_body, chain, chain_guard, chain_tail, collect, cond_guard, conditional_elem,
    conds_of, else_only_elem, neg_conj, package, parallel_child,
    parallel_children, parallel_elem, parallel_else_child, rw_child, rw_children, rw_declarator,
    rw_declarators, rw_elem, rw_expr, rw_exprs, rw_program, rw_stmt, rw_stmts,
    switch_elem, wrapper_elem, SpecBranch,
};

verus! {

// ---------------------------------------------------------------------------
// Marker-free trees
// ---------------------------------------------------------------------------

/// No marker-tagged element anywhere, attribute values included.
pub open spec fn mf_elem(el: SpecElem) -> bool
    decreases el,
{
    &&& !marker_name(el.name)
    &&& mf_attrs(el.attrs)
    &&& mf_children(el.children)
}

pub open spec fn mf_attr(a: SpecAttrEntry) -> bool
    decreases a,
{
    match a {
        SpecAttrEntry::Attr(at) => match at.value {
            Some(SpecAttrVal::Expr(e)) => mf_expr(*e),
            _ => true,
        },
        SpecAttrEntry::Spread(e) => mf_expr(*e),
    }
}

pub open spec fn mf_attrs(attrs: Seq<SpecAttrEntry>) -> bool
    decreases attrs,
{
    forall|i: int| 0 <= i < attrs.len() ==> mf_attr(#[trigger] attrs[i])
}

pub open spec fn mf_child(c: SpecChild) -> bool
    decreases c,
{
    match c {
        SpecChild::Elem(el) => mf_elem(el),
        SpecChild::Frag(cs) => mf_children(cs),
        SpecChild::Container(oe) => match oe {
            Some(e) => mf_expr(*e),
            None => true,
        },
        SpecChild::Text(_) => true,
    }
}

pub open spec fn mf_children(cs: Seq<SpecChild>) -> bool
    decreases cs,
{
    forall|i: int| 0 <= i < cs.len() ==> mf_child(#[trigger] cs[i])
}

pub open spec fn mf_expr(e: SpecExpr) -> bool
    decreases e,
{
    match e {
        SpecExpr::Elem(el) => mf_elem(el),
        SpecExpr::Frag(cs) => mf_children(cs),
        SpecExpr::Cond(t, c, a) => mf_expr(*t) && mf_expr(*c) && mf_expr(*a),
        SpecExpr::Call(f, args) => mf_expr(*f) && mf_exprs(args),
        SpecExpr::Member(obj, _) => mf_expr(*obj),
        SpecExpr::Ident(_) => true,
        SpecExpr::Str(_) => true,
        SpecExpr::Bool(_) => true,
        SpecExpr::Null => true,
        SpecExpr::Not(x) => mf_expr(*x),
        SpecExpr::And(x, y) => mf_expr(*x) && mf_expr(*y),
        SpecExpr::Paren(x) => mf_expr(*x),
        SpecExpr::Assign(l, r) => mf_expr(*l) && mf_expr(*r),
        SpecExpr::Lambda(SpecLambdaBody::Expr(b)) => mf_expr(*b),
        SpecExpr::Lambda(SpecLambdaBody::Block(ss)) => mf_stmts(ss),
        SpecExpr::Opaque(_, subs) => mf_exprs(subs),
    }
}

pub open spec fn mf_exprs(es: Seq<SpecExpr>) -> bool
    decreases es,
{
    forall|i: int| 0 <= i < es.len() ==> mf_expr(#[trigger] es[i])
}

pub open spec fn mf_declarator(d: SpecDeclarator) -> bool
    decreases d,
{
    match d.init {
        Some(e) => mf_expr(*e),
        None => true,
    }
}

pub open spec fn mf_declarators(ds: Seq<SpecDeclarator>) -> bool
    decreases ds,
{
    forall|i: int| 0 <= i < ds.len() ==> mf_declarator(#[trigger] ds[i])
}

pub open spec fn mf_stmt(s: SpecStmt) -> bool
    decreases s,
{
    match s {
        SpecStmt::Return(oe) => match oe {
            Some(e) => mf_expr(*e),
            None => true,
        },
        SpecStmt::Decl(_, ds) => mf_declarators(ds),
        SpecStmt::Expr(e) => mf_expr(*e),
        SpecStmt::Func(_, body) => mf_stmts(body),
        SpecStmt::Block(ss) => mf_stmts(ss),
        SpecStmt::Opaque(_, es, ss) => mf_exprs(es) && mf_stmts(ss),
    }
}

pub open spec fn mf_stmts(ss: Seq<SpecStmt>) -> bool
    decreases ss,
{
    forall|i: int| 0 <= i < ss.len() ==> mf_stmt(#[trigger] ss[i])
}

/// No marker tag appears anywhere in the program.
pub open spec fn mf_program(p: SpecProgram) -> bool {
    mf_stmts(p.body)
}

// ---------------------------------------------------------------------------
// The intermediate invariant: markers only as well-formed carriers in
// expression position
// ---------------------------------------------------------------------------

/// A non-marker element whose attributes are marker-free and whose children
/// satisfy the invariant.
pub open spec fn ok_elem(el: SpecElem) -> bool
    decreases el,
{
    &&& !marker_name(el.name)
    &&& mf_attrs(el.attrs)
    &&& ok_children(el.children)
}

pub open spec fn ok_child(c: SpecChild) -> bool
    decreases c,
{
    match c {
        SpecChild::Elem(el) => ok_elem(el),
        SpecChild::Frag(cs) => ok_children(cs),
        SpecChild::Container(oe) => match oe {
            Some(e) => ok_expr(*e),
            None => true,
        },
        SpecChild::Text(_) => true,
    }
}

pub open spec fn ok_children(cs: Seq<SpecChild>) -> bool
    decreases cs,
{
    forall|i: int| 0 <= i < cs.len() ==> ok_child(#[trigger] cs[i])
}

pub open spec fn ok_expr(e: SpecExpr) -> bool
    decreases e,
{
    match e {
        SpecExpr::Elem(el) => if marker_name(el.name) {
            el.children.len() == 1 && (el.children[0] matches SpecChild::Container(Some(inner))
                && ok_expr(*inner))
        } else {
            ok_elem(el)
        },
        SpecExpr::Frag(cs) => ok_children(cs),
        SpecExpr::Cond(t, c, a) => ok_expr(*t) && ok_expr(*c) && ok_expr(*a),
        SpecExpr::Call(f, args) => ok_expr(*f) && ok_exprs(args),
        SpecExpr::Member(obj, _) => ok_expr(*obj),
        SpecExpr::Ident(_) => true,
        SpecExpr::Str(_) => true,
        SpecExpr::Bool(_) => true,
        SpecExpr::Null => true,
        SpecExpr::Not(x) => ok_expr(*x),
        SpecExpr::And(x, y) => ok_expr(*x) && ok_expr(*y),
        SpecExpr::Paren(x) => ok_expr(*x),
        SpecExpr::Assign(l, r) => ok_expr(*l) && ok_expr(*r),
        SpecExpr::Lambda(SpecLambdaBody::Expr(b)) => ok_expr(*b),
        SpecExpr::Lambda(SpecLambdaBody::Block(ss)) => ok_stmts(ss),
        SpecExpr::Opaque(_, subs) => ok_exprs(subs),
    }
}

pub open spec fn ok_exprs(es: Seq<SpecExpr>) -> bool
    decreases es,
{
    forall|i: int| 0 <= i < es.len() ==> ok_expr(#[trigger] es[i])
}

pub open spec fn ok_declarator(d: SpecDeclarator) -> bool
    decreases d,
{
    match d.init {
        Some(e) => ok_expr(*e),
        None => true,
    }
}

pub open spec fn ok_declarators(ds: Seq<SpecDeclarator>) -> bool
    decreases ds,
{
    forall|i: int| 0 <= i < ds.len() ==> ok_declarator(#[trigger] ds[i])
}

pub open spec fn ok_stmt(s: SpecStmt) -> bool
    decreases s,
{
    match s {
        SpecStmt::Return(oe) => match oe {
            Some(e) => ok_expr(*e),
            None => true,
        },
        SpecStmt::Decl(_, ds) => ok_declarators(ds),
        SpecStmt::Expr(e) => ok_expr(*e),
        SpecStmt::Func(_, body) => ok_stmts(body),
        SpecStmt::Block(ss) => ok_stmts(ss),
        SpecStmt::Opaque(_, es, ss) => ok_exprs(es) && ok_stmts(ss),
    }
}

pub open spec fn ok_stmts(ss: Seq<SpecStmt>) -> bool
    decreases ss,
{
    forall|i: int| 0 <= i < ss.len() ==> ok_stmt(#[trigger] ss[i])
}

pub open spec fn ok_program(p: SpecProgram) -> bool {
    ok_stmts(p.body)
}

/// The collected branches satisfy the invariant.
pub open spec fn ok_branches(bs: Seq<SpecBranch>) -> bool {
    forall|i: int|
        0 <= i < bs.len() ==> ok_expr((#[trigger] bs[i]).cond) && ok_children(bs[i].children)
}

// ---------------------------------------------------------------------------
// A marker-free tree satisfies the invariant
// ---------------------------------------------------------------------------

pub proof fn lemma_mf_elem_ok(el: SpecElem)
    requires
        mf_elem(el),
    ensures
        ok_elem(el),
    decreases el,
{
    lemma_mf_children_ok(el.children);
}

pub proof fn lemma_mf_child_ok(c: SpecChild)
    requires
        mf_child(c),
    ensures
        ok_child(c),
    decreases c,
{
    match c {
        SpecChild::Elem(el) => lemma_mf_elem_ok(el),
        SpecChild::Frag(cs) => lemma_mf_children_ok(cs),
        SpecChild::Container(oe) => match oe {
            Some(e) => lemma_mf_expr_ok(*e),
            None => {},
        },
        SpecChild::Text(_) => {},
    }
}

pub proof fn lemma_mf_children_ok(cs: Seq<SpecChild>)
    requires
        mf_children(cs),
    ensures
        ok_children(cs),
    decreases cs,
{
    assert forall|i: int| 0 <= i < cs.len() implies ok_child(#[trigger] cs[i]) by {
        lemma_mf_child_ok(cs[i]);
    }
}

pub proof fn lemma_mf_expr_ok(e: SpecExpr)
    requires
        mf_expr(e),
    ensures
        ok_expr(e),
    decreases e,
{
    match e {
        SpecExpr::Elem(el) => lemma_mf_elem_ok(el),
        SpecExpr::Frag(cs) => lemma_mf_children_ok(cs),
        SpecExpr::Cond(t, c, a) => {
            lemma_mf_expr_ok(*t);
            lemma_mf_expr_ok(*c);
            lemma_mf_expr_ok(*a);
        },
        SpecExpr::Call(f, args) => {
            lemma_mf_expr_ok(*f);
            lemma_mf_exprs_ok(args);
        },
        SpecExpr::Member(obj, _) => lemma_mf_expr_ok(*obj),
        SpecExpr::Not(x) => lemma_mf_expr_ok(*x),
        SpecExpr::And(x, y) => {
            lemma_mf_expr_ok(*x);
            lemma_mf_expr_ok(*y);
        },
        SpecExpr::Paren(x) => lemma_mf_expr_ok(*x),
        SpecExpr::Assign(l, r) => {
            lemma_mf_expr_ok(*l);
            lemma_mf_expr_ok(*r);
        },
        SpecExpr::Lambda(SpecLambdaBody::Expr(b)) => lemma_mf_expr_ok(*b),
        SpecExpr::Lambda(SpecLambdaBody::Block(ss)) => lemma_mf_stmts_ok(ss),
        SpecExpr::Opaque(_, subs) => lemma_mf_exprs_ok(subs),
        _ => {},
    }
}

pub proof fn lemma_mf_exprs_ok(es: Seq<SpecExpr>)
    requires
        mf_exprs(es),
    ensures
        ok_exprs(es),
    decreases es,
{
    assert forall|i: int| 0 <= i < es.len() implies ok_expr(#[trigger] es[i]) by {
        lemma_mf_expr_ok(es[i]);
    }
}

pub proof fn lemma_mf_stmts_ok(ss: Seq<SpecStmt>)
    requires
        mf_stmts(ss),
    ensures
        ok_stmts(ss),
    decreases ss,
{
    assert forall|i: int| 0 <= i < ss.len() implies ok_stmt(#[trigger] ss[i]) by {
        let s = ss[i];
        assert(mf_stmt(ss[i]));
        match s {
            SpecStmt::Return(oe) => match oe {
                Some(e) => lemma_mf_expr_ok(*e),
                None => {},
            },
            SpecStmt::Decl(_, ds) => {
                assert forall|j: int| 0 <= j < ds.len() implies ok_declarator(
                    #[trigger] ds[j],
                ) by {
                    assert(mf_declarator(ds[j]));
                    match ds[j].init {
                        Some(e) => lemma_mf_expr_ok(*e),
                        None => {},
                    }
                }
            },
            SpecStmt::Expr(e) => lemma_mf_expr_ok(*e),
            SpecStmt::Func(_, body) => lemma_mf_stmts_ok(body),
            SpecStmt::Block(ss2) => lemma_mf_stmts_ok(ss2),
            SpecStmt::Opaque(_, es, ss2) => {
                lemma_mf_exprs_ok(es);
                lemma_mf_stmts_ok(ss2);
            },
        }
    }
}

// ---------------------------------------------------------------------------
// The synthetic tags are distinct
// ---------------------------------------------------------------------------

proof fn lemma_tags()
    ensures
        !marker_name(SpecName::Tag(fragment_tag())),
        condition_marker_tag() != switch_marker_tag(),
{
    reveal_strlit("React.Fragment");
    reveal_strlit("__CONDITION_PLACEHOLDER__");
    reveal_strlit("__SWITCH_PLACEHOLDER__");
    assert(fragment_tag().len() == 14);
    assert(condition_marker_tag().len() == 25);
    assert(switch_marker_tag().len() == 22);
}

// ---------------------------------------------------------------------------
// The builders establish the invariant
// ---------------------------------------------------------------------------

proof fn lemma_package_ok(e: SpecExpr, marker: Seq<char>, ctx: Ctx)
    requires
        ok_expr(e),
        marker == condition_marker_tag() || marker == switch_marker_tag(),
    ensures
        ok_expr(SpecExpr::Elem(package(e, marker, ctx))),
        ctx is TemplateChild ==> ok_elem(package(e, marker, ctx)),
{
    reveal_with_fuel(ok_expr, 3);
    reveal_with_fuel(ok_elem, 3);
    reveal_with_fuel(ok_children, 3);
    lemma_tags();
    let w = package(e, marker, ctx);
    assert(w.children[0] == SpecChild::Container(Some(Box::new(e))));
    assert forall|i: int| 0 <= i < w.children.len() implies ok_child(#[trigger] w.children[i]) by {
        assert(i == 0);
    }
    if ctx is TemplateChild {
        assert(ok_elem(w));
    } else {
        assert(w.name == SpecName::Tag(marker));
        assert(marker_name(w.name));
    }
}

proof fn lemma_branch_body_ok(children: Seq<SpecChild>)
    requires
        ok_children(children),
    ensures
        ok_expr(branch_body(children)),
        branch_body(children) matches SpecExpr::Elem(el) ==> !marker_name(el.name) && ok_elem(el),
        branch_body(children) is Elem || branch_body(children) is Frag,
{
    let m = meaningful_of(children);
    if m.len() == 1 && m[0] is Elem {
        lemma_meaningful_member(children);
        let k = choose|k: int| 0 <= k < children.len() && children[k] == m[0];
        assert(ok_child(children[k]));
    }
}

proof fn lemma_guards_ok(cond: SpecExpr, ctx: Ctx)
    requires
        ok_expr(cond),
    ensures
        ok_expr(cond_guard(cond, ctx)),
        ok_expr(chain_guard(cond, ctx)),
{
    reveal_with_fuel(ok_expr, 3);
    assert(seq![cond][0] == cond);
    assert(ok_exprs(seq![cond]));
}

proof fn lemma_chain_ok(branches: Seq<SpecBranch>, tail: SpecExpr, ctx: Ctx)
    requires
        ok_branches(branches),
        ok_expr(tail),
    ensures
        ok_expr(chain(branches, tail, ctx)),
    decreases branches,
{
    reveal_with_fuel(ok_expr, 2);
    if branches.len() > 0 {
        let rest = branches.subrange(1, branches.len() as int);
        assert(forall|i: int| 0 <= i < rest.len() ==> #[trigger] rest[i] == branches[i + 1]);
        lemma_guards_ok(branches[0].cond, ctx);
        lemma_branch_body_ok(branches[0].children);
        lemma_chain_ok(rest, tail, ctx);
    }
}

proof fn lemma_neg_conj_ok(conds: Seq<SpecExpr>)
    requires
        ok_exprs(conds),
    ensures
        ok_expr(neg_conj(conds)),
    decreases conds,
{
    reveal_with_fuel(ok_expr, 3);
    if conds.len() > 1 {
        assert(forall|i: int|
            0 <= i < conds.drop_last().len() ==> #[trigger] conds.drop_last()[i] == conds[i]);
        lemma_neg_conj_ok(conds.drop_last());
    }
}

proof fn lemma_parallel_ok(branches: Seq<SpecBranch>, els: Option<Seq<SpecChild>>)
    requires
        ok_branches(branches),
        els matches Some(cs) ==> ok_children(cs),
    ensures
        ok_elem(parallel_elem(branches, els)),
    decreases branches,
{
    reveal_with_fuel(ok_expr, 4);
    reveal_with_fuel(ok_elem, 2);
    reveal_with_fuel(ok_children, 2);
    lemma_tags();
    let out = parallel_children(branches, els);
    assert forall|i: int| 0 <= i < conds_of(branches).len() implies ok_expr(
        #[trigger] conds_of(branches)[i],
    ) by {
        assert(conds_of(branches)[i] == branches[i].cond);
    }
    lemma_neg_conj_ok(conds_of(branches));
    assert forall|i: int| 0 <= i < out.len() implies ok_child(#[trigger] out[i]) by {
        reveal_with_fuel(ok_expr, 4);
        reveal_with_fuel(ok_child, 2);
        reveal_with_fuel(ok_children, 2);
        if i < branches.len() {
            assert(out[i] == parallel_child(branches[i]));
            assert(ok_expr(branches[i].cond));
            assert(ok_children(branches[i].children));
            assert(ok_expr(SpecExpr::Frag(branches[i].children)));
            assert(ok_expr(
                SpecExpr::Cond(
                    Box::new(branches[i].cond),
                    Box::new(SpecExpr::Frag(branches[i].children)),
                    Box::new(SpecExpr::Null),
                ),
            ));
        } else {
            assert(out.len() == branches.len() + 1);
            assert(i == branches.len());
            assert(els matches Some(cs) && out[i] == parallel_else_child(branches, cs)
                && ok_children(cs));
            let cs = els->0;
            assert(ok_expr(SpecExpr::Frag(cs)));
            assert(ok_expr(
                SpecExpr::Cond(
                    Box::new(neg_conj(conds_of(branches))),
                    Box::new(SpecExpr::Frag(cs)),
                    Box::new(SpecExpr::Null),
                ),
            ));
        }
    }
}

proof fn lemma_else_only_ok(children: Seq<SpecChild>, ctx: Ctx)
    requires
        ok_children(children),
    ensures
        ok_expr(SpecExpr::Elem(else_only_elem(children, ctx))),
        ctx is TemplateChild ==> ok_elem(else_only_elem(children, ctx)),
{
    reveal_with_fuel(ok_expr, 3);
    reveal_with_fuel(ok_elem, 2);
    reveal_with_fuel(ok_children, 2);
    lemma_tags();
    lemma_branch_body_ok(children);
    if ctx is TemplateChild {
        match branch_body(children) {
            SpecExpr::Elem(_) => {},
            _ => {},
        }
    } else {
        lemma_package_ok(branch_body(children), switch_marker_tag(), ctx);
        assert(else_only_elem(children, ctx) == wrapper_elem(
            switch_marker_tag(),
            branch_body(children),
        ));
        assert(package(branch_body(children), switch_marker_tag(), ctx) == wrapper_elem(
            switch_marker_tag(),
            branch_body(children),
        ));
    }
}

proof fn lemma_switch_ok(
    branches: Seq<SpecBranch>,
    els: Option<Seq<SpecChild>>,
    short_circuit: bool,
    ctx: Ctx,
)
    requires
        ok_branches(branches),
        els matches Some(cs) ==> ok_children(cs),
    ensures
        ok_expr(SpecExpr::Elem(switch_elem(branches, els, short_circuit, ctx))),
        ctx is TemplateChild ==> ok_elem(switch_elem(branches, els, short_circuit, ctx)),
{
    reveal_with_fuel(ok_expr, 3);
    reveal_with_fuel(ok_elem, 2);
    reveal_with_fuel(ok_children, 2);
    lemma_tags();
    if branches.len() == 0 && els is None {
        assert(ok_children(Seq::<SpecChild>::empty()));
    } else if branches.len() == 0 {
        lemma_else_only_ok(els->0, ctx);
    } else if short_circuit || (!(ctx is TemplateChild) && branches.len() <= 1 && els is None) {
        match els {
            Some(cs) => lemma_branch_body_ok(cs),
            None => {},
        }
        lemma_chain_ok(branches, chain_tail(els), ctx);
        lemma_package_ok(chain(branches, chain_tail(els), ctx), switch_marker_tag(), ctx);
    } else {
        lemma_parallel_ok(branches, els);
    }
}

proof fn lemma_conditional_ok(cond: SpecExpr, children: Seq<SpecChild>, ctx: Ctx)
    requires
        ok_expr(cond),
        ok_children(children),
    ensures
        ok_expr(SpecExpr::Elem(conditional_elem(cond, children, ctx))),
        ctx is TemplateChild ==> ok_elem(conditional_elem(cond, children, ctx)),
{
    reveal_with_fuel(ok_expr, 2);
    lemma_guards_ok(cond, ctx);
    lemma_package_ok(
        SpecExpr::Cond(
            Box::new(cond_guard(cond, ctx)),
            Box::new(SpecExpr::Frag(children)),
            Box::new(SpecExpr::Null),
        ),
        condition_marker_tag(),
        ctx,
    );
}

// ---------------------------------------------------------------------------
// The primary pass establishes the invariant
// ---------------------------------------------------------------------------

proof fn lemma_if_cond_mf(attrs: Seq<SpecAttrEntry>)
    requires
        mf_attrs(attrs),
    ensures
        spec_if_cond(attrs) matches Some(e) ==> mf_expr(e),
    decreases attrs,
{
    if attrs.len() > 0 {
        assert(mf_attr(attrs[0]));
        let tail = attrs.subrange(1, attrs.len() as int);
        assert(forall|i: int| 0 <= i < tail.len() ==> #[trigger] tail[i] == attrs[i + 1]);
        lemma_if_cond_mf(tail);
    }
}

proof fn lemma_rw_elem_marks(el: SpecElem, ctx: Ctx)
    requires
        mf_elem(el),
    ensures
        ok_expr(SpecExpr::Elem(rw_elem(el, ctx))),
        ctx is TemplateChild ==> ok_elem(rw_elem(el, ctx)),
    decreases el,
{
    reveal_with_fuel(ok_expr, 2);
    reveal_with_fuel(ok_elem, 2);
    if el.name == SpecName::Tag(crate::directives::condition_tag()) && spec_if_cond(
        el.attrs,
    ) is Some {
        lemma_if_cond_mf(el.attrs);
        lemma_mf_expr_ok(spec_if_cond(el.attrs)->0);
        lemma_rw_children_marks(el.children);
        lemma_conditional_ok(spec_if_cond(el.attrs)->0, rw_children(el.children), ctx);
    } else if el.name == SpecName::Tag(crate::directives::switch_tag())
        && crate::directives::spec_has_case_child(el.children) {
        lemma_collect_marks(el.children);
        lemma_switch_ok(
            collect(el.children).0,
            collect(el.children).1,
            crate::directives::spec_has_attr(el.attrs, crate::directives::short_circuit_attr()),
            ctx,
        );
    } else {
        lemma_rw_children_marks(el.children);
    }
}

proof fn lemma_collect_marks(cs: Seq<SpecChild>)
    requires
        mf_children(cs),
    ensures
        ok_branches(collect(cs).0),
        collect(cs).1 matches Some(c2) ==> ok_children(c2),
    decreases cs,
{
    if cs.len() > 0 {
        let tail = cs.subrange(1, cs.len() as int);
        assert(forall|i: int| 0 <= i < tail.len() ==> #[trigger] tail[i] == cs[i + 1]);
        lemma_collect_marks(tail);
        let rest = collect(tail);
        assert(mf_child(cs[0]));
        if crate::directives::is_case_child(cs[0]) {
            let el = cs[0]->Elem_0;
            if spec_if_cond(el.attrs) is Some {
                lemma_if_cond_mf(el.attrs);
                lemma_mf_expr_ok(spec_if_cond(el.attrs)->0);
                lemma_rw_children_marks(el.children);
                let b = SpecBranch {
                    cond: spec_if_cond(el.attrs)->0,
                    children: rw_children(el.children),
                };
                assert forall|i: int| 0 <= i < collect(cs).0.len() implies ok_expr(
                    (#[trigger] collect(cs).0[i]).cond,
                ) && ok_children(collect(cs).0[i].children) by {
                    if i == 0 {
                        assert(collect(cs).0[i] == b);
                    } else {
                        assert(collect(cs).0[i] == rest.0[i - 1]);
                    }
                }
            } else if crate::directives::spec_has_attr(el.attrs, crate::directives::else_attr()) {
                lemma_rw_children_marks(el.children);
            }
        }
    }
}

proof fn lemma_rw_child_marks(c: SpecChild)
    requires
        mf_child(c),
    ensures
        ok_child(rw_child(c)),
    decreases c,
{
    match c {
        SpecChild::Elem(el) => lemma_rw_elem_marks(el, Ctx::TemplateChild),
        SpecChild::Frag(cs) => lemma_rw_children_marks(cs),
        SpecChild::Container(oe) => match oe {
            Some(e) => lemma_rw_expr_marks(*e, Ctx::TemplateChild),
            None => {},
        },
        SpecChild::Text(_) => {},
    }
}

proof fn lemma_rw_children_marks(cs: Seq<SpecChild>)
    requires
        mf_children(cs),
    ensures
        ok_children(rw_children(cs)),
    decreases cs,
{
    crate::rewrite::lemma_rw_children(cs);
    assert forall|i: int| 0 <= i < rw_children(cs).len() implies ok_child(
        #[trigger] rw_children(cs)[i],
    ) by {
        assert(rw_children(cs)[i] == rw_child(cs[i]));
        assert(mf_child(cs[i]));
        lemma_rw_child_marks(cs[i]);
    }
}

proof fn lemma_rw_expr_marks(e: SpecExpr, ctx: Ctx)
    requires
        mf_expr(e),
    ensures
        ok_expr(rw_expr(e, ctx)),
    decreases e,
{
    match e {
        SpecExpr::Elem(el) => lemma_rw_elem_marks(el, ctx),
        SpecExpr::Frag(cs) => lemma_rw_children_marks(cs),
        SpecExpr::Cond(t, c, a) => {
            lemma_rw_expr_marks(*t, ctx);
            lemma_rw_expr_marks(*c, ctx);
            lemma_rw_expr_marks(*a, ctx);
        },
        SpecExpr::Call(f, args) => {
            lemma_rw_expr_marks(*f, ctx);
            lemma_rw_exprs_marks(args, ctx);
        },
        SpecExpr::Member(obj, _) => lemma_rw_expr_marks(*obj, ctx),
        SpecExpr::Not(x) => lemma_rw_expr_marks(*x, ctx),
        SpecExpr::And(x, y) => {
            lemma_rw_expr_marks(*x, ctx);
            lemma_rw_expr_marks(*y, ctx);
        },
        SpecExpr::Paren(x) => lemma_rw_expr_marks(*x, ctx),
        SpecExpr::Assign(l, r) => {
            lemma_mf_expr_ok(*l);
            lemma_rw_expr_marks(*r, Ctx::Assignment);
        },
        SpecExpr::Lambda(SpecLambdaBody::Expr(b)) => lemma_rw_expr_marks(*b, ctx),
        SpecExpr::Lambda(SpecLambdaBody::Block(ss)) => lemma_rw_stmts_marks(ss, ctx),
        SpecExpr::Opaque(_, subs) => lemma_rw_exprs_marks(subs, ctx),
        _ => {},
    }
}

proof fn lemma_rw_exprs_marks(es: Seq<SpecExpr>, ctx: Ctx)
    requires
        mf_exprs(es),
    ensures
        ok_exprs(rw_exprs(es, ctx)),
    decreases es,
{
    crate::rewrite::lemma_rw_exprs(es, ctx);
    assert forall|i: int| 0 <= i < rw_exprs(es, ctx).len() implies ok_expr(
        #[trigger] rw_exprs(es, ctx)[i],
    ) by {
        assert(rw_exprs(es, ctx)[i] == rw_expr(es[i], ctx));
        assert(mf_expr(es[i]));
        lemma_rw_expr_marks(es[i], ctx);
    }
}

proof fn lemma_rw_declarators_marks(ds: Seq<SpecDeclarator>)
    requires
        mf_declarators(ds),
    ensures
        ok_declarators(rw_declarators(ds)),
    decreases ds,
{
    crate::rewrite::lemma_rw_declarators(ds);
    assert forall|i: int| 0 <= i < rw_declarators(ds).len() implies ok_declarator(
        #[trigger] rw_declarators(ds)[i],
    ) by {
        assert(rw_declarators(ds)[i] == rw_declarator(ds[i]));
        assert(mf_declarator(ds[i]));
        match ds[i].init {
            Some(e) => lemma_rw_expr_marks(*e, Ctx::Assignment),
            None => {},
        }
    }
}

proof fn lemma_rw_stmt_marks(s: SpecStmt, ctx: Ctx)
    requires
        mf_stmt(s),
    ensures
        ok_stmt(rw_stmt(s, ctx)),
    decreases s,
{
    match s {
        SpecStmt::Return(oe) => match oe {
            Some(e) => lemma_rw_expr_marks(*e, Ctx::Return),
            None => {},
        },
        SpecStmt::Decl(_, ds) => lemma_rw_declarators_marks(ds),
        SpecStmt::Expr(e) => lemma_rw_expr_marks(*e, ctx),
        SpecStmt::Func(_, body) => lemma_rw_stmts_marks(body, ctx),
        SpecStmt::Block(ss) => lemma_rw_stmts_marks(ss, ctx),
        SpecStmt::Opaque(_, es, ss) => {
            lemma_rw_exprs_marks(es, ctx);
            lemma_rw_stmts_marks(ss, ctx);
        },
    }
}

proof fn lemma_rw_stmts_marks(ss: Seq<SpecStmt>, ctx: Ctx)
    requires
        mf_stmts(ss),
    ensures
        ok_stmts(rw_stmts(ss, ctx)),
    decreases ss,
{
    crate::rewrite::lemma_rw_stmts(ss, ctx);
    assert forall|i: int| 0 <= i < rw_stmts(ss, ctx).len() implies ok_stmt(
        #[trigger] rw_stmts(ss, ctx)[i],
    ) by {
        assert(rw_stmts(ss, ctx)[i] == rw_stmt(ss[i], ctx));
        assert(mf_stmt(ss[i]));
        lemma_rw_stmt_marks(ss[i], ctx);
    }
}

/// The primary pass leaves markers only as well-formed carriers in
/// expression position.
pub proof fn lemma_rewrite_marks(p: SpecProgram)
    requires
        mf_program(p),
    ensures
        ok_program(rw_program(p)),
{
    lemma_rw_stmts_marks(p.body, Ctx::TemplateChild);
}

// ---------------------------------------------------------------------------
// The post-processing pass eliminates every marker
// ---------------------------------------------------------------------------

proof fn lemma_unwrap_mf(e: SpecExpr)
    requires
        mf_expr(e),
    ensures
        mf_expr(unwrap_frags(e)),
    decreases e,
{
    reveal_with_fuel(mf_expr, 3);
    match e {
        SpecExpr::Cond(t, c, a) => {
            lemma_unwrap_mf(*a);
            match *c {
                SpecExpr::Frag(cs) => {
                    let m = meaningful_of(cs);
                    if m.len() == 1 && m[0] is Elem {
                        lemma_meaningful_member(cs);
                        let k = choose|k: int| 0 <= k < cs.len() && cs[k] == m[0];
                        assert(mf_child(cs[k]));
                        assert(branch_body(cs) == SpecExpr::Elem(m[0]->Elem_0));
                    }
                },
                _ => {},
            }
        },
        _ => {},
    }
}

proof fn lemma_pp_elem_clean(el: SpecElem)
    requires
        ok_elem(el),
    ensures
        mf_elem(pp_elem(el)),
    decreases el,
{
    lemma_pp_children_clean(el.children);
}

proof fn lemma_pp_child_clean(c: SpecChild)
    requires
        ok_child(c),
    ensures
        mf_child(pp_child(c)),
    decreases c,
{
    match c {
        SpecChild::Elem(el) => lemma_pp_elem_clean(el),
        SpecChild::Frag(cs) => lemma_pp_children_clean(cs),
        SpecChild::Container(oe) => match oe {
            Some(e) => lemma_pp_expr_clean(*e),
            None => {},
        },
        SpecChild::Text(_) => {},
    }
}

proof fn lemma_pp_children_clean(cs: Seq<SpecChild>)
    requires
        ok_children(cs),
    ensures
        mf_children(pp_children(cs)),
    decreases cs,
{
    crate::post::lemma_pp_children(cs);
    assert forall|i: int| 0 <= i < pp_children(cs).len() implies mf_child(
        #[trigger] pp_children(cs)[i],
    ) by {
        assert(pp_children(cs)[i] == pp_child(cs[i]));
        assert(ok_child(cs[i]));
        lemma_pp_child_clean(cs[i]);
    }
}

proof fn lemma_pp_expr_clean(e: SpecExpr)
    requires
        ok_expr(e),
    ensures
        mf_expr(pp_expr(e)),
    decreases e,
{
    reveal_with_fuel(mf_expr, 3);
    lemma_tags();
    match e {
        SpecExpr::Elem(el) => {
            if marker_name(el.name) {
                match el.children[0] {
                    SpecChild::Container(Some(inner)) => {
                        lemma_pp_expr_clean(*inner);
                        if el.name == SpecName::Tag(switch_marker_tag()) {
                            lemma_unwrap_mf(pp_expr(*inner));
                        }
                    },
                    _ => {},
                }
            } else {
                lemma_pp_elem_clean(el);
            }
        },
        SpecExpr::Frag(cs) => lemma_pp_children_clean(cs),
        SpecExpr::Cond(t, c, a) => {
            lemma_pp_expr_clean(*t);
            lemma_pp_expr_clean(*c);
            lemma_pp_expr_clean(*a);
        },
        SpecExpr::Call(f, args) => {
            lemma_pp_expr_clean(*f);
            lemma_pp_exprs_clean(args);
        },
        SpecExpr::Member(obj, _) => lemma_pp_expr_clean(*obj),
        SpecExpr::Not(x) => lemma_pp_expr_clean(*x),
        SpecExpr::And(x, y) => {
            lemma_pp_expr_clean(*x);
            lemma_pp_expr_clean(*y);
        },
        SpecExpr::Paren(x) => {
            lemma_pp_expr_clean(*x);
        },
        SpecExpr::Assign(l, r) => {
            lemma_pp_expr_clean(*l);
            lemma_pp_expr_clean(*r);
        },
        SpecExpr::Lambda(SpecLambdaBody::Expr(b)) => lemma_pp_expr_clean(*b),
        SpecExpr::Lambda(SpecLambdaBody::Block(ss)) => lemma_pp_stmts_clean(ss),
        SpecExpr::Opaque(_, subs) => lemma_pp_exprs_clean(subs),
        _ => {},
    }
}

proof fn lemma_pp_exprs_clean(es: Seq<SpecExpr>)
    requires
        ok_exprs(es),
    ensures
        mf_exprs(pp_exprs(es)),
    decreases es,
{
    crate::post::lemma_pp_exprs(es);
    assert forall|i: int| 0 <= i < pp_exprs(es).len() implies mf_expr(
        #[trigger] pp_exprs(es)[i],
    ) by {
        assert(pp_exprs(es)[i] == pp_expr(es[i]));
        assert(ok_expr(es[i]));
        lemma_pp_expr_clean(es[i]);
    }
}

proof fn lemma_pp_declarators_clean(ds: Seq<SpecDeclarator>)
    requires
        ok_declarators(ds),
    ensures
        mf_declarators(pp_declarators(ds)),
    decreases ds,
{
    crate::post::lemma_pp_declarators(ds);
    assert forall|i: int| 0 <= i < pp_declarators(ds).len() implies mf_declarator(
        #[trigger] pp_declarators(ds)[i],
    ) by {
        assert(pp_declarators(ds)[i] == pp_declarator(ds[i]));
        assert(ok_declarator(ds[i]));
        match ds[i].init {
            Some(e) => lemma_pp_expr_clean(*e),
            None => {},
        }
    }
}

proof fn lemma_pp_stmt_clean(s: SpecStmt)
    requires
        ok_stmt(s),
    ensures
        mf_stmt(pp_stmt(s)),
    decreases s,
{
    match s {
        SpecStmt::Return(oe) => match oe {
            Some(e) => lemma_pp_expr_clean(*e),
            None => {},
        },
        SpecStmt::Decl(_, ds) => lemma_pp_declarators_clean(ds),
        SpecStmt::Expr(e) => lemma_pp_expr_clean(*e),
        SpecStmt::Func(_, body) => lemma_pp_stmts_clean(body),
        SpecStmt::Block(ss) => lemma_pp_stmts_clean(ss),
        SpecStmt::Opaque(_, es, ss) => {
            lemma_pp_exprs_clean(es);
            lemma_pp_stmts_clean(ss);
        },
    }
}

proof fn lemma_pp_stmts_clean(ss: Seq<SpecStmt>)
    requires
        ok_stmts(ss),
    ensures
        mf_stmts(pp_stmts(ss)),
    decreases ss,
{
    crate::post::lemma_pp_stmts(ss);
    assert forall|i: int| 0 <= i < pp_stmts(ss).len() implies mf_stmt(
        #[trigger] pp_stmts(ss)[i],
    ) by {
        assert(pp_stmts(ss)[i] == pp_stmt(ss[i]));
        assert(ok_stmt(ss[i]));
        lemma_pp_stmt_clean(ss[i]);
    }
}

/// The post-processing pass removes every well-formed marker.
pub proof fn lemma_post_cleans(p: SpecProgram)
    requires
        ok_program(p),
    ensures
        mf_program(pp_program(p)),
{
    lemma_pp_stmts_clean(p.body);
}

/// No placeholder leakage: for any input tree free of the marker tags, no
/// marker tag appears anywhere in the output of the whole transform.
pub proof fn lemma_no_marker_leak(p: SpecProgram)
    requires
        mf_program(p),
    ensures
        mf_program(transformed(p)),
{
    lemma_rewrite_marks(p);
    lemma_post_cleans(rw_program(p));
}

} // verus!
