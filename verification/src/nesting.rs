//! Nested directive recursion.
//!
//! The primary pass does not stop at the first directive it replaces:
//! directives nested inside the children of another directive are rewritten
//! independently.  This module proves the strongest form of that claim: after
//! the primary pass, no armed directive — a conditional tag with an arming
//! `if` attribute, or a switch tag with a case child — remains anywhere in
//! the tree, provided the input carries no armed directive inside an
//! attribute value (attribute values are the one place the pass never
//! rewrites: a condition expression is embedded as a guard exactly as
//! written).

use vstd::prelude::*;

use crate::ast::{
    Ctx, SpecAttrEntry, SpecAttrVal, SpecChild, SpecDeclarator, SpecElem, SpecExpr,
    SpecLambdaBody, SpecName, SpecProgram, SpecStmt,
};
use crate::directives::{
    condition_marker_tag, condition_tag, fragment_tag, lemma_meaningful_member, meaningful_of,
    spec_has_attr, spec_has_case_child, spec_if_cond, switch_marker_tag, switch_tag,
};
use crate::rewrite::{
    branch_body, chain, chain_guard, chain_tail, collect, cond_guard, conditional_elem, conds_of,
    else_only_elem, neg_conj, parallel_child, parallel_children, parallel_elem,
    parallel_else_child, rw_child, rw_children, rw_declarator, rw_declarators, rw_elem, rw_expr,
    rw_exprs, rw_program, rw_stmt, rw_stmts, wrapper_elem, SpecBranch,
};

verus! {

// ---------------------------------------------------------------------------
// Armed directives, and trees without them
// ---------------------------------------------------------------------------

/// An element the primary pass would replace.
pub open spec fn armed_elem(el: SpecElem) -> bool {
    ||| el.name == SpecName::Tag(condition_tag()) && spec_if_cond(el.attrs) is Some
    ||| el.name == SpecName::Tag(switch_tag()) && spec_has_case_child(el.children)
}

/// No armed directive anywhere, attribute values included.
pub open spec fn da_elem(el: SpecElem) -> bool
    decreases el,
{
    &&& !armed_elem(el)
    &&& da_attrs(el.attrs)
    &&& da_children(el.children)
}

pub open spec fn da_attr(a: SpecAttrEntry) -> bool
    decreases a,
{
    match a {
        SpecAttrEntry::Attr(at) => match at.value {
            Some(SpecAttrVal::Expr(e)) => da_expr(*e),
            _ => true,
        },
        SpecAttrEntry::Spread(e) => da_expr(*e),
    }
}

pub open spec fn da_attrs(attrs: Seq<SpecAttrEntry>) -> bool
    decreases attrs,
{
    forall|i: int| 0 <= i < attrs.len() ==> da_attr(#[trigger] attrs[i])
}

pub open spec fn da_child(c: SpecChild) -> bool
    decreases c,
{
    match c {
        SpecChild::Elem(el) => da_elem(el),
        SpecChild::Frag(cs) => da_children(cs),
        SpecChild::Container(oe) => match oe {
            Some(e) => da_expr(*e),
            None => true,
        },
        SpecChild::Text(_) => true,
    }
}

pub open spec fn da_children(cs: Seq<SpecChild>) -> bool
    decreases cs,
{
    forall|i: int| 0 <= i < cs.len() ==> da_child(#[trigger] cs[i])
}

pub open spec fn da_expr(e: SpecExpr) -> bool
    decreases e,
{
    match e {
        SpecExpr::Elem(el) => da_elem(el),
        SpecExpr::Frag(cs) => da_children(cs),
        SpecExpr::Cond(t, c, a) => da_expr(*t) && da_expr(*c) && da_expr(*a),
        SpecExpr::Call(f, args) => da_expr(*f) && da_exprs(args),
        SpecExpr::Member(obj, _) => da_expr(*obj),
        SpecExpr::Ident(_) => true,
        SpecExpr::Str(_) => true,
        SpecExpr::Bool(_) => true,
        SpecExpr::Null => true,
        SpecExpr::Not(x) => da_expr(*x),
        SpecExpr::And(x, y) => da_expr(*x) && da_expr(*y),
        SpecExpr::Paren(x) => da_expr(*x),
        SpecExpr::Assign(l, r) => da_expr(*l) && da_expr(*r),
        SpecExpr::Lambda(SpecLambdaBody::Expr(b)) => da_expr(*b),
        SpecExpr::Lambda(SpecLambdaBody::Block(ss)) => da_stmts(ss),
        SpecExpr::Opaque(_, subs) => da_exprs(subs),
    }
}

pub open spec fn da_exprs(es: Seq<SpecExpr>) -> bool
    decreases es,
{
    forall|i: int| 0 <= i < es.len() ==> da_expr(#[trigger] es[i])
}

pub open spec fn da_declarator(d: SpecDeclarator) -> bool
    decreases d,
{
    match d.init {
        Some(e) => da_expr(*e),
        None => true,
    }
}

pub open spec fn da_declarators(ds: Seq<SpecDeclarator>) -> bool
    decreases ds,
{
    forall|i: int| 0 <= i < ds.len() ==> da_declarator(#[trigger] ds[i])
}

pub open spec fn da_stmt(s: SpecStmt) -> bool
    decreases s,
{
    match s {
        SpecStmt::Return(oe) => match oe {
            Some(e) => da_expr(*e),
            None => true,
        },
        SpecStmt::Decl(_, ds) => da_declarators(ds),
        SpecStmt::Expr(e) => da_expr(*e),
        SpecStmt::Func(_, body) => da_stmts(body),
        SpecStmt::Block(ss) => da_stmts(ss),
        SpecStmt::Opaque(_, es, ss) => da_exprs(es) && da_stmts(ss),
    }
}

pub open spec fn da_stmts(ss: Seq<SpecStmt>) -> bool
    decreases ss,
{
    forall|i: int| 0 <= i < ss.len() ==> da_stmt(#[trigger] ss[i])
}

/// No armed directive appears anywhere in the program.
pub open spec fn da_program(p: SpecProgram) -> bool {
    da_stmts(p.body)
}

// ---------------------------------------------------------------------------
// Attribute values survive both passes as written, so they must already be
// free of armed directives
// ---------------------------------------------------------------------------

/// The input hypothesis.  Two things must hold of the input, because they
/// name the two places the pass carries material through unrewritten:
/// every attribute-carried expression is already free of armed directives
/// (conditions are embedded as guards exactly as written), and a case-named
/// element (`Switch.Case`) occurs only as a direct child of a switch-tagged
/// element (anywhere else it can be hoisted bare into a fresh position and
/// arm an enclosing switch).
pub open spec fn tame_elem(el: SpecElem) -> bool
    decreases el,
{
    &&& da_attrs(el.attrs)
    &&& if el.name == SpecName::Tag(switch_tag()) {
        forall|i: int| 0 <= i < el.children.len() ==> tame_case_child(#[trigger] el.children[i])
    } else {
        tame_children(el.children)
    }
}

/// A direct child of a switch-tagged element: it may be case-named.
pub open spec fn tame_case_child(c: SpecChild) -> bool
    decreases c,
{
    match c {
        SpecChild::Elem(el) => tame_elem(el),
        SpecChild::Frag(cs) => tame_children(cs),
        SpecChild::Container(oe) => match oe {
            Some(e) => tame_expr(*e),
            None => true,
        },
        SpecChild::Text(_) => true,
    }
}

/// A child anywhere else: additionally not case-named.
pub open spec fn tame_child(c: SpecChild) -> bool
    decreases c,
{
    match c {
        SpecChild::Elem(el) => !crate::directives::is_case_elem(el) && tame_elem(el),
        SpecChild::Frag(cs) => tame_children(cs),
        SpecChild::Container(oe) => match oe {
            Some(e) => tame_expr(*e),
            None => true,
        },
        SpecChild::Text(_) => true,
    }
}

pub open spec fn tame_children(cs: Seq<SpecChild>) -> bool
    decreases cs,
{
    forall|i: int| 0 <= i < cs.len() ==> tame_child(#[trigger] cs[i])
}

pub open spec fn tame_expr(e: SpecExpr) -> bool
    decreases e,
{
    match e {
        SpecExpr::Elem(el) => !crate::directives::is_case_elem(el) && tame_elem(el),
        SpecExpr::Frag(cs) => tame_children(cs),
        SpecExpr::Cond(t, c, a) => tame_expr(*t) && tame_expr(*c) && tame_expr(*a),
        SpecExpr::Call(f, args) => tame_expr(*f) && tame_exprs(args),
        SpecExpr::Member(obj, _) => tame_expr(*obj),
        SpecExpr::Ident(_) => true,
        SpecExpr::Str(_) => true,
        SpecExpr::Bool(_) => true,
        SpecExpr::Null => true,
        SpecExpr::Not(x) => tame_expr(*x),
        SpecExpr::And(x, y) => tame_expr(*x) && tame_expr(*y),
        SpecExpr::Paren(x) => tame_expr(*x),
        SpecExpr::Assign(l, r) => da_expr(*l) && tame_expr(*r),
        SpecExpr::Lambda(SpecLambdaBody::Expr(b)) => tame_expr(*b),
        SpecExpr::Lambda(SpecLambdaBody::Block(ss)) => tame_stmts(ss),
        SpecExpr::Opaque(_, subs) => tame_exprs(subs),
    }
}

pub open spec fn tame_exprs(es: Seq<SpecExpr>) -> bool
    decreases es,
{
    forall|i: int| 0 <= i < es.len() ==> tame_expr(#[trigger] es[i])
}

pub open spec fn tame_declarator(d: SpecDeclarator) -> bool
    decreases d,
{
    match d.init {
        Some(e) => tame_expr(*e),
        None => true,
    }
}

pub open spec fn tame_declarators(ds: Seq<SpecDeclarator>) -> bool
    decreases ds,
{
    forall|i: int| 0 <= i < ds.len() ==> tame_declarator(#[trigger] ds[i])
}

pub open spec fn tame_stmt(s: SpecStmt) -> bool
    decreases s,
{
    match s {
        SpecStmt::Return(oe) => match oe {
            Some(e) => tame_expr(*e),
            None => true,
        },
        SpecStmt::Decl(_, ds) => tame_declarators(ds),
        SpecStmt::Expr(e) => tame_expr(*e),
        SpecStmt::Func(_, body) => tame_stmts(body),
        SpecStmt::Block(ss) => tame_stmts(ss),
        SpecStmt::Opaque(_, es, ss) => tame_exprs(es) && tame_stmts(ss),
    }
}

pub open spec fn tame_stmts(ss: Seq<SpecStmt>) -> bool
    decreases ss,
{
    forall|i: int| 0 <= i < ss.len() ==> tame_stmt(#[trigger] ss[i])
}

pub open spec fn tame_program(p: SpecProgram) -> bool {
    tame_stmts(p.body)
}

/// No child of the list is a case element.
pub open spec fn no_case_child(cs: Seq<SpecChild>) -> bool {
    forall|i: int| 0 <= i < cs.len() ==> !crate::directives::is_case_child(#[trigger] cs[i])
}

// ---------------------------------------------------------------------------
// The synthetic tags are not directive tags
// ---------------------------------------------------------------------------

proof fn lemma_synthetic_unarmed()
    ensures
        condition_tag() != switch_tag(),
        fragment_tag() != condition_tag(),
        fragment_tag() != switch_tag(),
        condition_marker_tag() != condition_tag(),
        condition_marker_tag() != switch_tag(),
        switch_marker_tag() != condition_tag(),
        switch_marker_tag() != switch_tag(),
{
    reveal_strlit("React.Fragment");
    reveal_strlit("__CONDITION_PLACEHOLDER__");
    reveal_strlit("__SWITCH_PLACEHOLDER__");
    reveal_strlit("Condition");
    reveal_strlit("Switch");
    assert(fragment_tag().len() == 14);
    assert(condition_marker_tag().len() == 25);
    assert(switch_marker_tag().len() == 22);
    assert(condition_tag().len() == 9);
    assert(switch_tag().len() == 6);
}

// ---------------------------------------------------------------------------
// The builders introduce no armed directive
// ---------------------------------------------------------------------------

proof fn lemma_wrapper_da(tag: Seq<char>, e: SpecExpr)
    requires
        da_expr(e),
        tag == fragment_tag() || tag == condition_marker_tag() || tag == switch_marker_tag(),
    ensures
        da_elem(wrapper_elem(tag, e)),
{
    reveal_with_fuel(da_elem, 2);
    reveal_with_fuel(da_children, 2);
    lemma_synthetic_unarmed();
    let w = wrapper_elem(tag, e);
    assert(w.children[0] == SpecChild::Container(Some(Box::new(e))));
    assert forall|i: int| 0 <= i < w.children.len() implies da_child(#[trigger] w.children[i]) by {
        assert(i == 0);
    }
    assert(da_attrs(w.attrs));
}

proof fn lemma_branch_body_da(children: Seq<SpecChild>)
    requires
        da_children(children),
        no_case_child(children),
    ensures
        da_expr(branch_body(children)),
        branch_body(children) matches SpecExpr::Elem(el) ==> !crate::directives::is_case_elem(el)
            && !armed_elem(el),
{
    reveal_with_fuel(da_expr, 2);
    let m = meaningful_of(children);
    if m.len() == 1 && m[0] is Elem {
        lemma_meaningful_member(children);
        let k = choose|k: int| 0 <= k < children.len() && children[k] == m[0];
        assert(da_child(children[k]));
        assert(!crate::directives::is_case_child(children[k]));
    }
}

proof fn lemma_guards_da(cond: SpecExpr, ctx: Ctx)
    requires
        da_expr(cond),
    ensures
        da_expr(cond_guard(cond, ctx)),
        da_expr(chain_guard(cond, ctx)),
{
    reveal_with_fuel(da_expr, 3);
    assert(seq![cond][0] == cond);
    assert(da_exprs(seq![cond]));
}

proof fn lemma_chain_da(branches: Seq<SpecBranch>, tail: SpecExpr, ctx: Ctx)
    requires
        forall|i: int|
            0 <= i < branches.len() ==> da_expr((#[trigger] branches[i]).cond) && da_children(
                branches[i].children,
            ) && no_case_child(branches[i].children),
        da_expr(tail),
    ensures
        da_expr(chain(branches, tail, ctx)),
    decreases branches,
{
    reveal_with_fuel(da_expr, 2);
    if branches.len() > 0 {
        let rest = branches.subrange(1, branches.len() as int);
        assert(forall|i: int| 0 <= i < rest.len() ==> #[trigger] rest[i] == branches[i + 1]);
        lemma_guards_da(branches[0].cond, ctx);
        lemma_branch_body_da(branches[0].children);
        lemma_chain_da(rest, tail, ctx);
    }
}

proof fn lemma_neg_conj_da(conds: Seq<SpecExpr>)
    requires
        da_exprs(conds),
    ensures
        da_expr(neg_conj(conds)),
    decreases conds,
{
    reveal_with_fuel(da_expr, 3);
    if conds.len() > 1 {
        assert(forall|i: int|
            0 <= i < conds.drop_last().len() ==> #[trigger] conds.drop_last()[i] == conds[i]);
        lemma_neg_conj_da(conds.drop_last());
    }
}

proof fn lemma_parallel_da(branches: Seq<SpecBranch>, els: Option<Seq<SpecChild>>)
    requires
        forall|i: int|
            0 <= i < branches.len() ==> da_expr((#[trigger] branches[i]).cond) && da_children(
                branches[i].children,
            ),
        els matches Some(cs) ==> da_children(cs),
    ensures
        da_elem(parallel_elem(branches, els)),
{
    lemma_synthetic_unarmed();
    let out = parallel_children(branches, els);
    assert forall|i: int| 0 <= i < conds_of(branches).len() implies da_expr(
        #[trigger] conds_of(branches)[i],
    ) by {
        assert(conds_of(branches)[i] == branches[i].cond);
    }
    lemma_neg_conj_da(conds_of(branches));
    assert forall|i: int| 0 <= i < out.len() implies da_child(#[trigger] out[i]) by {
        reveal_with_fuel(da_expr, 4);
        reveal_with_fuel(da_child, 2);
        reveal_with_fuel(da_children, 2);
        if i < branches.len() {
            assert(out[i] == parallel_child(branches[i]));
            assert(da_expr(branches[i].cond));
            assert(da_children(branches[i].children));
            assert(da_expr(SpecExpr::Frag(branches[i].children)));
            assert(da_expr(
                SpecExpr::Cond(
                    Box::new(branches[i].cond),
                    Box::new(SpecExpr::Frag(branches[i].children)),
                    Box::new(SpecExpr::Null),
                ),
            ));
        } else {
            assert(out.len() == branches.len() + 1);
            assert(i == branches.len());
            assert(els matches Some(cs) && out[i] == parallel_else_child(branches, cs)
                && da_children(cs));
            let cs = els->0;
            assert(da_expr(SpecExpr::Frag(cs)));
            assert(da_expr(
                SpecExpr::Cond(
                    Box::new(neg_conj(conds_of(branches))),
                    Box::new(SpecExpr::Frag(cs)),
                    Box::new(SpecExpr::Null),
                ),
            ));
        }
    }
    assert(da_attrs(parallel_elem(branches, els).attrs));
}

// ---------------------------------------------------------------------------
// The primary pass leaves no armed directive behind
// ---------------------------------------------------------------------------

proof fn lemma_if_cond_da(attrs: Seq<SpecAttrEntry>)
    requires
        da_attrs(attrs),
    ensures
        spec_if_cond(attrs) matches Some(e) ==> da_expr(e),
    decreases attrs,
{
    if attrs.len() > 0 {
        assert(da_attr(attrs[0]));
        let tail = attrs.subrange(1, attrs.len() as int);
        assert(forall|i: int| 0 <= i < tail.len() ==> #[trigger] tail[i] == attrs[i + 1]);
        lemma_if_cond_da(tail);
    }
}

proof fn lemma_else_only_da(children: Seq<SpecChild>, ctx: Ctx)
    requires
        da_children(children),
        no_case_child(children),
    ensures
        da_elem(else_only_elem(children, ctx)),
        !crate::directives::is_case_elem(else_only_elem(children, ctx)),
    decreases children.len(),
{
    reveal_with_fuel(da_elem, 2);
    lemma_synthetic_unarmed();
    lemma_branch_body_da(children);
    if ctx is TemplateChild {
    } else {
        lemma_wrapper_da(switch_marker_tag(), branch_body(children));
    }
}

proof fn lemma_switch_da(
    branches: Seq<SpecBranch>,
    els: Option<Seq<SpecChild>>,
    short_circuit: bool,
    ctx: Ctx,
)
    requires
        forall|i: int|
            0 <= i < branches.len() ==> da_expr((#[trigger] branches[i]).cond) && da_children(
                branches[i].children,
            ) && no_case_child(branches[i].children),
        els matches Some(cs) ==> da_children(cs) && no_case_child(cs),
    ensures
        da_elem(crate::rewrite::switch_elem(branches, els, short_circuit, ctx)),
        !crate::directives::is_case_elem(
            crate::rewrite::switch_elem(branches, els, short_circuit, ctx),
        ),
{
    reveal_with_fuel(da_elem, 2);
    reveal_with_fuel(da_children, 2);
    lemma_synthetic_unarmed();
    if branches.len() == 0 && els is None {
        assert(da_children(Seq::<SpecChild>::empty()));
    } else if branches.len() == 0 {
        lemma_else_only_da(els->0, ctx);
    } else if short_circuit || (!(ctx is TemplateChild) && branches.len() <= 1 && els is None) {
        match els {
            Some(cs) => lemma_branch_body_da(cs),
            None => {},
        }
        lemma_chain_da(branches, chain_tail(els), ctx);
        lemma_wrapper_da(
            if ctx is TemplateChild {
                fragment_tag()
            } else {
                switch_marker_tag()
            },
            chain(branches, chain_tail(els), ctx),
        );
    } else {
        lemma_parallel_da(branches, els);
    }
}

proof fn lemma_conditional_da(cond: SpecExpr, children: Seq<SpecChild>, ctx: Ctx)
    requires
        da_expr(cond),
        da_children(children),
    ensures
        da_elem(conditional_elem(cond, children, ctx)),
        !crate::directives::is_case_elem(conditional_elem(cond, children, ctx)),
    decreases children.len(),
{
    reveal_with_fuel(da_expr, 2);
    lemma_synthetic_unarmed();
    lemma_guards_da(cond, ctx);
    lemma_wrapper_da(
        if ctx is TemplateChild {
            fragment_tag()
        } else {
            condition_marker_tag()
        },
        SpecExpr::Cond(
            Box::new(cond_guard(cond, ctx)),
            Box::new(SpecExpr::Frag(children)),
            Box::new(SpecExpr::Null),
        ),
    );
}

proof fn lemma_collect_da(cs: Seq<SpecChild>)
    requires
        forall|i: int| 0 <= i < cs.len() ==> tame_case_child(#[trigger] cs[i]),
    ensures
        forall|i: int|
            0 <= i < collect(cs).0.len() ==> da_expr((#[trigger] collect(cs).0[i]).cond)
                && da_children(collect(cs).0[i].children) && no_case_child(
                collect(cs).0[i].children,
            ),
        collect(cs).1 matches Some(c2) ==> da_children(c2) && no_case_child(c2),
    decreases cs,
{
    reveal_strlit("Switch");
    if cs.len() > 0 {
        let tail = cs.subrange(1, cs.len() as int);
        assert(forall|i: int| 0 <= i < tail.len() ==> #[trigger] tail[i] == cs[i + 1]);
        lemma_collect_da(tail);
        let rest = collect(tail);
        assert(tame_case_child(cs[0]));
        if crate::directives::is_case_child(cs[0]) {
            let el = cs[0]->Elem_0;
            assert(el.name matches SpecName::Member(_, _));
            assert(el.name != SpecName::Tag(switch_tag()));
            assert(tame_children(el.children));
            if spec_if_cond(el.attrs) is Some {
                lemma_if_cond_da(el.attrs);
                lemma_rw_children_da(el.children);
                let b = SpecBranch {
                    cond: spec_if_cond(el.attrs)->0,
                    children: rw_children(el.children),
                };
                assert forall|i: int| 0 <= i < collect(cs).0.len() implies da_expr(
                    (#[trigger] collect(cs).0[i]).cond,
                ) && da_children(collect(cs).0[i].children) && no_case_child(
                    collect(cs).0[i].children,
                ) by {
                    if i == 0 {
                        assert(collect(cs).0[i] == b);
                    } else {
                        assert(collect(cs).0[i] == rest.0[i - 1]);
                    }
                }
            } else if crate::directives::spec_has_attr(
                el.attrs,
                crate::directives::else_attr(),
            ) {
                lemma_rw_children_da(el.children);
            }
        }
    }
}

proof fn lemma_rw_elem_da(el: SpecElem, ctx: Ctx)
    requires
        tame_elem(el),
    ensures
        da_elem(rw_elem(el, ctx)),
        crate::directives::is_case_elem(rw_elem(el, ctx))
            ==> crate::directives::is_case_elem(el),
    decreases el,
{
    reveal_with_fuel(da_elem, 2);
    lemma_synthetic_unarmed();
    if el.name == SpecName::Tag(condition_tag()) && spec_if_cond(el.attrs) is Some {
        lemma_if_cond_da(el.attrs);
        assert(el.name != SpecName::Tag(switch_tag()));
        lemma_rw_children_da(el.children);
        lemma_conditional_da(spec_if_cond(el.attrs)->0, rw_children(el.children), ctx);
    } else if el.name == SpecName::Tag(switch_tag()) && spec_has_case_child(el.children) {
        lemma_collect_da(el.children);
        lemma_switch_da(
            collect(el.children).0,
            collect(el.children).1,
            crate::directives::spec_has_attr(el.attrs, crate::directives::short_circuit_attr()),
            ctx,
        );
    } else {
        if el.name == SpecName::Tag(switch_tag()) {
            assert forall|i: int| 0 <= i < el.children.len() implies tame_child(
                #[trigger] el.children[i],
            ) by {
                assert(tame_case_child(el.children[i]));
                assert(!crate::directives::is_case_child(el.children[i]));
            }
        }
        lemma_rw_children_da(el.children);
        let out = rw_elem(el, ctx);
        assert(out.children == rw_children(el.children));
        if out.name == SpecName::Tag(switch_tag()) {
            assert(!spec_has_case_child(out.children));
        }
    }
}

proof fn lemma_rw_child_da(c: SpecChild)
    requires
        tame_child(c),
    ensures
        da_child(rw_child(c)),
        !crate::directives::is_case_child(rw_child(c)),
    decreases c,
{
    match c {
        SpecChild::Elem(el) => lemma_rw_elem_da(el, Ctx::TemplateChild),
        SpecChild::Frag(cs) => lemma_rw_children_da(cs),
        SpecChild::Container(oe) => match oe {
            Some(e) => lemma_rw_expr_da(*e, Ctx::TemplateChild),
            None => {},
        },
        SpecChild::Text(_) => {},
    }
}

proof fn lemma_rw_children_da(cs: Seq<SpecChild>)
    requires
        tame_children(cs),
    ensures
        da_children(rw_children(cs)),
        no_case_child(rw_children(cs)),
    decreases cs,
{
    crate::rewrite::lemma_rw_children(cs);
    assert forall|i: int| 0 <= i < rw_children(cs).len() implies da_child(
        #[trigger] rw_children(cs)[i],
    ) && !crate::directives::is_case_child(rw_children(cs)[i]) by {
        assert(rw_children(cs)[i] == rw_child(cs[i]));
        assert(tame_child(cs[i]));
        lemma_rw_child_da(cs[i]);
    }
}

proof fn lemma_rw_expr_da(e: SpecExpr, ctx: Ctx)
    requires
        tame_expr(e),
    ensures
        da_expr(rw_expr(e, ctx)),
    decreases e,
{
    reveal_with_fuel(da_expr, 2);
    match e {
        SpecExpr::Elem(el) => lemma_rw_elem_da(el, ctx),
        SpecExpr::Frag(cs) => lemma_rw_children_da(cs),
        SpecExpr::Cond(t, c, a) => {
            lemma_rw_expr_da(*t, ctx);
            lemma_rw_expr_da(*c, ctx);
            lemma_rw_expr_da(*a, ctx);
        },
        SpecExpr::Call(f, args) => {
            lemma_rw_expr_da(*f, ctx);
            lemma_rw_exprs_da(args, ctx);
        },
        SpecExpr::Member(obj, _) => lemma_rw_expr_da(*obj, ctx),
        SpecExpr::Not(x) => lemma_rw_expr_da(*x, ctx),
        SpecExpr::And(x, y) => {
            lemma_rw_expr_da(*x, ctx);
            lemma_rw_expr_da(*y, ctx);
        },
        SpecExpr::Paren(x) => lemma_rw_expr_da(*x, ctx),
        SpecExpr::Assign(_, r) => {
            lemma_rw_expr_da(*r, Ctx::Assignment);
        },
        SpecExpr::Lambda(SpecLambdaBody::Expr(b)) => lemma_rw_expr_da(*b, ctx),
        SpecExpr::Lambda(SpecLambdaBody::Block(ss)) => lemma_rw_stmts_da(ss, ctx),
        SpecExpr::Opaque(_, subs) => lemma_rw_exprs_da(subs, ctx),
        _ => {},
    }
}

proof fn lemma_rw_exprs_da(es: Seq<SpecExpr>, ctx: Ctx)
    requires
        tame_exprs(es),
    ensures
        da_exprs(rw_exprs(es, ctx)),
    decreases es,
{
    crate::rewrite::lemma_rw_exprs(es, ctx);
    assert forall|i: int| 0 <= i < rw_exprs(es, ctx).len() implies da_expr(
        #[trigger] rw_exprs(es, ctx)[i],
    ) by {
        assert(rw_exprs(es, ctx)[i] == rw_expr(es[i], ctx));
        assert(tame_expr(es[i]));
        lemma_rw_expr_da(es[i], ctx);
    }
}

proof fn lemma_rw_declarators_da(ds: Seq<SpecDeclarator>)
    requires
        tame_declarators(ds),
    ensures
        da_declarators(rw_declarators(ds)),
    decreases ds,
{
    crate::rewrite::lemma_rw_declarators(ds);
    assert forall|i: int| 0 <= i < rw_declarators(ds).len() implies da_declarator(
        #[trigger] rw_declarators(ds)[i],
    ) by {
        assert(rw_declarators(ds)[i] == rw_declarator(ds[i]));
        assert(tame_declarator(ds[i]));
        match ds[i].init {
            Some(e) => lemma_rw_expr_da(*e, Ctx::Assignment),
            None => {},
        }
    }
}

proof fn lemma_rw_stmt_da(s: SpecStmt, ctx: Ctx)
    requires
        tame_stmt(s),
    ensures
        da_stmt(rw_stmt(s, ctx)),
    decreases s,
{
    match s {
        SpecStmt::Return(oe) => match oe {
            Some(e) => lemma_rw_expr_da(*e, Ctx::Return),
            None => {},
        },
        SpecStmt::Decl(_, ds) => lemma_rw_declarators_da(ds),
        SpecStmt::Expr(e) => lemma_rw_expr_da(*e, ctx),
        SpecStmt::Func(_, body) => lemma_rw_stmts_da(body, ctx),
        SpecStmt::Block(ss) => lemma_rw_stmts_da(ss, ctx),
        SpecStmt::Opaque(_, es, ss) => {
            lemma_rw_exprs_da(es, ctx);
            lemma_rw_stmts_da(ss, ctx);
        },
    }
}

proof fn lemma_rw_stmts_da(ss: Seq<SpecStmt>, ctx: Ctx)
    requires
        tame_stmts(ss),
    ensures
        da_stmts(rw_stmts(ss, ctx)),
    decreases ss,
{
    crate::rewrite::lemma_rw_stmts(ss, ctx);
    assert forall|i: int| 0 <= i < rw_stmts(ss, ctx).len() implies da_stmt(
        #[trigger] rw_stmts(ss, ctx)[i],
    ) by {
        assert(rw_stmts(ss, ctx)[i] == rw_stmt(ss[i], ctx));
        assert(tame_stmt(ss[i]));
        lemma_rw_stmt_da(ss[i], ctx);
    }
}

/// Nested directive recursion: the primary pass transforms every armed
/// directive, however deeply nested in the children of another directive;
/// none survives in its output.
pub proof fn lemma_rewrite_disarms(p: SpecProgram)
    requires
        tame_program(p),
    ensures
        da_program(rw_program(p)),
{
    lemma_rw_stmts_da(p.body, Ctx::TemplateChild);
}

} // verus!
