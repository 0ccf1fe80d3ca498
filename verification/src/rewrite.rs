//! The primary rewriter: a depth-first traversal that tracks the position
//! context of the visited node, recognizes the two directive elements, and
//! replaces each with an equivalent conditional expression.
//!
//! The context decides two things.  How a guard is evaluated: a conditional's
//! guard is wrapped in a boolean coercion except as a return operand, a switch
//! chain's guard is wrapped only in a template-child slot, and a parallel
//! switch never coerces.  And how the result is packaged: in a template-child
//! slot the conditional is placed in an expression container under a
//! fragment-like element, elsewhere it is smuggled through the element-shaped
//! slot inside a placeholder marker element that the post-processing pass
//! removes.
//!
//! The whole pass is specified by the `rw_*` spec functions over the ghost
//! model; the executable functions are proved to implement them exactly.

use vstd::prelude::*;

use crate::ast::{
    attrs_view, child_view, children_view, declarators_view, elem_view, expr_view, exprs_view,
    lambda_body_view,
    lemma_children_view, lemma_declarators_view, lemma_exprs_view, lemma_stmts_view, stmts_view,
    AttrEntry, Child, Ctx, Declarator, Elem, Expr, LambdaBody, Program,
    SpecAttrEntry, SpecChild, SpecDeclarator, SpecElem, SpecExpr, SpecLambdaBody, SpecName,
    SpecProgram, SpecStmt, Stmt,
};
use crate::directives::{
    boolean_fn, condition_marker_tag, condition_tag, else_attr, extract_if_cond,
    fragment_tag, has_attr, has_case_children, is_case_child,
    is_case_element,
    lemma_meaningful_of_empty, lemma_meaningful_of_push, make_tag, meaningful, meaningful_child,
    meaningful_of, name_is_tag, short_circuit_attr, spec_has_attr, spec_has_case_child,
    spec_if_cond, switch_marker_tag, switch_tag,
};

verus! {

// ---------------------------------------------------------------------------
// Branches
// ---------------------------------------------------------------------------

/// One collected switch branch: its condition and its already-rewritten
/// children.
#[derive(Debug, PartialEq, Eq)]
pub struct Branch {
    pub cond: Expr,
    pub children: Vec<Child>,
}

/// Ghost mirror of [`Branch`].
#[verifier::ext_equal]
pub struct SpecBranch {
    pub cond: SpecExpr,
    pub children: Seq<SpecChild>,
}

impl View for Branch {
    type V = SpecBranch;

    open spec fn view(&self) -> SpecBranch {
        SpecBranch {
            cond: crate::ast::expr_view(self.cond),
            children: children_view(self.children@),
        }
    }
}

/// View of a branch list.
pub open spec fn branches_view(bs: Seq<Branch>) -> Seq<SpecBranch>
    decreases bs,
{
    if bs.len() == 0 {
        Seq::empty()
    } else {
        seq![bs[0]@] + branches_view(bs.subrange(1, bs.len() as int))
    }
}

pub broadcast proof fn lemma_branches_view(bs: Seq<Branch>)
    ensures
        (#[trigger] branches_view(bs)).len() == bs.len(),
        forall|i: int|
            #![trigger branches_view(bs)[i]]
            0 <= i < bs.len() ==> branches_view(bs)[i] == bs[i]@,
    decreases bs,
{
    if bs.len() > 0 {
        lemma_branches_view(bs.subrange(1, bs.len() as int));
        assert forall|i: int| 0 <= i < bs.len() implies branches_view(bs)[i] == bs[i]@ by {
            if i > 0 {
                assert(bs.subrange(1, bs.len() as int)[i - 1] == bs[i]);
            }
        }
    }
}

// ---------------------------------------------------------------------------
// Ghost building blocks
// ---------------------------------------------------------------------------

/// The boolean coercion call wrapped around a guard.
pub open spec fn coerce(cond: SpecExpr) -> SpecExpr {
    SpecExpr::Call(Box::new(SpecExpr::Ident(boolean_fn())), seq![cond])
}

/// Guard of the single-branch conditional: the raw condition as a return
/// operand, the coerced condition everywhere else.
pub open spec fn cond_guard(cond: SpecExpr, ctx: Ctx) -> SpecExpr {
    if ctx is Return {
        cond
    } else {
        coerce(cond)
    }
}

/// Guard of a short-circuit switch branch: coerced only in a template-child
/// slot, raw in return and assignment position.
pub open spec fn chain_guard(cond: SpecExpr, ctx: Ctx) -> SpecExpr {
    if ctx is TemplateChild {
        coerce(cond)
    } else {
        cond
    }
}

/// An attribute-less element of the given tag holding a single expression
/// container.
pub open spec fn wrapper_elem(tag: Seq<char>, e: SpecExpr) -> SpecElem {
    SpecElem {
        name: SpecName::Tag(tag),
        attrs: Seq::empty(),
        children: seq![SpecChild::Container(Some(Box::new(e)))],
    }
}

/// Final packaging of a rewritten directive: the fragment-like wrapper in a
/// template-child slot, the given placeholder marker elsewhere.
pub open spec fn package(e: SpecExpr, marker: Seq<char>, ctx: Ctx) -> SpecElem {
    if ctx is TemplateChild {
        wrapper_elem(fragment_tag(), e)
    } else {
        wrapper_elem(marker, e)
    }
}

/// Replacement of an armed conditional directive whose children are already
/// rewritten: `guard ? <>children</> : null`, packaged by context.
pub open spec fn conditional_elem(cond: SpecExpr, children: Seq<SpecChild>, ctx: Ctx) -> SpecElem {
    package(
        SpecExpr::Cond(
            Box::new(cond_guard(cond, ctx)),
            Box::new(SpecExpr::Frag(children)),
            Box::new(SpecExpr::Null),
        ),
        condition_marker_tag(),
        ctx,
    )
}

/// Content of one switch branch: the single meaningful element child bare;
/// otherwise the raw children (whitespace runs kept) grouped in a fragment.
pub open spec fn branch_body(children: Seq<SpecChild>) -> SpecExpr {
    let m = meaningful_of(children);
    if m.len() == 1 && m[0] is Elem {
        SpecExpr::Elem(m[0]->Elem_0)
    } else {
        SpecExpr::Frag(children)
    }
}

/// What a short-circuit chain falls through to: the else content, or null.
pub open spec fn chain_tail(els: Option<Seq<SpecChild>>) -> SpecExpr {
    match els {
        Some(cs) => branch_body(cs),
        None => SpecExpr::Null,
    }
}

/// The nested ternary chain over the branches in source order.
pub open spec fn chain(branches: Seq<SpecBranch>, tail: SpecExpr, ctx: Ctx) -> SpecExpr
    decreases branches,
{
    if branches.len() == 0 {
        tail
    } else {
        SpecExpr::Cond(
            Box::new(chain_guard(branches[0].cond, ctx)),
            Box::new(branch_body(branches[0].children)),
            Box::new(chain(branches.subrange(1, branches.len() as int), tail, ctx)),
        )
    }
}

/// Replacement of a switch in short-circuit mode.
pub open spec fn short_circuit_elem(
    branches: Seq<SpecBranch>,
    els: Option<Seq<SpecChild>>,
    ctx: Ctx,
) -> SpecElem {
    package(chain(branches, chain_tail(els), ctx), switch_marker_tag(), ctx)
}

/// The conjunction of the negations of all branch conditions, left
/// associated; the literal `true` when there are none.
pub open spec fn neg_conj(conds: Seq<SpecExpr>) -> SpecExpr
    decreases conds,
{
    if conds.len() == 0 {
        SpecExpr::Bool(true)
    } else if conds.len() == 1 {
        SpecExpr::Not(Box::new(conds[0]))
    } else {
        SpecExpr::And(
            Box::new(neg_conj(conds.drop_last())),
            Box::new(SpecExpr::Not(Box::new(conds.last()))),
        )
    }
}

/// The conditions of a branch list, in order.
pub open spec fn conds_of(branches: Seq<SpecBranch>) -> Seq<SpecExpr> {
    branches.map_values(|b: SpecBranch| b.cond)
}

/// One parallel branch: its raw guard testing its raw children, rendered
/// independently of every other branch.
pub open spec fn parallel_child(b: SpecBranch) -> SpecChild {
    SpecChild::Container(
        Some(
            Box::new(
                SpecExpr::Cond(
                    Box::new(b.cond),
                    Box::new(SpecExpr::Frag(b.children)),
                    Box::new(SpecExpr::Null),
                ),
            ),
        ),
    )
}

/// The guarded else child of a parallel switch: rendered exactly when no
/// branch condition holds.
pub open spec fn parallel_else_child(branches: Seq<SpecBranch>, cs: Seq<SpecChild>) -> SpecChild {
    SpecChild::Container(
        Some(
            Box::new(
                SpecExpr::Cond(
                    Box::new(neg_conj(conds_of(branches))),
                    Box::new(SpecExpr::Frag(cs)),
                    Box::new(SpecExpr::Null),
                ),
            ),
        ),
    )
}

/// All children of a parallel switch replacement: one guarded container per
/// branch, plus the guarded else content if there is one.
pub open spec fn parallel_children(
    branches: Seq<SpecBranch>,
    els: Option<Seq<SpecChild>>,
) -> Seq<SpecChild> {
    let main = branches.map_values(|b: SpecBranch| parallel_child(b));
    match els {
        Some(cs) => main.push(parallel_else_child(branches, cs)),
        None => main,
    }
}

/// Replacement of a switch in parallel mode; always the fragment-like element
/// form, whatever the context, since the branches render as template children.
pub open spec fn parallel_elem(branches: Seq<SpecBranch>, els: Option<Seq<SpecChild>>) -> SpecElem {
    SpecElem {
        name: SpecName::Tag(fragment_tag()),
        attrs: Seq::empty(),
        children: parallel_children(branches, els),
    }
}

/// Replacement of a switch with usable cases but no normal branch: the else
/// content is hoisted directly, packaged by context.
pub open spec fn else_only_elem(children: Seq<SpecChild>, ctx: Ctx) -> SpecElem {
    if ctx is TemplateChild {
        match branch_body(children) {
            SpecExpr::Elem(el) => el,
            _ => SpecElem {
                name: SpecName::Tag(fragment_tag()),
                attrs: Seq::empty(),
                children: children,
            },
        }
    } else {
        wrapper_elem(switch_marker_tag(), branch_body(children))
    }
}

/// Replacement of a switch with no usable case at all: an empty fragment-like
/// element.
pub open spec fn empty_switch_elem() -> SpecElem {
    SpecElem { name: SpecName::Tag(fragment_tag()), attrs: Seq::empty(), children: Seq::empty() }
}

/// Mode selection: short-circuit when the flag is present, or when a
/// degenerate switch (at most one branch, no else) sits in return or
/// assignment position; parallel otherwise.
pub open spec fn switch_elem(
    branches: Seq<SpecBranch>,
    els: Option<Seq<SpecChild>>,
    short_circuit: bool,
    ctx: Ctx,
) -> SpecElem {
    if branches.len() == 0 && els is None {
        empty_switch_elem()
    } else if branches.len() == 0 {
        else_only_elem(els->0, ctx)
    } else if short_circuit || (!(ctx is TemplateChild) && branches.len() <= 1 && els is None) {
        short_circuit_elem(branches, els, ctx)
    } else {
        parallel_elem(branches, els)
    }
}

// ---------------------------------------------------------------------------
// The rewrite, as spec functions
// ---------------------------------------------------------------------------

/// Case collection over a switch's children, in source order: an element
/// named `Switch.Case` with an arming `if` attribute is a branch; one with an
/// `else` attribute instead supplies the else content, the last such case
/// winning; everything else is dropped.  The children of every kept case are
/// rewritten (directives nested in them are transformed independently).
pub open spec fn collect(cs: Seq<SpecChild>) -> (Seq<SpecBranch>, Option<Seq<SpecChild>>)
    decreases cs,
{
    if cs.len() == 0 {
        (Seq::empty(), None)
    } else {
        let rest = collect(cs.subrange(1, cs.len() as int));
        if is_case_child(cs[0]) && spec_if_cond(cs[0]->Elem_0.attrs) is Some {
            (
                seq![
                    SpecBranch {
                        cond: spec_if_cond(cs[0]->Elem_0.attrs)->0,
                        children: rw_children(cs[0]->Elem_0.children),
                    },
                ] + rest.0,
                rest.1,
            )
        } else if is_case_child(cs[0]) && spec_has_attr(cs[0]->Elem_0.attrs, else_attr()) {
            (
                rest.0,
                if rest.1 is Some {
                    rest.1
                } else {
                    Some(rw_children(cs[0]->Elem_0.children))
                },
            )
        } else {
            rest
        }
    }
}

/// Element visitation: an armed conditional or a switch with case children is
/// replaced; any other element keeps its name and attributes and has its
/// children rewritten in template-child context.
pub open spec fn rw_elem(el: SpecElem, ctx: Ctx) -> SpecElem
    decreases el,
{
    if el.name == SpecName::Tag(condition_tag()) && spec_if_cond(el.attrs) is Some {
        conditional_elem(spec_if_cond(el.attrs)->0, rw_children(el.children), ctx)
    } else if el.name == SpecName::Tag(switch_tag()) && spec_has_case_child(el.children) {
        let collected = collect(el.children);
        switch_elem(
            collected.0,
            collected.1,
            spec_has_attr(el.attrs, short_circuit_attr()),
            ctx,
        )
    } else {
        SpecElem { name: el.name, attrs: el.attrs, children: rw_children(el.children) }
    }
}

/// A child slot always resets the context to template-child.
pub open spec fn rw_child(c: SpecChild) -> SpecChild
    decreases c,
{
    match c {
        SpecChild::Elem(el) => SpecChild::Elem(rw_elem(el, Ctx::TemplateChild)),
        SpecChild::Frag(cs) => SpecChild::Frag(rw_children(cs)),
        SpecChild::Container(oe) => SpecChild::Container(
            match oe {
                Some(e) => Some(Box::new(rw_expr(*e, Ctx::TemplateChild))),
                None => None,
            },
        ),
        SpecChild::Text(_) => c,
    }
}

pub open spec fn rw_children(cs: Seq<SpecChild>) -> Seq<SpecChild>
    decreases cs,
{
    if cs.len() == 0 {
        Seq::empty()
    } else {
        seq![rw_child(cs[0])] + rw_children(cs.subrange(1, cs.len() as int))
    }
}

/// Expression visitation: an element expression keeps the inherited context;
/// an assignment rewrites its right side in assignment context; a lambda body
/// inherits the context; all other forms recurse structurally.
pub open spec fn rw_expr(e: SpecExpr, ctx: Ctx) -> SpecExpr
    decreases e,
{
    match e {
        SpecExpr::Elem(el) => SpecExpr::Elem(rw_elem(el, ctx)),
        SpecExpr::Frag(cs) => SpecExpr::Frag(rw_children(cs)),
        SpecExpr::Cond(t, c, a) => SpecExpr::Cond(
            Box::new(rw_expr(*t, ctx)),
            Box::new(rw_expr(*c, ctx)),
            Box::new(rw_expr(*a, ctx)),
        ),
        SpecExpr::Call(f, args) => SpecExpr::Call(
            Box::new(rw_expr(*f, ctx)),
            rw_exprs(args, ctx),
        ),
        SpecExpr::Member(obj, prop) => SpecExpr::Member(Box::new(rw_expr(*obj, ctx)), prop),
        SpecExpr::Ident(_) => e,
        SpecExpr::Str(_) => e,
        SpecExpr::Bool(_) => e,
        SpecExpr::Null => e,
        SpecExpr::Not(x) => SpecExpr::Not(Box::new(rw_expr(*x, ctx))),
        SpecExpr::And(x, y) => SpecExpr::And(
            Box::new(rw_expr(*x, ctx)),
            Box::new(rw_expr(*y, ctx)),
        ),
        SpecExpr::Paren(x) => SpecExpr::Paren(Box::new(rw_expr(*x, ctx))),
        SpecExpr::Assign(l, r) => SpecExpr::Assign(l, Box::new(rw_expr(*r, Ctx::Assignment))),
        SpecExpr::Lambda(SpecLambdaBody::Expr(b)) => SpecExpr::Lambda(
            SpecLambdaBody::Expr(Box::new(rw_expr(*b, ctx))),
        ),
        SpecExpr::Lambda(SpecLambdaBody::Block(ss)) => SpecExpr::Lambda(
            SpecLambdaBody::Block(rw_stmts(ss, ctx)),
        ),
        SpecExpr::Opaque(h, subs) => SpecExpr::Opaque(h, rw_exprs(subs, ctx)),
    }
}

pub open spec fn rw_exprs(es: Seq<SpecExpr>, ctx: Ctx) -> Seq<SpecExpr>
    decreases es,
{
    if es.len() == 0 {
        Seq::empty()
    } else {
        seq![rw_expr(es[0], ctx)] + rw_exprs(es.subrange(1, es.len() as int), ctx)
    }
}

/// A variable initializer is always rewritten in assignment context.
pub open spec fn rw_declarator(d: SpecDeclarator) -> SpecDeclarator
    decreases d,
{
    SpecDeclarator {
        name: d.name,
        init: match d.init {
            Some(e) => Some(Box::new(rw_expr(*e, Ctx::Assignment))),
            None => None,
        },
    }
}

pub open spec fn rw_declarators(ds: Seq<SpecDeclarator>) -> Seq<SpecDeclarator>
    decreases ds,
{
    if ds.len() == 0 {
        Seq::empty()
    } else {
        seq![rw_declarator(ds[0])] + rw_declarators(ds.subrange(1, ds.len() as int))
    }
}

/// Statement visitation: a return operand is rewritten in return context, a
/// declarator in assignment context; other statements pass the inherited
/// context on.
pub open spec fn rw_stmt(s: SpecStmt, ctx: Ctx) -> SpecStmt
    decreases s,
{
    match s {
        SpecStmt::Return(oe) => SpecStmt::Return(
            match oe {
                Some(e) => Some(Box::new(rw_expr(*e, Ctx::Return))),
                None => None,
            },
        ),
        SpecStmt::Decl(k, ds) => SpecStmt::Decl(k, rw_declarators(ds)),
        SpecStmt::Expr(e) => SpecStmt::Expr(Box::new(rw_expr(*e, ctx))),
        SpecStmt::Func(name, body) => SpecStmt::Func(name, rw_stmts(body, ctx)),
        SpecStmt::Block(ss) => SpecStmt::Block(rw_stmts(ss, ctx)),
        SpecStmt::Opaque(h, es, ss) => SpecStmt::Opaque(
            h,
            rw_exprs(es, ctx),
            rw_stmts(ss, ctx),
        ),
    }
}

pub open spec fn rw_stmts(ss: Seq<SpecStmt>, ctx: Ctx) -> Seq<SpecStmt>
    decreases ss,
{
    if ss.len() == 0 {
        Seq::empty()
    } else {
        seq![rw_stmt(ss[0], ctx)] + rw_stmts(ss.subrange(1, ss.len() as int), ctx)
    }
}

/// The whole primary pass: every top-level statement, starting in the default
/// template-child context.
pub open spec fn rw_program(p: SpecProgram) -> SpecProgram {
    SpecProgram { body: rw_stmts(p.body, Ctx::TemplateChild) }
}

// ---------------------------------------------------------------------------
// Pointwise characterization of the sequence rewrites
// ---------------------------------------------------------------------------

pub broadcast proof fn lemma_rw_children(cs: Seq<SpecChild>)
    ensures
        (#[trigger] rw_children(cs)).len() == cs.len(),
        forall|i: int|
            #![trigger rw_children(cs)[i]]
            #![trigger rw_child(cs[i])]
            0 <= i < cs.len() ==> rw_children(cs)[i] == rw_child(cs[i]),
    decreases cs,
{
    if cs.len() > 0 {
        lemma_rw_children(cs.subrange(1, cs.len() as int));
        assert forall|i: int| 0 <= i < cs.len() implies rw_children(cs)[i] == rw_child(cs[i]) by {
            if i > 0 {
                assert(cs.subrange(1, cs.len() as int)[i - 1] == cs[i]);
            }
        }
    }
}

pub broadcast proof fn lemma_rw_exprs(es: Seq<SpecExpr>, ctx: Ctx)
    ensures
        (#[trigger] rw_exprs(es, ctx)).len() == es.len(),
        forall|i: int|
            #![trigger rw_exprs(es, ctx)[i]]
            #![trigger rw_expr(es[i], ctx)]
            0 <= i < es.len() ==> rw_exprs(es, ctx)[i] == rw_expr(es[i], ctx),
    decreases es,
{
    if es.len() > 0 {
        lemma_rw_exprs(es.subrange(1, es.len() as int), ctx);
        assert forall|i: int| 0 <= i < es.len() implies rw_exprs(es, ctx)[i] == rw_expr(
            es[i],
            ctx,
        ) by {
            if i > 0 {
                assert(es.subrange(1, es.len() as int)[i - 1] == es[i]);
            }
        }
    }
}

pub broadcast proof fn lemma_rw_declarators(ds: Seq<SpecDeclarator>)
    ensures
        (#[trigger] rw_declarators(ds)).len() == ds.len(),
        forall|i: int|
            #![trigger rw_declarators(ds)[i]]
            #![trigger rw_declarator(ds[i])]
            0 <= i < ds.len() ==> rw_declarators(ds)[i] == rw_declarator(ds[i]),
    decreases ds,
{
    if ds.len() > 0 {
        lemma_rw_declarators(ds.subrange(1, ds.len() as int));
        assert forall|i: int| 0 <= i < ds.len() implies rw_declarators(ds)[i] == rw_declarator(
            ds[i],
        ) by {
            if i > 0 {
                assert(ds.subrange(1, ds.len() as int)[i - 1] == ds[i]);
            }
        }
    }
}

pub broadcast proof fn lemma_rw_stmts(ss: Seq<SpecStmt>, ctx: Ctx)
    ensures
        (#[trigger] rw_stmts(ss, ctx)).len() == ss.len(),
        forall|i: int|
            #![trigger rw_stmts(ss, ctx)[i]]
            #![trigger rw_stmt(ss[i], ctx)]
            0 <= i < ss.len() ==> rw_stmts(ss, ctx)[i] == rw_stmt(ss[i], ctx),
    decreases ss,
{
    if ss.len() > 0 {
        lemma_rw_stmts(ss.subrange(1, ss.len() as int), ctx);
        assert forall|i: int| 0 <= i < ss.len() implies rw_stmts(ss, ctx)[i] == rw_stmt(
            ss[i],
            ctx,
        ) by {
            if i > 0 {
                assert(ss.subrange(1, ss.len() as int)[i - 1] == ss[i]);
            }
        }
    }
}

/// How case collection grows when one more child is scanned; this is the shape
/// of the executable loop.
pub proof fn lemma_collect_push(cs: Seq<SpecChild>, c: SpecChild)
    ensures
        collect(cs.push(c)) == {
            let rest = collect(cs);
            if is_case_child(c) && spec_if_cond(c->Elem_0.attrs) is Some {
                (
                    rest.0.push(
                        SpecBranch {
                            cond: spec_if_cond(c->Elem_0.attrs)->0,
                            children: rw_children(c->Elem_0.children),
                        },
                    ),
                    rest.1,
                )
            } else if is_case_child(c) && spec_has_attr(c->Elem_0.attrs, else_attr()) {
                (rest.0, Some(rw_children(c->Elem_0.children)))
            } else {
                rest
            }
        },
    decreases cs,
{
    let whole = cs.push(c);
    if cs.len() == 0 {
        assert(whole.subrange(1, whole.len() as int) =~= Seq::<SpecChild>::empty());
        assert(collect(Seq::<SpecChild>::empty()) == (Seq::<SpecBranch>::empty(), None::<
            Seq<SpecChild>,
        >));
        if is_case_child(c) && spec_if_cond(c->Elem_0.attrs) is Some {
            assert(collect(whole).0 =~= collect(cs).0.push(
                SpecBranch {
                    cond: spec_if_cond(c->Elem_0.attrs)->0,
                    children: rw_children(c->Elem_0.children),
                },
            ));
        }
    } else {
        lemma_collect_push(cs.subrange(1, cs.len() as int), c);
        assert(whole.subrange(1, whole.len() as int) =~= cs.subrange(1, cs.len() as int).push(c));
        assert(whole[0] == cs[0]);
        if is_case_child(c) && spec_if_cond(c->Elem_0.attrs) is Some {
            if is_case_child(cs[0]) && spec_if_cond(cs[0]->Elem_0.attrs) is Some {
                assert(collect(whole).0 =~= collect(cs).0.push(
                    SpecBranch {
                        cond: spec_if_cond(c->Elem_0.attrs)->0,
                        children: rw_children(c->Elem_0.children),
                    },
                ));
            }
        }
    }
}

// ---------------------------------------------------------------------------
// Executable building blocks
// ---------------------------------------------------------------------------

/// An empty attribute list.
fn no_attrs() -> (r: Vec<AttrEntry>)
    ensures
        attrs_view(r@) == Seq::<SpecAttrEntry>::empty(),
{
    let r: Vec<AttrEntry> = Vec::new();
    proof {
        assert(attrs_view(r@) =~= Seq::<SpecAttrEntry>::empty());
    }
    r
}

/// `Boolean(cond)`.
fn boolean_coerce(cond: Expr) -> (r: Expr)
    ensures
        r@ == coerce(cond@),
{
    let ghost gcond = cond@;
    let mut args: Vec<Expr> = Vec::new();
    args.push(cond);
    proof {
        reveal_with_fuel(expr_view, 3);
        lemma_exprs_view(args@);
        assert(exprs_view(args@) =~= seq![gcond]);
    }
    Expr::Call(Box::new(Expr::Ident("Boolean".to_owned())), args)
}

fn guard_for_cond(cond: Expr, ctx: Ctx) -> (r: Expr)
    ensures
        r@ == cond_guard(cond@, ctx),
{
    match ctx {
        Ctx::Return => cond,
        _ => boolean_coerce(cond),
    }
}

fn guard_for_chain(cond: Expr, ctx: Ctx) -> (r: Expr)
    ensures
        r@ == chain_guard(cond@, ctx),
{
    match ctx {
        Ctx::TemplateChild => boolean_coerce(cond),
        _ => cond,
    }
}

/// An attribute-less element of the given tag around one expression container.
fn wrap_in_elem(tag: &str, e: Expr) -> (r: Elem)
    ensures
        r@ == wrapper_elem(tag@, e@),
{
    let ghost ge = e@;
    let mut children: Vec<Child> = Vec::new();
    children.push(Child::Container(Some(Box::new(e))));
    proof {
        lemma_children_view(children@);
        assert(children_view(children@) =~= seq![
            SpecChild::Container(Some(Box::new(ge))),
        ]);
    }
    Elem { name: make_tag(tag), attrs: no_attrs(), children }
}

/// Context packaging: fragment wrapper in a template-child slot, the given
/// marker element elsewhere.
fn package_expr(e: Expr, marker: &str, ctx: Ctx) -> (r: Elem)
    ensures
        r@ == package(e@, marker@, ctx),
{
    match ctx {
        Ctx::TemplateChild => wrap_in_elem("React.Fragment", e),
        _ => wrap_in_elem(marker, e),
    }
}

/// Replacement of an armed conditional directive (children already rewritten).
fn make_conditional(cond: Expr, children: Vec<Child>, ctx: Ctx) -> (r: Elem)
    ensures
        r@ == conditional_elem(cond@, children_view(children@), ctx),
{
    let guard = guard_for_cond(cond, ctx);
    let body = Expr::Cond(Box::new(guard), Box::new(Expr::Frag(children)), Box::new(Expr::Null));
    proof {
        reveal_with_fuel(expr_view, 3);
    }
    package_expr(body, "__CONDITION_PLACEHOLDER__", ctx)
}

/// If the list has exactly one meaningful child, its index.
#[verifier::loop_isolation(false)]
pub(crate) fn scan_meaningful(cs: &Vec<Child>) -> (r: Option<usize>)
    ensures
        match r {
            Some(i) => i < cs@.len() && meaningful_of(children_view(cs@)).len() == 1
                && meaningful_of(children_view(cs@))[0] == children_view(cs@)[i as int],
            None => meaningful_of(children_view(cs@)).len() != 1,
        },
{
    let ghost gcs = children_view(cs@);
    proof {
        lemma_children_view(cs@);
        lemma_meaningful_of_empty(gcs.subrange(0, 0));
    }
    let mut found: Option<usize> = None;
    let mut count: usize = 0;
    let n = cs.len();
    for i in 0..n
        invariant
            n == cs.len(),
            gcs == children_view(cs@),
            gcs.len() == n,
            count == meaningful_of(gcs.subrange(0, i as int)).len(),
            count <= i,
            match found {
                Some(k) => count >= 1 && k < i && meaningful_of(gcs.subrange(0, i as int))[0]
                    == gcs[k as int],
                None => count == 0,
            },
    {
        proof {
            lemma_children_view(cs@);
            lemma_meaningful_of_push(gcs.subrange(0, i as int), gcs[i as int]);
            assert(gcs.subrange(0, i + 1) =~= gcs.subrange(0, i as int).push(gcs[i as int]));
        }
        if meaningful_child(&cs[i]) {
            if count == 0 {
                found = Some(i);
            }
            count += 1;
        }
    }
    proof {
        assert(gcs.subrange(0, n as int) =~= gcs);
    }
    if count == 1 {
        found
    } else {
        None
    }
}

/// Content of one switch branch: the single meaningful element child bare,
/// otherwise the raw children grouped in a fragment.
pub(crate) fn make_branch_body(children: Vec<Child>) -> (r: Expr)
    ensures
        r@ == branch_body(children_view(children@)),
{
    if let Some(i) = scan_meaningful(&children) {
        if let Child::Elem(el) = &children[i] {
            proof {
                lemma_children_view(children@);
            }
            return Expr::Elem(Box::new(el.deep_clone()));
        }
        proof {
            lemma_children_view(children@);
        }
    }
    Expr::Frag(children)
}

/// The chain tail: else content or null.
fn make_chain_tail(els: Option<Vec<Child>>) -> (r: Expr)
    ensures
        r@ == chain_tail(opt_children_view(els)),
{
    match els {
        Some(cs) => make_branch_body(cs),
        None => Expr::Null,
    }
}

/// View of an optional child list.
pub open spec fn opt_children_view(o: Option<Vec<Child>>) -> Option<Seq<SpecChild>> {
    match o {
        Some(v) => Some(children_view(v@)),
        None => None,
    }
}

/// The nested ternary chain, built right to left over the branches.
#[verifier::loop_isolation(false)]
fn make_chain(branches: Vec<Branch>, tail: Expr, ctx: Ctx) -> (r: Expr)
    ensures
        r@ == chain(branches_view(branches@), tail@, ctx),
{
    let ghost gbs = branches_view(branches@);
    let ghost gtail = tail@;
    let ghost n = branches@.len() as int;
    let mut rem = branches;
    let mut acc = tail;
    proof {
        lemma_branches_view(rem@);
        assert(gbs.subrange(n, n) =~= Seq::<SpecBranch>::empty());
    }
    while rem.len() > 0
        invariant
            rem@.len() <= n,
            gbs.len() == n,
            forall|j: int| 0 <= j < rem@.len() ==> gbs[j] == #[trigger] rem@[j]@,
            acc@ == chain(gbs.subrange(rem@.len() as int, n), gtail, ctx),
        decreases rem@.len(),
    {
        let ghost k = rem@.len() as int;
        let b = rem.pop().unwrap();
        proof {
            assert(b@ == gbs[k - 1]);
        }
        let guard = guard_for_chain(b.cond, ctx);
        let body = make_branch_body(b.children);
        acc = Expr::Cond(Box::new(guard), Box::new(body), Box::new(acc));
        proof {
            reveal_with_fuel(expr_view, 2);
            assert(gbs.subrange(k - 1, n).subrange(1, n - (k - 1)) =~= gbs.subrange(k, n));
            assert(gbs.subrange(k - 1, n)[0] == gbs[k - 1]);
        }
    }
    proof {
        assert(gbs.subrange(0, n) =~= gbs);
    }
    acc
}

/// `!c1 && !c2 && ...` over the branch conditions, left associated.
#[verifier::rlimit(30)]
#[verifier::loop_isolation(false)]
fn make_neg_conj(branches: &Vec<Branch>) -> (r: Expr)
    ensures
        r@ == neg_conj(conds_of(branches_view(branches@))),
{
    let ghost gconds = conds_of(branches_view(branches@));
    proof {
        lemma_branches_view(branches@);
    }
    let n = branches.len();
    if n == 0 {
        proof {
            assert(gconds =~= Seq::<SpecExpr>::empty());
        }
        return Expr::Bool(true);
    }
    let mut acc = Expr::Not(Box::new(branches[0].cond.deep_clone()));
    proof {
        reveal_with_fuel(expr_view, 2);
        assert(gconds.subrange(0, 1) =~= seq![gconds[0]]);
    }
    for i in 1..n
        invariant
            n == branches.len(),
            gconds == conds_of(branches_view(branches@)),
            gconds.len() == n,
            1 <= i <= n,
            acc@ == neg_conj(gconds.subrange(0, i as int)),
    {
        proof {
            lemma_branches_view(branches@);
            assert(gconds.subrange(0, i + 1).drop_last() =~= gconds.subrange(0, i as int));
            assert(gconds.subrange(0, i + 1).last() == gconds[i as int]);
        }
        acc = Expr::And(Box::new(acc), Box::new(Expr::Not(Box::new(branches[i].cond.deep_clone()))));
        proof {
            reveal_with_fuel(expr_view, 2);
        }
    }
    proof {
        assert(gconds.subrange(0, n as int) =~= gconds);
    }
    acc
}

/// Replacement of a switch in parallel mode.
#[verifier::loop_isolation(false)]
fn make_parallel(branches: Vec<Branch>, els: Option<Vec<Child>>) -> (r: Elem)
    ensures
        r@ == parallel_elem(branches_view(branches@), opt_children_view(els)),
{
    let ghost gbs = branches_view(branches@);
    let ghost gels = opt_children_view(els);
    let neg = make_neg_conj(&branches);
    let mut out: Vec<Child> = Vec::new();
    let mut rem = branches;
    let total: usize = rem.len();
    let mut taken: usize = 0;
    proof {
        lemma_branches_view(rem@);
    }
    while rem.len() > 0
        invariant
            gbs.len() == total,
            taken + rem@.len() == gbs.len(),
            forall|j: int| 0 <= j < rem@.len() ==> gbs[taken + j] == #[trigger] rem@[j]@,
            out@.len() == taken,
            forall|j: int| 0 <= j < taken ==> child_view(#[trigger] out@[j]) == parallel_child(gbs[j]),
        decreases rem@.len(),
    {
        let b = rem.remove(0);
        proof {
            assert(b@ == gbs[taken as int]);
        }
        let guarded = Expr::Cond(
            Box::new(b.cond),
            Box::new(Expr::Frag(b.children)),
            Box::new(Expr::Null),
        );
        out.push(Child::Container(Some(Box::new(guarded))));
        taken += 1;
        proof {
            reveal_with_fuel(expr_view, 3);
            reveal_with_fuel(child_view, 2);
        }
    }
    if let Some(cs) = els {
        let guarded = Expr::Cond(Box::new(neg), Box::new(Expr::Frag(cs)), Box::new(Expr::Null));
        out.push(Child::Container(Some(Box::new(guarded))));
    }
    proof {
        reveal_with_fuel(expr_view, 3);
        reveal_with_fuel(child_view, 2);
        reveal_with_fuel(elem_view, 2);
        lemma_children_view(out@);
        assert(children_view(out@) =~= parallel_children(gbs, gels));
    }
    Elem { name: make_tag("React.Fragment"), attrs: no_attrs(), children: out }
}

/// Replacement of a switch whose only usable case is the else case.
fn make_else_only(children: Vec<Child>, ctx: Ctx) -> (r: Elem)
    ensures
        r@ == else_only_elem(children_view(children@), ctx),
{
    match ctx {
        Ctx::TemplateChild => {
            if let Some(i) = scan_meaningful(&children) {
                if let Child::Elem(el) = &children[i] {
                    proof {
                        lemma_children_view(children@);
                    }
                    return el.deep_clone();
                }
                proof {
                    lemma_children_view(children@);
                }
            }
            Elem { name: make_tag("React.Fragment"), attrs: no_attrs(), children }
        },
        _ => {
            let body = make_branch_body(children);
            wrap_in_elem("__SWITCH_PLACEHOLDER__", body)
        },
    }
}

/// Replacement of a recognized switch: mode selection over the collected
/// branches.
fn make_switch(branches: Vec<Branch>, els: Option<Vec<Child>>, short_circuit: bool, ctx: Ctx) -> (r:
    Elem)
    ensures
        r@ == switch_elem(branches_view(branches@), opt_children_view(els), short_circuit, ctx),
{
    proof {
        lemma_branches_view(branches@);
    }
    let no_branches = branches.len() == 0;
    let degenerate = match ctx {
        Ctx::TemplateChild => false,
        _ => branches.len() <= 1 && els.is_none(),
    };
    if no_branches && els.is_none() {
        Elem { name: make_tag("React.Fragment"), attrs: no_attrs(), children: Vec::new() }
    } else if no_branches {
        let cs = els.unwrap();
        make_else_only(cs, ctx)
    } else if short_circuit || degenerate {
        let ghost gels = opt_children_view(els);
        let tail = make_chain_tail(els);
        let body = make_chain(branches, tail, ctx);
        package_expr(body, "__SWITCH_PLACEHOLDER__", ctx)
    } else {
        make_parallel(branches, els)
    }
}

// ---------------------------------------------------------------------------
// The rewrite, executable
// ---------------------------------------------------------------------------

/// Case collection over a switch's children; the kept cases' children are
/// rewritten here.
#[verifier::loop_isolation(false)]
fn collect_cases(cs: &Vec<Child>) -> (r: (Vec<Branch>, Option<Vec<Child>>))
    ensures
        branches_view(r.0@) == collect(children_view(cs@)).0,
        opt_children_view(r.1) == collect(children_view(cs@)).1,
    decreases cs,
{
    let ghost gcs = children_view(cs@);
    let mut bs: Vec<Branch> = Vec::new();
    let mut els: Option<Vec<Child>> = None;
    proof {
        lemma_children_view(cs@);
        lemma_branches_view(bs@);
        assert(gcs.subrange(0, 0) =~= Seq::<SpecChild>::empty());
        assert(branches_view(bs@) =~= Seq::<SpecBranch>::empty());
        assert(collect(gcs.subrange(0, 0)).0 =~= Seq::<SpecBranch>::empty());
    }
    let n = cs.len();
    for i in 0..n
        invariant
            n == cs.len(),
            gcs == children_view(cs@),
            gcs.len() == n,
            branches_view(bs@) == collect(gcs.subrange(0, i as int)).0,
            opt_children_view(els) == collect(gcs.subrange(0, i as int)).1,
    {
        proof {
            lemma_children_view(cs@);
            lemma_collect_push(gcs.subrange(0, i as int), gcs[i as int]);
            assert(gcs.subrange(0, i + 1) =~= gcs.subrange(0, i as int).push(gcs[i as int]));
        }
        if let Child::Elem(el) = &cs[i] {
            if is_case_element(el) {
                if let Some(cond) = extract_if_cond(&el.attrs) {
                    let ghost old_bs = branches_view(bs@);
                    proof {
                        lemma_branches_view(bs@);
                    }
                    let children = rewrite_children(&el.children);
                    let ghost gb = SpecBranch { cond: cond@, children: children_view(children@) };
                    bs.push(Branch { cond, children });
                    proof {
                        lemma_branches_view(bs@);
                        assert(bs@[bs@.len() - 1]@ == gb);
                        assert(branches_view(bs@) =~= old_bs.push(gb));
                    }
                } else if has_attr(&el.attrs, "else") {
                    els = Some(rewrite_children(&el.children));
                }
            }
        }
    }
    proof {
        assert(gcs.subrange(0, n as int) =~= gcs);
    }
    (bs, els)
}

/// Element visitation of the primary pass.
pub fn rewrite_elem(el: &Elem, ctx: Ctx) -> (r: Elem)
    ensures
        r@ == rw_elem(el@, ctx),
    decreases el,
{
    proof {
        reveal_strlit("Condition");
        reveal_strlit("Switch");
    }
    if name_is_tag(&el.name, "Condition") {
        if let Some(cond) = extract_if_cond(&el.attrs) {
            let children = rewrite_children(&el.children);
            return make_conditional(cond, children, ctx);
        }
    } else if name_is_tag(&el.name, "Switch") {
        if has_case_children(&el.children) {
            let short_circuit = has_attr(&el.attrs, "shortCircuit");
            let collected = collect_cases(&el.children);
            return make_switch(collected.0, collected.1, short_circuit, ctx);
        }
    }
    Elem {
        name: el.name.deep_clone(),
        attrs: crate::ast::clone_attrs(&el.attrs),
        children: rewrite_children(&el.children),
    }
}

/// Child visitation: the context is reset to template-child.
pub fn rewrite_child(c: &Child) -> (r: Child)
    ensures
        r@ == rw_child(c@),
    decreases c,
{
    match c {
        Child::Elem(el) => Child::Elem(rewrite_elem(el, Ctx::TemplateChild)),
        Child::Frag(cs) => Child::Frag(rewrite_children(cs)),
        Child::Container(oe) => Child::Container(
            match oe {
                Some(e) => Some(Box::new(rewrite_expr(e, Ctx::TemplateChild))),
                None => None,
            },
        ),
        Child::Text(s) => Child::Text(s.clone()),
    }
}

#[verifier::loop_isolation(false)]
pub fn rewrite_children(cs: &Vec<Child>) -> (r: Vec<Child>)
    ensures
        children_view(r@) == rw_children(children_view(cs@)),
    decreases cs,
{
    let mut out: Vec<Child> = Vec::new();
    let n = cs.len();
    proof {
        lemma_children_view(cs@);
    }
    for i in 0..n
        invariant
            n == cs.len(),
            children_view(cs@).len() == n,
            out@.len() == i,
            forall|j: int|
                0 <= j < i ==> child_view(#[trigger] out@[j]) == rw_child(children_view(cs@)[j]),
    {
        let rc = rewrite_child(&cs[i]);
        proof {
            assert(child_view(rc) == rw_child(children_view(cs@)[i as int]));
        }
        out.push(rc);
    }
    proof {
        lemma_children_view(cs@);
        lemma_children_view(out@);
        lemma_rw_children(children_view(cs@));
        assert(children_view(out@) =~= rw_children(children_view(cs@)));
    }
    out
}

/// Expression visitation of the primary pass.
#[verifier::rlimit(100)]
pub fn rewrite_expr(e: &Expr, ctx: Ctx) -> (r: Expr)
    ensures
        r@ == rw_expr(e@, ctx),
    decreases e,
{
    proof {
        reveal_with_fuel(expr_view, 2);
        reveal_with_fuel(lambda_body_view, 2);
    }
    match e {
        Expr::Elem(el) => Expr::Elem(Box::new(rewrite_elem(el, ctx))),
        Expr::Frag(cs) => Expr::Frag(rewrite_children(cs)),
        Expr::Cond(t, c, a) => Expr::Cond(
            Box::new(rewrite_expr(t, ctx)),
            Box::new(rewrite_expr(c, ctx)),
            Box::new(rewrite_expr(a, ctx)),
        ),
        Expr::Call(f, args) => Expr::Call(Box::new(rewrite_expr(f, ctx)), rewrite_exprs(args, ctx)),
        Expr::Member(obj, prop) => Expr::Member(Box::new(rewrite_expr(obj, ctx)), prop.clone()),
        Expr::Ident(s) => Expr::Ident(s.clone()),
        Expr::Str(s) => Expr::Str(s.clone()),
        Expr::Bool(b) => Expr::Bool(*b),
        Expr::Null => Expr::Null,
        Expr::Not(x) => Expr::Not(Box::new(rewrite_expr(x, ctx))),
        Expr::And(x, y) => Expr::And(
            Box::new(rewrite_expr(x, ctx)),
            Box::new(rewrite_expr(y, ctx)),
        ),
        Expr::Paren(x) => Expr::Paren(Box::new(rewrite_expr(x, ctx))),
        Expr::Assign(l, r2) => Expr::Assign(
            Box::new(l.deep_clone()),
            Box::new(rewrite_expr(r2, Ctx::Assignment)),
        ),
        Expr::Lambda(LambdaBody::Expr(b)) => Expr::Lambda(
            LambdaBody::Expr(Box::new(rewrite_expr(b, ctx))),
        ),
        Expr::Lambda(LambdaBody::Block(ss)) => Expr::Lambda(LambdaBody::Block(rewrite_stmts(ss, ctx))),
        Expr::Opaque(h, subs) => Expr::Opaque(*h, rewrite_exprs(subs, ctx)),
    }
}

#[verifier::loop_isolation(false)]
pub fn rewrite_exprs(es: &Vec<Expr>, ctx: Ctx) -> (r: Vec<Expr>)
    ensures
        exprs_view(r@) == rw_exprs(exprs_view(es@), ctx),
    decreases es,
{
    let mut out: Vec<Expr> = Vec::new();
    let n = es.len();
    proof {
        lemma_exprs_view(es@);
    }
    for i in 0..n
        invariant
            n == es.len(),
            exprs_view(es@).len() == n,
            out@.len() == i,
            forall|j: int|
                0 <= j < i ==> expr_view(#[trigger] out@[j]) == rw_expr(exprs_view(es@)[j], ctx),
    {
        let re = rewrite_expr(&es[i], ctx);
        proof {
            assert(expr_view(re) == rw_expr(exprs_view(es@)[i as int], ctx));
        }
        out.push(re);
    }
    proof {
        lemma_exprs_view(es@);
        lemma_exprs_view(out@);
        lemma_rw_exprs(exprs_view(es@), ctx);
        assert(exprs_view(out@) =~= rw_exprs(exprs_view(es@), ctx));
    }
    out
}

/// A variable initializer is rewritten in assignment context.
pub fn rewrite_declarator(d: &Declarator) -> (r: Declarator)
    ensures
        r@ == rw_declarator(d@),
    decreases d,
{
    Declarator {
        name: d.name.clone(),
        init: match &d.init {
            Some(e) => Some(Box::new(rewrite_expr(e, Ctx::Assignment))),
            None => None,
        },
    }
}

#[verifier::loop_isolation(false)]
pub fn rewrite_declarators(ds: &Vec<Declarator>) -> (r: Vec<Declarator>)
    ensures
        declarators_view(r@) == rw_declarators(declarators_view(ds@)),
    decreases ds,
{
    let mut out: Vec<Declarator> = Vec::new();
    let n = ds.len();
    proof {
        lemma_declarators_view(ds@);
    }
    for i in 0..n
        invariant
            n == ds.len(),
            declarators_view(ds@).len() == n,
            out@.len() == i,
            forall|j: int|
                0 <= j < i ==> crate::ast::declarator_view(#[trigger] out@[j]) == rw_declarator(
                    declarators_view(ds@)[j],
                ),
    {
        let rd = rewrite_declarator(&ds[i]);
        proof {
            assert(crate::ast::declarator_view(rd) == rw_declarator(declarators_view(ds@)[i as int]));
        }
        out.push(rd);
    }
    proof {
        lemma_declarators_view(ds@);
        lemma_declarators_view(out@);
        lemma_rw_declarators(declarators_view(ds@));
        assert(declarators_view(out@) =~= rw_declarators(declarators_view(ds@)));
    }
    out
}

/// Statement visitation of the primary pass.
pub fn rewrite_stmt(s: &Stmt, ctx: Ctx) -> (r: Stmt)
    ensures
        r@ == rw_stmt(s@, ctx),
    decreases s,
{
    match s {
        Stmt::Return(oe) => Stmt::Return(
            match oe {
                Some(e) => Some(Box::new(rewrite_expr(e, Ctx::Return))),
                None => None,
            },
        ),
        Stmt::Decl(k, ds) => Stmt::Decl(*k, rewrite_declarators(ds)),
        Stmt::Expr(e) => Stmt::Expr(Box::new(rewrite_expr(e, ctx))),
        Stmt::Func(name, body) => Stmt::Func(name.clone(), rewrite_stmts(body, ctx)),
        Stmt::Block(ss) => Stmt::Block(rewrite_stmts(ss, ctx)),
        Stmt::Opaque(h, es, ss) => Stmt::Opaque(*h, rewrite_exprs(es, ctx), rewrite_stmts(ss, ctx)),
    }
}

#[verifier::loop_isolation(false)]
pub fn rewrite_stmts(ss: &Vec<Stmt>, ctx: Ctx) -> (r: Vec<Stmt>)
    ensures
        stmts_view(r@) == rw_stmts(stmts_view(ss@), ctx),
    decreases ss,
{
    let mut out: Vec<Stmt> = Vec::new();
    let n = ss.len();
    proof {
        lemma_stmts_view(ss@);
    }
    for i in 0..n
        invariant
            n == ss.len(),
            stmts_view(ss@).len() == n,
            out@.len() == i,
            forall|j: int|
                0 <= j < i ==> crate::ast::stmt_view(#[trigger] out@[j]) == rw_stmt(
                    stmts_view(ss@)[j],
                    ctx,
                ),
    {
        let rs = rewrite_stmt(&ss[i], ctx);
        proof {
            assert(crate::ast::stmt_view(rs) == rw_stmt(stmts_view(ss@)[i as int], ctx));
        }
        out.push(rs);
    }
    proof {
        lemma_stmts_view(ss@);
        lemma_stmts_view(out@);
        lemma_rw_stmts(stmts_view(ss@), ctx);
        assert(stmts_view(out@) =~= rw_stmts(stmts_view(ss@), ctx));
    }
    out
}

/// The whole primary pass over a program.
pub fn rewrite(p: &Program) -> (r: Program)
    ensures
        r@ == rw_program(p@),
{
    Program { body: rewrite_stmts(&p.body, Ctx::TemplateChild) }
}

} // verus!
