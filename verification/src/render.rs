//! What the generated conditional expressions render.
//!
//! The transform carries condition expressions through opaquely, so their
//! run-time truth is modelled by a valuation: an arbitrary assignment of a
//! truth value to every opaque expression.  The evaluator below interprets
//! the boolean structure the transform itself builds — the coercion call,
//! negation, conjunction, literals — and defers to the valuation for
//! everything else.  Over it, this module proves how the two switch modes
//! behave: a short-circuit chain renders exactly the first branch whose
//! condition is true, a parallel switch renders every branch whose condition
//! is true and its else content exactly when no condition is.

use vstd::prelude::*;

use crate::ast::{Ctx, SpecChild, SpecExpr, SpecName};
use crate::directives::{boolean_fn, condition_marker_tag, fragment_tag};
use crate::rewrite::{
    chain, chain_guard, coerce, cond_guard, conditional_elem, conds_of, neg_conj, parallel_child,
    parallel_children, branch_body, SpecBranch,
};

verus! {

/// Truth of an expression under a valuation of the opaque expressions: the
/// boolean structure the transform builds is interpreted, everything else is
/// looked up.
pub open spec fn truthy(e: SpecExpr, val: spec_fn(SpecExpr) -> bool) -> bool
    decreases e,
{
    match e {
        SpecExpr::Bool(b) => b,
        SpecExpr::Null => false,
        SpecExpr::Not(x) => !truthy(*x, val),
        SpecExpr::And(x, y) => truthy(*x, val) && truthy(*y, val),
        SpecExpr::Paren(x) => truthy(*x, val),
        SpecExpr::Call(f, args) => if *f == SpecExpr::Ident(boolean_fn()) && args.len() == 1 {
            truthy(args[0], val)
        } else {
            val(e)
        },
        _ => val(e),
    }
}

/// What a ternary chain renders: the consequent of the first true guard, or
/// the expression the chain falls through to.
pub open spec fn chain_result(e: SpecExpr, val: spec_fn(SpecExpr) -> bool) -> SpecExpr
    decreases e,
{
    match e {
        SpecExpr::Cond(t, c, a) => if truthy(*t, val) {
            *c
        } else {
            chain_result(*a, val)
        },
        _ => e,
    }
}

/// The index of the first branch whose condition is true; the length when
/// none is.
pub open spec fn first_true(
    branches: Seq<SpecBranch>,
    val: spec_fn(SpecExpr) -> bool,
) -> int
    decreases branches,
{
    if branches.len() == 0 {
        0
    } else if truthy(branches[0].cond, val) {
        0
    } else {
        1 + first_true(branches.subrange(1, branches.len() as int), val)
    }
}

/// Both guard forms keep the condition's truth value: the boolean coercion
/// changes the value's type, never which branch renders.
pub proof fn lemma_guard_truth(cond: SpecExpr, ctx: Ctx, val: spec_fn(SpecExpr) -> bool)
    ensures
        truthy(cond_guard(cond, ctx), val) == truthy(cond, val),
        truthy(chain_guard(cond, ctx), val) == truthy(cond, val),
{
    assert(seq![cond][0] == cond);
}

/// The same conditional directive placed in the three position contexts
/// produces three different wrapper and coercion shapes — a fragment-like
/// wrapper around a coerced guard as a template child, a placeholder marker
/// around a coerced guard as an initializer, a placeholder marker around the
/// raw condition as a return operand — and in all three the guard is true
/// exactly when the condition is.
pub proof fn lemma_context_sensitivity(
    cond: SpecExpr,
    children: Seq<SpecChild>,
    val: spec_fn(SpecExpr) -> bool,
)
    ensures
        conditional_elem(cond, children, Ctx::TemplateChild).name == SpecName::Tag(fragment_tag()),
        conditional_elem(cond, children, Ctx::Assignment).name == SpecName::Tag(
            condition_marker_tag(),
        ),
        conditional_elem(cond, children, Ctx::Return).name == SpecName::Tag(condition_marker_tag()),
        cond_guard(cond, Ctx::TemplateChild) == coerce(cond),
        cond_guard(cond, Ctx::Assignment) == coerce(cond),
        cond_guard(cond, Ctx::Return) == cond,
        forall|ctx: Ctx| truthy(#[trigger] cond_guard(cond, ctx), val) == truthy(cond, val),
{
    assert forall|ctx: Ctx| truthy(#[trigger] cond_guard(cond, ctx), val) == truthy(
        cond,
        val,
    ) by {
        lemma_guard_truth(cond, ctx, val);
    }
}

/// What a short-circuit chain renders: the body of the first branch whose
/// condition is true, whatever later conditions would have done; the tail
/// when no condition is true.
pub proof fn lemma_short_circuit_renders(
    branches: Seq<SpecBranch>,
    tail: SpecExpr,
    ctx: Ctx,
    val: spec_fn(SpecExpr) -> bool,
)
    requires
        !(tail is Cond),
    ensures
        ({
            let k = first_true(branches, val);
            &&& 0 <= k <= branches.len()
            &&& forall|j: int| 0 <= j < k ==> !truthy(#[trigger] branches[j].cond, val)
            &&& k < branches.len() ==> truthy(branches[k].cond, val) && chain_result(
                chain(branches, tail, ctx),
                val,
            ) == branch_body(branches[k].children)
            &&& k == branches.len() ==> chain_result(chain(branches, tail, ctx), val) == tail
        }),
    decreases branches,
{
    if branches.len() > 0 {
        let rest = branches.subrange(1, branches.len() as int);
        lemma_guard_truth(branches[0].cond, ctx, val);
        lemma_short_circuit_renders(rest, tail, ctx, val);
        if !truthy(branches[0].cond, val) {
            let k = first_true(branches, val);
            let kr = first_true(rest, val);
            assert(k == 1 + kr);
            assert forall|j: int| 0 <= j < k implies !truthy(#[trigger] branches[j].cond, val) by {
                if j > 0 {
                    assert(rest[j - 1] == branches[j]);
                }
            }
            if kr < rest.len() {
                assert(rest[kr] == branches[k]);
            }
        }
    }
}

/// The guarded expression a parallel branch is emitted as.
pub open spec fn guarded_branch(b: SpecBranch) -> SpecExpr {
    SpecExpr::Cond(
        Box::new(b.cond),
        Box::new(SpecExpr::Frag(b.children)),
        Box::new(SpecExpr::Null),
    )
}

/// What a parallel switch renders: each branch is guarded by its own raw
/// condition and renders exactly when that condition is true; the else
/// content, when present, is guarded by the conjunction of the negated branch
/// conditions and renders exactly when no branch condition is true.
pub proof fn lemma_parallel_renders(
    branches: Seq<SpecBranch>,
    els: Option<Seq<SpecChild>>,
    val: spec_fn(SpecExpr) -> bool,
)
    ensures
        parallel_children(branches, els).len() == branches.len() + if els is Some {
            1int
        } else {
            0
        },
        forall|i: int|
            0 <= i < branches.len() ==> #[trigger] parallel_children(branches, els)[i]
                == parallel_child(branches[i]),
        forall|i: int|
            0 <= i < branches.len() ==> parallel_child(#[trigger] branches[i])
                == SpecChild::Container(Some(Box::new(guarded_branch(branches[i])))),
        forall|i: int|
            0 <= i < branches.len() ==> chain_result(
                guarded_branch(#[trigger] branches[i]),
                val,
            ) == if truthy(branches[i].cond, val) {
                SpecExpr::Frag(branches[i].children)
            } else {
                SpecExpr::Null
            },
        els matches Some(cs) ==> {
            let guard = neg_conj(conds_of(branches));
            &&& parallel_children(branches, els)[branches.len() as int]
                == crate::rewrite::parallel_else_child(branches, cs)
            &&& (truthy(guard, val) <==> forall|j: int|
                0 <= j < branches.len() ==> !truthy(#[trigger] branches[j].cond, val))
        },
{
    reveal_with_fuel(chain_result, 2);
    reveal_with_fuel(truthy, 2);
    lemma_neg_conj_truth(conds_of(branches), val);
    assert(conds_of(branches).len() == branches.len());
    assert forall|i: int| 0 <= i < branches.len() implies (truthy(
        conds_of(branches)[i],
        val,
    ) == truthy(#[trigger] branches[i].cond, val)) by {
        assert(conds_of(branches)[i] == branches[i].cond);
    }
}

/// The conjunction of negated conditions is true exactly when every condition
/// is false.
pub proof fn lemma_neg_conj_truth(conds: Seq<SpecExpr>, val: spec_fn(SpecExpr) -> bool)
    ensures
        truthy(neg_conj(conds), val) <==> forall|j: int|
            0 <= j < conds.len() ==> !truthy(#[trigger] conds[j], val),
    decreases conds,
{
    reveal_with_fuel(truthy, 3);
    if conds.len() == 1 {
        assert(conds[0] == conds.last());
    } else if conds.len() > 1 {
        let dl = conds.drop_last();
        lemma_neg_conj_truth(dl, val);
        assert(truthy(neg_conj(conds), val) == (truthy(neg_conj(dl), val) && !truthy(
            conds.last(),
            val,
        )));
        if truthy(neg_conj(conds), val) {
            assert forall|j: int| 0 <= j < conds.len() implies !truthy(
                #[trigger] conds[j],
                val,
            ) by {
                if j < conds.len() - 1 {
                    assert(dl[j] == conds[j]);
                } else {
                    assert(conds[j] == conds.last());
                }
            }
        }
        if forall|j: int| 0 <= j < conds.len() ==> !truthy(#[trigger] conds[j], val) {
            assert forall|j: int| 0 <= j < dl.len() implies !truthy(#[trigger] dl[j], val) by {
                assert(dl[j] == conds[j]);
            }
            assert(!truthy(conds.last(), val)) by {
                assert(conds.last() == conds[conds.len() - 1]);
            }
        }
    }
}

} // verus!
