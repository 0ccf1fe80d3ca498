//! Recognition of the directive surface: the conditional tag, the switch tag
//! and its case tag, their attributes, and the synthetic names the rewrite
//! introduces (the fragment wrapper and the two placeholder markers).
//!
//! Whitespace-only text children are excluded when a branch's "real" children
//! are counted; whether a character counts as whitespace is delegated to the
//! standard library and named by the uninterpreted function [`white_space`].

use vstd::prelude::*;

use crate::ast::{
    attrs_view, children_view, lemma_attrs_view, lemma_children_view, Attr, AttrEntry, AttrVal,
    Child, Elem, ElemName, Expr, SpecAttrEntry, SpecAttrVal, SpecChild, SpecElem, SpecExpr,
    SpecName,
};

verus! {

// ---------------------------------------------------------------------------
// Names
// ---------------------------------------------------------------------------

/// Tag of the single-branch conditional directive.
pub open spec fn condition_tag() -> Seq<char> {
    "Condition"@
}

/// Tag of the multi-branch switch directive.
pub open spec fn switch_tag() -> Seq<char> {
    "Switch"@
}

/// Property part of the case member name (`Switch.Case`).
pub open spec fn case_prop() -> Seq<char> {
    "Case"@
}

/// Attribute carrying a branch condition.
pub open spec fn if_attr() -> Seq<char> {
    "if"@
}

/// Attribute marking the default branch of a switch.
pub open spec fn else_attr() -> Seq<char> {
    "else"@
}

/// Attribute selecting chained-ternary evaluation for a switch.
pub open spec fn short_circuit_attr() -> Seq<char> {
    "shortCircuit"@
}

/// Name of the boolean-coercion function wrapped around guards.
pub open spec fn boolean_fn() -> Seq<char> {
    "Boolean"@
}

/// Tag of the fragment-like wrapper element produced in template-child slots.
pub open spec fn fragment_tag() -> Seq<char> {
    "React.Fragment"@
}

/// Marker tag carrying a conditional expression through an element-shaped
/// slot; consumed by the post-processing pass.
pub open spec fn condition_marker_tag() -> Seq<char> {
    "__CONDITION_PLACEHOLDER__"@
}

/// Marker tag for the same purpose when the expression came from a switch;
/// the post-processing pass additionally collapses single-child fragments
/// under this marker.
pub open spec fn switch_marker_tag() -> Seq<char> {
    "__SWITCH_PLACEHOLDER__"@
}

// ---------------------------------------------------------------------------
// Whitespace
// ---------------------------------------------------------------------------

/// Whether a character has the Unicode `White_Space` property, as decided by
/// `char::is_whitespace`.
pub uninterp spec fn white_space(c: char) -> bool;

/// Relies on `char::is_whitespace` of std: whether the character has the
/// Unicode `White_Space` property, a function of the character alone.
#[verifier::external_body]
pub fn char_is_white_space(c: char) -> (r: bool)
    ensures
        r == white_space(c),
{
    c.is_whitespace()
}

/// A text run consisting of whitespace only (an empty run counts).
pub open spec fn all_white_space(s: Seq<char>) -> bool {
    forall|i: int| 0 <= i < s.len() ==> white_space(#[trigger] s[i])
}

/// A child that counts when sizing a branch: anything but whitespace-only
/// text.
pub open spec fn meaningful(c: SpecChild) -> bool {
    !(c matches SpecChild::Text(t) && all_white_space(t))
}

/// The meaningful children of a child list, in order.
pub open spec fn meaningful_of(cs: Seq<SpecChild>) -> Seq<SpecChild> {
    cs.filter(|c: SpecChild| meaningful(c))
}

pub broadcast proof fn lemma_meaningful_of_empty(cs: Seq<SpecChild>)
    requires
        cs.len() == 0,
    ensures
        #[trigger] meaningful_of(cs) == Seq::<SpecChild>::empty(),
{
    reveal(Seq::filter);
    assert(meaningful_of(cs) =~= Seq::<SpecChild>::empty());
}

pub broadcast proof fn lemma_meaningful_of_push(cs: Seq<SpecChild>, c: SpecChild)
    ensures
        #[trigger] meaningful_of(cs.push(c)) == if meaningful(c) {
            meaningful_of(cs).push(c)
        } else {
            meaningful_of(cs)
        },
{
    reveal(Seq::filter);
    let whole = cs.push(c);
    assert(whole.drop_last() =~= cs);
    assert(whole.last() == c);
}

/// Every meaningful child is drawn from the list it was filtered from.
pub proof fn lemma_meaningful_member(cs: Seq<SpecChild>)
    ensures
        forall|i: int|
            0 <= i < meaningful_of(cs).len() ==> exists|k: int|
                0 <= k < cs.len() && cs[k] == #[trigger] meaningful_of(cs)[i],
    decreases cs.len(),
{
    reveal(Seq::filter);
    if cs.len() > 0 {
        let dl = cs.drop_last();
        lemma_meaningful_member(dl);
        let m = meaningful_of(cs);
        let md = meaningful_of(dl);
        assert forall|i: int| 0 <= i < m.len() implies exists|k: int|
            0 <= k < cs.len() && cs[k] == #[trigger] m[i] by {
            if meaningful(cs.last()) && i == m.len() - 1 {
                assert(cs[cs.len() - 1] == m[i]);
            } else {
                assert(m[i] == md[i]);
                let k = choose|k: int| 0 <= k < dl.len() && dl[k] == md[i];
                assert(cs[k] == m[i]);
            }
        }
    }
}

// ---------------------------------------------------------------------------
// Attribute lookup
// ---------------------------------------------------------------------------

/// A named (non-spread) attribute with the given name, any value.
pub open spec fn attr_named(a: SpecAttrEntry, name: Seq<char>) -> bool {
    a matches SpecAttrEntry::Attr(at) && at.name == name
}

/// Whether some attribute of the list carries the given name.
pub open spec fn spec_has_attr(attrs: Seq<SpecAttrEntry>, name: Seq<char>) -> bool {
    exists|i: int| 0 <= i < attrs.len() && attr_named(#[trigger] attrs[i], name)
}

/// An `if` attribute whose value is an expression container holding a real
/// expression; only such an attribute arms a directive.
pub open spec fn if_cond_attr(a: SpecAttrEntry) -> bool {
    &&& a matches SpecAttrEntry::Attr(at)
    &&& at.name == if_attr()
    &&& at.value matches Some(SpecAttrVal::Expr(_))
}

/// The condition carried by the first arming `if` attribute, if any.
pub open spec fn spec_if_cond(attrs: Seq<SpecAttrEntry>) -> Option<SpecExpr>
    decreases attrs,
{
    if attrs.len() == 0 {
        None
    } else if if_cond_attr(attrs[0]) {
        Some(*attrs[0]->Attr_0.value->0->Expr_0)
    } else {
        spec_if_cond(attrs.subrange(1, attrs.len() as int))
    }
}

// ---------------------------------------------------------------------------
// Directive shapes
// ---------------------------------------------------------------------------

/// An element named by the two-part case member name.
pub open spec fn is_case_elem(el: SpecElem) -> bool {
    el.name matches SpecName::Member(obj, prop) && obj == switch_tag() && prop == case_prop()
}

/// A child that is a case element.
pub open spec fn is_case_child(c: SpecChild) -> bool {
    c matches SpecChild::Elem(el) && is_case_elem(el)
}

/// Whether a switch element has at least one case child; only then is it
/// treated as a directive.
pub open spec fn spec_has_case_child(cs: Seq<SpecChild>) -> bool {
    exists|i: int| 0 <= i < cs.len() && is_case_child(#[trigger] cs[i])
}

// ---------------------------------------------------------------------------
// Executable counterparts
// ---------------------------------------------------------------------------

/// String comparison against a name literal.
pub fn string_is(s: &String, lit: &str) -> (r: bool)
    ensures
        r == (s@ == lit@),
{
    let owned: String = lit.to_owned();
    *s == owned
}

/// Whether a text run is whitespace only.
pub fn text_is_blank(s: &String) -> (r: bool)
    ensures
        r == all_white_space(s@),
{
    let st: &str = s.as_str();
    let n: usize = st.unicode_len();
    let mut i: usize = 0;
    while i < n
        invariant
            n == st@.len(),
            st@ == s@,
            0 <= i <= n,
            forall|j: int| 0 <= j < i ==> white_space(#[trigger] st@[j]),
        decreases n - i,
    {
        let c = st.get_char(i);
        if !char_is_white_space(c) {
            assert(!all_white_space(s@));
            return false;
        }
        i += 1;
    }
    true
}

/// Whether a child counts as a real child of a branch.
pub fn meaningful_child(c: &Child) -> (r: bool)
    ensures
        r == meaningful(c@),
{
    match c {
        Child::Text(t) => !text_is_blank(t),
        _ => true,
    }
}

/// Whether an attribute list holds a named attribute.
pub fn has_attr(attrs: &Vec<AttrEntry>, name: &str) -> (r: bool)
    ensures
        r == spec_has_attr(attrs_view(attrs@), name@),
{
    broadcast use lemma_attrs_view;

    let n = attrs.len();
    for i in 0..n
        invariant
            n == attrs.len(),
            forall|j: int| 0 <= j < i ==> !attr_named(#[trigger] attrs_view(attrs@)[j], name@),
    {
        proof {
            lemma_attrs_view(attrs@);
        }
        if let AttrEntry::Attr(attr) = &attrs[i] {
            if string_is(&attr.name, name) {
                assert(attr_named(attrs_view(attrs@)[i as int], name@));
                return true;
            }
        }
    }
    proof {
        lemma_attrs_view(attrs@);
    }
    false
}

/// The condition of the first arming `if` attribute, cloned out of the list.
pub fn extract_if_cond(attrs: &Vec<AttrEntry>) -> (r: Option<Expr>)
    ensures
        match r {
            Some(e) => spec_if_cond(attrs_view(attrs@)) == Some(e@),
            None => spec_if_cond(attrs_view(attrs@)) is None,
        },
{
    broadcast use lemma_attrs_view;

    let ghost gattrs = attrs_view(attrs@);
    proof {
        lemma_attrs_view(attrs@);
        assert(gattrs.subrange(0, gattrs.len() as int) =~= gattrs);
    }
    let n = attrs.len();
    for i in 0..n
        invariant
            n == attrs.len(),
            gattrs == attrs_view(attrs@),
            gattrs.len() == n,
            forall|j: int| 0 <= j < i ==> !if_cond_attr(#[trigger] gattrs[j]),
            spec_if_cond(gattrs) == spec_if_cond(gattrs.subrange(i as int, gattrs.len() as int)),
    {
        proof {
            lemma_attrs_view(attrs@);
            assert(gattrs.subrange(i as int, gattrs.len() as int).subrange(
                1,
                gattrs.len() - i as int,
            ) =~= gattrs.subrange(i + 1, gattrs.len() as int));
        }
        if let AttrEntry::Attr(attr) = &attrs[i] {
            if string_is(&attr.name, "if") {
                if let Some(AttrVal::Expr(e)) = &attr.value {
                    assert(if_cond_attr(gattrs[i as int]));
                    assert(gattrs.subrange(i as int, gattrs.len() as int)[0] == gattrs[i as int]);
                    return Some(e.deep_clone());
                }
            }
        }
        assert(!if_cond_attr(gattrs[i as int]));
        assert(gattrs.subrange(i as int, gattrs.len() as int)[0] == gattrs[i as int]);
    }
    proof {
        assert(gattrs.subrange(n as int, gattrs.len() as int) =~= Seq::empty());
    }
    None
}

/// Whether a name is the given plain tag.
pub fn name_is_tag(n: &ElemName, lit: &str) -> (r: bool)
    ensures
        r == (n@ == SpecName::Tag(lit@)),
{
    match n {
        ElemName::Tag(s) => string_is(s, lit),
        ElemName::Member(_, _) => false,
    }
}

/// Whether an element is a switch case (`Switch.Case`).
pub fn is_case_element(el: &Elem) -> (r: bool)
    ensures
        r == is_case_elem(el@),
{
    match &el.name {
        ElemName::Member(obj, prop) => string_is(obj, "Switch") && string_is(prop, "Case"),
        ElemName::Tag(_) => false,
    }
}

/// Whether a child list holds at least one case element.
pub fn has_case_children(cs: &Vec<Child>) -> (r: bool)
    ensures
        r == spec_has_case_child(children_view(cs@)),
{
    broadcast use lemma_children_view;

    let n = cs.len();
    for i in 0..n
        invariant
            n == cs.len(),
            forall|j: int| 0 <= j < i ==> !is_case_child(#[trigger] children_view(cs@)[j]),
    {
        proof {
            lemma_children_view(cs@);
        }
        if let Child::Elem(el) = &cs[i] {
            if is_case_element(el) {
                assert(is_case_child(children_view(cs@)[i as int]));
                return true;
            }
        }
    }
    proof {
        lemma_children_view(cs@);
    }
    false
}

/// A fresh tag name built from a literal.
pub fn make_tag(lit: &str) -> (r: ElemName)
    ensures
        r@ == SpecName::Tag(lit@),
{
    ElemName::Tag(lit.to_owned())
}

} // verus!
