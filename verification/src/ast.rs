//! The syntax tree the transform works on, together with its mathematical
//! model.
//!
//! The executable types (`Program`, `Stmt`, `Expr`, `Elem`, ...) describe the
//! fragment of a host templating grammar that the rewriting pass inspects:
//! markup elements with named attributes and children, expression containers,
//! conditional/call/logical expressions, and the statement forms that decide
//! the position context (returns, variable initializers, assignments).
//! Anything the pass treats as opaque is carried through an `Opaque` variant
//! holding a caller-chosen handle and the sub-nodes that are still visited.
//!
//! The `Spec...` types are the ghost mirror of the same grammar over `Seq`,
//! and every contract in this crate speaks about trees through the view
//! functions defined here.

use vstd::prelude::*;

verus! {

// ---------------------------------------------------------------------------
// Executable syntax tree
// ---------------------------------------------------------------------------

/// Name of a markup element: a plain tag (`div`) or a two-part member name
/// (`Switch.Case`).
#[derive(Debug, PartialEq, Eq)]
pub enum ElemName {
    Tag(String),
    Member(String, String),
}

/// Value of a markup attribute: an expression container (`name={expr}`) or
/// any other value form, carried opaquely.
#[derive(Debug, PartialEq, Eq)]
pub enum AttrVal {
    Expr(Box<Expr>),
    Opaque(u64),
}

/// One named attribute; `value` is `None` for a bare attribute (`else`).
#[derive(Debug, PartialEq, Eq)]
pub struct Attr {
    pub name: String,
    pub value: Option<AttrVal>,
}

/// An entry in an element's attribute list: a named attribute or a spread.
#[derive(Debug, PartialEq, Eq)]
pub enum AttrEntry {
    Attr(Attr),
    Spread(Box<Expr>),
}

/// A markup element.
#[derive(Debug, PartialEq, Eq)]
pub struct Elem {
    pub name: ElemName,
    pub attrs: Vec<AttrEntry>,
    pub children: Vec<Child>,
}

/// A child slot of an element or fragment.
#[derive(Debug, PartialEq, Eq)]
pub enum Child {
    Elem(Elem),
    Frag(Vec<Child>),
    /// An expression container `{expr}`; `None` is the empty container `{}`.
    Container(Option<Box<Expr>>),
    Text(String),
}

/// Body of a function-valued expression: a bare expression or a statement
/// block.
#[derive(Debug, PartialEq, Eq)]
pub enum LambdaBody {
    Expr(Box<Expr>),
    Block(Vec<Stmt>),
}

/// An expression.  Forms the pass neither produces nor matches on are
/// represented by `Opaque(handle, sub_expressions)`; the sub-expressions are
/// still visited, the handle is carried through unchanged.
#[derive(Debug, PartialEq, Eq)]
pub enum Expr {
    Elem(Box<Elem>),
    Frag(Vec<Child>),
    Cond(Box<Expr>, Box<Expr>, Box<Expr>),
    Call(Box<Expr>, Vec<Expr>),
    Member(Box<Expr>, String),
    Ident(String),
    Str(String),
    Bool(bool),
    Null,
    Not(Box<Expr>),
    And(Box<Expr>, Box<Expr>),
    Paren(Box<Expr>),
    /// An assignment; only the right-hand side is visited by the pass.
    Assign(Box<Expr>, Box<Expr>),
    Lambda(LambdaBody),
    Opaque(u64, Vec<Expr>),
}

/// The binding keyword of a variable declaration.
#[derive(Debug, Clone, Copy, PartialEq, Eq)]
pub enum DeclKind {
    Var,
    Let,
    Const,
}

/// One declarator of a variable declaration.
#[derive(Debug, PartialEq, Eq)]
pub struct Declarator {
    pub name: String,
    pub init: Option<Box<Expr>>,
}

/// A statement.  As with expressions, unrecognized statement forms are
/// `Opaque(handle, sub_expressions, sub_statements)`.
#[derive(Debug, PartialEq, Eq)]
pub enum Stmt {
    Return(Option<Box<Expr>>),
    Decl(DeclKind, Vec<Declarator>),
    Expr(Box<Expr>),
    Func(String, Vec<Stmt>),
    Block(Vec<Stmt>),
    Opaque(u64, Vec<Expr>, Vec<Stmt>),
}

/// A whole program: a list of top-level statements.
#[derive(Debug, PartialEq, Eq)]
pub struct Program {
    pub body: Vec<Stmt>,
}

/// The position context of the node currently visited: the default
/// template-child slot, the right side of a binding or assignment, or the
/// operand of a return.
#[derive(Debug, Clone, Copy, PartialEq, Eq)]
pub enum Ctx {
    TemplateChild,
    Assignment,
    Return,
}

// ---------------------------------------------------------------------------
// Ghost model
// ---------------------------------------------------------------------------

#[verifier::ext_equal]
pub enum SpecName {
    Tag(Seq<char>),
    Member(Seq<char>, Seq<char>),
}

#[verifier::ext_equal]
pub enum SpecAttrVal {
    Expr(Box<SpecExpr>),
    Opaque(u64),
}

#[verifier::ext_equal]
pub struct SpecAttr {
    pub name: Seq<char>,
    pub value: Option<SpecAttrVal>,
}

#[verifier::ext_equal]
pub enum SpecAttrEntry {
    Attr(SpecAttr),
    Spread(Box<SpecExpr>),
}

#[verifier::ext_equal]
pub struct SpecElem {
    pub name: SpecName,
    pub attrs: Seq<SpecAttrEntry>,
    pub children: Seq<SpecChild>,
}

#[verifier::ext_equal]
pub enum SpecChild {
    Elem(SpecElem),
    Frag(Seq<SpecChild>),
    Container(Option<Box<SpecExpr>>),
    Text(Seq<char>),
}

#[verifier::ext_equal]
pub enum SpecLambdaBody {
    Expr(Box<SpecExpr>),
    Block(Seq<SpecStmt>),
}

#[verifier::ext_equal]
pub enum SpecExpr {
    Elem(SpecElem),
    Frag(Seq<SpecChild>),
    Cond(Box<SpecExpr>, Box<SpecExpr>, Box<SpecExpr>),
    Call(Box<SpecExpr>, Seq<SpecExpr>),
    Member(Box<SpecExpr>, Seq<char>),
    Ident(Seq<char>),
    Str(Seq<char>),
    Bool(bool),
    Null,
    Not(Box<SpecExpr>),
    And(Box<SpecExpr>, Box<SpecExpr>),
    Paren(Box<SpecExpr>),
    Assign(Box<SpecExpr>, Box<SpecExpr>),
    Lambda(SpecLambdaBody),
    Opaque(u64, Seq<SpecExpr>),
}

#[verifier::ext_equal]
pub struct SpecDeclarator {
    pub name: Seq<char>,
    pub init: Option<Box<SpecExpr>>,
}

#[verifier::ext_equal]
pub enum SpecStmt {
    Return(Option<Box<SpecExpr>>),
    Decl(DeclKind, Seq<SpecDeclarator>),
    Expr(Box<SpecExpr>),
    Func(Seq<char>, Seq<SpecStmt>),
    Block(Seq<SpecStmt>),
    Opaque(u64, Seq<SpecExpr>, Seq<SpecStmt>),
}

#[verifier::ext_equal]
pub struct SpecProgram {
    pub body: Seq<SpecStmt>,
}

// ---------------------------------------------------------------------------
// Views: executable tree -> ghost model
// ---------------------------------------------------------------------------

pub open spec fn name_view(n: ElemName) -> SpecName {
    match n {
        ElemName::Tag(s) => SpecName::Tag(s@),
        ElemName::Member(a, b) => SpecName::Member(a@, b@),
    }
}

pub open spec fn expr_view(e: Expr) -> SpecExpr
    decreases e,
{
    match e {
        Expr::Elem(el) => SpecExpr::Elem(elem_view(*el)),
        Expr::Frag(cs) => SpecExpr::Frag(children_view(cs@)),
        Expr::Cond(t, c, a) => SpecExpr::Cond(
            Box::new(expr_view(*t)),
            Box::new(expr_view(*c)),
            Box::new(expr_view(*a)),
        ),
        Expr::Call(f, args) => SpecExpr::Call(Box::new(expr_view(*f)), exprs_view(args@)),
        Expr::Member(obj, prop) => SpecExpr::Member(Box::new(expr_view(*obj)), prop@),
        Expr::Ident(s) => SpecExpr::Ident(s@),
        Expr::Str(s) => SpecExpr::Str(s@),
        Expr::Bool(b) => SpecExpr::Bool(b),
        Expr::Null => SpecExpr::Null,
        Expr::Not(x) => SpecExpr::Not(Box::new(expr_view(*x))),
        Expr::And(x, y) => SpecExpr::And(Box::new(expr_view(*x)), Box::new(expr_view(*y))),
        Expr::Paren(x) => SpecExpr::Paren(Box::new(expr_view(*x))),
        Expr::Assign(l, r) => SpecExpr::Assign(Box::new(expr_view(*l)), Box::new(expr_view(*r))),
        Expr::Lambda(b) => SpecExpr::Lambda(lambda_body_view(b)),
        Expr::Opaque(h, subs) => SpecExpr::Opaque(h, exprs_view(subs@)),
    }
}

pub open spec fn lambda_body_view(b: LambdaBody) -> SpecLambdaBody
    decreases b,
{
    match b {
        LambdaBody::Expr(e) => SpecLambdaBody::Expr(Box::new(expr_view(*e))),
        LambdaBody::Block(ss) => SpecLambdaBody::Block(stmts_view(ss@)),
    }
}

pub open spec fn elem_view(el: Elem) -> SpecElem
    decreases el,
{
    SpecElem {
        name: name_view(el.name),
        attrs: attrs_view(el.attrs@),
        children: children_view(el.children@),
    }
}

pub open spec fn attr_val_view(v: AttrVal) -> SpecAttrVal
    decreases v,
{
    match v {
        AttrVal::Expr(e) => SpecAttrVal::Expr(Box::new(expr_view(*e))),
        AttrVal::Opaque(h) => SpecAttrVal::Opaque(h),
    }
}

pub open spec fn attr_entry_view(a: AttrEntry) -> SpecAttrEntry
    decreases a,
{
    match a {
        AttrEntry::Attr(attr) => SpecAttrEntry::Attr(
            SpecAttr {
                name: attr.name@,
                value: match attr.value {
                    Some(v) => Some(attr_val_view(v)),
                    None => None,
                },
            },
        ),
        AttrEntry::Spread(e) => SpecAttrEntry::Spread(Box::new(expr_view(*e))),
    }
}

pub open spec fn attrs_view(attrs: Seq<AttrEntry>) -> Seq<SpecAttrEntry>
    decreases attrs,
{
    if attrs.len() == 0 {
        Seq::empty()
    } else {
        seq![attr_entry_view(attrs[0])] + attrs_view(attrs.subrange(1, attrs.len() as int))
    }
}

pub open spec fn child_view(c: Child) -> SpecChild
    decreases c,
{
    match c {
        Child::Elem(el) => SpecChild::Elem(elem_view(el)),
        Child::Frag(cs) => SpecChild::Frag(children_view(cs@)),
        Child::Container(oe) => SpecChild::Container(
            match oe {
                Some(e) => Some(Box::new(expr_view(*e))),
                None => None,
            },
        ),
        Child::Text(s) => SpecChild::Text(s@),
    }
}

pub open spec fn children_view(cs: Seq<Child>) -> Seq<SpecChild>
    decreases cs,
{
    if cs.len() == 0 {
        Seq::empty()
    } else {
        seq![child_view(cs[0])] + children_view(cs.subrange(1, cs.len() as int))
    }
}

pub open spec fn exprs_view(es: Seq<Expr>) -> Seq<SpecExpr>
    decreases es,
{
    if es.len() == 0 {
        Seq::empty()
    } else {
        seq![expr_view(es[0])] + exprs_view(es.subrange(1, es.len() as int))
    }
}

pub open spec fn declarator_view(d: Declarator) -> SpecDeclarator
    decreases d,
{
    SpecDeclarator {
        name: d.name@,
        init: match d.init {
            Some(e) => Some(Box::new(expr_view(*e))),
            None => None,
        },
    }
}

pub open spec fn declarators_view(ds: Seq<Declarator>) -> Seq<SpecDeclarator>
    decreases ds,
{
    if ds.len() == 0 {
        Seq::empty()
    } else {
        seq![declarator_view(ds[0])] + declarators_view(ds.subrange(1, ds.len() as int))
    }
}

pub open spec fn stmt_view(s: Stmt) -> SpecStmt
    decreases s,
{
    match s {
        Stmt::Return(oe) => SpecStmt::Return(
            match oe {
                Some(e) => Some(Box::new(expr_view(*e))),
                None => None,
            },
        ),
        Stmt::Decl(k, ds) => SpecStmt::Decl(k, declarators_view(ds@)),
        Stmt::Expr(e) => SpecStmt::Expr(Box::new(expr_view(*e))),
        Stmt::Func(name, body) => SpecStmt::Func(name@, stmts_view(body@)),
        Stmt::Block(ss) => SpecStmt::Block(stmts_view(ss@)),
        Stmt::Opaque(h, es, ss) => SpecStmt::Opaque(h, exprs_view(es@), stmts_view(ss@)),
    }
}

pub open spec fn stmts_view(ss: Seq<Stmt>) -> Seq<SpecStmt>
    decreases ss,
{
    if ss.len() == 0 {
        Seq::empty()
    } else {
        seq![stmt_view(ss[0])] + stmts_view(ss.subrange(1, ss.len() as int))
    }
}

// ---------------------------------------------------------------------------
// Pointwise characterization of the sequence views
// ---------------------------------------------------------------------------

pub broadcast proof fn lemma_children_view(cs: Seq<Child>)
    ensures
        (#[trigger] children_view(cs)).len() == cs.len(),
        forall|i: int|
            #![trigger children_view(cs)[i]]
            #![trigger child_view(cs[i])]
            0 <= i < cs.len() ==> children_view(cs)[i] == child_view(cs[i]),
    decreases cs,
{
    if cs.len() > 0 {
        lemma_children_view(cs.subrange(1, cs.len() as int));
        assert forall|i: int| 0 <= i < cs.len() implies children_view(cs)[i] == child_view(
            cs[i],
        ) by {
            if i > 0 {
                assert(cs.subrange(1, cs.len() as int)[i - 1] == cs[i]);
            }
        }
    }
}

pub broadcast proof fn lemma_attrs_view(attrs: Seq<AttrEntry>)
    ensures
        (#[trigger] attrs_view(attrs)).len() == attrs.len(),
        forall|i: int|
            #![trigger attrs_view(attrs)[i]]
            #![trigger attr_entry_view(attrs[i])]
            0 <= i < attrs.len() ==> attrs_view(attrs)[i] == attr_entry_view(attrs[i]),
    decreases attrs,
{
    if attrs.len() > 0 {
        lemma_attrs_view(attrs.subrange(1, attrs.len() as int));
        assert forall|i: int| 0 <= i < attrs.len() implies attrs_view(attrs)[i] == attr_entry_view(
            attrs[i],
        ) by {
            if i > 0 {
                assert(attrs.subrange(1, attrs.len() as int)[i - 1] == attrs[i]);
            }
        }
    }
}

pub broadcast proof fn lemma_exprs_view(es: Seq<Expr>)
    ensures
        (#[trigger] exprs_view(es)).len() == es.len(),
        forall|i: int|
            #![trigger exprs_view(es)[i]]
            #![trigger expr_view(es[i])]
            0 <= i < es.len() ==> exprs_view(es)[i] == expr_view(es[i]),
    decreases es,
{
    if es.len() > 0 {
        lemma_exprs_view(es.subrange(1, es.len() as int));
        assert forall|i: int| 0 <= i < es.len() implies exprs_view(es)[i] == expr_view(es[i]) by {
            if i > 0 {
                assert(es.subrange(1, es.len() as int)[i - 1] == es[i]);
            }
        }
    }
}

pub broadcast proof fn lemma_declarators_view(ds: Seq<Declarator>)
    ensures
        (#[trigger] declarators_view(ds)).len() == ds.len(),
        forall|i: int|
            #![trigger declarators_view(ds)[i]]
            #![trigger declarator_view(ds[i])]
            0 <= i < ds.len() ==> declarators_view(ds)[i] == declarator_view(ds[i]),
    decreases ds,
{
    if ds.len() > 0 {
        lemma_declarators_view(ds.subrange(1, ds.len() as int));
        assert forall|i: int| 0 <= i < ds.len() implies declarators_view(ds)[i] == declarator_view(
            ds[i],
        ) by {
            if i > 0 {
                assert(ds.subrange(1, ds.len() as int)[i - 1] == ds[i]);
            }
        }
    }
}

pub broadcast proof fn lemma_stmts_view(ss: Seq<Stmt>)
    ensures
        (#[trigger] stmts_view(ss)).len() == ss.len(),
        forall|i: int|
            #![trigger stmts_view(ss)[i]]
            #![trigger stmt_view(ss[i])]
            0 <= i < ss.len() ==> stmts_view(ss)[i] == stmt_view(ss[i]),
    decreases ss,
{
    if ss.len() > 0 {
        lemma_stmts_view(ss.subrange(1, ss.len() as int));
        assert forall|i: int| 0 <= i < ss.len() implies stmts_view(ss)[i] == stmt_view(ss[i]) by {
            if i > 0 {
                assert(ss.subrange(1, ss.len() as int)[i - 1] == ss[i]);
            }
        }
    }
}

impl View for ElemName {
    type V = SpecName;

    open spec fn view(&self) -> SpecName {
        name_view(*self)
    }
}

impl View for Expr {
    type V = SpecExpr;

    open spec fn view(&self) -> SpecExpr {
        expr_view(*self)
    }
}

impl View for Elem {
    type V = SpecElem;

    open spec fn view(&self) -> SpecElem {
        elem_view(*self)
    }
}

impl View for Child {
    type V = SpecChild;

    open spec fn view(&self) -> SpecChild {
        child_view(*self)
    }
}

impl View for AttrEntry {
    type V = SpecAttrEntry;

    open spec fn view(&self) -> SpecAttrEntry {
        attr_entry_view(*self)
    }
}

impl View for Stmt {
    type V = SpecStmt;

    open spec fn view(&self) -> SpecStmt {
        stmt_view(*self)
    }
}

impl View for Declarator {
    type V = SpecDeclarator;

    open spec fn view(&self) -> SpecDeclarator {
        declarator_view(*self)
    }
}

impl View for Program {
    type V = SpecProgram;

    open spec fn view(&self) -> SpecProgram {
        SpecProgram { body: stmts_view(self.body@) }
    }
}

// ---------------------------------------------------------------------------
// Structural cloning
// ---------------------------------------------------------------------------
// The rewriting passes duplicate parts of the input tree (a switch condition
// is reused once per branch and once, negated, in the else guard), so every
// node type gets a clone that provably preserves its view.

impl ElemName {
    pub fn deep_clone(&self) -> (r: ElemName)
        ensures
            r@ == self@,
    {
        match self {
            ElemName::Tag(s) => ElemName::Tag(s.clone()),
            ElemName::Member(a, b) => ElemName::Member(a.clone(), b.clone()),
        }
    }
}

impl Expr {
    pub fn deep_clone(&self) -> (r: Expr)
        ensures
            r@ == self@,
        decreases self,
    {
        match self {
            Expr::Elem(el) => Expr::Elem(Box::new(el.deep_clone())),
            Expr::Frag(cs) => Expr::Frag(clone_children(cs)),
            Expr::Cond(t, c, a) => Expr::Cond(
                Box::new(t.deep_clone()),
                Box::new(c.deep_clone()),
                Box::new(a.deep_clone()),
            ),
            Expr::Call(f, args) => Expr::Call(Box::new(f.deep_clone()), clone_exprs(args)),
            Expr::Member(obj, prop) => Expr::Member(Box::new(obj.deep_clone()), prop.clone()),
            Expr::Ident(s) => Expr::Ident(s.clone()),
            Expr::Str(s) => Expr::Str(s.clone()),
            Expr::Bool(b) => Expr::Bool(*b),
            Expr::Null => Expr::Null,
            Expr::Not(x) => Expr::Not(Box::new(x.deep_clone())),
            Expr::And(x, y) => Expr::And(Box::new(x.deep_clone()), Box::new(y.deep_clone())),
            Expr::Paren(x) => Expr::Paren(Box::new(x.deep_clone())),
            Expr::Assign(l, r2) => Expr::Assign(Box::new(l.deep_clone()), Box::new(r2.deep_clone())),
            Expr::Lambda(b) => Expr::Lambda(b.deep_clone()),
            Expr::Opaque(h, subs) => Expr::Opaque(*h, clone_exprs(subs)),
        }
    }
}

impl LambdaBody {
    pub fn deep_clone(&self) -> (r: LambdaBody)
        ensures
            lambda_body_view(r) == lambda_body_view(*self),
        decreases self,
    {
        match self {
            LambdaBody::Expr(e) => LambdaBody::Expr(Box::new(e.deep_clone())),
            LambdaBody::Block(ss) => LambdaBody::Block(clone_stmts(ss)),
        }
    }
}

impl Elem {
    pub fn deep_clone(&self) -> (r: Elem)
        ensures
            r@ == self@,
        decreases self,
    {
        Elem {
            name: self.name.deep_clone(),
            attrs: clone_attrs(&self.attrs),
            children: clone_children(&self.children),
        }
    }
}

impl Child {
    pub fn deep_clone(&self) -> (r: Child)
        ensures
            r@ == self@,
        decreases self,
    {
        match self {
            Child::Elem(el) => Child::Elem(el.deep_clone()),
            Child::Frag(cs) => Child::Frag(clone_children(cs)),
            Child::Container(oe) => Child::Container(
                match oe {
                    Some(e) => Some(Box::new(e.deep_clone())),
                    None => None,
                },
            ),
            Child::Text(s) => Child::Text(s.clone()),
        }
    }
}

impl AttrEntry {
    pub fn deep_clone(&self) -> (r: AttrEntry)
        ensures
            r@ == self@,
        decreases self,
    {
        match self {
            AttrEntry::Attr(attr) => AttrEntry::Attr(
                Attr {
                    name: attr.name.clone(),
                    value: match &attr.value {
                        Some(AttrVal::Expr(e)) => Some(AttrVal::Expr(Box::new(e.deep_clone()))),
                        Some(AttrVal::Opaque(h)) => Some(AttrVal::Opaque(*h)),
                        None => None,
                    },
                },
            ),
            AttrEntry::Spread(e) => AttrEntry::Spread(Box::new(e.deep_clone())),
        }
    }
}

impl Declarator {
    pub fn deep_clone(&self) -> (r: Declarator)
        ensures
            r@ == self@,
        decreases self,
    {
        Declarator {
            name: self.name.clone(),
            init: match &self.init {
                Some(e) => Some(Box::new(e.deep_clone())),
                None => None,
            },
        }
    }
}

impl Stmt {
    pub fn deep_clone(&self) -> (r: Stmt)
        ensures
            r@ == self@,
        decreases self,
    {
        match self {
            Stmt::Return(oe) => Stmt::Return(
                match oe {
                    Some(e) => Some(Box::new(e.deep_clone())),
                    None => None,
                },
            ),
            Stmt::Decl(k, ds) => Stmt::Decl(*k, clone_declarators(ds)),
            Stmt::Expr(e) => Stmt::Expr(Box::new(e.deep_clone())),
            Stmt::Func(name, body) => Stmt::Func(name.clone(), clone_stmts(body)),
            Stmt::Block(ss) => Stmt::Block(clone_stmts(ss)),
            Stmt::Opaque(h, es, ss) => Stmt::Opaque(*h, clone_exprs(es), clone_stmts(ss)),
        }
    }
}

impl Program {
    pub fn deep_clone(&self) -> (r: Program)
        ensures
            r@ == self@,
    {
        Program { body: clone_stmts(&self.body) }
    }
}

pub fn clone_children(v: &Vec<Child>) -> (r: Vec<Child>)
    ensures
        children_view(r@) == children_view(v@),
    decreases v,
{
    broadcast use lemma_children_view;

    let mut out: Vec<Child> = Vec::new();
    let n = v.len();
    for i in 0..n
        invariant
            n == v.len(),
            out@.len() == i,
            forall|j: int| 0 <= j < i ==> out@[j]@ == v@[j]@,
        decreases n - i,
    {
        out.push(v[i].deep_clone());
    }
    proof {
        assert(children_view(out@) =~= children_view(v@));
    }
    out
}

pub fn clone_attrs(v: &Vec<AttrEntry>) -> (r: Vec<AttrEntry>)
    ensures
        attrs_view(r@) == attrs_view(v@),
    decreases v,
{
    broadcast use lemma_attrs_view;

    let mut out: Vec<AttrEntry> = Vec::new();
    let n = v.len();
    for i in 0..n
        invariant
            n == v.len(),
            out@.len() == i,
            forall|j: int| 0 <= j < i ==> out@[j]@ == v@[j]@,
        decreases n - i,
    {
        out.push(v[i].deep_clone());
    }
    proof {
        assert(attrs_view(out@) =~= attrs_view(v@));
    }
    out
}

pub fn clone_exprs(v: &Vec<Expr>) -> (r: Vec<Expr>)
    ensures
        exprs_view(r@) == exprs_view(v@),
    decreases v,
{
    broadcast use lemma_exprs_view;

    let mut out: Vec<Expr> = Vec::new();
    let n = v.len();
    for i in 0..n
        invariant
            n == v.len(),
            out@.len() == i,
            forall|j: int| 0 <= j < i ==> out@[j]@ == v@[j]@,
        decreases n - i,
    {
        out.push(v[i].deep_clone());
    }
    proof {
        assert(exprs_view(out@) =~= exprs_view(v@));
    }
    out
}

pub fn clone_declarators(v: &Vec<Declarator>) -> (r: Vec<Declarator>)
    ensures
        declarators_view(r@) == declarators_view(v@),
    decreases v,
{
    broadcast use lemma_declarators_view;

    let mut out: Vec<Declarator> = Vec::new();
    let n = v.len();
    for i in 0..n
        invariant
            n == v.len(),
            out@.len() == i,
            forall|j: int| 0 <= j < i ==> out@[j]@ == v@[j]@,
        decreases n - i,
    {
        out.push(v[i].deep_clone());
    }
    proof {
        assert(declarators_view(out@) =~= declarators_view(v@));
    }
    out
}

pub fn clone_stmts(v: &Vec<Stmt>) -> (r: Vec<Stmt>)
    ensures
        stmts_view(r@) == stmts_view(v@),
    decreases v,
{
    broadcast use lemma_stmts_view;

    let mut out: Vec<Stmt> = Vec::new();
    let n = v.len();
    for i in 0..n
        invariant
            n == v.len(),
            out@.len() == i,
            forall|j: int| 0 <= j < i ==> out@[j]@ == v@[j]@,
        decreases n - i,
    {
        out.push(v[i].deep_clone());
    }
    proof {
        assert(stmts_view(out@) =~= stmts_view(v@));
    }
    out
}

} // verus!
