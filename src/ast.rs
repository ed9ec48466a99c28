//! The slice of a JavaScript syntax tree that the transform reads and writes,
//! with a mathematical mirror of each type.
use vstd::prelude::*;

verus! {

broadcast use vstd::std_specs::vec::group_vec_axioms;

/// An identifier of the source; `unresolved` holds when no declaration in
/// this file binds it, so that it only exists at run time.
#[derive(Debug, PartialEq)]
pub struct Ident {
    pub name: String,
    pub unresolved: bool,
}

#[derive(Debug, PartialEq)]
pub enum Lit {
    Null,
    Bool(bool),
    Num(i64),
    Str(String),
    /// Any other literal (a fraction, a regular expression, a big integer), as written.
    Raw(String),
}

#[derive(Debug, PartialEq)]
pub enum Expr {
    Lit(Lit),
    Ident(Ident),
    /// The local alias under which a runtime API symbol is imported.
    Runtime(String),
    /// An identifier that the transform itself introduces.
    Local(String),
    /// A member-expression tag name `a.b.c`, segment by segment.
    Member(Vec<String>),
    /// A namespaced tag name `ns:name`.
    Namespaced(String, String),
    Array(Vec<Expr>),
    /// A hole of an array literal.
    Hole,
    /// `...e` as an array entry or a call argument.
    Spread(Box<Expr>),
    Object(Vec<Prop>),
    /// Callee, arguments, and whether the call stands in the source with a position.
    Call(Box<Expr>, Vec<Expr>, bool),
    Cond(Box<Expr>, Box<Expr>, Box<Expr>),
    Arrow(Vec<String>, Box<Expr>),
    /// A function or arrow expression of the source, held by the host.
    Function(u64),
    Assign(Box<Expr>, Box<Expr>),
    Add(Box<Expr>, Box<Expr>),
    /// `void 0`
    Void0,
    /// The empty expression of `{}` or `{/* comment */}`.
    JsxEmpty,
    /// An arrow function without parameters whose block body the host holds.
    BlockArrow(u64),
    /// `function () { return e; }`
    FnReturning(Box<Expr>),
    /// Any other expression of the source, held by the host.
    Host(u64),
}

#[derive(Debug, PartialEq)]
pub enum PropKey {
    Str(String),
    Ident(String),
    Computed(Box<Expr>),
}

#[derive(Debug, PartialEq)]
pub enum Prop {
    KeyValue(PropKey, Expr),
    Shorthand(Ident),
    Spread(Expr),
    /// A getter of the source: its key, and its body, held by the host.
    Getter(PropKey, u64),
    /// A method of the source: its key, and the function, held by the host.
    Method(PropKey, u64),
    /// Any other entry of the source (a setter), held by the host.
    Host(u64),
}

/// The name of a JSX element.
#[derive(Debug, PartialEq)]
pub enum TagName {
    Ident(Ident),
    /// `a.b.c`, segment by segment.
    Member(Vec<String>),
    Namespaced(String, String),
}

#[derive(Debug, PartialEq)]
pub enum AttrName {
    Ident(String),
    Namespaced(String, String),
}

#[derive(Debug, PartialEq)]
pub enum AttrValue {
    /// A quoted literal.
    Lit(Lit),
    /// `{expr}`
    Expr(Expr),
    /// `{}`
    Empty,
}

#[derive(Debug, PartialEq)]
pub struct Attr {
    pub name: AttrName,
    pub value: Option<AttrValue>,
}

#[derive(Debug, PartialEq)]
pub enum AttrItem {
    Attr(Attr),
    /// `{...expr}`
    Spread(Expr),
}

#[derive(Debug, PartialEq)]
pub enum Child {
    /// A raw text run.
    Text(String),
    /// `{expr}`
    Expr(Expr),
    /// `{}`
    Empty,
    /// `{...expr}`
    Spread(Expr),
    Element(Element),
    /// `<>...</>`, by its children.
    Fragment(Vec<Child>),
}

#[derive(Debug, PartialEq)]
pub struct Element {
    pub name: TagName,
    pub attrs: Vec<AttrItem>,
    pub children: Vec<Child>,
}

pub ghost struct IdentV {
    pub name: Seq<char>,
    pub unresolved: bool,
}

pub ghost enum LitV {
    Null,
    Bool(bool),
    Num(i64),
    Str(Seq<char>),
    Raw(Seq<char>),
}

pub ghost enum ExprV {
    Lit(LitV),
    Ident(IdentV),
    Runtime(Seq<char>),
    Local(Seq<char>),
    Member(Seq<Seq<char>>),
    Namespaced(Seq<char>, Seq<char>),
    Array(Seq<ExprV>),
    Hole,
    Spread(Box<ExprV>),
    Object(Seq<PropV>),
    Call(Box<ExprV>, Seq<ExprV>, bool),
    Cond(Box<ExprV>, Box<ExprV>, Box<ExprV>),
    Arrow(Seq<Seq<char>>, Box<ExprV>),
    Function(u64),
    Assign(Box<ExprV>, Box<ExprV>),
    Add(Box<ExprV>, Box<ExprV>),
    Void0,
    JsxEmpty,
    BlockArrow(u64),
    FnReturning(Box<ExprV>),
    Host(u64),
}

pub ghost enum PropKeyV {
    Str(Seq<char>),
    Ident(Seq<char>),
    Computed(Box<ExprV>),
}

pub ghost enum PropV {
    KeyValue(PropKeyV, ExprV),
    Shorthand(IdentV),
    Spread(ExprV),
    Getter(PropKeyV, u64),
    Method(PropKeyV, u64),
    Host(u64),
}

pub ghost enum TagNameV {
    Ident(IdentV),
    Member(Seq<Seq<char>>),
    Namespaced(Seq<char>, Seq<char>),
}

pub ghost enum AttrNameV {
    Ident(Seq<char>),
    Namespaced(Seq<char>, Seq<char>),
}

pub ghost enum AttrValueV {
    Lit(LitV),
    Expr(ExprV),
    Empty,
}

pub ghost struct AttrV {
    pub name: AttrNameV,
    pub value: Option<AttrValueV>,
}

pub ghost enum AttrItemV {
    Attr(AttrV),
    Spread(ExprV),
}

pub ghost enum ChildV {
    Text(Seq<char>),
    Expr(ExprV),
    Empty,
    Spread(ExprV),
    Element(ElementV),
    Fragment(Seq<ChildV>),
}

pub ghost struct ElementV {
    pub name: TagNameV,
    pub attrs: Seq<AttrItemV>,
    pub children: Seq<ChildV>,
}

impl View for Ident {
    type V = IdentV;

    open spec fn view(&self) -> IdentV {
        IdentV { name: self.name@, unresolved: self.unresolved }
    }
}

impl View for Lit {
    type V = LitV;

    open spec fn view(&self) -> LitV {
        match self {
            Lit::Null => LitV::Null,
            Lit::Bool(b) => LitV::Bool(*b),
            Lit::Num(n) => LitV::Num(*n),
            Lit::Str(s) => LitV::Str(s@),
            Lit::Raw(s) => LitV::Raw(s@),
        }
    }
}

pub open spec fn strings_view(v: Vec<String>) -> Seq<Seq<char>> {
    Seq::new(v@.len(), |i: int| v[i]@)
}

/// The mirror of an expression.
pub open spec fn ev(e: Expr) -> ExprV
    decreases e,
{
    match e {
        Expr::Lit(l) => ExprV::Lit(l@),
        Expr::Ident(i) => ExprV::Ident(i@),
        Expr::Runtime(s) => ExprV::Runtime(s@),
        Expr::Local(s) => ExprV::Local(s@),
        Expr::Member(v) => ExprV::Member(strings_view(v)),
        Expr::Namespaced(a, b) => ExprV::Namespaced(a@, b@),
        Expr::Array(v) => ExprV::Array(evs(v)),
        Expr::Hole => ExprV::Hole,
        Expr::Spread(x) => ExprV::Spread(Box::new(ev(*x))),
        Expr::Object(v) => ExprV::Object(pvs(v)),
        Expr::Call(c, v, s) => ExprV::Call(Box::new(ev(*c)), evs(v), s),
        Expr::Cond(a, b, c) => ExprV::Cond(Box::new(ev(*a)), Box::new(ev(*b)), Box::new(ev(*c))),
        Expr::Arrow(p, b) => ExprV::Arrow(strings_view(p), Box::new(ev(*b))),
        Expr::Function(h) => ExprV::Function(h),
        Expr::Assign(a, b) => ExprV::Assign(Box::new(ev(*a)), Box::new(ev(*b))),
        Expr::Add(a, b) => ExprV::Add(Box::new(ev(*a)), Box::new(ev(*b))),
        Expr::Void0 => ExprV::Void0,
        Expr::JsxEmpty => ExprV::JsxEmpty,
        Expr::BlockArrow(h) => ExprV::BlockArrow(h),
        Expr::FnReturning(x) => ExprV::FnReturning(Box::new(ev(*x))),
        Expr::Host(h) => ExprV::Host(h),
    }
}

/// The mirror of a list of expressions.
pub open spec fn evs(v: Vec<Expr>) -> Seq<ExprV>
    decreases v,
{
    Seq::new(v@.len(), |i: int| if 0 <= i < v.len() { ev(v[i]) } else { ExprV::Hole })
}

pub open spec fn kv(k: PropKey) -> PropKeyV
    decreases k,
{
    match k {
        PropKey::Str(s) => PropKeyV::Str(s@),
        PropKey::Ident(s) => PropKeyV::Ident(s@),
        PropKey::Computed(e) => PropKeyV::Computed(Box::new(ev(*e))),
    }
}

/// The mirror of an object-literal entry.
pub open spec fn pv(p: Prop) -> PropV
    decreases p,
{
    match p {
        Prop::KeyValue(k, e) => PropV::KeyValue(kv(k), ev(e)),
        Prop::Shorthand(i) => PropV::Shorthand(i@),
        Prop::Spread(e) => PropV::Spread(ev(e)),
        Prop::Getter(k, h) => PropV::Getter(kv(k), h),
        Prop::Method(k, h) => PropV::Method(kv(k), h),
        Prop::Host(h) => PropV::Host(h),
    }
}

pub open spec fn pvs(v: Vec<Prop>) -> Seq<PropV>
    decreases v,
{
    Seq::new(v@.len(), |i: int| if 0 <= i < v.len() { pv(v[i]) } else { PropV::Host(0) })
}

pub open spec fn tv(t: TagName) -> TagNameV {
    match t {
        TagName::Ident(i) => TagNameV::Ident(i@),
        TagName::Member(v) => TagNameV::Member(strings_view(v)),
        TagName::Namespaced(a, b) => TagNameV::Namespaced(a@, b@),
    }
}

pub open spec fn anv(n: AttrName) -> AttrNameV {
    match n {
        AttrName::Ident(s) => AttrNameV::Ident(s@),
        AttrName::Namespaced(a, b) => AttrNameV::Namespaced(a@, b@),
    }
}

pub open spec fn avv(v: AttrValue) -> AttrValueV {
    match v {
        AttrValue::Lit(l) => AttrValueV::Lit(l@),
        AttrValue::Expr(e) => AttrValueV::Expr(ev(e)),
        AttrValue::Empty => AttrValueV::Empty,
    }
}

/// The mirror of an attribute.
pub open spec fn av(a: Attr) -> AttrV {
    AttrV {
        name: anv(a.name),
        value: match a.value {
            Some(v) => Some(avv(v)),
            None => None,
        },
    }
}

pub open spec fn aiv(a: AttrItem) -> AttrItemV {
    match a {
        AttrItem::Attr(x) => AttrItemV::Attr(av(x)),
        AttrItem::Spread(e) => AttrItemV::Spread(ev(e)),
    }
}

pub open spec fn aivs(v: Vec<AttrItem>) -> Seq<AttrItemV> {
    Seq::new(v@.len(), |i: int| aiv(v[i]))
}

/// The mirror of a child.
pub open spec fn cv(c: Child) -> ChildV
    decreases c,
{
    match c {
        Child::Text(s) => ChildV::Text(s@),
        Child::Expr(e) => ChildV::Expr(ev(e)),
        Child::Empty => ChildV::Empty,
        Child::Spread(e) => ChildV::Spread(ev(e)),
        Child::Element(el) => ChildV::Element(elv(el)),
        Child::Fragment(v) => ChildV::Fragment(cvs(v)),
    }
}

pub open spec fn cvs(v: Vec<Child>) -> Seq<ChildV>
    decreases v,
{
    Seq::new(v@.len(), |i: int| if 0 <= i < v.len() { cv(v[i]) } else { ChildV::Empty })
}

/// The mirror of an element.
pub open spec fn elv(e: Element) -> ElementV
    decreases e,
{
    ElementV { name: tv(e.name), attrs: aivs(e.attrs), children: cvs(e.children) }
}

pub proof fn lemma_evs_push(v: Vec<Expr>, w: Vec<Expr>, x: Expr)
    requires
        w@ == v@.push(x),
    ensures
        evs(w) == evs(v).push(ev(x)),
{
    assert(evs(w) =~= evs(v).push(ev(x)));
}

pub proof fn lemma_pvs_push(v: Vec<Prop>, w: Vec<Prop>, x: Prop)
    requires
        w@ == v@.push(x),
    ensures
        pvs(w) == pvs(v).push(pv(x)),
{
    assert(pvs(w) =~= pvs(v).push(pv(x)));
}

pub proof fn lemma_strings_push(v: Vec<String>, w: Vec<String>, x: String)
    requires
        w@ == v@.push(x),
    ensures
        strings_view(w) == strings_view(v).push(x@),
{
    assert(strings_view(w) =~= strings_view(v).push(x@));
}

pub fn copy_ident(i: &Ident) -> (r: Ident)
    ensures
        r@ == i@,
{
    Ident { name: i.name.clone(), unresolved: i.unresolved }
}

pub fn copy_lit(l: &Lit) -> (r: Lit)
    ensures
        r@ == l@,
{
    match l {
        Lit::Null => Lit::Null,
        Lit::Bool(b) => Lit::Bool(*b),
        Lit::Num(n) => Lit::Num(*n),
        Lit::Str(s) => Lit::Str(s.clone()),
        Lit::Raw(s) => Lit::Raw(s.clone()),
    }
}

pub fn copy_strings(v: &Vec<String>) -> (r: Vec<String>)
    ensures
        strings_view(r) == strings_view(*v),
{
    let mut r: Vec<String> = Vec::new();
    let mut i: usize = 0;
    while i < v.len()
        invariant
            i <= v.len(),
            strings_view(r) == strings_view(*v).subrange(0, i as int),
        decreases v.len() - i,
    {
        let s = v[i].clone();
        let ghost r0 = r;
        r.push(s);
        proof {
            lemma_strings_push(r0, r, s);
        }
        i = i + 1;
        assert(strings_view(r) =~= strings_view(*v).subrange(0, i as int));
    }
    assert(strings_view(*v).subrange(0, i as int) =~= strings_view(*v));
    r
}

/// A deep copy of an expression.
pub fn copy_expr(e: &Expr) -> (r: Expr)
    ensures
        ev(r) == ev(*e),
    decreases e,
{
    match e {
        Expr::Lit(l) => Expr::Lit(copy_lit(l)),
        Expr::Ident(i) => Expr::Ident(copy_ident(i)),
        Expr::Runtime(s) => Expr::Runtime(s.clone()),
        Expr::Local(s) => Expr::Local(s.clone()),
        Expr::Member(v) => Expr::Member(copy_strings(v)),
        Expr::Namespaced(a, b) => Expr::Namespaced(a.clone(), b.clone()),
        Expr::Array(v) => Expr::Array(copy_exprs(v)),
        Expr::Hole => Expr::Hole,
        Expr::Spread(x) => Expr::Spread(Box::new(copy_expr(x))),
        Expr::Object(v) => Expr::Object(copy_props(v)),
        Expr::Call(c, v, s) => Expr::Call(Box::new(copy_expr(c)), copy_exprs(v), *s),
        Expr::Cond(a, b, c) => Expr::Cond(
            Box::new(copy_expr(a)),
            Box::new(copy_expr(b)),
            Box::new(copy_expr(c)),
        ),
        Expr::Arrow(p, b) => Expr::Arrow(copy_strings(p), Box::new(copy_expr(b))),
        Expr::Function(h) => Expr::Function(*h),
        Expr::Assign(a, b) => Expr::Assign(Box::new(copy_expr(a)), Box::new(copy_expr(b))),
        Expr::Add(a, b) => Expr::Add(Box::new(copy_expr(a)), Box::new(copy_expr(b))),
        Expr::Void0 => Expr::Void0,
        Expr::JsxEmpty => Expr::JsxEmpty,
        Expr::BlockArrow(h) => Expr::BlockArrow(*h),
        Expr::FnReturning(x) => Expr::FnReturning(Box::new(copy_expr(x))),
        Expr::Host(h) => Expr::Host(*h),
    }
}

pub fn copy_exprs(v: &Vec<Expr>) -> (r: Vec<Expr>)
    ensures
        evs(r) == evs(*v),
    decreases v,
{
    let mut r: Vec<Expr> = Vec::new();
    let mut i: usize = 0;
    while i < v.len()
        invariant
            i <= v.len(),
            evs(r) == evs(*v).subrange(0, i as int),
        decreases v.len() - i,
    {
        let x = copy_expr(&v[i]);
        let ghost r0 = r;
        r.push(x);
        proof {
            lemma_evs_push(r0, r, x);
        }
        i = i + 1;
        assert(evs(r) =~= evs(*v).subrange(0, i as int));
    }
    assert(evs(*v).subrange(0, i as int) =~= evs(*v));
    r
}

pub fn copy_key(k: &PropKey) -> (r: PropKey)
    ensures
        kv(r) == kv(*k),
    decreases k,
{
    match k {
        PropKey::Str(s) => PropKey::Str(s.clone()),
        PropKey::Ident(s) => PropKey::Ident(s.clone()),
        PropKey::Computed(e) => PropKey::Computed(Box::new(copy_expr(e))),
    }
}

pub fn copy_prop(p: &Prop) -> (r: Prop)
    ensures
        pv(r) == pv(*p),
    decreases p,
{
    match p {
        Prop::KeyValue(k, e) => Prop::KeyValue(copy_key(k), copy_expr(e)),
        Prop::Shorthand(i) => Prop::Shorthand(copy_ident(i)),
        Prop::Spread(e) => Prop::Spread(copy_expr(e)),
        Prop::Getter(k, h) => Prop::Getter(copy_key(k), *h),
        Prop::Method(k, h) => Prop::Method(copy_key(k), *h),
        Prop::Host(h) => Prop::Host(*h),
    }
}

pub fn copy_props(v: &Vec<Prop>) -> (r: Vec<Prop>)
    ensures
        pvs(r) == pvs(*v),
    decreases v,
{
    let mut r: Vec<Prop> = Vec::new();
    let mut i: usize = 0;
    while i < v.len()
        invariant
            i <= v.len(),
            pvs(r) == pvs(*v).subrange(0, i as int),
        decreases v.len() - i,
    {
        let x = copy_prop(&v[i]);
        let ghost r0 = r;
        r.push(x);
        proof {
            lemma_pvs_push(r0, r, x);
        }
        i = i + 1;
        assert(pvs(r) =~= pvs(*v).subrange(0, i as int));
    }
    assert(pvs(*v).subrange(0, i as int) =~= pvs(*v));
    r
}

} // verus!
