//! The runtime constructors that a declared prop type stands for.
use vstd::prelude::*;
use crate::ast::{copy_expr, ev, lemma_pvs_push, pvs, Expr, ExprV, Ident, IdentV, Lit, LitV, Prop, PropKey, PropKeyV, PropV};
use crate::text::{str_eq, strings_seq};
use crate::directive::Diagnostic;

verus! {

broadcast use vstd::std_specs::vec::group_vec_axioms;

/// The shapes of a declared type that decide its runtime constructors.
#[derive(Debug, PartialEq)]
pub enum TsType {
    StringKeyword,
    NumberKeyword,
    BooleanKeyword,
    ObjectKeyword,
    NullKeyword,
    BigIntKeyword,
    SymbolKeyword,
    /// Any other keyword (`any`, `unknown`, `undefined`, ...).
    OtherKeyword,
    /// `{ ... }`, by its members.
    TypeLit(Vec<PropMember>),
    /// A function or constructor type.
    Function,
    /// `T[]` or `Array<T>` written as an array type, by its element type.
    Array(Box<TsType>),
    /// A tuple type, by its element types.
    Tuple(Vec<TsType>),
    /// A string literal type.
    StrLit(String),
    /// A template literal type.
    TplLit,
    BoolLit,
    /// A number or big-integer literal type, with its value where that is a non-negative
    /// integer.
    NumLit(Option<u64>),
    /// A reference to a named type, keyed by its binding, whether that binding is nowhere
    /// in this file, and its type arguments.
    Ref(String, bool, Vec<TsType>),
    Paren(Box<TsType>),
    Optional(Box<TsType>),
    /// A union or an intersection.
    Union(Vec<TsType>),
    /// `T[K]`: an object type indexed by a key type.
    IndexedAccess(Box<TsType>, Box<TsType>),
    /// Any other type.
    Other,
}

/// What a member of an object type declares.
#[derive(Debug, PartialEq)]
pub enum MemberKind {
    Property { optional: bool, ty: Option<TsType> },
    Getter { ty: Option<TsType> },
    Method { optional: bool },
    /// A call signature, which declares no prop, with its first parameter's type.
    Call { first_param: Option<TsType> },
    /// A construct signature.
    Construct,
    /// An index signature, with its value type.
    Index { ty: Option<TsType> },
    /// Any other member (a setter).
    Other,
}

/// A member of an object type, by its name; `quoted` where the name is a string literal.
#[derive(Debug, PartialEq)]
pub struct PropMember {
    pub name: String,
    pub quoted: bool,
    pub kind: MemberKind,
}

/// One declaration of an interface.
pub struct Interface {
    pub name: String,
    pub members: Vec<PropMember>,
    /// The interfaces it extends, by binding.
    pub extends: Vec<String>,
}

/// The type aliases and interfaces declared in the file, in order of declaration.
pub struct TypeTable {
    pub aliases: Vec<(String, TsType)>,
    /// One entry per declaration; declarations of one name are merged.
    pub interfaces: Vec<Interface>,
}

pub ghost enum TsTypeV {
    StringKeyword,
    NumberKeyword,
    BooleanKeyword,
    ObjectKeyword,
    NullKeyword,
    BigIntKeyword,
    SymbolKeyword,
    OtherKeyword,
    TypeLit(Seq<PropMemberV>),
    Function,
    Array(Box<TsTypeV>),
    Tuple(Seq<TsTypeV>),
    StrLit(Seq<char>),
    TplLit,
    BoolLit,
    NumLit(Option<u64>),
    Ref(Seq<char>, bool, Seq<TsTypeV>),
    Paren(Box<TsTypeV>),
    Optional(Box<TsTypeV>),
    Union(Seq<TsTypeV>),
    IndexedAccess(Box<TsTypeV>, Box<TsTypeV>),
    Other,
}

pub ghost enum MemberKindV {
    Property { optional: bool, ty: Option<TsTypeV> },
    Getter { ty: Option<TsTypeV> },
    Method { optional: bool },
    Call { first_param: Option<TsTypeV> },
    Construct,
    Index { ty: Option<TsTypeV> },
    Other,
}

pub ghost struct PropMemberV {
    pub name: Seq<char>,
    pub quoted: bool,
    pub kind: MemberKindV,
}

pub ghost struct InterfaceV {
    pub name: Seq<char>,
    pub members: Seq<PropMemberV>,
    pub extends: Seq<Seq<char>>,
}

pub ghost struct TableV {
    pub aliases: Seq<(Seq<char>, TsTypeV)>,
    pub interfaces: Seq<InterfaceV>,
}

/// The mirror of a type.
pub open spec fn tyv(t: TsType) -> TsTypeV
    decreases t,
{
    match t {
        TsType::StringKeyword => TsTypeV::StringKeyword,
        TsType::NumberKeyword => TsTypeV::NumberKeyword,
        TsType::BooleanKeyword => TsTypeV::BooleanKeyword,
        TsType::ObjectKeyword => TsTypeV::ObjectKeyword,
        TsType::NullKeyword => TsTypeV::NullKeyword,
        TsType::BigIntKeyword => TsTypeV::BigIntKeyword,
        TsType::SymbolKeyword => TsTypeV::SymbolKeyword,
        TsType::OtherKeyword => TsTypeV::OtherKeyword,
        TsType::TypeLit(m) => TsTypeV::TypeLit(memvs(m)),
        TsType::Function => TsTypeV::Function,
        TsType::Array(x) => TsTypeV::Array(Box::new(tyv(*x))),
        TsType::Tuple(ts) => TsTypeV::Tuple(tyvs(ts)),
        TsType::StrLit(v) => TsTypeV::StrLit(v@),
        TsType::TplLit => TsTypeV::TplLit,
        TsType::BoolLit => TsTypeV::BoolLit,
        TsType::NumLit(v) => TsTypeV::NumLit(v),
        TsType::Ref(n, u, ps) => TsTypeV::Ref(n@, u, tyvs(ps)),
        TsType::Paren(x) => TsTypeV::Paren(Box::new(tyv(*x))),
        TsType::Optional(x) => TsTypeV::Optional(Box::new(tyv(*x))),
        TsType::Union(ts) => TsTypeV::Union(tyvs(ts)),
        TsType::IndexedAccess(o, i) => TsTypeV::IndexedAccess(Box::new(tyv(*o)), Box::new(tyv(*i))),
        TsType::Other => TsTypeV::Other,
    }
}

pub open spec fn tyvs(v: Vec<TsType>) -> Seq<TsTypeV>
    decreases v,
{
    Seq::new(v@.len(), |i: int| if 0 <= i < v.len() { tyv(v[i]) } else { TsTypeV::Other })
}

pub open spec fn otyv(t: Option<TsType>) -> Option<TsTypeV>
    decreases t,
{
    match t {
        Some(x) => Some(tyv(x)),
        None => None,
    }
}

/// The mirror of a member.
pub open spec fn memv(m: PropMember) -> PropMemberV
    decreases m,
{
    PropMemberV {
        name: m.name@,
        quoted: m.quoted,
        kind: match m.kind {
            MemberKind::Property { optional, ty } => MemberKindV::Property { optional, ty: otyv(ty) },
            MemberKind::Getter { ty } => MemberKindV::Getter { ty: otyv(ty) },
            MemberKind::Method { optional } => MemberKindV::Method { optional },
            MemberKind::Call { first_param } => MemberKindV::Call { first_param: otyv(first_param) },
            MemberKind::Construct => MemberKindV::Construct,
            MemberKind::Index { ty } => MemberKindV::Index { ty: otyv(ty) },
            MemberKind::Other => MemberKindV::Other,
        },
    }
}

pub open spec fn memvs(v: Vec<PropMember>) -> Seq<PropMemberV>
    decreases v,
{
    Seq::new(
        v@.len(),
        |i: int| if 0 <= i < v.len() { memv(v[i]) } else { PropMemberV { name: seq![], quoted: false, kind: MemberKindV::Other } },
    )
}

pub open spec fn ifv(i: Interface) -> InterfaceV {
    InterfaceV { name: i.name@, members: memvs(i.members), extends: strings_seq(i.extends@) }
}

pub open spec fn tabv(t: TypeTable) -> TableV {
    TableV {
        aliases: Seq::new(t.aliases@.len(), |i: int| (t.aliases@[i].0@, tyv(t.aliases@[i].1))),
        interfaces: Seq::new(t.interfaces@.len(), |i: int| ifv(t.interfaces@[i])),
    }
}

/// The last alias declared under `name` among the first `k`.
pub open spec fn alias_of(aliases: Seq<(Seq<char>, TsTypeV)>, name: Seq<char>, k: int) -> Option<TsTypeV>
    decreases k,
{
    if k <= 0 || k > aliases.len() {
        None
    } else if aliases[k - 1].0 == name {
        Some(aliases[k - 1].1)
    } else {
        alias_of(aliases, name, k - 1)
    }
}

/// An interface of this name is declared.
pub open spec fn interface_declared(t: TableV, name: Seq<char>) -> bool {
    exists|i: int| 0 <= i < t.interfaces.len() && #[trigger] t.interfaces[i].name == name
}

pub type Ctors = Seq<Option<Seq<char>>>;

/// `c` added unless it is there.
pub open spec fn add_ctor(s: Ctors, c: Option<Seq<char>>) -> Ctors {
    if s.contains(c) {
        s
    } else {
        s.push(c)
    }
}

/// Each of `more` added in turn.
pub open spec fn add_all(s: Ctors, more: Ctors) -> Ctors
    decreases more.len(),
{
    if more.len() == 0 {
        s
    } else {
        add_ctor(add_all(s, more.drop_last()), more.last())
    }
}

/// `Function` for a call or construct signature, `Object` for any other member.
pub open spec fn member_ctor(m: PropMemberV) -> Option<Seq<char>> {
    Some(if m.kind is Call || m.kind is Construct { "Function"@ } else { "Object"@ })
}

/// The constructors of members added in turn to `acc`.
pub open spec fn member_ctors(acc: Ctors, ms: Seq<PropMemberV>) -> Ctors
    decreases ms.len(),
{
    if ms.len() == 0 {
        acc
    } else {
        add_ctor(member_ctors(acc, ms.drop_last()), member_ctor(ms.last()))
    }
}

/// The constructors of the members of every declaration of `name` among the first `k`.
pub open spec fn interface_ctors(is: Seq<InterfaceV>, name: Seq<char>, k: int) -> Ctors
    decreases k,
{
    if k <= 0 || k > is.len() {
        seq![]
    } else if is[k - 1].name == name {
        member_ctors(interface_ctors(is, name, k - 1), is[k - 1].members)
    } else {
        interface_ctors(is, name, k - 1)
    }
}

pub open spec fn ctor(n: Seq<char>) -> Ctors {
    seq![Some(n)]
}

/// Global constructors that a reference names directly.
pub open spec fn builtin_ctor(n: Seq<char>) -> bool {
    n == "Array"@ || n == "Function"@ || n == "Object"@ || n == "Set"@ || n == "Map"@ || n
        == "WeakSet"@ || n == "WeakMap"@ || n == "Date"@ || n == "Promise"@ || n == "Error"@ || n
        == "RegExp"@
}

pub open spec fn object_utility(n: Seq<char>) -> bool {
    n == "Partial"@ || n == "Required"@ || n == "Readonly"@ || n == "Record"@ || n == "Pick"@ || n
        == "Omit"@ || n == "InstanceType"@
}

pub open spec fn string_utility(n: Seq<char>) -> bool {
    n == "Uppercase"@ || n == "Lowercase"@ || n == "Capitalize"@ || n == "Uncapitalize"@
}

/// `s` without the entry for "no constructor".
pub open spec fn without_none(s: Ctors) -> Ctors
    decreases s.len(),
{
    if s.len() == 0 {
        seq![]
    } else if s.last() is None {
        without_none(s.drop_last())
    } else {
        without_none(s.drop_last()).push(s.last())
    }
}

/// The runtime constructors of a type, each once, in order of first sight; `None` stands
/// for `null`. Aliases are followed at most `fuel` deep.
pub open spec fn runtime_types(t: TsTypeV, tab: TableV, fuel: nat) -> Ctors
    decreases fuel, t, 0int,
{
    match t {
        TsTypeV::StringKeyword => ctor("String"@),
        TsTypeV::NumberKeyword => ctor("Number"@),
        TsTypeV::BooleanKeyword => ctor("Boolean"@),
        TsTypeV::ObjectKeyword => ctor("Object"@),
        TsTypeV::NullKeyword => seq![None],
        TsTypeV::BigIntKeyword => ctor("BigInt"@),
        TsTypeV::SymbolKeyword => ctor("Symbol"@),
        TsTypeV::OtherKeyword => seq![None],
        TsTypeV::TypeLit(ms) => member_ctors(seq![], ms),
        TsTypeV::Function => ctor("Function"@),
        TsTypeV::Array(_) => ctor("Array"@),
        TsTypeV::Tuple(_) => ctor("Array"@),
        TsTypeV::StrLit(_) => ctor("String"@),
        TsTypeV::TplLit => ctor("String"@),
        TsTypeV::BoolLit => ctor("Boolean"@),
        TsTypeV::NumLit(_) => ctor("Number"@),
        TsTypeV::Ref(n, _, ps) => match alias_of(tab.aliases, n, tab.aliases.len() as int) {
            Some(a) => if fuel > 0 {
                runtime_types(a, tab, (fuel - 1) as nat)
            } else {
                seq![]
            },
            None => if interface_declared(tab, n) {
                interface_ctors(tab.interfaces, n, tab.interfaces.len() as int)
            } else if builtin_ctor(n) {
                ctor(n)
            } else if object_utility(n) {
                ctor("Object"@)
            } else if string_utility(n) {
                ctor("String"@)
            } else if n == "Parameters"@ || n == "ConstructorParameters"@ {
                ctor("Array"@)
            } else if n == "NonNullable"@ {
                if ps.len() > 0 {
                    without_none(runtime_types(ps[0], tab, fuel))
                } else {
                    ctor("Object"@)
                }
            } else if n == "Exclude"@ || n == "OmitThisParameter"@ {
                if ps.len() > 0 {
                    runtime_types(ps[0], tab, fuel)
                } else {
                    ctor("Object"@)
                }
            } else if n == "Extract"@ {
                if ps.len() > 1 {
                    runtime_types(ps[1], tab, fuel)
                } else {
                    ctor("Object"@)
                }
            } else {
                ctor("Object"@)
            },
        },
        TsTypeV::Paren(x) => runtime_types(*x, tab, fuel),
        TsTypeV::Optional(x) => runtime_types(*x, tab, fuel),
        TsTypeV::Union(ts) => union_types(ts, tab, fuel, ts.len() as int),
        TsTypeV::IndexedAccess(o, i) => match indexed_access(*o, *i, tab, fuel) {
            Some(t) => if fuel > 0 {
                runtime_types(t, tab, (fuel - 1) as nat)
            } else {
                seq![]
            },
            None => seq![],
        },
        TsTypeV::Other => ctor("Object"@),
    }
}

/// The constructors of the first `k` members of a union, gathered in order.
pub open spec fn union_types(ts: Seq<TsTypeV>, tab: TableV, fuel: nat, k: int) -> Ctors
    decreases fuel, ts, k,
{
    if k <= 0 || k > ts.len() {
        seq![]
    } else {
        add_all(union_types(ts, tab, fuel, k - 1), runtime_types(ts[k - 1], tab, fuel))
    }
}

pub open spec fn ctors_view(v: Seq<Option<String>>) -> Ctors {
    Seq::new(
        v.len(),
        |i: int|
            match v[i] {
                Some(s) => Some(s@),
                None => None,
            },
    )
}

pub open spec fn opt_view(c: Option<String>) -> Option<Seq<char>> {
    match c {
        Some(s) => Some(s@),
        None => None,
    }
}

fn same_ctor(a: &Option<String>, b: &Option<String>) -> (r: bool)
    ensures
        r == (opt_view(*a) == opt_view(*b)),
{
    match (a, b) {
        (Some(x), Some(y)) => str_eq(x.as_str(), y.as_str()),
        (None, None) => true,
        _ => false,
    }
}

fn add_ctor_exec(acc: &mut Vec<Option<String>>, c: Option<String>)
    ensures
        ctors_view(final(acc)@) == add_ctor(ctors_view(old(acc)@), opt_view(c)),
{
    let mut k: usize = 0;
    while k < acc.len()
        invariant
            k <= acc@.len(),
            forall|j: int| 0 <= j < k ==> ctors_view(acc@)[j] != opt_view(c),
        decreases acc.len() - k,
    {
        if same_ctor(&acc[k], &c) {
            assert(ctors_view(acc@)[k as int] == opt_view(c));
            return;
        }
        k = k + 1;
    }
    let ghost a0 = ctors_view(acc@);
    let ghost cv = opt_view(c);
    acc.push(c);
    assert(ctors_view(acc@) =~= a0.push(cv));
}

fn add_all_exec(acc: &mut Vec<Option<String>>, more: Vec<Option<String>>)
    ensures
        ctors_view(final(acc)@) == add_all(ctors_view(old(acc)@), ctors_view(more@)),
{
    let ghost a0 = ctors_view(acc@);
    let ghost m = ctors_view(more@);
    let mut more = more;
    let mut k: usize = 0;
    assert(m.subrange(0, 0) =~= seq![]);
    while k < more.len()
        invariant
            k <= more@.len(),
            m.len() == more@.len(),
            forall|j: int| k <= j < m.len() ==> #[trigger] opt_view(more@[j]) == m[j],
            ctors_view(acc@) == add_all(a0, m.subrange(0, k as int)),
        decreases more.len() - k,
    {
        let mut c: Option<String> = None;
        let ghost before = more@;
        more.set_and_swap(k, &mut c);
        assert(opt_view(c) == m[k as int]);
        assert(m.subrange(0, k + 1 as int).drop_last() =~= m.subrange(0, k as int));
        add_ctor_exec(acc, c);
        k = k + 1;
        assert(forall|j: int| k <= j < m.len() ==> more@[j] == before[j]);
    }
    assert(m.subrange(0, k as int) =~= m);
}

fn one(name: &str) -> (r: Vec<Option<String>>)
    ensures
        ctors_view(r@) == ctor(name@),
{
    let mut v: Vec<Option<String>> = Vec::new();
    v.push(Some(name.to_owned()));
    assert(ctors_view(v@) =~= ctor(name@));
    v
}

fn member_ctors_exec(acc: &mut Vec<Option<String>>, ms: &Vec<PropMember>)
    ensures
        ctors_view(final(acc)@) == member_ctors(ctors_view(old(acc)@), memvs(*ms)),
{
    let ghost a0 = ctors_view(acc@);
    let ghost all = memvs(*ms);
    let mut k: usize = 0;
    while k < ms.len()
        invariant
            k <= ms@.len(),
            all == memvs(*ms),
            ctors_view(acc@) == member_ctors(a0, all.subrange(0, k as int)),
        decreases ms.len() - k,
    {
        assert(all.subrange(0, k + 1 as int).drop_last() =~= all.subrange(0, k as int));
        assert(all[k as int] == memv(ms@[k as int]));
        let name = match ms[k].kind {
            MemberKind::Call { .. } => "Function".to_owned(),
            MemberKind::Construct => "Function".to_owned(),
            _ => "Object".to_owned(),
        };
        add_ctor_exec(acc, Some(name));
        k = k + 1;
    }
    assert(all.subrange(0, k as int) =~= all);
}

fn without_none_exec(v: Vec<Option<String>>) -> (r: Vec<Option<String>>)
    ensures
        ctors_view(r@) == without_none(ctors_view(v@)),
{
    let ghost m = ctors_view(v@);
    let mut v = v;
    let mut r: Vec<Option<String>> = Vec::new();
    let mut k: usize = 0;
    assert(ctors_view(r@) =~= seq![]);
    while k < v.len()
        invariant
            k <= v@.len(),
            m.len() == v@.len(),
            forall|j: int| k <= j < m.len() ==> #[trigger] opt_view(v@[j]) == m[j],
            ctors_view(r@) == without_none(m.subrange(0, k as int)),
        decreases v.len() - k,
    {
        let mut c: Option<String> = None;
        let ghost before = v@;
        v.set_and_swap(k, &mut c);
        assert(opt_view(c) == m[k as int]);
        assert(m.subrange(0, k + 1 as int).drop_last() =~= m.subrange(0, k as int));
        if c.is_some() {
            let ghost r0 = ctors_view(r@);
            let ghost cv = opt_view(c);
            r.push(c);
            assert(ctors_view(r@) =~= r0.push(cv));
        }
        k = k + 1;
        assert(forall|j: int| k <= j < m.len() ==> v@[j] == before[j]);
    }
    assert(m.subrange(0, k as int) =~= m);
    r
}

fn alias_lookup<'a>(table: &'a TypeTable, name: &String) -> (r: Option<&'a TsType>)
    ensures
        match r {
            Some(t) => alias_of(tabv(*table).aliases, name@, table.aliases@.len() as int) == Some(tyv(*t)),
            None => alias_of(tabv(*table).aliases, name@, table.aliases@.len() as int) is None,
        },
{
    let ghost al = tabv(*table).aliases;
    let mut k: usize = table.aliases.len();
    while k > 0
        invariant
            k <= table.aliases@.len(),
            al == tabv(*table).aliases,
            alias_of(al, name@, table.aliases@.len() as int) == alias_of(al, name@, k as int),
        decreases k,
    {
        if str_eq(table.aliases[k - 1].0.as_str(), name.as_str()) {
            return Some(&table.aliases[k - 1].1);
        }
        k = k - 1;
    }
    None
}

fn interface_ctors_exec(table: &TypeTable, name: &String) -> (r: Option<Vec<Option<String>>>)
    ensures
        match r {
            Some(c) => interface_declared(tabv(*table), name@) && ctors_view(c@) == interface_ctors(
                tabv(*table).interfaces,
                name@,
                table.interfaces@.len() as int,
            ),
            None => !interface_declared(tabv(*table), name@),
        },
{
    let ghost is = tabv(*table).interfaces;
    let mut found = false;
    let mut acc: Vec<Option<String>> = Vec::new();
    assert(ctors_view(acc@) =~= seq![]);
    let mut k: usize = 0;
    while k < table.interfaces.len()
        invariant
            k <= table.interfaces@.len(),
            is == tabv(*table).interfaces,
            ctors_view(acc@) == interface_ctors(is, name@, k as int),
            found == exists|i: int| 0 <= i < k && #[trigger] is[i].name == name@,
        decreases table.interfaces.len() - k,
    {
        assert(is[k as int] == ifv(table.interfaces@[k as int]));
        if str_eq(table.interfaces[k].name.as_str(), name.as_str()) {
            found = true;
            member_ctors_exec(&mut acc, &table.interfaces[k].members);
            assert(is[k as int].name == name@);
        } else {
            assert(is[k as int].name != name@);
        }
        k = k + 1;
    }
    if found {
        Some(acc)
    } else {
        None
    }
}

fn is_builtin_ctor(n: &str) -> (r: bool)
    ensures
        r == builtin_ctor(n@),
{
    str_eq(n, "Array") || str_eq(n, "Function") || str_eq(n, "Object") || str_eq(n, "Set")
        || str_eq(n, "Map") || str_eq(n, "WeakSet") || str_eq(n, "WeakMap") || str_eq(n, "Date")
        || str_eq(n, "Promise") || str_eq(n, "Error") || str_eq(n, "RegExp")
}

fn is_object_utility(n: &str) -> (r: bool)
    ensures
        r == object_utility(n@),
{
    str_eq(n, "Partial") || str_eq(n, "Required") || str_eq(n, "Readonly") || str_eq(n, "Record")
        || str_eq(n, "Pick") || str_eq(n, "Omit") || str_eq(n, "InstanceType")
}

fn is_string_utility(n: &str) -> (r: bool)
    ensures
        r == string_utility(n@),
{
    str_eq(n, "Uppercase") || str_eq(n, "Lowercase") || str_eq(n, "Capitalize") || str_eq(
        n,
        "Uncapitalize",
    )
}

/// The runtime constructors of a declared type, each once, in order of first sight
/// (`None` for `null`), following aliases at most `fuel` deep.
pub fn infer_runtime_type(t: &TsType, table: &TypeTable, fuel: usize) -> (r: Vec<Option<String>>)
    ensures
        ctors_view(r@) == runtime_types(tyv(*t), tabv(*table), fuel as nat),
    decreases fuel, t, 0int,
{
    match t {
        TsType::StringKeyword => one("String"),
        TsType::NumberKeyword => one("Number"),
        TsType::BooleanKeyword => one("Boolean"),
        TsType::ObjectKeyword => one("Object"),
        TsType::NullKeyword | TsType::OtherKeyword => {
            let mut v: Vec<Option<String>> = Vec::new();
            v.push(None);
            assert(ctors_view(v@) =~= seq![None]);
            v
        },
        TsType::BigIntKeyword => one("BigInt"),
        TsType::SymbolKeyword => one("Symbol"),
        TsType::TypeLit(ms) => {
            let mut acc: Vec<Option<String>> = Vec::new();
            assert(ctors_view(acc@) =~= seq![]);
            member_ctors_exec(&mut acc, ms);
            acc
        },
        TsType::Function => one("Function"),
        TsType::Array(_) => one("Array"),
        TsType::Tuple(_) => one("Array"),
        TsType::StrLit(_) => one("String"),
        TsType::TplLit => one("String"),
        TsType::BoolLit => one("Boolean"),
        TsType::NumLit(_) => one("Number"),
        TsType::Ref(n, u, ps) => {
            assert(tyv(*t) == TsTypeV::Ref(n@, *u, tyvs(*ps)));
            assert(ps@.len() > 0 ==> tyvs(*ps)[0] == tyv(ps@[0]));
            assert(ps@.len() > 1 ==> tyvs(*ps)[1] == tyv(ps@[1]));
            match alias_lookup(table, n) {
                Some(a) => {
                    if fuel > 0 {
                        infer_runtime_type(a, table, fuel - 1)
                    } else {
                        let v: Vec<Option<String>> = Vec::new();
                        assert(ctors_view(v@) =~= seq![]);
                        v
                    }
                },
                None => match interface_ctors_exec(table, n) {
                    Some(c) => c,
                    None => {
                        let name = n.as_str();
                        if is_builtin_ctor(name) {
                            one(name)
                        } else if is_object_utility(name) {
                            one("Object")
                        } else if is_string_utility(name) {
                            one("String")
                        } else if str_eq(name, "Parameters") || str_eq(name, "ConstructorParameters") {
                            one("Array")
                        } else if str_eq(name, "NonNullable") {
                            if ps.len() > 0 {
                                without_none_exec(infer_runtime_type(&ps[0], table, fuel))
                            } else {
                                one("Object")
                            }
                        } else if str_eq(name, "Exclude") || str_eq(name, "OmitThisParameter") {
                            if ps.len() > 0 {
                                infer_runtime_type(&ps[0], table, fuel)
                            } else {
                                one("Object")
                            }
                        } else if str_eq(name, "Extract") {
                            if ps.len() > 1 {
                                infer_runtime_type(&ps[1], table, fuel)
                            } else {
                                one("Object")
                            }
                        } else {
                            one("Object")
                        }
                    },
                },
            }
        },
        TsType::Paren(x) => infer_runtime_type(x, table, fuel),
        TsType::Optional(x) => infer_runtime_type(x, table, fuel),
        TsType::Union(ts) => union_types_exec(ts, table, fuel),
        TsType::IndexedAccess(o, i) => {
            match resolve_indexed_access(o, i, table, fuel) {
                Some(t) => {
                    if fuel > 0 {
                        infer_runtime_type(&t, table, fuel - 1)
                    } else {
                        let v: Vec<Option<String>> = Vec::new();
                        assert(ctors_view(v@) =~= seq![]);
                        v
                    }
                },
                None => {
                    let v: Vec<Option<String>> = Vec::new();
                    assert(ctors_view(v@) =~= seq![]);
                    v
                },
            }
        },
        TsType::Other => one("Object"),
    }
}

fn union_types_exec(ts: &Vec<TsType>, table: &TypeTable, fuel: usize) -> (r: Vec<Option<String>>)
    ensures
        ctors_view(r@) == union_types(tyvs(*ts), tabv(*table), fuel as nat, ts@.len() as int),
    decreases fuel, ts, ts@.len(),
{
    let mut acc: Vec<Option<String>> = Vec::new();
    let mut k: usize = 0;
    assert(ctors_view(acc@) =~= seq![]);
    while k < ts.len()
        invariant
            k <= ts@.len(),
            ctors_view(acc@) == union_types(tyvs(*ts), tabv(*table), fuel as nat, k as int),
        decreases ts.len() - k,
    {
        let more = infer_runtime_type(&ts[k], table, fuel);
        add_all_exec(&mut acc, more);
        k = k + 1;
    }
    acc
}

/// What is known of one prop so far.
pub ghost struct PropIrV {
    pub name: Seq<char>,
    pub quoted: bool,
    pub types: Ctors,
    pub required: bool,
}

/// The first prop named `name`.
pub open spec fn find_ir(irs: Seq<PropIrV>, name: Seq<char>, k: int) -> Option<int>
    decreases k,
{
    if k <= 0 || k > irs.len() {
        None
    } else {
        match find_ir(irs, name, k - 1) {
            Some(j) => Some(j),
            None => if irs[k - 1].name == name {
                Some(k - 1)
            } else {
                None
            },
        }
    }
}

pub open spec fn declared_types(ty: Option<TsTypeV>, tab: TableV, fuel: nat) -> Ctors {
    match ty {
        Some(t) => runtime_types(t, tab, fuel),
        None => seq![None],
    }
}

/// A property, getter or method; other members declare no prop.
pub open spec fn declares_prop(k: MemberKindV) -> bool {
    k is Property || k is Getter || k is Method
}

/// A member added to what is known of the props: a repeated name gathers the types, and
/// an optional property or method makes the prop optional.
pub open spec fn ir_step(irs: Seq<PropIrV>, m: PropMemberV, tab: TableV, fuel: nat) -> Seq<PropIrV> {
    let (types, optional, is_getter) = match m.kind {
        MemberKindV::Property { optional, ty } => (declared_types(ty, tab, fuel), optional, false),
        MemberKindV::Getter { ty } => (declared_types(ty, tab, fuel), false, true),
        MemberKindV::Method { optional } => (ctor("Function"@), optional, false),
        _ => (seq![], false, false),
    };
    if !declares_prop(m.kind) {
        irs
    } else {
        match find_ir(irs, m.name, irs.len() as int) {
            Some(j) => irs.update(
                j,
                PropIrV {
                    types: add_all(irs[j].types, types),
                    required: irs[j].required && !optional,
                    ..irs[j]
                },
            ),
            None => irs.push(
                PropIrV { name: m.name, quoted: m.quoted, types, required: is_getter || !optional },
            ),
        }
    }
}

pub open spec fn irs_fold(ms: Seq<PropMemberV>, tab: TableV, fuel: nat) -> Seq<PropIrV>
    decreases ms.len(),
{
    if ms.len() == 0 {
        seq![]
    } else {
        ir_step(irs_fold(ms.drop_last(), tab, fuel), ms.last(), tab, fuel)
    }
}

/// A constructor as an expression: the global of that name, or `null`.
pub open spec fn ctor_expr(c: Option<Seq<char>>) -> ExprV {
    match c {
        Some(n) => ExprV::Ident(IdentV { name: n, unresolved: true }),
        None => ExprV::Lit(LitV::Null),
    }
}

pub open spec fn type_value(types: Ctors) -> ExprV {
    if types.len() == 1 {
        ctor_expr(types[0])
    } else {
        ExprV::Array(Seq::new(types.len(), |i: int| ctor_expr(types[i])))
    }
}

/// The default given for a prop, the first of that name.
pub open spec fn default_of(ds: Seq<(Seq<char>, ExprV)>, name: Seq<char>, k: int) -> Option<ExprV>
    decreases k,
{
    if k <= 0 || k > ds.len() {
        None
    } else {
        match default_of(ds, name, k - 1) {
            Some(e) => Some(e),
            None => if ds[k - 1].0 == name {
                Some(ds[k - 1].1)
            } else {
                None
            },
        }
    }
}

/// `name: { type: ..., required: ..., default?: ... }`
pub open spec fn descriptor(ir: PropIrV, default: Option<ExprV>) -> PropV {
    let base = seq![
        PropV::KeyValue(PropKeyV::Ident("type"@), type_value(ir.types)),
        PropV::KeyValue(PropKeyV::Ident("required"@), ExprV::Lit(LitV::Bool(ir.required))),
    ];
    PropV::KeyValue(
        if ir.quoted { PropKeyV::Str(ir.name) } else { PropKeyV::Ident(ir.name) },
        ExprV::Object(
            match default {
                Some(d) => base.push(PropV::KeyValue(PropKeyV::Ident("default"@), d)),
                None => base,
            },
        ),
    )
}

/// The runtime props declaration of a props type.
pub open spec fn props_declaration(
    ms: Seq<PropMemberV>,
    tab: TableV,
    fuel: nat,
    ds: Seq<(Seq<char>, ExprV)>,
) -> ExprV {
    let irs = irs_fold(ms, tab, fuel);
    ExprV::Object(
        Seq::new(irs.len(), |i: int| descriptor(irs[i], default_of(ds, irs[i].name, ds.len() as int))),
    )
}

/// What is known of one prop so far.
pub struct PropIr {
    pub name: String,
    pub quoted: bool,
    pub types: Vec<Option<String>>,
    pub required: bool,
}

pub open spec fn irv(i: PropIr) -> PropIrV {
    PropIrV { name: i.name@, quoted: i.quoted, types: ctors_view(i.types@), required: i.required }
}

pub open spec fn irsv(v: Seq<PropIr>) -> Seq<PropIrV> {
    Seq::new(v.len(), |i: int| irv(v[i]))
}

fn find_ir_exec(irs: &Vec<PropIr>, name: &String) -> (r: Option<usize>)
    ensures
        match r {
            Some(j) => find_ir(irsv(irs@), name@, irs@.len() as int) == Some(j as int) && j < irs@.len(),
            None => find_ir(irsv(irs@), name@, irs@.len() as int) is None,
        },
{
    let ghost v = irsv(irs@);
    let mut k: usize = 0;
    while k < irs.len()
        invariant
            k <= irs@.len(),
            v == irsv(irs@),
            find_ir(v, name@, k as int) is None,
        decreases irs.len() - k,
    {
        if str_eq(irs[k].name.as_str(), name.as_str()) {
            proof {
                lemma_find_ir_stays(v, name@, k as int + 1, irs@.len() as int);
            }
            return Some(k);
        }
        k = k + 1;
    }
    None
}

proof fn lemma_find_ir_stays(v: Seq<PropIrV>, name: Seq<char>, k: int, n: int)
    requires
        0 < k <= n <= v.len(),
        find_ir(v, name, k) == Some(k - 1),
    ensures
        find_ir(v, name, n) == Some(k - 1),
    decreases n - k,
{
    if k < n {
        lemma_find_ir_stays(v, name, k, n - 1);
    }
}

fn declared_types_exec(ty: &Option<TsType>, table: &TypeTable, fuel: usize) -> (r: Vec<Option<String>>)
    ensures
        ctors_view(r@) == declared_types(otyv(*ty), tabv(*table), fuel as nat),
{
    match ty {
        Some(t) => infer_runtime_type(t, table, fuel),
        None => {
            let mut v: Vec<Option<String>> = Vec::new();
            v.push(None);
            assert(ctors_view(v@) =~= seq![None]);
            v
        },
    }
}

fn ir_step_exec(irs: &mut Vec<PropIr>, m: PropMember, table: &TypeTable, fuel: usize)
    ensures
        irsv(final(irs)@) == ir_step(irsv(old(irs)@), memv(m), tabv(*table), fuel as nat),
{
    let ghost g = memv(m);
    let (types, optional, is_getter) = match &m.kind {
        MemberKind::Property { optional, ty } => (declared_types_exec(ty, table, fuel), *optional, false),
        MemberKind::Getter { ty } => (declared_types_exec(ty, table, fuel), false, true),
        MemberKind::Method { optional } => (one("Function"), *optional, false),
        _ => {
            return;
        },
    };
    let ghost v0 = irsv(irs@);
    match find_ir_exec(irs, &m.name) {
        Some(j) => {
            let mut slot = PropIr { name: String::new(), quoted: false, types: Vec::new(), required: false };
            irs.set_and_swap(j, &mut slot);
            let ghost old_j = irv(slot);
            add_all_exec(&mut slot.types, types);
            slot.required = slot.required && !optional;
            irs.set(j, slot);
            assert(irsv(irs@) =~= v0.update(j as int, PropIrV {
                types: add_all(old_j.types, ctors_view(types@)),
                required: old_j.required && !optional,
                ..old_j
            }));
        },
        None => {
            let ir = PropIr { name: m.name, quoted: m.quoted, types, required: is_getter || !optional };
            irs.push(ir);
            assert(irsv(irs@) =~= v0.push(irv(ir)));
        },
    }
}

fn ctor_expr_exec(c: &Option<String>) -> (r: Expr)
    ensures
        ev(r) == ctor_expr(opt_view(*c)),
{
    match c {
        Some(n) => Expr::Ident(Ident { name: n.clone(), unresolved: true }),
        None => Expr::Lit(Lit::Null),
    }
}

fn type_value_exec(types: &Vec<Option<String>>) -> (r: Expr)
    ensures
        ev(r) == type_value(ctors_view(types@)),
{
    if types.len() == 1 {
        return ctor_expr_exec(&types[0]);
    }
    let mut items: Vec<Expr> = Vec::new();
    let mut k: usize = 0;
    while k < types.len()
        invariant
            k <= types@.len(),
            crate::ast::evs(items) == Seq::new(k as nat, |i: int| ctor_expr(ctors_view(types@)[i])),
        decreases types.len() - k,
    {
        let e = ctor_expr_exec(&types[k]);
        let ghost i0 = items;
        items.push(e);
        proof {
            crate::ast::lemma_evs_push(i0, items, e);
        }
        k = k + 1;
        assert(crate::ast::evs(items) =~= Seq::new(k as nat, |i: int| ctor_expr(ctors_view(types@)[i])));
    }
    Expr::Array(items)
}

pub open spec fn defaults_view(ds: Seq<(String, Expr)>) -> Seq<(Seq<char>, ExprV)> {
    Seq::new(ds.len(), |i: int| (ds[i].0@, ev(ds[i].1)))
}

fn default_exec(ds: &Vec<(String, Expr)>, name: &String) -> (r: Option<Expr>)
    ensures
        match r {
            Some(e) => default_of(defaults_view(ds@), name@, ds@.len() as int) == Some(ev(e)),
            None => default_of(defaults_view(ds@), name@, ds@.len() as int) is None,
        },
{
    let ghost v = defaults_view(ds@);
    let mut k: usize = 0;
    while k < ds.len()
        invariant
            k <= ds@.len(),
            v == defaults_view(ds@),
            default_of(v, name@, k as int) is None,
        decreases ds.len() - k,
    {
        if str_eq(ds[k].0.as_str(), name.as_str()) {
            proof {
                lemma_default_stays(v, name@, k as int + 1, ds@.len() as int, ev(ds@[k as int].1));
            }
            return Some(copy_expr(&ds[k].1));
        }
        k = k + 1;
    }
    None
}

proof fn lemma_default_stays(v: Seq<(Seq<char>, ExprV)>, name: Seq<char>, k: int, n: int, e: ExprV)
    requires
        0 < k <= n <= v.len(),
        default_of(v, name, k) == Some(e),
    ensures
        default_of(v, name, n) == Some(e),
    decreases n - k,
{
    if k < n {
        lemma_default_stays(v, name, k, n - 1, e);
    }
}

fn descriptor_exec(ir: &PropIr, default: Option<Expr>) -> (r: Prop)
    ensures
        crate::ast::pv(r) == descriptor(irv(*ir), match default {
            Some(d) => Some(ev(d)),
            None => None,
        }),
{
    let mut ps: Vec<Prop> = Vec::new();
    let tv = type_value_exec(&ir.types);
    let p1 = Prop::KeyValue(PropKey::Ident("type".to_owned()), tv);
    ps.push(p1);
    let p2 = Prop::KeyValue(PropKey::Ident("required".to_owned()), Expr::Lit(Lit::Bool(ir.required)));
    ps.push(p2);
    let ghost base = seq![crate::ast::pv(p1), crate::ast::pv(p2)];
    assert(pvs(ps) =~= base);
    match default {
        Some(d) => {
            let p3 = Prop::KeyValue(PropKey::Ident("default".to_owned()), d);
            ps.push(p3);
            assert(pvs(ps) =~= base.push(crate::ast::pv(p3)));
        },
        None => {},
    }
    let key = if ir.quoted { PropKey::Str(ir.name.clone()) } else { PropKey::Ident(ir.name.clone()) };
    Prop::KeyValue(key, Expr::Object(ps))
}

/// The runtime props declaration of a props type: one descriptor per prop, in order of
/// first declaration, with the default given for it, if any.
pub fn build_props_type(
    members: Vec<PropMember>,
    table: &TypeTable,
    fuel: usize,
    defaults: &Vec<(String, Expr)>,
) -> (r: Expr)
    ensures
        ev(r) == props_declaration(
            Seq::new(members@.len(), |i: int| memv(members@[i])),
            tabv(*table),
            fuel as nat,
            defaults_view(defaults@),
        ),
{
    let ghost ms = Seq::new(members@.len(), |i: int| memv(members@[i]));
    let mut members = members;
    let mut irs: Vec<PropIr> = Vec::new();
    let mut k: usize = 0;
    assert(irsv(irs@) =~= seq![]);
    while k < members.len()
        invariant
            k <= members@.len(),
            ms.len() == members@.len(),
            forall|j: int| k <= j < ms.len() ==> #[trigger] memv(members@[j]) == ms[j],
            irsv(irs@) == irs_fold(ms.subrange(0, k as int), tabv(*table), fuel as nat),
        decreases members.len() - k,
    {
        let mut m = PropMember { name: String::new(), quoted: false, kind: MemberKind::Other };
        let ghost before = members@;
        members.set_and_swap(k, &mut m);
        assert(memv(m) == ms[k as int]);
        assert(ms.subrange(0, k + 1 as int).drop_last() =~= ms.subrange(0, k as int));
        ir_step_exec(&mut irs, m, table, fuel);
        k = k + 1;
        assert(forall|j: int| k <= j < ms.len() ==> members@[j] == before[j]);
    }
    assert(ms.subrange(0, k as int) =~= ms);
    let ghost iv = irsv(irs@);
    let mut out: Vec<Prop> = Vec::new();
    let mut i: usize = 0;
    while i < irs.len()
        invariant
            i <= irs@.len(),
            iv == irsv(irs@),
            pvs(out) == Seq::new(i as nat, |j: int| descriptor(iv[j], default_of(defaults_view(defaults@), iv[j].name, defaults@.len() as int))),
        decreases irs.len() - i,
    {
        let d = default_exec(defaults, &irs[i].name);
        let p = descriptor_exec(&irs[i], d);
        let ghost o0 = out;
        out.push(p);
        proof {
            lemma_pvs_push(o0, out, p);
        }
        i = i + 1;
        assert(pvs(out) =~= Seq::new(i as nat, |j: int| descriptor(iv[j], default_of(defaults_view(defaults@), iv[j].name, defaults@.len() as int))));
    }
    Expr::Object(out)
}

/// Members that can declare a prop, or a call signature.
pub open spec fn keeps(m: PropMemberV) -> bool {
    declares_prop(m.kind) || m.kind is Call
}

pub open spec fn kept(ms: Seq<PropMemberV>) -> Seq<PropMemberV>
    decreases ms.len(),
{
    if ms.len() == 0 {
        seq![]
    } else if keeps(ms.last()) {
        kept(ms.drop_last()).push(ms.last())
    } else {
        kept(ms.drop_last())
    }
}

/// The member with its optionality set, where it has one.
pub open spec fn set_optional(m: PropMemberV, optional: bool) -> PropMemberV {
    match m.kind {
        MemberKindV::Property { ty, .. } => PropMemberV { kind: MemberKindV::Property { optional, ty }, ..m },
        MemberKindV::Method { .. } => PropMemberV { kind: MemberKindV::Method { optional }, ..m },
        _ => m,
    }
}

/// `Pick` keeps the members named in `keys`, `Omit` the others; call signatures go with
/// `Omit` only.
pub open spec fn picked(ms: Seq<PropMemberV>, keys: Seq<Seq<char>>, pick: bool) -> Seq<PropMemberV>
    decreases ms.len(),
{
    if ms.len() == 0 {
        seq![]
    } else {
        let m = ms.last();
        let keep = if m.kind is Call { !pick } else { keys.contains(m.name) == pick };
        if keep {
            picked(ms.drop_last(), keys, pick).push(m)
        } else {
            picked(ms.drop_last(), keys, pick)
        }
    }
}

/// The string literals that a key type names: a literal, a union of them, or an alias of
/// either; every step spends one unit of `fuel`.
pub open spec fn string_keys(t: TsTypeV, tab: TableV, fuel: nat) -> Seq<Seq<char>>
    decreases fuel, 0int,
{
    if fuel == 0 {
        seq![]
    } else {
        match t {
            TsTypeV::StrLit(v) => seq![v],
            TsTypeV::Union(ts) => keys_list(ts, tab, (fuel - 1) as nat, ts.len() as int),
            TsTypeV::Ref(n, _, _) => match alias_of(tab.aliases, n, tab.aliases.len() as int) {
                Some(a) => string_keys(a, tab, (fuel - 1) as nat),
                None => seq![],
            },
            _ => seq![],
        }
    }
}

pub open spec fn keys_list(ts: Seq<TsTypeV>, tab: TableV, fuel: nat, k: int) -> Seq<Seq<char>>
    decreases fuel, k,
{
    if k <= 0 || k > ts.len() {
        seq![]
    } else {
        keys_list(ts, tab, fuel, k - 1) + string_keys(ts[k - 1], tab, fuel)
    }
}

/// The kept members of every declaration of `name` among the first `k`.
pub open spec fn interface_elements(is: Seq<InterfaceV>, name: Seq<char>, k: int) -> Seq<PropMemberV>
    decreases k,
{
    if k <= 0 || k > is.len() {
        seq![]
    } else if is[k - 1].name == name {
        interface_elements(is, name, k - 1) + kept(is[k - 1].members)
    } else {
        interface_elements(is, name, k - 1)
    }
}

/// What the first declaration of `name` from the `k`th on extends.
pub open spec fn first_extends(is: Seq<InterfaceV>, name: Seq<char>, k: int) -> Seq<Seq<char>>
    decreases is.len() - k,
{
    if k < 0 || k >= is.len() {
        seq![]
    } else if is[k].name == name {
        is[k].extends
    } else {
        first_extends(is, name, k + 1)
    }
}

/// The members that a props type declares: object types, unions and intersections,
/// aliases, interfaces with what they extend, and `Partial`, `Required`, `Pick` and `Omit`
/// of those; every step spends one unit of `fuel`.
pub open spec fn elements(t: TsTypeV, tab: TableV, fuel: nat) -> Seq<PropMemberV>
    decreases fuel, 0int,
{
    if fuel == 0 {
        seq![]
    } else {
        let f = (fuel - 1) as nat;
        match t {
            TsTypeV::TypeLit(ms) => kept(ms),
            TsTypeV::Union(ts) => elements_list(ts, tab, f, ts.len() as int),
            TsTypeV::Ref(n, unresolved, ps) => match alias_of(tab.aliases, n, tab.aliases.len() as int) {
                Some(a) => elements(a, tab, f),
                None => if interface_declared(tab, n) {
                    let es = first_extends(tab.interfaces, n, 0);
                    interface_elements(tab.interfaces, n, tab.interfaces.len() as int)
                        + extends_elements(es, tab, f, es.len() as int)
                } else if unresolved && n == "Partial"@ && ps.len() > 0 {
                    let inner = elements(ps[0], tab, f);
                    Seq::new(inner.len(), |i: int| set_optional(inner[i], true))
                } else if unresolved && n == "Required"@ && ps.len() > 0 {
                    let inner = elements(ps[0], tab, f);
                    Seq::new(inner.len(), |i: int| set_optional(inner[i], false))
                } else if unresolved && (n == "Pick"@ || n == "Omit"@) && ps.len() > 1 {
                    picked(elements(ps[0], tab, f), string_keys(ps[1], tab, f), n == "Pick"@)
                } else {
                    seq![]
                },
            },
            TsTypeV::Paren(x) => elements(*x, tab, f),
            TsTypeV::Optional(x) => elements(*x, tab, f),
            TsTypeV::Function => seq![PropMemberV { name: seq![], quoted: false, kind: MemberKindV::Call { first_param: None } }],
            TsTypeV::IndexedAccess(o, i) => match indexed_access(*o, *i, tab, f) {
                Some(t) => elements(t, tab, f),
                None => seq![],
            },
            _ => seq![],
        }
    }
}

pub open spec fn elements_list(ts: Seq<TsTypeV>, tab: TableV, fuel: nat, k: int) -> Seq<PropMemberV>
    decreases fuel, k,
{
    if k <= 0 || k > ts.len() {
        seq![]
    } else {
        elements_list(ts, tab, fuel, k - 1) + elements(ts[k - 1], tab, fuel)
    }
}

pub open spec fn extends_elements(es: Seq<Seq<char>>, tab: TableV, fuel: nat, k: int) -> Seq<PropMemberV>
    decreases fuel, k,
{
    if k <= 0 || k > es.len() {
        seq![]
    } else {
        extends_elements(es, tab, fuel, k - 1) + elements(TsTypeV::Ref(es[k - 1], false, seq![]), tab, fuel)
    }
}

pub fn copy_ty(t: &TsType) -> (r: TsType)
    ensures
        tyv(r) == tyv(*t),
    decreases t,
{
    match t {
        TsType::StringKeyword => TsType::StringKeyword,
        TsType::NumberKeyword => TsType::NumberKeyword,
        TsType::BooleanKeyword => TsType::BooleanKeyword,
        TsType::ObjectKeyword => TsType::ObjectKeyword,
        TsType::NullKeyword => TsType::NullKeyword,
        TsType::BigIntKeyword => TsType::BigIntKeyword,
        TsType::SymbolKeyword => TsType::SymbolKeyword,
        TsType::OtherKeyword => TsType::OtherKeyword,
        TsType::TypeLit(ms) => TsType::TypeLit(copy_members(ms)),
        TsType::Function => TsType::Function,
        TsType::Array(x) => TsType::Array(Box::new(copy_ty(x))),
        TsType::Tuple(ts) => TsType::Tuple(copy_tys(ts)),
        TsType::StrLit(v) => TsType::StrLit(v.clone()),
        TsType::TplLit => TsType::TplLit,
        TsType::BoolLit => TsType::BoolLit,
        TsType::NumLit(v) => TsType::NumLit(*v),
        TsType::Ref(n, u, ps) => TsType::Ref(n.clone(), *u, copy_tys(ps)),
        TsType::Paren(x) => TsType::Paren(Box::new(copy_ty(x))),
        TsType::Optional(x) => TsType::Optional(Box::new(copy_ty(x))),
        TsType::Union(ts) => TsType::Union(copy_tys(ts)),
        TsType::IndexedAccess(o, i) => TsType::IndexedAccess(Box::new(copy_ty(o)), Box::new(copy_ty(i))),
        TsType::Other => TsType::Other,
    }
}

pub fn copy_tys(v: &Vec<TsType>) -> (r: Vec<TsType>)
    ensures
        tyvs(r) == tyvs(*v),
    decreases v,
{
    let mut r: Vec<TsType> = Vec::new();
    let mut i: usize = 0;
    while i < v.len()
        invariant
            i <= v.len(),
            tyvs(r) == tyvs(*v).subrange(0, i as int),
        decreases v.len() - i,
    {
        let x = copy_ty(&v[i]);
        let ghost r0 = tyvs(r);
        r.push(x);
        assert(tyvs(r) =~= r0.push(tyv(x)));
        i = i + 1;
        assert(tyvs(r) =~= tyvs(*v).subrange(0, i as int));
    }
    assert(tyvs(*v).subrange(0, i as int) =~= tyvs(*v));
    r
}

fn copy_opt_ty(t: &Option<TsType>) -> (r: Option<TsType>)
    ensures
        otyv(r) == otyv(*t),
    decreases t,
{
    match t {
        Some(x) => Some(copy_ty(x)),
        None => None,
    }
}

pub fn copy_member(m: &PropMember) -> (r: PropMember)
    ensures
        memv(r) == memv(*m),
    decreases m,
{
    let kind = match &m.kind {
        MemberKind::Property { optional, ty } => MemberKind::Property { optional: *optional, ty: copy_opt_ty(ty) },
        MemberKind::Getter { ty } => MemberKind::Getter { ty: copy_opt_ty(ty) },
        MemberKind::Method { optional } => MemberKind::Method { optional: *optional },
        MemberKind::Call { first_param } => MemberKind::Call { first_param: copy_opt_ty(first_param) },
        MemberKind::Construct => MemberKind::Construct,
        MemberKind::Index { ty } => MemberKind::Index { ty: copy_opt_ty(ty) },
        MemberKind::Other => MemberKind::Other,
    };
    PropMember { name: m.name.clone(), quoted: m.quoted, kind }
}

pub fn copy_members(v: &Vec<PropMember>) -> (r: Vec<PropMember>)
    ensures
        memvs(r) == memvs(*v),
    decreases v,
{
    let mut r: Vec<PropMember> = Vec::new();
    let mut i: usize = 0;
    while i < v.len()
        invariant
            i <= v.len(),
            memvs(r) == memvs(*v).subrange(0, i as int),
        decreases v.len() - i,
    {
        let x = copy_member(&v[i]);
        let ghost r0 = memvs(r);
        r.push(x);
        assert(memvs(r) =~= r0.push(memv(x)));
        i = i + 1;
        assert(memvs(r) =~= memvs(*v).subrange(0, i as int));
    }
    assert(memvs(*v).subrange(0, i as int) =~= memvs(*v));
    r
}

fn push_member(v: &mut Vec<PropMember>, m: PropMember)
    ensures
        memvs(*final(v)) == memvs(*old(v)).push(memv(m)),
{
    let ghost v0 = memvs(*v);
    v.push(m);
    assert(memvs(*v) =~= v0.push(memv(m)));
}

fn append_members(v: &mut Vec<PropMember>, w: Vec<PropMember>)
    ensures
        memvs(*final(v)) == memvs(*old(v)) + memvs(w),
{
    let ghost v0 = memvs(*v);
    let ghost w0 = memvs(w);
    let mut w = w;
    v.append(&mut w);
    assert(memvs(*v) =~= v0 + w0);
}

fn keeps_exec(m: &PropMember) -> (r: bool)
    ensures
        r == keeps(memv(*m)),
{
    match m.kind {
        MemberKind::Property { .. } | MemberKind::Getter { .. } | MemberKind::Method { .. } | MemberKind::Call { .. } => true,
        _ => false,
    }
}

fn kept_exec(ms: &Vec<PropMember>) -> (r: Vec<PropMember>)
    ensures
        memvs(r) == kept(memvs(*ms)),
{
    let ghost all = memvs(*ms);
    let mut r: Vec<PropMember> = Vec::new();
    let mut i: usize = 0;
    assert(memvs(r) =~= seq![]);
    while i < ms.len()
        invariant
            i <= ms@.len(),
            all == memvs(*ms),
            memvs(r) == kept(all.subrange(0, i as int)),
        decreases ms.len() - i,
    {
        assert(all.subrange(0, i + 1 as int).drop_last() =~= all.subrange(0, i as int));
        assert(all[i as int] == memv(ms@[i as int]));
        if keeps_exec(&ms[i]) {
            push_member(&mut r, copy_member(&ms[i]));
        }
        i = i + 1;
    }
    assert(all.subrange(0, i as int) =~= all);
    r
}

fn set_optional_all(ms: Vec<PropMember>, optional: bool) -> (r: Vec<PropMember>)
    ensures
        memvs(r) == Seq::new(memvs(ms).len(), |i: int| set_optional(memvs(ms)[i], optional)),
{
    let ghost all = memvs(ms);
    let mut ms = ms;
    let mut i: usize = 0;
    assert(forall|j: int| 0 <= j < all.len() ==> memv(#[trigger] ms@[j]) == all[j]);
    while i < ms.len()
        invariant
            i <= ms@.len(),
            all.len() == ms@.len(),
            forall|j: int| 0 <= j < i ==> memv(#[trigger] ms@[j]) == set_optional(all[j], optional),
            forall|j: int| i <= j < all.len() ==> memv(#[trigger] ms@[j]) == all[j],
        decreases ms.len() - i,
    {
        let mut m = PropMember { name: String::new(), quoted: false, kind: MemberKind::Other };
        let ghost before = ms@;
        ms.set_and_swap(i, &mut m);
        assert(memv(m) == all[i as int]);
        let ghost mv = memv(m);
        let m2 = match m.kind {
            MemberKind::Property { ty, .. } => PropMember { name: m.name, quoted: m.quoted, kind: MemberKind::Property { optional, ty } },
            MemberKind::Method { .. } => PropMember { name: m.name, quoted: m.quoted, kind: MemberKind::Method { optional } },
            other => PropMember { name: m.name, quoted: m.quoted, kind: other },
        };
        assert(memv(m2) == set_optional(mv, optional));
        ms.set(i, m2);
        assert(forall|j: int| 0 <= j < ms@.len() && j != i ==> ms@[j] == before[j]);
        i = i + 1;
    }
    assert(memvs(ms) =~= Seq::new(all.len(), |i: int| set_optional(all[i], optional)));
    ms
}

fn contains_str(keys: &Vec<String>, s: &String) -> (r: bool)
    ensures
        r == strings_seq(keys@).contains(s@),
{
    let mut k: usize = 0;
    while k < keys.len()
        invariant
            k <= keys@.len(),
            forall|j: int| 0 <= j < k ==> strings_seq(keys@)[j] != s@,
        decreases keys.len() - k,
    {
        if str_eq(keys[k].as_str(), s.as_str()) {
            assert(strings_seq(keys@)[k as int] == s@);
            return true;
        }
        k = k + 1;
    }
    false
}

fn picked_exec(ms: &Vec<PropMember>, keys: &Vec<String>, pick: bool) -> (r: Vec<PropMember>)
    ensures
        memvs(r) == picked(memvs(*ms), strings_seq(keys@), pick),
{
    let ghost all = memvs(*ms);
    let mut r: Vec<PropMember> = Vec::new();
    let mut i: usize = 0;
    assert(memvs(r) =~= seq![]);
    while i < ms.len()
        invariant
            i <= ms@.len(),
            all == memvs(*ms),
            memvs(r) == picked(all.subrange(0, i as int), strings_seq(keys@), pick),
        decreases ms.len() - i,
    {
        assert(all.subrange(0, i + 1 as int).drop_last() =~= all.subrange(0, i as int));
        assert(all[i as int] == memv(ms@[i as int]));
        let keep = match ms[i].kind {
            MemberKind::Call { .. } => !pick,
            _ => contains_str(keys, &ms[i].name) == pick,
        };
        if keep {
            push_member(&mut r, copy_member(&ms[i]));
        }
        i = i + 1;
    }
    assert(all.subrange(0, i as int) =~= all);
    r
}

fn append_strings(v: &mut Vec<String>, w: Vec<String>)
    ensures
        strings_seq(final(v)@) == strings_seq(old(v)@) + strings_seq(w@),
{
    let ghost v0 = strings_seq(v@);
    let ghost w0 = strings_seq(w@);
    let mut w = w;
    v.append(&mut w);
    assert(strings_seq(v@) =~= v0 + w0);
}

/// The string literals that a key type names (see `string_keys`).
pub fn resolve_string_or_union_strings(t: &TsType, table: &TypeTable, fuel: usize) -> (r: Vec<String>)
    ensures
        strings_seq(r@) == string_keys(tyv(*t), tabv(*table), fuel as nat),
    decreases fuel, 0int,
{
    let mut r: Vec<String> = Vec::new();
    assert(strings_seq(r@) =~= seq![]);
    if fuel == 0 {
        return r;
    }
    match t {
        TsType::StrLit(v) => {
            r.push(v.clone());
            assert(strings_seq(r@) =~= seq![v@]);
            r
        },
        TsType::Union(ts) => keys_list_exec(ts, table, fuel - 1),
        TsType::Ref(n, _, _) => match alias_lookup(table, n) {
            Some(a) => resolve_string_or_union_strings(a, table, fuel - 1),
            None => r,
        },
        _ => r,
    }
}

fn keys_list_exec(ts: &Vec<TsType>, table: &TypeTable, fuel: usize) -> (r: Vec<String>)
    ensures
        strings_seq(r@) == keys_list(tyvs(*ts), tabv(*table), fuel as nat, ts@.len() as int),
    decreases fuel, ts@.len(),
{
    let mut r: Vec<String> = Vec::new();
    assert(strings_seq(r@) =~= seq![]);
    let mut k: usize = 0;
    while k < ts.len()
        invariant
            k <= ts@.len(),
            strings_seq(r@) == keys_list(tyvs(*ts), tabv(*table), fuel as nat, k as int),
        decreases ts.len() - k,
    {
        let more = resolve_string_or_union_strings(&ts[k], table, fuel);
        append_strings(&mut r, more);
        k = k + 1;
    }
    r
}

fn interface_elements_exec(table: &TypeTable, name: &String) -> (r: Vec<PropMember>)
    ensures
        memvs(r) == interface_elements(tabv(*table).interfaces, name@, table.interfaces@.len() as int),
{
    let ghost is = tabv(*table).interfaces;
    let mut r: Vec<PropMember> = Vec::new();
    assert(memvs(r) =~= seq![]);
    let mut k: usize = 0;
    while k < table.interfaces.len()
        invariant
            k <= table.interfaces@.len(),
            is == tabv(*table).interfaces,
            memvs(r) == interface_elements(is, name@, k as int),
        decreases table.interfaces.len() - k,
    {
        assert(is[k as int] == ifv(table.interfaces@[k as int]));
        if str_eq(table.interfaces[k].name.as_str(), name.as_str()) {
            let more = kept_exec(&table.interfaces[k].members);
            append_members(&mut r, more);
        }
        k = k + 1;
    }
    r
}

fn first_extends_exec(table: &TypeTable, name: &String) -> (r: Vec<String>)
    ensures
        strings_seq(r@) == first_extends(tabv(*table).interfaces, name@, 0),
{
    let ghost is = tabv(*table).interfaces;
    let mut k: usize = 0;
    while k < table.interfaces.len()
        invariant
            k <= table.interfaces@.len(),
            is == tabv(*table).interfaces,
            first_extends(is, name@, 0) == first_extends(is, name@, k as int),
        decreases table.interfaces.len() - k,
    {
        assert(is[k as int] == ifv(table.interfaces@[k as int]));
        if str_eq(table.interfaces[k].name.as_str(), name.as_str()) {
            let src = &table.interfaces[k].extends;
            let mut r: Vec<String> = Vec::new();
            let mut j: usize = 0;
            while j < src.len()
                invariant
                    j <= src@.len(),
                    strings_seq(r@) == strings_seq(src@).subrange(0, j as int),
                decreases src.len() - j,
            {
                let x = src[j].clone();
                let ghost r0 = strings_seq(r@);
                r.push(x);
                assert(strings_seq(r@) =~= r0.push(x@));
                j = j + 1;
                assert(strings_seq(r@) =~= strings_seq(src@).subrange(0, j as int));
            }
            assert(strings_seq(src@).subrange(0, j as int) =~= strings_seq(src@));
            return r;
        }
        k = k + 1;
    }
    let r: Vec<String> = Vec::new();
    assert(strings_seq(r@) =~= seq![]);
    r
}

/// The problems met while reading a key type (see `string_keys`).
pub open spec fn key_errors(t: TsTypeV, tab: TableV, fuel: nat) -> Seq<Diagnostic>
    decreases fuel, 0int,
{
    if fuel == 0 {
        seq![]
    } else {
        let f = (fuel - 1) as nat;
        match t {
            TsTypeV::StrLit(_) => seq![],
            TsTypeV::Union(ts) => key_errors_list(ts, tab, f, ts.len() as int),
            TsTypeV::Ref(n, unresolved, _) => match alias_of(tab.aliases, n, tab.aliases.len() as int) {
                Some(a) => key_errors(a, tab, f),
                None => if unresolved {
                    seq![Diagnostic::UnresolvableType]
                } else {
                    seq![Diagnostic::ForeignType]
                },
            },
            _ => seq![Diagnostic::UnsupportedKeyType],
        }
    }
}

pub open spec fn key_errors_list(ts: Seq<TsTypeV>, tab: TableV, fuel: nat, k: int) -> Seq<Diagnostic>
    decreases fuel, k,
{
    if k <= 0 || k > ts.len() {
        seq![]
    } else {
        key_errors_list(ts, tab, fuel, k - 1) + key_errors(ts[k - 1], tab, fuel)
    }
}

/// The problems met while reading the members of a props type (see `elements`): a
/// reference declared nowhere in the file, one bound in another module, and a shape
/// outside the supported ones each give one.
pub open spec fn element_errors(t: TsTypeV, tab: TableV, fuel: nat) -> Seq<Diagnostic>
    decreases fuel, 0int,
{
    if fuel == 0 {
        seq![]
    } else {
        let f = (fuel - 1) as nat;
        match t {
            TsTypeV::TypeLit(_) => seq![],
            TsTypeV::Union(ts) => errors_list(ts, tab, f, ts.len() as int),
            TsTypeV::Ref(n, unresolved, ps) => match alias_of(tab.aliases, n, tab.aliases.len() as int) {
                Some(a) => element_errors(a, tab, f),
                None => if interface_declared(tab, n) {
                    let es = first_extends(tab.interfaces, n, 0);
                    extends_errors(es, tab, f, es.len() as int)
                } else if unresolved && (n == "Partial"@ || n == "Required"@) {
                    if ps.len() > 0 { element_errors(ps[0], tab, f) } else { seq![] }
                } else if unresolved && (n == "Pick"@ || n == "Omit"@) {
                    if ps.len() > 1 { element_errors(ps[0], tab, f) + key_errors(ps[1], tab, f) } else { seq![] }
                } else if unresolved {
                    seq![Diagnostic::UnresolvableType]
                } else {
                    seq![Diagnostic::ForeignType]
                },
            },
            TsTypeV::Paren(x) => element_errors(*x, tab, f),
            TsTypeV::Optional(x) => element_errors(*x, tab, f),
            TsTypeV::Function => seq![],
            TsTypeV::IndexedAccess(o, i) => match indexed_access(*o, *i, tab, f) {
                Some(x) => element_errors(x, tab, f),
                None => seq![Diagnostic::UnresolvableType],
            },
            _ => seq![Diagnostic::UnresolvableType],
        }
    }
}

pub open spec fn errors_list(ts: Seq<TsTypeV>, tab: TableV, fuel: nat, k: int) -> Seq<Diagnostic>
    decreases fuel, k,
{
    if k <= 0 || k > ts.len() {
        seq![]
    } else {
        errors_list(ts, tab, fuel, k - 1) + element_errors(ts[k - 1], tab, fuel)
    }
}

pub open spec fn extends_errors(es: Seq<Seq<char>>, tab: TableV, fuel: nat, k: int) -> Seq<Diagnostic>
    decreases fuel, k,
{
    if k <= 0 || k > es.len() {
        seq![]
    } else {
        extends_errors(es, tab, fuel, k - 1) + element_errors(TsTypeV::Ref(es[k - 1], false, seq![]), tab, fuel)
    }
}

/// The problems met while reading a key type (see `key_errors`).
pub fn key_diagnostics(t: &TsType, table: &TypeTable, fuel: usize, diags: &mut Vec<Diagnostic>)
    ensures
        final(diags)@ == old(diags)@ + key_errors(tyv(*t), tabv(*table), fuel as nat),
    decreases fuel, 0int,
{
    let ghost d0 = diags@;
    if fuel == 0 {
        assert(diags@ =~= d0 + seq![]);
        return;
    }
    let f = fuel - 1;
    match t {
        TsType::StrLit(_) => {
            assert(diags@ =~= d0 + seq![]);
        },
        TsType::Union(ts) => {
            let mut k: usize = 0;
            assert(diags@ =~= d0 + seq![]);
            while k < ts.len()
                invariant
                    k <= ts@.len(),
                    fuel > 0,
                    f == fuel - 1,
                    diags@ == d0 + key_errors_list(tyvs(*ts), tabv(*table), f as nat, k as int),
                decreases ts.len() - k,
            {
                key_diagnostics(&ts[k], table, f, diags);
                k = k + 1;
                assert(diags@ =~= d0 + key_errors_list(tyvs(*ts), tabv(*table), f as nat, k as int));
            }
        },
        TsType::Ref(n, unresolved, _) => match alias_lookup(table, n) {
            Some(a) => key_diagnostics(a, table, f, diags),
            None => {
                if *unresolved {
                    diags.push(Diagnostic::UnresolvableType);
                    assert(diags@ =~= d0 + seq![Diagnostic::UnresolvableType]);
                } else {
                    diags.push(Diagnostic::ForeignType);
                    assert(diags@ =~= d0 + seq![Diagnostic::ForeignType]);
                }
            },
        },
        _ => {
            diags.push(Diagnostic::UnsupportedKeyType);
            assert(diags@ =~= d0 + seq![Diagnostic::UnsupportedKeyType]);
        },
    }
}

/// The members that a props type declares (see `elements`).
pub fn resolve_type_elements(
    t: &TsType,
    table: &TypeTable,
    fuel: usize,
    diags: &mut Vec<Diagnostic>,
) -> (r: Vec<PropMember>)
    ensures
        memvs(r) == elements(tyv(*t), tabv(*table), fuel as nat),
        final(diags)@ == old(diags)@ + element_errors(tyv(*t), tabv(*table), fuel as nat),
    decreases fuel, 0int,
{
    let ghost d0 = diags@;
    let mut r: Vec<PropMember> = Vec::new();
    assert(memvs(r) =~= seq![]);
    assert(d0 + seq![] =~= d0);
    if fuel == 0 {
        return r;
    }
    let f = fuel - 1;
    match t {
        TsType::TypeLit(ms) => kept_exec(ms),
        TsType::Union(ts) => elements_list_exec(ts, table, f, diags),
        TsType::Ref(n, unresolved, ps) => {
            assert(ps@.len() > 0 ==> tyvs(*ps)[0] == tyv(ps@[0]));
            assert(ps@.len() > 1 ==> tyvs(*ps)[1] == tyv(ps@[1]));
            match alias_lookup(table, n) {
                Some(a) => resolve_type_elements(a, table, f, diags),
                None => {
                    let declared = interface_ctors_exec(table, n).is_some();
                    let partial = str_eq(n.as_str(), "Partial");
                    let required = str_eq(n.as_str(), "Required");
                    let pick = str_eq(n.as_str(), "Pick");
                    let omit = str_eq(n.as_str(), "Omit");
                    if declared {
                        let es = first_extends_exec(table, n);
                        let mut own = interface_elements_exec(table, n);
                        let inherited = extends_elements_exec(&es, table, f, diags);
                        append_members(&mut own, inherited);
                        own
                    } else if *unresolved && (partial || required) {
                        if ps.len() > 0 {
                            set_optional_all(resolve_type_elements(&ps[0], table, f, diags), partial)
                        } else {
                            r
                        }
                    } else if *unresolved && (pick || omit) {
                        if ps.len() > 1 {
                            let inner = resolve_type_elements(&ps[0], table, f, diags);
                            let keys = resolve_string_or_union_strings(&ps[1], table, f);
                            let ghost d1 = diags@;
                            key_diagnostics(&ps[1], table, f, diags);
                            assert(diags@ =~= d0 + (element_errors(tyv(ps@[0]), tabv(*table), f as nat) + key_errors(tyv(ps@[1]), tabv(*table), f as nat)));
                            picked_exec(&inner, &keys, pick)
                        } else {
                            r
                        }
                    } else if *unresolved {
                        diags.push(Diagnostic::UnresolvableType);
                        assert(diags@ =~= d0 + seq![Diagnostic::UnresolvableType]);
                        r
                    } else {
                        diags.push(Diagnostic::ForeignType);
                        assert(diags@ =~= d0 + seq![Diagnostic::ForeignType]);
                        r
                    }
                },
            }
        },
        TsType::Paren(x) => resolve_type_elements(x, table, f, diags),
        TsType::Optional(x) => resolve_type_elements(x, table, f, diags),
        TsType::Function => {
            push_member(&mut r, PropMember { name: String::new(), quoted: false, kind: MemberKind::Call { first_param: None } });
            r
        },
        TsType::IndexedAccess(o, i) => match resolve_indexed_access(o, i, table, f) {
            Some(x) => resolve_type_elements(&x, table, f, diags),
            None => {
                diags.push(Diagnostic::UnresolvableType);
                assert(diags@ =~= d0 + seq![Diagnostic::UnresolvableType]);
                r
            },
        },
        _ => {
            diags.push(Diagnostic::UnresolvableType);
            assert(diags@ =~= d0 + seq![Diagnostic::UnresolvableType]);
            r
        },
    }
}

fn elements_list_exec(ts: &Vec<TsType>, table: &TypeTable, fuel: usize, diags: &mut Vec<Diagnostic>) -> (r: Vec<PropMember>)
    ensures
        memvs(r) == elements_list(tyvs(*ts), tabv(*table), fuel as nat, ts@.len() as int),
        final(diags)@ == old(diags)@ + errors_list(tyvs(*ts), tabv(*table), fuel as nat, ts@.len() as int),
    decreases fuel, ts@.len(),
{
    let ghost d0 = diags@;
    let mut r: Vec<PropMember> = Vec::new();
    assert(memvs(r) =~= seq![]);
    assert(d0 + seq![] =~= d0);
    let mut k: usize = 0;
    while k < ts.len()
        invariant
            k <= ts@.len(),
            memvs(r) == elements_list(tyvs(*ts), tabv(*table), fuel as nat, k as int),
            diags@ == d0 + errors_list(tyvs(*ts), tabv(*table), fuel as nat, k as int),
        decreases ts.len() - k,
    {
        let more = resolve_type_elements(&ts[k], table, fuel, diags);
        append_members(&mut r, more);
        k = k + 1;
        assert(diags@ =~= d0 + errors_list(tyvs(*ts), tabv(*table), fuel as nat, k as int));
    }
    r
}

fn extends_elements_exec(es: &Vec<String>, table: &TypeTable, fuel: usize, diags: &mut Vec<Diagnostic>) -> (r: Vec<PropMember>)
    ensures
        memvs(r) == extends_elements(strings_seq(es@), tabv(*table), fuel as nat, es@.len() as int),
        final(diags)@ == old(diags)@ + extends_errors(strings_seq(es@), tabv(*table), fuel as nat, es@.len() as int),
    decreases fuel, es@.len(),
{
    let ghost d0 = diags@;
    let mut r: Vec<PropMember> = Vec::new();
    assert(memvs(r) =~= seq![]);
    assert(d0 + seq![] =~= d0);
    let mut k: usize = 0;
    while k < es.len()
        invariant
            k <= es@.len(),
            memvs(r) == extends_elements(strings_seq(es@), tabv(*table), fuel as nat, k as int),
            diags@ == d0 + extends_errors(strings_seq(es@), tabv(*table), fuel as nat, k as int),
        decreases es.len() - k,
    {
        let no_args: Vec<TsType> = Vec::new();
        assert(tyvs(no_args) =~= seq![]);
        let reference = TsType::Ref(es[k].clone(), false, no_args);
        assert(tyv(reference) == TsTypeV::Ref(strings_seq(es@)[k as int], false, seq![]));
        let more = resolve_type_elements(&reference, table, fuel, diags);
        append_members(&mut r, more);
        k = k + 1;
        assert(diags@ =~= d0 + extends_errors(strings_seq(es@), tabv(*table), fuel as nat, k as int));
    }
    r
}

/// The prop name of a defaults entry's key: an identifier, a string, or a computed
/// identifier or string.
pub open spec fn default_key(k: PropKeyV) -> Option<Seq<char>> {
    match k {
        PropKeyV::Ident(n) => Some(n),
        PropKeyV::Str(n) => Some(n),
        PropKeyV::Computed(e) => match *e {
            ExprV::Ident(i) => Some(i.name),
            ExprV::Lit(LitV::Str(n)) => Some(n),
            _ => None,
        },
    }
}

/// `() => e`
pub open spec fn thunk(e: ExprV) -> ExprV {
    ExprV::Arrow(seq![], Box::new(e))
}

/// A defaults entry as a prop name and a default: a literal as it is, a getter as an
/// arrow over its body, a method as a function, anything else behind a function; `None`
/// where the entry cannot be read statically.
pub open spec fn static_default(p: PropV) -> Option<(Seq<char>, ExprV)> {
    match p {
        PropV::Shorthand(i) => Some((i.name, thunk(ExprV::Ident(i)))),
        PropV::KeyValue(k, v) => match default_key(k) {
            Some(n) => Some((n, if v is Lit { v } else { thunk(v) })),
            None => None,
        },
        PropV::Getter(k, h) => match default_key(k) {
            Some(n) => Some((n, ExprV::BlockArrow(h))),
            None => None,
        },
        PropV::Method(k, h) => match default_key(k) {
            Some(n) => Some((n, ExprV::Function(h))),
            None => None,
        },
        _ => None,
    }
}

/// Every entry of a defaults object read statically, or `None` if one cannot be.
pub open spec fn static_defaults(ps: Seq<PropV>) -> Option<Seq<(Seq<char>, ExprV)>>
    decreases ps.len(),
{
    if ps.len() == 0 {
        Some(seq![])
    } else {
        match (static_defaults(ps.drop_last()), static_default(ps.last())) {
            (Some(d), Some(e)) => Some(d.push(e)),
            _ => None,
        }
    }
}

/// Defaults that are merged at run time: anything but an object literal read statically.
pub open spec fn defaults_dynamic(defaults: Option<ExprV>) -> bool {
    match defaults {
        Some(ExprV::Object(ps)) => static_defaults(ps) is None,
        Some(_) => true,
        None => false,
    }
}

/// The runtime props declaration of a setup function's props type, with the defaults of
/// its parameter: read into the declaration where every entry is static, or merged at
/// run time with `mergeDefaults` otherwise.
pub open spec fn props_with_defaults(
    ms: Seq<PropMemberV>,
    tab: TableV,
    fuel: nat,
    defaults: Option<ExprV>,
) -> ExprV {
    match defaults {
        None => props_declaration(ms, tab, fuel, seq![]),
        Some(d) => {
            let st = match d {
                ExprV::Object(ps) => static_defaults(ps),
                _ => None,
            };
            match st {
                Some(ds) => props_declaration(ms, tab, fuel, ds),
                None => ExprV::Call(
                    Box::new(ExprV::Runtime("mergeDefaults"@)),
                    seq![props_declaration(ms, tab, fuel, seq![]), d],
                    false,
                ),
            }
        },
    }
}

fn thunk_exec(e: Expr) -> (r: Expr)
    ensures
        ev(r) == thunk(ev(e)),
{
    let params: Vec<String> = Vec::new();
    assert(crate::ast::strings_view(params) =~= seq![]);
    Expr::Arrow(params, Box::new(e))
}

fn default_key_exec(k: &PropKey) -> (r: Option<String>)
    ensures
        opt_view(r) == default_key(crate::ast::kv(*k)),
{
    match k {
        PropKey::Ident(n) => Some(n.clone()),
        PropKey::Str(n) => Some(n.clone()),
        PropKey::Computed(e) => match &**e {
            Expr::Ident(i) => Some(i.name.clone()),
            Expr::Lit(Lit::Str(n)) => Some(n.clone()),
            _ => None,
        },
    }
}

fn static_defaults_exec(ps: &Vec<Prop>) -> (r: Option<Vec<(String, Expr)>>)
    ensures
        match r {
            Some(ds) => static_defaults(pvs(*ps)) == Some(defaults_view(ds@)),
            None => static_defaults(pvs(*ps)) is None,
        },
{
    let ghost all = pvs(*ps);
    let mut out: Vec<(String, Expr)> = Vec::new();
    assert(defaults_view(out@) =~= seq![]);
    let mut k: usize = 0;
    while k < ps.len()
        invariant
            k <= ps@.len(),
            all == pvs(*ps),
            static_defaults(all.subrange(0, k as int)) == Some(defaults_view(out@)),
        decreases ps.len() - k,
    {
        assert(all.subrange(0, k + 1 as int).drop_last() =~= all.subrange(0, k as int));
        assert(all[k as int] == crate::ast::pv(ps@[k as int]));
        let entry: Option<(String, Expr)> = match &ps[k] {
            Prop::Shorthand(i) => {
                let id = Expr::Ident(crate::ast::copy_ident(i));
                assert(ev(id) == ExprV::Ident(i@));
                Some((i.name.clone(), thunk_exec(id)))
            },
            Prop::KeyValue(key, v) => match default_key_exec(key) {
                Some(n) => {
                    let value = copy_expr(v);
                    let d = if matches!(v, Expr::Lit(_)) { value } else { thunk_exec(value) };
                    Some((n, d))
                },
                None => None,
            },
            Prop::Getter(key, h) => match default_key_exec(key) {
                Some(n) => Some((n, Expr::BlockArrow(*h))),
                None => None,
            },
            Prop::Method(key, h) => match default_key_exec(key) {
                Some(n) => Some((n, Expr::Function(*h))),
                None => None,
            },
            _ => None,
        };
        match entry {
            Some(e) => {
                let ghost o0 = defaults_view(out@);
                let ghost e0 = (e.0@, ev(e.1));
                out.push(e);
                assert(defaults_view(out@) =~= o0.push(e0));
            },
            None => {
                proof {
                    assert(static_default(all[k as int]) is None);
                    assert(static_defaults(all.subrange(0, k + 1 as int)) is None);
                    lemma_static_defaults_fail(all, k as int + 1, ps@.len() as int);
                    assert(all.subrange(0, ps@.len() as int) =~= all);
                }
                return None;
            },
        }
        k = k + 1;
    }
    assert(all.subrange(0, k as int) =~= all);
    Some(out)
}

proof fn lemma_static_defaults_fail(ps: Seq<PropV>, k: int, n: int)
    requires
        0 < k <= n <= ps.len(),
        static_defaults(ps.subrange(0, k)) is None,
    ensures
        static_defaults(ps.subrange(0, n)) is None,
    decreases n - k,
{
    if k < n {
        lemma_static_defaults_fail(ps, k, n - 1);
        assert(ps.subrange(0, n).drop_last() =~= ps.subrange(0, n - 1));
    }
}

impl crate::transform::VueJsxTransformVisitor {
    /// The runtime props declaration for a setup function whose first parameter has the
    /// props type `ty`, and the default value `defaults` where it has one.
    pub fn extract_props_type(
        &mut self,
        ty: &TsType,
        defaults: Option<Expr>,
        table: &TypeTable,
        fuel: usize,
    ) -> (r: Expr)
        ensures
            ev(r) == props_with_defaults(
                elements(tyv(*ty), tabv(*table), fuel as nat),
                tabv(*table),
                fuel as nat,
                match defaults {
                    Some(d) => Some(ev(d)),
                    None => None,
                },
            ),
            final(self).same_cfg(old(self)),
            ({
                let s0 = old(self).state();
                let s1 = if defaults_dynamic(match defaults {
                    Some(d) => Some(ev(d)),
                    None => None,
                }) {
                    crate::transform::reg(s0, "mergeDefaults"@)
                } else {
                    s0
                };
                final(self).state() == (crate::transform::PassState {
                    diagnostics: s0.diagnostics + element_errors(tyv(*ty), tabv(*table), fuel as nat),
                    ..s1
                })
            }),
    {
        let none: Vec<(String, Expr)> = Vec::new();
        assert(defaults_view(none@) =~= seq![]);
        let members = resolve_type_elements(ty, table, fuel, &mut self.diagnostics);
        let ghost mv = memvs(members);
        assert(Seq::new(members@.len(), |i: int| memv(members@[i])) =~= mv);
        match defaults {
            None => build_props_type(members, table, fuel, &none),
            Some(d) => {
                let st = match &d {
                    Expr::Object(ps) => static_defaults_exec(ps),
                    _ => None,
                };
                match st {
                    Some(ds) => build_props_type(members, table, fuel, &ds),
                    None => {
                        let decl = build_props_type(members, table, fuel, &none);
                        let callee = self.import_from_vue("mergeDefaults");
                        let mut args: Vec<Expr> = Vec::new();
                        let ghost dv = ev(d);
                        let ghost declv = ev(decl);
                        args.push(decl);
                        args.push(d);
                        assert(crate::ast::evs(args) =~= seq![declv, dv]);
                        Expr::Call(Box::new(callee), args, false)
                    },
                }
            },
        }
    }
}

/// The event names that emit members declare: a property or method by its name, a call
/// signature by the string literals of its first parameter's type.
pub open spec fn member_emits(m: PropMemberV, tab: TableV, fuel: nat) -> Seq<Seq<char>> {
    match m.kind {
        MemberKindV::Property { .. } => seq![m.name],
        MemberKindV::Method { .. } => seq![m.name],
        MemberKindV::Call { first_param: Some(t) } => string_keys(t, tab, fuel),
        _ => seq![],
    }
}

pub open spec fn emits_of(ms: Seq<PropMemberV>, tab: TableV, fuel: nat) -> Seq<Seq<char>>
    decreases ms.len(),
{
    if ms.len() == 0 {
        seq![]
    } else {
        emits_of(ms.drop_last(), tab, fuel) + member_emits(ms.last(), tab, fuel)
    }
}

/// The runtime emits declaration of an emits type: the array of its event names.
pub open spec fn emits_declaration(t: TsTypeV, tab: TableV, fuel: nat) -> ExprV {
    let names = emits_of(elements(t, tab, fuel), tab, fuel);
    ExprV::Array(Seq::new(names.len(), |i: int| ExprV::Lit(LitV::Str(names[i]))))
}

/// The runtime emits declaration for the emits type `ty` of a setup context.
pub fn extract_emits_type(ty: &TsType, table: &TypeTable, fuel: usize, diags: &mut Vec<Diagnostic>) -> (r: Expr)
    ensures
        ev(r) == emits_declaration(tyv(*ty), tabv(*table), fuel as nat),
        final(diags)@ == old(diags)@ + element_errors(tyv(*ty), tabv(*table), fuel as nat),
{
    let members = resolve_type_elements(ty, table, fuel, diags);
    let ghost all = memvs(members);
    let mut names: Vec<String> = Vec::new();
    assert(strings_seq(names@) =~= seq![]);
    let mut k: usize = 0;
    while k < members.len()
        invariant
            k <= members@.len(),
            all == memvs(members),
            strings_seq(names@) == emits_of(all.subrange(0, k as int), tabv(*table), fuel as nat),
        decreases members.len() - k,
    {
        assert(all.subrange(0, k + 1 as int).drop_last() =~= all.subrange(0, k as int));
        assert(all[k as int] == memv(members@[k as int]));
        let more: Vec<String> = match &members[k].kind {
            MemberKind::Property { .. } | MemberKind::Method { .. } => {
                let mut v: Vec<String> = Vec::new();
                v.push(members[k].name.clone());
                assert(strings_seq(v@) =~= seq![members@[k as int].name@]);
                v
            },
            MemberKind::Call { first_param: Some(t) } => resolve_string_or_union_strings(t, table, fuel),
            _ => {
                let v: Vec<String> = Vec::new();
                assert(strings_seq(v@) =~= seq![]);
                v
            },
        };
        append_strings(&mut names, more);
        k = k + 1;
    }
    assert(all.subrange(0, k as int) =~= all);
    let mut items: Vec<Expr> = Vec::new();
    let ghost nv = strings_seq(names@);
    let mut i: usize = 0;
    while i < names.len()
        invariant
            i <= names@.len(),
            nv == strings_seq(names@),
            crate::ast::evs(items) == Seq::new(i as nat, |j: int| ExprV::Lit(LitV::Str(nv[j]))),
        decreases names.len() - i,
    {
        let e = Expr::Lit(Lit::Str(names[i].clone()));
        let ghost i0 = items;
        items.push(e);
        proof {
            crate::ast::lemma_evs_push(i0, items, e);
        }
        i = i + 1;
        assert(crate::ast::evs(items) =~= Seq::new(i as nat, |j: int| ExprV::Lit(LitV::Str(nv[j]))));
    }
    Expr::Array(items)
}

/// The global `Function`, as a type reference.
pub open spec fn function_ref() -> TsTypeV {
    TsTypeV::Ref("Function"@, true, seq![])
}

/// The type a member gives for an index: every property, getter and index signature for
/// `string`, the members named among `keys` otherwise; a method gives `Function`.
pub open spec fn member_type(m: PropMemberV, string_index: bool, keys: Seq<Seq<char>>) -> Option<TsTypeV> {
    let named = string_index || keys.contains(m.name);
    match m.kind {
        MemberKindV::Property { ty, .. } => if named { ty } else { None },
        MemberKindV::Getter { ty } => if named { ty } else { None },
        MemberKindV::Method { .. } => if named { Some(function_ref()) } else { None },
        MemberKindV::Index { ty } => if string_index { ty } else { None },
        _ => None,
    }
}

/// The types the members give for an index, in order.
pub open spec fn selected(ms: Seq<PropMemberV>, string_index: bool, keys: Seq<Seq<char>>) -> Seq<TsTypeV>
    decreases ms.len(),
{
    if ms.len() == 0 {
        seq![]
    } else {
        match member_type(ms.last(), string_index, keys) {
            Some(t) => selected(ms.drop_last(), string_index, keys).push(t),
            None => selected(ms.drop_last(), string_index, keys),
        }
    }
}

/// A single type as it is, several as their union.
pub open spec fn one_or_union(ts: Seq<TsTypeV>) -> TsTypeV {
    if ts.len() == 1 {
        ts[0]
    } else {
        TsTypeV::Union(ts)
    }
}

/// An object type's members indexed by `index`: `string`, or a string literal, a union or
/// a reference naming the keys.
pub open spec fn select_members(ms: Seq<PropMemberV>, index: TsTypeV, tab: TableV, fuel: nat) -> TsTypeV {
    match index {
        TsTypeV::StringKeyword => one_or_union(selected(ms, true, seq![])),
        TsTypeV::StrLit(_) => one_or_union(selected(ms, false, string_keys(index, tab, fuel))),
        TsTypeV::Union(_) => one_or_union(selected(ms, false, string_keys(index, tab, fuel))),
        TsTypeV::Ref(_, _, _) => one_or_union(selected(ms, false, string_keys(index, tab, fuel))),
        _ => one_or_union(seq![]),
    }
}

/// Every member of every declaration of `name` among the first `k`.
pub open spec fn interface_all(is: Seq<InterfaceV>, name: Seq<char>, k: int) -> Seq<PropMemberV>
    decreases k,
{
    if k <= 0 || k > is.len() {
        seq![]
    } else if is[k - 1].name == name {
        interface_all(is, name, k - 1) + is[k - 1].members
    } else {
        interface_all(is, name, k - 1)
    }
}

pub open spec fn number_index(index: TsTypeV) -> bool {
    index is NumberKeyword || index is NumLit
}

/// `obj[index]`: a member type of an object type, interface or alias, the element type of
/// an array (or `Array<T>`) indexed by a number, or a tuple element; `None` where it
/// cannot be resolved. Every step spends one unit of `fuel`.
pub open spec fn indexed_access(obj: TsTypeV, index: TsTypeV, tab: TableV, fuel: nat) -> Option<TsTypeV>
    decreases fuel,
{
    if fuel == 0 {
        None
    } else {
        let f = (fuel - 1) as nat;
        match obj {
            TsTypeV::Ref(n, _, ps) => match alias_of(tab.aliases, n, tab.aliases.len() as int) {
                Some(a) => indexed_access(a, index, tab, f),
                None => if interface_declared(tab, n) {
                    Some(select_members(interface_all(tab.interfaces, n, tab.interfaces.len() as int), index, tab, f))
                } else if n == "Array"@ && ps.len() > 0 && number_index(index) {
                    Some(ps[0])
                } else {
                    None
                },
            },
            TsTypeV::TypeLit(ms) => Some(select_members(ms, index, tab, f)),
            TsTypeV::Array(e) => if number_index(index) { Some(*e) } else { None },
            TsTypeV::Tuple(ts) => match index {
                TsTypeV::NumLit(Some(k)) => if (k as int) < ts.len() { Some(ts[k as int]) } else { None },
                TsTypeV::NumberKeyword => Some(TsTypeV::Union(ts)),
                _ => None,
            },
            _ => None,
        }
    }
}

fn push_ty(v: &mut Vec<TsType>, t: TsType)
    ensures
        tyvs(*final(v)) == tyvs(*old(v)).push(tyv(t)),
{
    let ghost v0 = tyvs(*v);
    v.push(t);
    assert(tyvs(*v) =~= v0.push(tyv(t)));
}

fn selected_exec(ms: &Vec<PropMember>, string_index: bool, keys: &Vec<String>) -> (r: Vec<TsType>)
    ensures
        tyvs(r) == selected(memvs(*ms), string_index, strings_seq(keys@)),
{
    let ghost all = memvs(*ms);
    let mut r: Vec<TsType> = Vec::new();
    assert(tyvs(r) =~= seq![]);
    let mut i: usize = 0;
    while i < ms.len()
        invariant
            i <= ms@.len(),
            all == memvs(*ms),
            tyvs(r) == selected(all.subrange(0, i as int), string_index, strings_seq(keys@)),
        decreases ms.len() - i,
    {
        assert(all.subrange(0, i + 1 as int).drop_last() =~= all.subrange(0, i as int));
        assert(all[i as int] == memv(ms@[i as int]));
        let named = string_index || contains_str(keys, &ms[i].name);
        match &ms[i].kind {
            MemberKind::Property { ty: Some(t), .. } => {
                if named {
                    push_ty(&mut r, copy_ty(t));
                }
            },
            MemberKind::Getter { ty: Some(t) } => {
                if named {
                    push_ty(&mut r, copy_ty(t));
                }
            },
            MemberKind::Method { .. } => {
                if named {
                    let no_args: Vec<TsType> = Vec::new();
                    assert(tyvs(no_args) =~= seq![]);
                    push_ty(&mut r, TsType::Ref("Function".to_owned(), true, no_args));
                }
            },
            MemberKind::Index { ty: Some(t) } => {
                if string_index {
                    push_ty(&mut r, copy_ty(t));
                }
            },
            _ => {},
        }
        i = i + 1;
    }
    assert(all.subrange(0, i as int) =~= all);
    r
}

fn one_or_union_exec(ts: Vec<TsType>) -> (r: TsType)
    ensures
        tyv(r) == one_or_union(tyvs(ts)),
{
    if ts.len() == 1 {
        let mut ts = ts;
        let t = ts.pop().unwrap();
        t
    } else {
        TsType::Union(ts)
    }
}

fn select_members_exec(ms: &Vec<PropMember>, index: &TsType, table: &TypeTable, fuel: usize) -> (r: TsType)
    ensures
        tyv(r) == select_members(memvs(*ms), tyv(*index), tabv(*table), fuel as nat),
{
    match index {
        TsType::StringKeyword => {
            let none: Vec<String> = Vec::new();
            assert(strings_seq(none@) =~= seq![]);
            one_or_union_exec(selected_exec(ms, true, &none))
        },
        TsType::StrLit(_) | TsType::Union(_) | TsType::Ref(_, _, _) => {
            let keys = resolve_string_or_union_strings(index, table, fuel);
            one_or_union_exec(selected_exec(ms, false, &keys))
        },
        _ => {
            let none: Vec<TsType> = Vec::new();
            assert(tyvs(none) =~= seq![]);
            one_or_union_exec(none)
        },
    }
}

fn interface_all_exec(table: &TypeTable, name: &String) -> (r: Vec<PropMember>)
    ensures
        memvs(r) == interface_all(tabv(*table).interfaces, name@, table.interfaces@.len() as int),
{
    let ghost is = tabv(*table).interfaces;
    let mut r: Vec<PropMember> = Vec::new();
    assert(memvs(r) =~= seq![]);
    let mut k: usize = 0;
    while k < table.interfaces.len()
        invariant
            k <= table.interfaces@.len(),
            is == tabv(*table).interfaces,
            memvs(r) == interface_all(is, name@, k as int),
        decreases table.interfaces.len() - k,
    {
        assert(is[k as int] == ifv(table.interfaces@[k as int]));
        if str_eq(table.interfaces[k].name.as_str(), name.as_str()) {
            let more = copy_members(&table.interfaces[k].members);
            append_members(&mut r, more);
        }
        k = k + 1;
    }
    r
}

fn is_number_index(index: &TsType) -> (r: bool)
    ensures
        r == number_index(tyv(*index)),
{
    matches!(index, TsType::NumberKeyword | TsType::NumLit(_))
}

/// Resolves `obj[index]` (see `indexed_access`).
pub fn resolve_indexed_access(obj: &TsType, index: &TsType, table: &TypeTable, fuel: usize) -> (r: Option<TsType>)
    ensures
        otyv(r) == indexed_access(tyv(*obj), tyv(*index), tabv(*table), fuel as nat),
    decreases fuel,
{
    if fuel == 0 {
        return None;
    }
    let f = fuel - 1;
    match obj {
        TsType::Ref(n, _, ps) => {
            assert(ps@.len() > 0 ==> tyvs(*ps)[0] == tyv(ps@[0]));
            match alias_lookup(table, n) {
                Some(a) => resolve_indexed_access(a, index, table, f),
                None => {
                    if interface_ctors_exec(table, n).is_some() {
                        let ms = interface_all_exec(table, n);
                        Some(select_members_exec(&ms, index, table, f))
                    } else if str_eq(n.as_str(), "Array") && ps.len() > 0 && is_number_index(index) {
                        Some(copy_ty(&ps[0]))
                    } else {
                        None
                    }
                },
            }
        },
        TsType::TypeLit(ms) => Some(select_members_exec(ms, index, table, f)),
        TsType::Array(e) => {
            if is_number_index(index) {
                Some(copy_ty(e))
            } else {
                None
            }
        },
        TsType::Tuple(ts) => match index {
            TsType::NumLit(Some(k)) => {
                if *k < ts.len() as u64 {
                    assert(tyvs(*ts)[*k as int] == tyv(ts@[*k as int]));
                    Some(copy_ty(&ts[*k as usize]))
                } else {
                    None
                }
            },
            TsType::NumberKeyword => Some(TsType::Union(copy_tys(ts))),
            _ => None,
        },
        _ => None,
    }
}

/// An object entry `props: ...`.
pub open spec fn is_props_entry(p: PropV) -> bool {
    p matches PropV::KeyValue(PropKeyV::Ident(k), _) && k == "props"@
}

/// The arguments of a component-definition call once a props declaration is added: into
/// the options object when it has no `props` entry, or as a new options object when the
/// setup function stands alone.
pub open spec fn with_props(args: Seq<ExprV>, decl: Option<ExprV>) -> Seq<ExprV> {
    match decl {
        None => args,
        Some(d) => {
            let entry = PropV::KeyValue(PropKeyV::Ident("props"@), d);
            if args.len() == 1 {
                args.push(ExprV::Object(seq![entry]))
            } else if args.len() >= 2 && args[1] is Object {
                let ps = args[1]->Object_0;
                if exists|i: int| 0 <= i < ps.len() && is_props_entry(#[trigger] ps[i]) {
                    args
                } else {
                    args.update(1, ExprV::Object(ps.push(entry)))
                }
            } else {
                args
            }
        },
    }
}

fn has_props_entry(ps: &Vec<Prop>) -> (r: bool)
    ensures
        r == exists|i: int| 0 <= i < ps@.len() && is_props_entry(#[trigger] pvs(*ps)[i]),
{
    let mut k: usize = 0;
    while k < ps.len()
        invariant
            k <= ps@.len(),
            forall|i: int| 0 <= i < k ==> !is_props_entry(#[trigger] pvs(*ps)[i]),
        decreases ps.len() - k,
    {
        let hit = match &ps[k] {
            Prop::KeyValue(PropKey::Ident(n), _) => str_eq(n.as_str(), "props"),
            _ => false,
        };
        if hit {
            assert(is_props_entry(pvs(*ps)[k as int]));
            return true;
        }
        k = k + 1;
    }
    false
}

/// Adds an inferred props declaration to the arguments of a component-definition call.
pub fn attach_props_declaration(args: Vec<Expr>, decl: Option<Expr>) -> (r: Vec<Expr>)
    ensures
        crate::ast::evs(r) == with_props(crate::ast::evs(args), match decl {
            Some(d) => Some(ev(d)),
            None => None,
        }),
{
    let d = match decl {
        Some(d) => d,
        None => {
            return args;
        },
    };
    let ghost dv = ev(d);
    let ghost a0 = crate::ast::evs(args);
    let mut args = args;
    if args.len() == 1 {
        let mut ps: Vec<Prop> = Vec::new();
        let entry = Prop::KeyValue(PropKey::Ident("props".to_owned()), d);
        ps.push(entry);
        assert(pvs(ps) =~= seq![crate::ast::pv(entry)]);
        let obj = Expr::Object(ps);
        let ghost before = args;
        args.push(obj);
        proof {
            crate::ast::lemma_evs_push(before, args, obj);
        }
        return args;
    }
    if args.len() >= 2 {
        let mut slot = Expr::Hole;
        args.set_and_swap(1, &mut slot);
        match slot {
            Expr::Object(ps) => {
                if has_props_entry(&ps) {
                    args.set(1, Expr::Object(ps));
                    assert(crate::ast::evs(args) =~= a0);
                } else {
                    let mut ps = ps;
                    let ghost p0 = ps;
                    let entry = Prop::KeyValue(PropKey::Ident("props".to_owned()), d);
                    ps.push(entry);
                    proof {
                        lemma_pvs_push(p0, ps, entry);
                    }
                    args.set(1, Expr::Object(ps));
                    assert(crate::ast::evs(args) =~= a0.update(1, ExprV::Object(pvs(p0).push(crate::ast::pv(entry)))));
                }
            },
            other => {
                args.set(1, other);
                assert(crate::ast::evs(args) =~= a0);
            },
        }
    }
    args
}

} // verus!
