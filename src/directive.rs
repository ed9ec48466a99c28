//! Recognising `v-...` attributes and parsing them into directives.
use vstd::prelude::*;
use crate::ast::{
    aiv, aivs, avv, anv, copy_expr, ev, evs, Attr, AttrItem, AttrItemV, AttrName, AttrNameV, AttrV,
    AttrValue, AttrValueV, Expr, ExprV, Lit, LitV,
};
use crate::text::{
    chars_of, lemma_split_on_nonempty, split_chars, split_on, str_eq,
    strings_seq, strip_leading, strip_leading_chars, lower_seq,
    lower_chars, lex_lt, str_lt,
};

verus! {

broadcast use vstd::std_specs::vec::group_vec_axioms;

/// The part of an attribute name that says whether it is a directive.
pub open spec fn directive_head(n: AttrNameV) -> Seq<char> {
    match n {
        AttrNameV::Ident(s) => s,
        AttrNameV::Namespaced(ns, _) => ns,
    }
}

/// `v-...`, or `v` and an upper-case letter.
pub open spec fn directive_name(n: AttrNameV) -> bool {
    let h = directive_head(n);
    h.len() >= 2 && h[0] == 'v' && (h[1] == '-' || ('A' <= h[1] && h[1] <= 'Z'))
}

pub fn is_directive(a: &Attr) -> (r: bool)
    ensures
        r == directive_name(anv(a.name)),
{
    let h = match &a.name {
        AttrName::Ident(s) => s,
        AttrName::Namespaced(ns, _) => ns,
    };
    let h = h.as_str();
    if h.unicode_len() < 2 {
        return false;
    }
    let c = h.get_char(1);
    h.get_char(0) == 'v' && (c == '-' || ('A' <= c && c <= 'Z'))
}

/// What an attribute name says of its directive.
pub ghost struct NameParts {
    pub name: Seq<char>,
    pub argument: Option<Seq<char>>,
    pub modifiers: Seq<Seq<char>>,
}

pub open spec fn strip_v_dash(s: Seq<char>) -> Seq<char> {
    strip_leading(strip_leading(s, 'v'), '-')
}

/// `v-name_arg_mod1_mod2` or `v-name:arg_mod1_mod2`.
pub open spec fn name_parts(n: AttrNameV) -> NameParts {
    match n {
        AttrNameV::Ident(s) => {
            let p = split_on(strip_v_dash(s), '_');
            NameParts {
                name: lower_seq(p[0]),
                argument: if p.len() > 1 { Some(p[1]) } else { None },
                modifiers: if p.len() > 2 { p.subrange(2, p.len() as int) } else { seq![] },
            }
        },
        AttrNameV::Namespaced(ns, name) => {
            let p = split_on(name, '_');
            NameParts {
                name: lower_seq(strip_v_dash(ns)),
                argument: Some(p[0]),
                modifiers: p.subrange(1, p.len() as int),
            }
        },
    }
}

/// `x` put into the sorted list `d` unless it is there.
pub open spec fn insert_sorted(d: Seq<Seq<char>>, x: Seq<char>) -> Seq<Seq<char>>
    decreases d.len(),
{
    if d.len() == 0 {
        seq![x]
    } else if d[0] == x {
        d
    } else if lex_lt(x, d[0]) {
        seq![x] + d
    } else {
        seq![d[0]] + insert_sorted(d.drop_first(), x)
    }
}

/// The distinct strings of `s`, in sorted order.
pub open spec fn sorted_set(s: Seq<Seq<char>>) -> Seq<Seq<char>>
    decreases s.len(),
{
    if s.len() == 0 {
        seq![]
    } else {
        insert_sorted(sorted_set(s.drop_last()), s.last())
    }
}

/// The string literals among `items`, in order.
pub open spec fn string_items(items: Seq<ExprV>) -> Seq<Seq<char>>
    decreases items.len(),
{
    if items.len() == 0 {
        seq![]
    } else {
        let d = string_items(items.drop_last());
        match items.last() {
            ExprV::Lit(LitV::Str(s)) => d.push(s),
            _ => d,
        }
    }
}

/// Item `k` of an array literal, when it is there and is neither a hole nor a spread.
pub open spec fn item_at(items: Seq<ExprV>, k: int) -> Option<ExprV> {
    if 0 <= k < items.len() && !(items[k] is Hole) && !(items[k] is Spread) {
        Some(items[k])
    } else {
        None
    }
}

/// The identifier with an empty name, which stands for a missing value.
pub open spec fn missing() -> ExprV {
    ExprV::Local(seq![])
}

pub open spec fn or_else(a: Option<ExprV>, b: ExprV) -> Option<ExprV> {
    match a {
        Some(x) => Some(x),
        None => Some(b),
    }
}

pub open spec fn str_expr(s: Option<Seq<char>>) -> Option<ExprV> {
    match s {
        Some(a) => Some(ExprV::Lit(LitV::Str(a))),
        None => None,
    }
}

pub ghost enum DirectiveV {
    Normal {
        name: Seq<char>,
        argument: Option<ExprV>,
        modifiers: Seq<Seq<char>>,
        value: ExprV,
    },
    Html(ExprV),
    Text(ExprV),
    VModel {
        argument: Option<ExprV>,
        transformed_argument: Option<ExprV>,
        modifiers: Seq<Seq<char>>,
        value: ExprV,
    },
    Slots(Option<ExprV>),
}

/// A value, an argument and modifiers, from the attribute's value and name.
pub ghost struct Unpacked {
    pub value: ExprV,
    pub argument: Option<ExprV>,
    pub modifiers: Seq<Seq<char>>,
    /// An array literal gave the value, but no second entry.
    pub short_array: bool,
    /// An array literal gave the modifiers as its second entry.
    pub modifiers_second: bool,
}

/// The array-literal rule: `[value]`, `[value, [modifiers]]`, `[value, argument]` and
/// `[value, argument, [modifiers]]`; anything else is the value alone.
pub open spec fn unpack(e: ExprV, parts: NameParts) -> Unpacked {
    match e {
        ExprV::Array(items) => {
            let v = match item_at(items, 0) {
                Some(x) => x,
                None => missing(),
            };
            match item_at(items, 1) {
                Some(ExprV::Array(m)) => Unpacked {
                    value: v,
                    argument: str_expr(parts.argument),
                    modifiers: sorted_set(string_items(m)),
                    short_array: false,
                    modifiers_second: true,
                },
                Some(x) => Unpacked {
                    value: v,
                    argument: match parts.argument {
                        Some(a) => Some(ExprV::Lit(LitV::Str(a))),
                        None => Some(x),
                    },
                    modifiers: match item_at(items, 2) {
                        Some(ExprV::Array(m)) => sorted_set(string_items(m)),
                        _ => seq![],
                    },
                    short_array: false,
                    modifiers_second: false,
                },
                None => Unpacked {
                    value: v,
                    argument: str_expr(parts.argument),
                    modifiers: sorted_set(parts.modifiers),
                    short_array: true,
                    modifiers_second: false,
                },
            }
        },
        _ => Unpacked {
            value: e,
            argument: str_expr(parts.argument),
            modifiers: sorted_set(parts.modifiers),
            short_array: false,
            modifiers_second: false,
        },
    }
}

/// The expression of `{expr}`; `None` for a quoted literal, `{}` or no value.
pub open spec fn container_expr(v: Option<AttrValueV>) -> Option<ExprV> {
    match v {
        Some(AttrValueV::Expr(e)) => Some(e),
        _ => None,
    }
}

/// A custom directive.
pub open spec fn parse_normal(a: AttrV) -> DirectiveV {
    let parts = name_parts(a.name);
    let u = match container_expr(a.value) {
        Some(e) => unpack(e, parts),
        None => unpack(missing(), parts),
    };
    DirectiveV::Normal {
        name: parts.name,
        argument: if u.modifiers.len() > 0 { or_else(u.argument, ExprV::Void0) } else { u.argument },
        modifiers: u.modifiers,
        value: u.value,
    }
}

/// `v-model`; without an expression the value is `true`; on a component a missing argument is `null` when only a value or a value and
/// modifiers were given.
pub open spec fn parse_model(a: AttrV, component: bool) -> DirectiveV {
    let parts = name_parts(a.name);
    let u = match container_expr(a.value) {
        Some(e) => unpack(e, parts),
        None => unpack(ExprV::Lit(LitV::Bool(true)), parts),
    };
    let arg = if component && parts.argument is None && (u.short_array || u.modifiers_second) {
        Some(ExprV::Lit(LitV::Null))
    } else {
        u.argument
    };
    DirectiveV::VModel {
        argument: arg,
        transformed_argument: if !component && u.modifiers.len() > 0 {
            or_else(arg, ExprV::Void0)
        } else {
            arg
        },
        modifiers: u.modifiers,
        value: u.value,
    }
}

/// `v-html` or `v-text`: the literal, the expression, or the single entry of a
/// one-entry-or-more array; `true` where no value was given.
pub open spec fn payload(v: Option<AttrValueV>) -> ExprV {
    match v {
        Some(AttrValueV::Lit(l)) => ExprV::Lit(l),
        Some(AttrValueV::Expr(e)) => match e {
            ExprV::Array(items) => match item_at(items, 0) {
                Some(x) => x,
                None => e,
            },
            _ => e,
        },
        _ => ExprV::Lit(LitV::Bool(true)),
    }
}

/// `v-slots`: an identifier or an object literal; anything else is dropped.
pub open spec fn slots_payload(v: Option<AttrValueV>) -> Option<ExprV> {
    match container_expr(v) {
        Some(ExprV::Ident(i)) => Some(ExprV::Ident(i)),
        Some(ExprV::Object(ps)) => Some(ExprV::Object(ps)),
        _ => None,
    }
}

/// The directive that an attribute of directive shape stands for.
pub open spec fn parse_spec(a: AttrV, component: bool) -> DirectiveV {
    let n = name_parts(a.name).name;
    if n == "html"@ {
        DirectiveV::Html(payload(a.value))
    } else if n == "text"@ {
        DirectiveV::Text(payload(a.value))
    } else if n == "model"@ {
        parse_model(a, component)
    } else if n == "slots"@ {
        DirectiveV::Slots(slots_payload(a.value))
    } else {
        parse_normal(a)
    }
}

/// A problem found in the source; the pass goes on past it.
#[derive(PartialEq, Eq, Structural, Clone, Copy, Debug)]
pub enum Diagnostic {
    /// `v-html` without an expression.
    HtmlWithoutExpression,
    /// `v-text` without an expression.
    TextWithoutExpression,
    /// `v-model` without an expression container.
    ModelWithoutExpression,
    /// A type reference that is neither declared in the file nor a supported utility.
    UnresolvableType,
    /// A reference to a type bound in another module.
    ForeignType,
    /// A key type that is neither a string literal, a union of them nor an alias.
    UnsupportedKeyType,
}

/// The problem an attribute of directive shape has, if any.
pub open spec fn directive_error(a: AttrV) -> Option<Diagnostic> {
    let n = name_parts(a.name).name;
    let has_payload = a.value matches Some(v) && (v is Lit || v is Expr);
    if n == "html"@ && !has_payload {
        Some(Diagnostic::HtmlWithoutExpression)
    } else if n == "text"@ && !has_payload {
        Some(Diagnostic::TextWithoutExpression)
    } else if n == "model"@ && container_expr(a.value) is None {
        Some(Diagnostic::ModelWithoutExpression)
    } else {
        None
    }
}

/// The problem an attribute of directive shape has, if any.
pub fn directive_diagnostic(a: &Attr) -> (r: Option<Diagnostic>)
    ensures
        r == directive_error(crate::ast::av(*a)),
{
    let parts = parts_of(&a.name);
    let n = parts.name.as_str();
    let has_payload = match &a.value {
        Some(AttrValue::Lit(_)) => true,
        Some(AttrValue::Expr(_)) => true,
        _ => false,
    };
    let has_expr = match &a.value {
        Some(AttrValue::Expr(_)) => true,
        _ => false,
    };
    if str_eq(n, "html") && !has_payload {
        Some(Diagnostic::HtmlWithoutExpression)
    } else if str_eq(n, "text") && !has_payload {
        Some(Diagnostic::TextWithoutExpression)
    } else if str_eq(n, "model") && !has_expr {
        Some(Diagnostic::ModelWithoutExpression)
    } else {
        None
    }
}

pub struct NormalDirective {
    pub name: String,
    pub argument: Option<Expr>,
    pub modifiers: Vec<String>,
    pub value: Expr,
}

pub struct VModelDirective {
    pub argument: Option<Expr>,
    pub transformed_argument: Option<Expr>,
    pub modifiers: Vec<String>,
    pub value: Expr,
}

pub enum Directive {
    Normal(NormalDirective),
    Html(Expr),
    Text(Expr),
    VModel(VModelDirective),
    Slots(Option<Expr>),
}

pub open spec fn oev(e: Option<Expr>) -> Option<ExprV> {
    match e {
        Some(x) => Some(ev(x)),
        None => None,
    }
}

pub open spec fn dv(d: Directive) -> DirectiveV {
    match d {
        Directive::Normal(n) => DirectiveV::Normal {
            name: n.name@,
            argument: oev(n.argument),
            modifiers: strings_seq(n.modifiers@),
            value: ev(n.value),
        },
        Directive::Html(e) => DirectiveV::Html(ev(e)),
        Directive::Text(e) => DirectiveV::Text(ev(e)),
        Directive::VModel(m) => DirectiveV::VModel {
            argument: oev(m.argument),
            transformed_argument: oev(m.transformed_argument),
            modifiers: strings_seq(m.modifiers@),
            value: ev(m.value),
        },
        Directive::Slots(e) => DirectiveV::Slots(oev(e)),
    }
}

pub fn copy_opt(e: &Option<Expr>) -> (r: Option<Expr>)
    ensures
        oev(r) == oev(*e),
{
    match e {
        Some(x) => Some(copy_expr(x)),
        None => None,
    }
}

struct Parts {
    name: String,
    argument: Option<String>,
    modifiers: Vec<String>,
}

fn strings_tail(p: &Vec<String>, from: usize) -> (r: Vec<String>)
    requires
        from <= p@.len(),
    ensures
        strings_seq(r@) == strings_seq(p@).subrange(from as int, p@.len() as int),
{
    let mut r: Vec<String> = Vec::new();
    let mut k: usize = from;
    while k < p.len()
        invariant
            from <= k <= p@.len(),
            strings_seq(r@) == strings_seq(p@).subrange(from as int, k as int),
        decreases p.len() - k,
    {
        let x = p[k].clone();
        let ghost r0 = strings_seq(r@);
        r.push(x);
        assert(strings_seq(r@) =~= r0.push(x@));
        k = k + 1;
        assert(strings_seq(r@) =~= strings_seq(p@).subrange(from as int, k as int));
    }
    r
}

fn strip_v_dash_chars(s: &str) -> (r: Vec<char>)
    ensures
        r@ == strip_v_dash(s@),
{
    let c = chars_of(s);
    let c = strip_leading_chars(&c, 'v');
    strip_leading_chars(&c, '-')
}

fn parts_of(n: &AttrName) -> (r: Parts)
    ensures
        r.name@ == name_parts(anv(*n)).name,
        match r.argument {
            Some(a) => name_parts(anv(*n)).argument == Some(a@),
            None => name_parts(anv(*n)).argument is None,
        },
        strings_seq(r.modifiers@) == name_parts(anv(*n)).modifiers,
{
    match n {
        AttrName::Ident(s) => {
            let t = strip_v_dash_chars(s.as_str());
            let p = split_chars(&t, '_');
            proof {
                lemma_split_on_nonempty(t@, '_');
            }
            assert(strings_seq(p@)[0] == p@[0]@);
            let argument = if p.len() > 1 {
                assert(strings_seq(p@)[1] == p@[1]@);
                Some(p[1].clone())
            } else {
                None
            };
            let modifiers = if p.len() > 2 {
                strings_tail(&p, 2)
            } else {
                let v: Vec<String> = Vec::new();
                assert(strings_seq(v@) =~= seq![]);
                v
            };
            let first = chars_of(p[0].as_str());
            let lowered = lower_chars(&first);
            Parts { name: crate::text::string_of(&lowered), argument, modifiers }
        },
        AttrName::Namespaced(ns, name) => {
            let t = chars_of(name.as_str());
            let p = split_chars(&t, '_');
            proof {
                lemma_split_on_nonempty(t@, '_');
            }
            assert(strings_seq(p@)[0] == p@[0]@);
            let head = lower_chars(&strip_v_dash_chars(ns.as_str()));
            Parts {
                name: crate::text::string_of(&head),
                argument: Some(p[0].clone()),
                modifiers: strings_tail(&p, 1),
            }
        },
    }
}

/// Adds `s` unless it is there already.
pub fn push_unique(d: &mut Vec<String>, s: String)
    ensures
        strings_seq(final(d)@) == if strings_seq(old(d)@).contains(s@) {
            strings_seq(old(d)@)
        } else {
            strings_seq(old(d)@).push(s@)
        },
{
    let mut k: usize = 0;
    while k < d.len()
        invariant
            k <= d@.len(),
            forall|j: int| 0 <= j < k ==> strings_seq(d@)[j] != s@,
        decreases d.len() - k,
    {
        if str_eq(d[k].as_str(), s.as_str()) {
            assert(strings_seq(d@)[k as int] == s@);
            return;
        }
        k = k + 1;
    }
    let ghost d0 = strings_seq(d@);
    d.push(s);
    assert(strings_seq(d@) =~= d0.push(s@));
}

/// Puts `x` into the sorted list `d` unless it is there.
pub fn insert_sorted_exec(d: &mut Vec<String>, x: String)
    ensures
        strings_seq(final(d)@) == insert_sorted(strings_seq(old(d)@), x@),
{
    let ghost all = strings_seq(d@);
    let n = d.len();
    let mut k: usize = 0;
    assert(all.subrange(0, 0) + all.subrange(0, n as int) =~= all);
    while k < n && !str_eq(d[k].as_str(), x.as_str()) && !str_lt(x.as_str(), d[k].as_str())
        invariant
            n == d@.len(),
            k <= n,
            all == strings_seq(d@),
            insert_sorted(all, x@) == all.subrange(0, k as int) + insert_sorted(
                all.subrange(k as int, n as int),
                x@,
            ),
        decreases n - k,
    {
        let ghost rest = all.subrange(k as int, n as int);
        assert(rest.drop_first() =~= all.subrange(k + 1 as int, n as int));
        assert(rest[0] == all[k as int]);
        assert(all.subrange(0, k as int) + (seq![rest[0]] + insert_sorted(rest.drop_first(), x@))
            =~= all.subrange(0, k + 1 as int) + insert_sorted(all.subrange(k + 1 as int, n as int), x@));
        k = k + 1;
    }
    let ghost rest = all.subrange(k as int, n as int);
    if k == n {
        d.push(x);
        assert(strings_seq(d@) =~= all.subrange(0, k as int) + seq![x@]);
    } else if str_eq(d[k].as_str(), x.as_str()) {
        assert(rest[0] == x@);
        assert(all.subrange(0, k as int) + rest =~= all);
    } else {
        let ghost xv = x@;
        d.insert(k, x);
        assert(strings_seq(d@) =~= all.subrange(0, k as int) + (seq![xv] + rest));
    }
}

fn unique_strings(v: &Vec<String>) -> (r: Vec<String>)
    ensures
        strings_seq(r@) == sorted_set(strings_seq(v@)),
{
    let mut r: Vec<String> = Vec::new();
    let mut k: usize = 0;
    assert(strings_seq(r@) =~= seq![]);
    while k < v.len()
        invariant
            k <= v@.len(),
            strings_seq(r@) == sorted_set(strings_seq(v@).subrange(0, k as int)),
        decreases v.len() - k,
    {
        assert(strings_seq(v@).subrange(0, k + 1 as int).drop_last() =~= strings_seq(v@).subrange(
            0,
            k as int,
        ));
        insert_sorted_exec(&mut r, v[k].clone());
        k = k + 1;
    }
    assert(strings_seq(v@).subrange(0, k as int) =~= strings_seq(v@));
    r
}

/// The string literals among `items`, without repeats.
fn modifiers_of(items: &Vec<Expr>) -> (r: Vec<String>)
    ensures
        strings_seq(r@) == sorted_set(string_items(evs(*items))),
{
    let mut found: Vec<String> = Vec::new();
    let mut k: usize = 0;
    while k < items.len()
        invariant
            k <= items@.len(),
            strings_seq(found@) == string_items(evs(*items).subrange(0, k as int)),
        decreases items.len() - k,
    {
        assert(evs(*items).subrange(0, k + 1 as int).drop_last() =~= evs(*items).subrange(
            0,
            k as int,
        ));
        assert(evs(*items).subrange(0, k + 1 as int).last() == ev(items[k as int]));
        match &items[k] {
            Expr::Lit(Lit::Str(s)) => {
                let ghost f0 = strings_seq(found@);
                found.push(s.clone());
                assert(strings_seq(found@) =~= f0.push(s@));
            },
            _ => {},
        }
        k = k + 1;
    }
    assert(evs(*items).subrange(0, k as int) =~= evs(*items));
    unique_strings(&found)
}

fn item_at_exec(items: &Vec<Expr>, k: usize) -> (r: Option<Expr>)
    ensures
        oev(r) == item_at(evs(*items), k as int),
{
    if k < items.len() {
        match &items[k] {
            Expr::Hole => None,
            Expr::Spread(_) => None,
            x => Some(copy_expr(x)),
        }
    } else {
        None
    }
}

struct UnpackedExec {
    value: Expr,
    argument: Option<Expr>,
    modifiers: Vec<String>,
    short_array: bool,
    modifiers_second: bool,
}

fn str_lit(s: &Option<String>) -> (r: Option<Expr>)
    ensures
        oev(r) == str_expr(
            match *s {
                Some(a) => Some(a@),
                None => None,
            },
        ),
{
    match s {
        Some(a) => Some(Expr::Lit(Lit::Str(a.clone()))),
        None => None,
    }
}

pub open spec fn opt_view(s: Option<String>) -> Option<Seq<char>> {
    match s {
        Some(a) => Some(a@),
        None => None,
    }
}

fn unpack_exec(e: Expr, parts: &Parts, ghost_parts: Ghost<NameParts>) -> (r: UnpackedExec)
    requires
        ghost_parts@.name == parts.name@,
        ghost_parts@.argument == opt_view(parts.argument),
        ghost_parts@.modifiers == strings_seq(parts.modifiers@),
    ensures
        ({
            let u = unpack(ev(e), ghost_parts@);
            &&& ev(r.value) == u.value
            &&& oev(r.argument) == u.argument
            &&& strings_seq(r.modifiers@) == u.modifiers
            &&& r.short_array == u.short_array
            &&& r.modifiers_second == u.modifiers_second
        }),
{
    match e {
        Expr::Array(items) => {
            let v = match item_at_exec(&items, 0) {
                Some(x) => x,
                None => Expr::Local(String::new()),
            };
            assert(ev(v) == match item_at(evs(items), 0) {
                Some(x) => x,
                None => missing(),
            });
            match item_at_exec(&items, 1) {
                Some(Expr::Array(m)) => UnpackedExec {
                    value: v,
                    argument: str_lit(&parts.argument),
                    modifiers: modifiers_of(&m),
                    short_array: false,
                    modifiers_second: true,
                },
                Some(x) => {
                    let argument = match &parts.argument {
                        Some(a) => Some(Expr::Lit(Lit::Str(a.clone()))),
                        None => Some(x),
                    };
                    let modifiers = match item_at_exec(&items, 2) {
                        Some(Expr::Array(m)) => modifiers_of(&m),
                        _ => {
                            let v: Vec<String> = Vec::new();
                            assert(strings_seq(v@) =~= seq![]);
                            v
                        },
                    };
                    UnpackedExec {
                        value: v,
                        argument,
                        modifiers,
                        short_array: false,
                        modifiers_second: false,
                    }
                },
                None => UnpackedExec {
                    value: v,
                    argument: str_lit(&parts.argument),
                    modifiers: unique_strings(&parts.modifiers),
                    short_array: true,
                    modifiers_second: false,
                },
            }
        },
        _ => UnpackedExec {
            value: e,
            argument: str_lit(&parts.argument),
            modifiers: unique_strings(&parts.modifiers),
            short_array: false,
            modifiers_second: false,
        },
    }
}

fn container_of(v: Option<AttrValue>) -> (r: Expr)
    ensures
        ev(r) == match container_expr(
            match v {
                Some(x) => Some(avv(x)),
                None => None,
            },
        ) {
            Some(e) => e,
            None => missing(),
        },
{
    match v {
        Some(AttrValue::Expr(e)) => e,
        _ => Expr::Local(String::new()),
    }
}

pub open spec fn oavv(v: Option<AttrValue>) -> Option<AttrValueV> {
    match v {
        Some(x) => Some(avv(x)),
        None => None,
    }
}

fn parse_normal_exec(a: Attr, parts: Parts) -> (r: NormalDirective)
    requires
        parts.name@ == name_parts(anv(a.name)).name,
        opt_view(parts.argument) == name_parts(anv(a.name)).argument,
        strings_seq(parts.modifiers@) == name_parts(anv(a.name)).modifiers,
    ensures
        dv(Directive::Normal(r)) == parse_normal(crate::ast::av(a)),
{
    let ghost g = name_parts(anv(a.name));
    let e = container_of(a.value);
    let u = unpack_exec(e, &parts, Ghost(g));
    let argument = if u.modifiers.len() > 0 {
        match u.argument {
            Some(x) => Some(x),
            None => Some(Expr::Void0),
        }
    } else {
        u.argument
    };
    NormalDirective { name: parts.name, argument, modifiers: u.modifiers, value: u.value }
}

fn parse_model_exec(a: Attr, parts: Parts, component: bool) -> (r: VModelDirective)
    requires
        parts.name@ == name_parts(anv(a.name)).name,
        opt_view(parts.argument) == name_parts(anv(a.name)).argument,
        strings_seq(parts.modifiers@) == name_parts(anv(a.name)).modifiers,
    ensures
        dv(Directive::VModel(r)) == parse_model(crate::ast::av(a), component),
{
    let ghost g = name_parts(anv(a.name));
    let e = match a.value {
        Some(AttrValue::Expr(e)) => e,
        _ => Expr::Lit(Lit::Bool(true)),
    };
    let u = unpack_exec(e, &parts, Ghost(g));
    let argument = if component && parts.argument.is_none() && (u.short_array
        || u.modifiers_second) {
        Some(Expr::Lit(Lit::Null))
    } else {
        u.argument
    };
    let transformed_argument = if !component && u.modifiers.len() > 0 {
        match &argument {
            Some(x) => Some(copy_expr(x)),
            None => Some(Expr::Void0),
        }
    } else {
        copy_opt(&argument)
    };
    VModelDirective { argument, transformed_argument, modifiers: u.modifiers, value: u.value }
}

fn payload_exec(v: Option<AttrValue>) -> (r: Expr)
    ensures
        ev(r) == payload(oavv(v)),
{
    match v {
        Some(AttrValue::Lit(l)) => Expr::Lit(l),
        Some(AttrValue::Expr(e)) => {
            let first = match &e {
                Expr::Array(items) => item_at_exec(items, 0),
                _ => None,
            };
            match first {
                Some(x) => x,
                None => e,
            }
        },
        _ => Expr::Lit(Lit::Bool(true)),
    }
}

fn slots_exec(v: Option<AttrValue>) -> (r: Option<Expr>)
    ensures
        oev(r) == slots_payload(oavv(v)),
{
    match v {
        Some(AttrValue::Expr(e)) => match e {
            Expr::Ident(_) => Some(e),
            Expr::Object(_) => Some(e),
            _ => None,
        },
        _ => None,
    }
}

/// Parses an attribute of directive shape, on an element that is or is not a component.
pub fn parse_directive(a: Attr, component: bool) -> (r: Directive)
    ensures
        dv(r) == parse_spec(crate::ast::av(a), component),
{
    let parts = parts_of(&a.name);
    let n = parts.name.as_str();
    if str_eq(n, "html") {
        Directive::Html(payload_exec(a.value))
    } else if str_eq(n, "text") {
        Directive::Text(payload_exec(a.value))
    } else if str_eq(n, "model") {
        Directive::VModel(parse_model_exec(a, parts, component))
    } else if str_eq(n, "slots") {
        Directive::Slots(slots_exec(a.value))
    } else {
        Directive::Normal(parse_normal_exec(a, parts))
    }
}

/// The `v-models` attribute, which holds several models at once.
pub open spec fn v_models_attr(a: AttrItemV) -> bool {
    a matches AttrItemV::Attr(x) && x.name == AttrNameV::Ident("v-models"@)
}

/// The first `v-models` attribute from the `k`th on.
pub open spec fn first_v_models(attrs: Seq<AttrItemV>, k: int) -> Option<int>
    decreases attrs.len() - k,
{
    if k < 0 || k >= attrs.len() {
        None
    } else if v_models_attr(attrs[k]) {
        Some(k)
    } else {
        first_v_models(attrs, k + 1)
    }
}

/// One entry of `v-models`, `[value, argument?, modifiers?]`, as a `v-model` attribute; a
/// string-literal argument moves into the attribute's name.
pub open spec fn decoupled_one(inner: Seq<ExprV>) -> AttrItemV {
    let arg = match item_at(inner, 1) {
        Some(ExprV::Lit(LitV::Str(a))) => Some(a),
        _ => None,
    };
    let rest = if arg is Some { inner.subrange(0, 1) + inner.subrange(2, inner.len() as int) } else { inner };
    AttrItemV::Attr(
        AttrV {
            name: match arg {
                Some(a) => AttrNameV::Namespaced("v-model"@, a),
                None => AttrNameV::Ident("v-model"@),
            },
            value: Some(AttrValueV::Expr(ExprV::Array(rest))),
        },
    )
}

/// The `v-model` attributes of the array entries of `v-models`, in order.
pub open spec fn decoupled(elems: Seq<ExprV>) -> Seq<AttrItemV>
    decreases elems.len(),
{
    if elems.len() == 0 {
        seq![]
    } else {
        decoupled(elems.drop_last()) + match elems.last() {
            ExprV::Array(inner) => seq![decoupled_one(inner)],
            _ => seq![],
        }
    }
}

/// The attribute list with its first `v-models` attribute replaced by one `v-model` per
/// entry; one whose value is not an array literal is dropped.
pub open spec fn expand_spec(attrs: Seq<AttrItemV>) -> Seq<AttrItemV> {
    match first_v_models(attrs, 0) {
        None => attrs,
        Some(i) => attrs.subrange(0, i) + match attrs[i]->Attr_0.value {
            Some(AttrValueV::Expr(ExprV::Array(elems))) => decoupled(elems),
            _ => seq![],
        } + attrs.subrange(i + 1, attrs.len() as int),
    }
}

fn is_v_models(a: &AttrItem) -> (r: bool)
    ensures
        r == v_models_attr(aiv(*a)),
{
    match a {
        AttrItem::Attr(x) => match &x.name {
            AttrName::Ident(n) => str_eq(n.as_str(), "v-models"),
            _ => false,
        },
        _ => false,
    }
}

fn push_item(v: &mut Vec<AttrItem>, a: AttrItem)
    ensures
        aivs(*final(v)) == aivs(*old(v)).push(aiv(a)),
{
    let ghost v0 = aivs(*v);
    v.push(a);
    assert(aivs(*v) =~= v0.push(aiv(a)));
}

fn decouple_one_exec(inner: Vec<Expr>) -> (r: AttrItem)
    ensures
        aiv(r) == decoupled_one(evs(inner)),
{
    let ghost iv = evs(inner);
    let arg = match item_at_exec(&inner, 1) {
        Some(Expr::Lit(Lit::Str(a))) => Some(a),
        _ => None,
    };
    let mut inner = inner;
    let name = match arg {
        Some(a) => {
            let ghost before = inner@;
            inner.remove(1);
            assert(evs(inner) =~= iv.subrange(0, 1) + iv.subrange(2, iv.len() as int));
            AttrName::Namespaced("v-model".to_owned(), a)
        },
        None => AttrName::Ident("v-model".to_owned()),
    };
    let value = Expr::Array(inner);
    AttrItem::Attr(Attr { name, value: Some(AttrValue::Expr(value)) })
}

fn decouple_exec(elems: Vec<Expr>) -> (r: Vec<AttrItem>)
    ensures
        aivs(r) == decoupled(evs(elems)),
{
    let ghost all = evs(elems);
    let mut elems = elems;
    let mut out: Vec<AttrItem> = Vec::new();
    assert(aivs(out) =~= seq![]);
    let mut k: usize = 0;
    while k < elems.len()
        invariant
            k <= elems@.len(),
            all.len() == elems@.len(),
            forall|j: int| k <= j < all.len() ==> #[trigger] ev(elems@[j]) == all[j],
            aivs(out) == decoupled(all.subrange(0, k as int)),
        decreases elems.len() - k,
    {
        let mut e = Expr::Hole;
        let ghost before = elems@;
        elems.set_and_swap(k, &mut e);
        assert(ev(e) == all[k as int]);
        assert(all.subrange(0, k + 1 as int).drop_last() =~= all.subrange(0, k as int));
        let ghost o0 = aivs(out);
        match e {
            Expr::Array(inner) => {
                let a = decouple_one_exec(inner);
                push_item(&mut out, a);
                assert(aivs(out) =~= o0 + seq![aiv(a)]);
            },
            _ => {
                assert(aivs(out) =~= o0 + seq![]);
            },
        }
        k = k + 1;
        assert(forall|j: int| k <= j < all.len() ==> elems@[j] == before[j]);
    }
    assert(all.subrange(0, k as int) =~= all);
    out
}

/// Replaces the first `v-models` attribute by one `v-model` attribute per entry.
pub fn expand_v_models(attrs: Vec<AttrItem>) -> (r: Vec<AttrItem>)
    ensures
        aivs(r) == expand_spec(aivs(attrs)),
{
    let ghost all = aivs(attrs);
    let mut k: usize = 0;
    while k < attrs.len() && !is_v_models(&attrs[k])
        invariant
            k <= attrs@.len(),
            all == aivs(attrs),
            first_v_models(all, 0) == first_v_models(all, k as int),
        decreases attrs.len() - k,
    {
        k = k + 1;
    }
    if k == attrs.len() {
        return attrs;
    }
    let i = k;
    assert(first_v_models(all, 0) == Some(i as int));
    let mut attrs = attrs;
    let mut tail = attrs.split_off(i + 1);
    let found = attrs.pop();
    assert(aivs(attrs) =~= all.subrange(0, i as int));
    assert(aivs(tail) =~= all.subrange(i + 1, all.len() as int));
    let middle = match found {
        Some(AttrItem::Attr(a)) => match a.value {
            Some(AttrValue::Expr(Expr::Array(elems))) => decouple_exec(elems),
            _ => {
                let v: Vec<AttrItem> = Vec::new();
                assert(aivs(v) =~= seq![]);
                v
            },
        },
        _ => {
            let v: Vec<AttrItem> = Vec::new();
            assert(aivs(v) =~= seq![]);
            v
        },
    };
    let ghost a0 = aivs(attrs);
    let ghost m0 = aivs(middle);
    let ghost t0 = aivs(tail);
    let mut middle = middle;
    attrs.append(&mut middle);
    attrs.append(&mut tail);
    assert(aivs(attrs) =~= a0 + m0 + t0);
    attrs
}

} // verus!
