//! Constant values, and the merging of duplicate keys in a props object.
use vstd::prelude::*;
use crate::ast::{avv, ev, evs, lemma_evs_push, lemma_pvs_push, pv, pvs, AttrValue, AttrValueV, Expr, ExprV, Prop, PropKey, PropKeyV, PropV};
use crate::text::{has_on_prefix, starts_with_on, str_eq};

verus! {

broadcast use vstd::std_specs::vec::group_vec_axioms;

/// A value that never changes: a literal, `undefined`, or an array or object made of them.
pub open spec fn constant(e: ExprV) -> bool
    decreases e, 0int,
{
    match e {
        ExprV::Lit(_) => true,
        ExprV::Ident(i) => i.name == "undefined"@,
        ExprV::Array(items) => all_constant_upto(items, items.len() as int),
        ExprV::Object(props) => all_constant_props_upto(props, props.len() as int),
        _ => false,
    }
}

/// The first `n` items are constant.
pub open spec fn all_constant_upto(items: Seq<ExprV>, n: int) -> bool
    decreases items, n,
{
    if n <= 0 || n > items.len() {
        n <= 0
    } else {
        constant(items[n - 1]) && all_constant_upto(items, n - 1)
    }
}

/// The first `n` entries are constant.
pub open spec fn all_constant_props_upto(props: Seq<PropV>, n: int) -> bool
    decreases props, n,
{
    if n <= 0 || n > props.len() {
        n <= 0
    } else {
        constant_prop(props[n - 1]) && all_constant_props_upto(props, n - 1)
    }
}

pub open spec fn constant_prop(p: PropV) -> bool
    decreases p, 0int,
{
    match p {
        PropV::KeyValue(_, v) => constant(v),
        PropV::Shorthand(i) => i.name == "undefined"@,
        _ => false,
    }
}

fn is_undefined(name: &String) -> (r: bool)
    ensures
        r == (name@ == "undefined"@),
{
    str_eq(name.as_str(), "undefined")
}

pub fn is_constant(e: &Expr) -> (r: bool)
    ensures
        r == constant(ev(*e)),
    decreases e,
{
    match e {
        Expr::Lit(_) => true,
        Expr::Ident(i) => is_undefined(&i.name),
        Expr::Array(items) => {
            all_constant(items)
        },
        Expr::Object(props) => {
            all_constant_props(props)
        },
        _ => false,
    }
}

proof fn lemma_constant_upto_prefix(items: Seq<ExprV>, m: int, n: int)
    requires
        0 <= m <= n <= items.len(),
        all_constant_upto(items, n),
    ensures
        all_constant_upto(items, m),
    decreases n - m,
{
    if m < n {
        lemma_constant_upto_prefix(items, m, n - 1);
    }
}

proof fn lemma_constant_props_upto_prefix(props: Seq<PropV>, m: int, n: int)
    requires
        0 <= m <= n <= props.len(),
        all_constant_props_upto(props, n),
    ensures
        all_constant_props_upto(props, m),
    decreases n - m,
{
    if m < n {
        lemma_constant_props_upto_prefix(props, m, n - 1);
    }
}

fn all_constant(items: &Vec<Expr>) -> (r: bool)
    ensures
        r == all_constant_upto(evs(*items), items@.len() as int),
    decreases items,
{
    let mut i: usize = 0;
    while i < items.len()
        invariant
            i <= items.len(),
            all_constant_upto(evs(*items), i as int),
        decreases items.len() - i,
    {
        if !is_constant(&items[i]) {
            proof {
                if all_constant_upto(evs(*items), items@.len() as int) {
                    lemma_constant_upto_prefix(evs(*items), i as int + 1, items@.len() as int);
                }
            }
            return false;
        }
        i = i + 1;
    }
    true
}

fn all_constant_props(props: &Vec<Prop>) -> (r: bool)
    ensures
        r == all_constant_props_upto(pvs(*props), props@.len() as int),
    decreases props,
{
    let mut i: usize = 0;
    while i < props.len()
        invariant
            i <= props.len(),
            all_constant_props_upto(pvs(*props), i as int),
        decreases props.len() - i,
    {
        if !is_constant_prop(&props[i]) {
            proof {
                if all_constant_props_upto(pvs(*props), props@.len() as int) {
                    lemma_constant_props_upto_prefix(pvs(*props), i as int + 1, props@.len() as int);
                }
            }
            return false;
        }
        i = i + 1;
    }
    true
}

fn is_constant_prop(p: &Prop) -> (r: bool)
    ensures
        r == constant_prop(pv(*p)),
    decreases p,
{
    match p {
        Prop::KeyValue(_, v) => is_constant(v),
        Prop::Shorthand(id) => is_undefined(&id.name),
        _ => false,
    }
}

/// An attribute value that never changes; a value-less attribute is no such value.
pub open spec fn constant_attr_value(v: Option<AttrValueV>) -> bool {
    match v {
        Some(AttrValueV::Lit(_)) => true,
        Some(AttrValueV::Expr(e)) => constant(e),
        _ => false,
    }
}

pub fn is_attr_value_constant(v: &Option<AttrValue>) -> (r: bool)
    ensures
        r == constant_attr_value(
            match *v {
                Some(x) => Some(avv(x)),
                None => None,
            },
        ),
{
    match v {
        Some(AttrValue::Lit(_)) => true,
        Some(AttrValue::Expr(e)) => is_constant(e),
        _ => false,
    }
}

/// Keys whose duplicates are all kept, as one array: `class`, `style` and `on...`.
pub open spec fn merged_key(name: Seq<char>) -> bool {
    name == "class"@ || name == "style"@ || starts_with_on(name)
}

/// Entry `j` has the string key `name`.
pub open spec fn has_str_key(p: PropV, name: Seq<char>) -> bool {
    p matches PropV::KeyValue(PropKeyV::Str(n), _) && n == name
}

/// The first entry of `d` with the string key `name`, if any.
pub open spec fn find_key(d: Seq<PropV>, name: Seq<char>) -> Option<int> {
    if exists|j: int| 0 <= j < d.len() && has_str_key(#[trigger] d[j], name) {
        Some(choose|j: int| 0 <= j < d.len() && has_str_key(#[trigger] d[j], name)
            && forall|k: int| 0 <= k < j ==> !has_str_key(#[trigger] d[k], name))
    } else {
        None
    }
}

/// A value that was there first, joined by one that comes later.
pub open spec fn joined(first: ExprV, later: ExprV) -> ExprV {
    match first {
        ExprV::Array(items) => ExprV::Array(items.push(later)),
        _ => ExprV::Array(seq![first, later]),
    }
}

/// `d` after entry `p` comes: a new string key is added, a repeated one is joined or
/// dropped, and any other entry is added.
pub open spec fn dedupe_step(d: Seq<PropV>, p: PropV) -> Seq<PropV> {
    match p {
        PropV::KeyValue(PropKeyV::Str(name), value) => match find_key(d, name) {
            Some(j) => if merged_key(name) {
                d.update(j, PropV::KeyValue(PropKeyV::Str(name), joined(d[j]->KeyValue_1, value)))
            } else {
                d
            },
            None => d.push(p),
        },
        _ => d.push(p),
    }
}

/// The entries of `ps` with duplicate string keys resolved: a key that merges keeps one
/// entry whose value gathers every value in order; any other key keeps its first entry.
pub open spec fn deduped(ps: Seq<PropV>) -> Seq<PropV>
    decreases ps.len(),
{
    if ps.len() == 0 {
        seq![]
    } else {
        dedupe_step(deduped(ps.drop_last()), ps.last())
    }
}

proof fn lemma_find_key_first(d: Seq<PropV>, name: Seq<char>, j: int)
    requires
        0 <= j < d.len(),
        has_str_key(d[j], name),
        forall|k: int| 0 <= k < j ==> !has_str_key(#[trigger] d[k], name),
    ensures
        find_key(d, name) == Some(j),
{
    let c = choose|j: int| 0 <= j < d.len() && has_str_key(#[trigger] d[j], name)
            && forall|k: int| 0 <= k < j ==> !has_str_key(#[trigger] d[k], name);
    if c < j {
        assert(!has_str_key(d[c], name));
    } else if c > j {
        assert(!has_str_key(d[j], name));
    }
}

fn find_str_key(d: &Vec<Prop>, name: &String) -> (r: Option<usize>)
    ensures
        match r {
            Some(j) => find_key(pvs(*d), name@) == Some(j as int) && j < d@.len() && has_str_key(
                pvs(*d)[j as int],
                name@,
            ),
            None => find_key(pvs(*d), name@) is None,
        },
{
    let mut j: usize = 0;
    while j < d.len()
        invariant
            j <= d.len(),
            forall|k: int| 0 <= k < j ==> !has_str_key(#[trigger] pvs(*d)[k], name@),
        decreases d.len() - j,
    {
        let hit = match &d[j] {
            Prop::KeyValue(PropKey::Str(n), _) => str_eq(n.as_str(), name.as_str()),
            _ => false,
        };
        if hit {
            proof {
                lemma_find_key_first(pvs(*d), name@, j as int);
            }
            return Some(j);
        }
        j = j + 1;
    }
    None
}

fn join_values(first: Expr, later: Expr) -> (r: Expr)
    ensures
        ev(r) == joined(ev(first), ev(later)),
{
    match first {
        Expr::Array(items) => {
            let mut items = items;
            let ghost i0 = items;
            items.push(later);
            proof {
                lemma_evs_push(i0, items, later);
            }
            Expr::Array(items)
        },
        _ => {
            let mut items: Vec<Expr> = Vec::new();
            items.push(first);
            items.push(later);
            assert(evs(items) =~= seq![ev(first), ev(later)]);
            Expr::Array(items)
        },
    }
}

fn is_merged_key(name: &String) -> (r: bool)
    ensures
        r == merged_key(name@),
{
    str_eq(name.as_str(), "class") || str_eq(name.as_str(), "style") || has_on_prefix(name.as_str())
}

#[verifier::rlimit(60)]
fn dedupe_push(defined: &mut Vec<Prop>, p: Prop)
    ensures
        pvs(*final(defined)) == dedupe_step(pvs(*old(defined)), pv(p)),
{
    let ghost d0 = *defined;
    match p {
        Prop::KeyValue(PropKey::Str(name), value) => {
            match find_str_key(defined, &name) {
                Some(j) => {
                    if is_merged_key(&name) {
                        let mut slot = Prop::Host(0);
                        defined.set_and_swap(j, &mut slot);
                        match slot {
                            Prop::KeyValue(_, first) => {
                                let v = join_values(first, value);
                                defined.set(j, Prop::KeyValue(PropKey::Str(name), v));
                                assert(pvs(*defined) =~= pvs(d0).update(
                                    j as int,
                                    PropV::KeyValue(PropKeyV::Str(name@), ev(v)),
                                ));
                            },
                            _ => {
                                assert(false);
                            },
                        }
                    }
                },
                None => {
                    let q = Prop::KeyValue(PropKey::Str(name), value);
                    defined.push(q);
                    proof {
                        lemma_pvs_push(d0, *defined, q);
                    }
                },
            }
        },
        _ => {
            defined.push(p);
            proof {
                lemma_pvs_push(d0, *defined, p);
            }
        },
    }
}

/// Resolves duplicate string keys among the entries of a props object.
#[verifier::rlimit(60)]
pub fn dedupe_props(props: Vec<Prop>) -> (r: Vec<Prop>)
    ensures
        pvs(r) == deduped(pvs(props)),
{
    let mut defined: Vec<Prop> = Vec::new();
    let mut props = props;
    let ghost all = pvs(props);
    let mut i: usize = 0;
    while i < props.len()
        invariant
            i <= props.len(),
            all.len() == props@.len(),
            forall|k: int| i <= k < all.len() ==> #[trigger] pvs(props)[k] == all[k],
            pvs(defined) == deduped(all.subrange(0, i as int)),
        decreases props.len() - i,
    {
        let mut p = Prop::Host(0);
        let ghost before = pvs(props);
        let ghost old_props = props;
        assert(before[i as int] == all[i as int]);
        assert(before[i as int] == pv(old_props@[i as int]));
        props.set_and_swap(i, &mut p);
        assert(p == old_props@[i as int]);
        assert(forall|k: int| i < k < all.len() ==> #[trigger] pvs(props)[k] == before[k]);
        assert(pv(p) == all[i as int]);
        assert(all.subrange(0, i + 1 as int).drop_last() =~= all.subrange(0, i as int));
        dedupe_push(&mut defined, p);
        i = i + 1;
    }
    assert(all.subrange(0, i as int) =~= all);
    defined
}

} // verus!
