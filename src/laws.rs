//! Properties of the compiler that hold for every input.
use vstd::prelude::*;
use crate::ast::{AttrItemV, ChildV, ElementV, ExprV, LitV, PropKeyV, PropV};
use crate::props::{deduped, dedupe_step, find_key, has_str_key, joined, merged_key};
use crate::transform::{
    acc_init, attr_step, attrs_fold, base_flags, compile_children, compile_element, component,
    directive_step, entries, model_step, patch_bits, pragma_expr, props_expr, spread_step,
    tag_expr, unresolved_ident, wrap, Cfg, PassState,
};
use crate::directive::{expand_spec, first_v_models, parse_spec, v_models_attr};

verus! {

/// An element with no attributes and no children compiles to the node-creation call
/// with the tag, `null` props and `null` children, and nothing more.
pub proof fn lemma_bare_element(el: ElementV, c: Cfg, s: PassState)
    requires
        el.attrs.len() == 0,
        el.children.len() == 0,
    ensures
        compile_element(el, c, s).expr == ExprV::Call(
            Box::new(pragma_expr(c)),
            seq![tag_expr(el.name, c), ExprV::Lit(LitV::Null), ExprV::Lit(LitV::Null)],
            false,
        ),
{
    let comp = component(el.name, c);
    assert(first_v_models(el.attrs, 0) is None);
    assert(expand_spec(el.attrs) == el.attrs);
    assert(attrs_fold(el.attrs, comp, c) == acc_init());
    let st = acc_init();
    assert(patch_bits(st) == 0);
    assert(props_expr(st, c) == ExprV::Lit(LitV::Null));
}

/// An element whose only attribute is a spread has the full-props flag alone, and the
/// spread's expression is its props argument (outside merge mode, an object literal is
/// read entry by entry, so there the spread must be of something else).
pub proof fn lemma_single_spread(el: ElementV, e: ExprV, c: Cfg)
    requires
        el.attrs == seq![AttrItemV::Spread(e)],
        c.merge_props || !(e is Object),
    ensures
        expand_spec(el.attrs) == el.attrs,
        ({
            let st = attrs_fold(el.attrs, component(el.name, c), c);
            &&& patch_bits(st) == 16
            &&& props_expr(st, c) == e
        }),
{
    let comp = component(el.name, c);
    assert(!v_models_attr(el.attrs[0]));
    assert(first_v_models(el.attrs, 1) is None);
    assert(first_v_models(el.attrs, 0) is None);
    assert(el.attrs.drop_last() =~= seq![]);
    assert(attrs_fold(el.attrs.drop_last(), comp, c) == acc_init());
    assert(el.attrs.last() == AttrItemV::Spread(e));
    assert(attr_step(acc_init(), AttrItemV::Spread(e), comp, c) == spread_step(acc_init(), e, c));
    let st = attrs_fold(el.attrs, comp, c);
    assert(st == spread_step(acc_init(), e, c));
    if !c.merge_props {
        assert(st.props =~= seq![PropV::Spread(e)]);
    } else {
        assert(st.merge_args =~= seq![e]);
    }
}

proof fn lemma_component_bindings(items: Seq<AttrItemV>, c: Cfg)
    ensures
        ({
            let st = attrs_fold(items, true, c);
            !st.has_class && !st.has_style && !st.has_hydration
        }),
    decreases items.len(),
{
    if items.len() > 0 {
        lemma_component_bindings(items.drop_last(), c);
        let prev = attrs_fold(items.drop_last(), true, c);
        match items.last() {
            AttrItemV::Spread(e) => {},
            AttrItemV::Attr(a) => {
                let d = parse_spec(a, true);
                if d is VModel {
                    assert(directive_step(prev, d, true) == model_step(prev, d, true));
                }
            },
        }
    }
}

/// On a component the need-patch flag is set exactly when a `ref` or a directive is
/// there and no other flag is; class, style and hydration flags never are.
pub proof fn lemma_component_need_patch(items: Seq<AttrItemV>, c: Cfg)
    ensures
        ({
            let st = attrs_fold(items, true, c);
            let b = base_flags(st);
            &&& !st.has_class && !st.has_style && !st.has_hydration
            &&& b == 0 || b == 8 || b == 16
            &&& patch_bits(st) == if (st.has_ref || st.directives.len() > 0) && b == 0 {
                512
            } else {
                b
            }
        }),
{
    lemma_component_bindings(items, c);
}

/// Entries whose keys are strings, each key once.
pub open spec fn distinct_static(ps: Seq<PropV>) -> bool {
    &&& forall|i: int| 0 <= i < ps.len() ==> (#[trigger] ps[i] matches PropV::KeyValue(PropKeyV::Str(_), _))
    &&& forall|i: int, j: int|
        0 <= i < j < ps.len() ==> #[trigger] ps[i]->KeyValue_0 != #[trigger] ps[j]->KeyValue_0
}

proof fn lemma_distinct_unchanged(ps: Seq<PropV>)
    requires
        distinct_static(ps),
    ensures
        deduped(ps) == ps,
    decreases ps.len(),
{
    if ps.len() > 0 {
        let init = ps.drop_last();
        assert(distinct_static(init)) by {
            assert forall|i: int, j: int| 0 <= i < j < init.len() implies #[trigger] init[i]->KeyValue_0
                != #[trigger] init[j]->KeyValue_0 by {
                assert(init[i] == ps[i] && init[j] == ps[j]);
            }
        }
        lemma_distinct_unchanged(init);
        let last = ps.last();
        assert(ps[ps.len() - 1] matches PropV::KeyValue(PropKeyV::Str(_), _));
        let name = last->KeyValue_0->Str_0;
        assert forall|j: int| 0 <= j < init.len() implies !has_str_key(#[trigger] init[j], name) by {
            assert(ps[j]->KeyValue_0 != ps[ps.len() - 1]->KeyValue_0);
        }
        assert(find_key(init, name) is None);
        assert(init.push(last) =~= ps);
    }
}

/// Merging two prop sources whose keys are all distinct keeps every entry, in order.
pub proof fn lemma_dedupe_disjoint(a: Seq<PropV>, b: Seq<PropV>)
    requires
        distinct_static(a + b),
    ensures
        deduped(a + b) == a + b,
{
    lemma_distinct_unchanged(a + b);
}

/// Two entries under one key that merges (`class`, `style`, `on...`) become one entry
/// whose value is the array of both values, in order.
pub proof fn lemma_dedupe_merged_pair(k: Seq<char>, v1: ExprV, v2: ExprV)
    requires
        merged_key(k),
        !(v1 is Array),
    ensures
        deduped(
            seq![
                PropV::KeyValue(PropKeyV::Str(k), v1),
                PropV::KeyValue(PropKeyV::Str(k), v2),
            ],
        ) == seq![PropV::KeyValue(PropKeyV::Str(k), ExprV::Array(seq![v1, v2]))],
{
    let p1 = PropV::KeyValue(PropKeyV::Str(k), v1);
    let p2 = PropV::KeyValue(PropKeyV::Str(k), v2);
    let ps = seq![p1, p2];
    assert(ps.drop_last() =~= seq![p1]);
    assert(seq![p1].drop_last() =~= seq![]);
    assert(deduped(seq![p1]) =~= seq![p1]) by {
        let e: Seq<PropV> = seq![];
        assert(deduped(seq![p1].drop_last()) == e);
        assert(find_key(e, k) is None);
        assert(dedupe_step(e, p1) =~= seq![p1]);
    }
    assert(has_str_key(seq![p1][0], k));
    assert(find_key(seq![p1], k) == Some(0int)) by {
        let d = seq![p1];
        let j = choose|j: int| 0 <= j < d.len() && has_str_key(#[trigger] d[j], k)
            && forall|m: int| 0 <= m < j ==> !has_str_key(#[trigger] d[m], k);
        assert(0 <= j < 1);
    }
    assert(deduped(ps) =~= seq![PropV::KeyValue(PropKeyV::Str(k), joined(v1, v2))]);
}

proof fn lemma_expression_entries(cs: Seq<ChildV>, c: Cfg, s: PassState, k: int)
    requires
        0 <= k <= cs.len(),
        forall|i: int| 0 <= i < cs.len() ==> #[trigger] cs[i] is Expr,
    ensures
        entries(cs, c, s, k).items == Seq::new(k as nat, |i: int| cs[i]->Expr_0),
        entries(cs, c, s, k).dynamic == exists|i: int| 0 <= i < k && unresolved_ident(#[trigger] cs[i]->Expr_0),
        entries(cs, c, s, k).state == s,
    decreases k,
{
    if k > 0 {
        lemma_expression_entries(cs, c, s, k - 1);
        assert(cs[k - 1] is Expr);
        let p = entries(cs, c, s, k - 1);
        assert(entries(cs, c, s, k).items =~= p.items.push(cs[k - 1]->Expr_0));
        assert(Seq::new(k as nat, |i: int| cs[i]->Expr_0) =~= Seq::new((k - 1) as nat, |i: int| cs[i]->Expr_0).push(cs[k - 1]->Expr_0));
        if unresolved_ident(cs[k - 1]->Expr_0) {
            assert(exists|i: int| 0 <= i < k && unresolved_ident(#[trigger] cs[i]->Expr_0));
        }
        if exists|i: int| 0 <= i < k && unresolved_ident(#[trigger] cs[i]->Expr_0) {
            let i = choose|i: int| 0 <= i < k && unresolved_ident(#[trigger] cs[i]->Expr_0);
            if i < k - 1 {
                assert(exists|i: int| 0 <= i < k - 1 && unresolved_ident(#[trigger] cs[i]->Expr_0));
            }
        }
    }
}

/// The expression children of a component become the default slot, marked dynamic
/// exactly when one of them is an identifier resolved at run time, and stable otherwise.
pub proof fn lemma_expression_slots(cs: Seq<ChildV>, c: Cfg, s: PassState)
    requires
        cs.len() >= 2,
        forall|i: int| 0 <= i < cs.len() ==> #[trigger] cs[i] is Expr,
    ensures
        compile_children(cs, true, None, c, s).expr == wrap(
            Seq::new(cs.len(), |i: int| cs[i]->Expr_0),
            None,
            exists|i: int| 0 <= i < cs.len() && unresolved_ident(#[trigger] cs[i]->Expr_0),
            c,
        ),
{
    lemma_expression_entries(cs, c, s, cs.len() as int);
}

} // verus!
