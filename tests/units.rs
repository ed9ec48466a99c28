use vue_jsx::ast::{Attr, AttrItem, AttrName, AttrValue, Expr, Ident, Lit, Prop, PropKey};
use vue_jsx::directive::{directive_diagnostic, expand_v_models, is_directive, parse_directive, Diagnostic, Directive};
use vue_jsx::options::{default_true, Options};
use vue_jsx::patch_flags::{PatchFlags, SlotFlag, FULL_PROPS, NEED_PATCH};
use vue_jsx::props::{dedupe_props, is_constant};
use vue_jsx::tags::{is_custom_element, is_native_tag};
use vue_jsx::text::{is_on, jsx_pragma, normalize_text, str_eq_ignore_ascii_case};

fn s(x: &str) -> String {
    x.to_string()
}

fn id(name: &str) -> Expr {
    Expr::Ident(Ident { name: s(name), unresolved: false })
}

fn kv(k: &str, v: Expr) -> Prop {
    Prop::KeyValue(PropKey::Str(s(k)), v)
}

fn attr(name: &str, value: Option<AttrValue>) -> Attr {
    Attr { name: AttrName::Ident(s(name)), value }
}

#[test]
fn options_defaults() {
    let o = Options::default();
    assert!(!o.transform_on);
    assert!(!o.optimize);
    assert!(o.custom_element_patterns.is_empty());
    assert!(o.merge_props);
    assert!(o.enable_object_slots);
    assert_eq!(o.pragma, None);
    assert!(!o.resolve_type);
    assert!(default_true());
}

#[test]
fn patch_flag_values() {
    assert_eq!(FULL_PROPS, 16);
    assert_eq!(NEED_PATCH, 512);
    assert!(PatchFlags::empty().is_empty());
    assert_eq!(PatchFlags { bits: 24 }.bits(), 24);
    assert_eq!(SlotFlag::Stable.value(), 1);
    assert_eq!(SlotFlag::Dynamic.value(), 2);
}

#[test]
fn text_runs_are_normalized() {
    assert_eq!(normalize_text("  hello \n   world  "), Some(s("  hello world  ")));
    assert_eq!(normalize_text("a\n\n  \n b \n c"), Some(s("a b c")));
    assert_eq!(normalize_text("x\ty"), Some(s("x y")));
    assert_eq!(normalize_text("\n   \n"), None);
    assert_eq!(normalize_text(""), None);
}

#[test]
fn event_names() {
    assert!(is_on("onClick"));
    assert!(is_on("on-x"));
    assert!(!is_on("one"));
    assert!(!is_on("on"));
    assert!(str_eq_ignore_ascii_case("onClick", "onclick"));
    assert!(!str_eq_ignore_ascii_case("onClick", "onclicks"));
}

#[test]
fn pragma_comments() {
    assert_eq!(jsx_pragma(" @jsx h "), Some(s("h")));
    assert_eq!(jsx_pragma("* @jsx  createElement"), Some(s("createElement")));
    assert_eq!(jsx_pragma("not a pragma"), None);
}

#[test]
fn known_tags_come_from_the_vocabulary() {
    assert!(is_native_tag("div"));
    assert!(is_native_tag("circle"));
    assert!(!is_native_tag("Div"));
    assert!(!is_native_tag("my-widget"));
    assert!(!is_native_tag(""));
}

#[test]
fn custom_element_patterns_are_regular_expressions() {
    let patterns = vec![s("^ion-"), s("x+y")];
    assert!(is_custom_element(&patterns, "ion-button"));
    assert!(is_custom_element(&patterns, "axxyb"));
    assert!(!is_custom_element(&patterns, "my-ion-button"));
    assert!(!is_custom_element(&vec![s("(")], "("));
}

#[test]
fn constant_values() {
    assert!(is_constant(&Expr::Lit(Lit::Num(3))));
    assert!(is_constant(&id("undefined")));
    assert!(!is_constant(&id("x")));
    assert!(is_constant(&Expr::Array(vec![Expr::Lit(Lit::Str(s("a"))), id("undefined")])));
    assert!(!is_constant(&Expr::Array(vec![Expr::Hole])));
    assert!(is_constant(&Expr::Object(vec![kv("a", Expr::Lit(Lit::Null))])));
    assert!(!is_constant(&Expr::Object(vec![kv("a", id("b"))])));
    assert!(!is_constant(&Expr::Object(vec![Prop::Spread(id("b"))])));
}

#[test]
fn dedupe_keeps_disjoint_keys_in_order() {
    let props = vec![kv("a", id("x")), kv("b", id("y")), kv("c", id("z"))];
    assert_eq!(dedupe_props(props), vec![kv("a", id("x")), kv("b", id("y")), kv("c", id("z"))]);
}

#[test]
fn dedupe_joins_handlers_and_keeps_first_of_others() {
    let props = vec![
        kv("onClick", id("f")),
        kv("id", id("a")),
        kv("onClick", id("g")),
        kv("id", id("b")),
        kv("class", Expr::Array(vec![id("c1")])),
        kv("class", id("c2")),
    ];
    assert_eq!(
        dedupe_props(props),
        vec![
            kv("onClick", Expr::Array(vec![id("f"), id("g")])),
            kv("id", id("a")),
            kv("class", Expr::Array(vec![id("c1"), id("c2")])),
        ]
    );
}

#[test]
fn directive_shapes() {
    assert!(is_directive(&attr("v-show", None)));
    assert!(is_directive(&attr("vModel", None)));
    assert!(!is_directive(&attr("value", None)));
    assert!(!is_directive(&attr("v", None)));
}

#[test]
fn model_with_argument_on_element_is_a_directive() {
    let value = Expr::Array(vec![id("v"), Expr::Lit(Lit::Str(s("foo"))), Expr::Array(vec![Expr::Lit(Lit::Str(s("lazy")))])]);
    match parse_directive(attr("v-model", Some(AttrValue::Expr(value))), false) {
        Directive::VModel(d) => {
            assert_eq!(d.argument, Some(Expr::Lit(Lit::Str(s("foo")))));
            assert_eq!(d.transformed_argument, Some(Expr::Lit(Lit::Str(s("foo")))));
            assert_eq!(d.modifiers, vec![s("lazy")]);
            assert_eq!(d.value, id("v"));
        }
        _ => panic!("expected v-model"),
    }
}

#[test]
fn model_modifiers_without_argument() {
    match parse_directive(attr("v-model_trim_trim", Some(AttrValue::Expr(id("v")))), false) {
        Directive::VModel(d) => {
            assert_eq!(d.argument, Some(Expr::Lit(Lit::Str(s("trim")))));
            assert_eq!(d.modifiers, vec![s("trim")]);
        }
        _ => panic!("expected v-model"),
    }
    let value = Expr::Array(vec![id("v"), Expr::Array(vec![Expr::Lit(Lit::Str(s("a")))])]);
    match parse_directive(attr("v-model", Some(AttrValue::Expr(value))), false) {
        Directive::VModel(d) => {
            assert_eq!(d.argument, None);
            assert_eq!(d.transformed_argument, Some(Expr::Void0));
        }
        _ => panic!("expected v-model"),
    }
    let value = Expr::Array(vec![id("v"), Expr::Array(vec![Expr::Lit(Lit::Str(s("a")))])]);
    match parse_directive(attr("v-model", Some(AttrValue::Expr(value))), true) {
        Directive::VModel(d) => assert_eq!(d.argument, Some(Expr::Lit(Lit::Null))),
        _ => panic!("expected v-model"),
    }
}

#[test]
fn namespaced_directive_argument() {
    let a = Attr { name: AttrName::Namespaced(s("v-on"), s("click_stop")), value: Some(AttrValue::Expr(id("h"))) };
    match parse_directive(a, false) {
        Directive::Normal(d) => {
            assert_eq!(d.name, s("on"));
            assert_eq!(d.argument, Some(Expr::Lit(Lit::Str(s("click")))));
            assert_eq!(d.modifiers, vec![s("stop")]);
            assert_eq!(d.value, id("h"));
        }
        _ => panic!("expected a custom directive"),
    }
}

#[test]
fn text_and_slots_directives() {
    match parse_directive(attr("v-text", Some(AttrValue::Expr(Expr::Array(vec![id("t")])))), false) {
        Directive::Text(e) => assert_eq!(e, id("t")),
        _ => panic!("expected v-text"),
    }
    match parse_directive(attr("v-slots", Some(AttrValue::Expr(id("s")))), true) {
        Directive::Slots(e) => assert_eq!(e, Some(id("s"))),
        _ => panic!("expected v-slots"),
    }
    match parse_directive(attr("v-slots", Some(AttrValue::Expr(Expr::Lit(Lit::Null)))), true) {
        Directive::Slots(e) => assert_eq!(e, None),
        _ => panic!("expected v-slots"),
    }
}

#[test]
fn v_models_become_one_v_model_each() {
    let lit = |x: &str| Expr::Lit(Lit::Str(s(x)));
    let models = Expr::Array(vec![
        Expr::Array(vec![id("a"), lit("foo"), Expr::Array(vec![lit("trim")])]),
        Expr::Array(vec![id("b")]),
        id("c"),
    ]);
    let attrs = vec![
        AttrItem::Attr(attr("x", None)),
        AttrItem::Attr(attr("v-models", Some(AttrValue::Expr(models)))),
        AttrItem::Attr(attr("y", None)),
    ];
    let out = expand_v_models(attrs);
    assert_eq!(
        out,
        vec![
            AttrItem::Attr(attr("x", None)),
            AttrItem::Attr(Attr {
                name: AttrName::Namespaced(s("v-model"), s("foo")),
                value: Some(AttrValue::Expr(Expr::Array(vec![id("a"), Expr::Array(vec![lit("trim")])]))),
            }),
            AttrItem::Attr(attr("v-model", Some(AttrValue::Expr(Expr::Array(vec![id("b")]))))),
            AttrItem::Attr(attr("y", None)),
        ]
    );
    let plain = vec![AttrItem::Attr(attr("x", None))];
    assert_eq!(expand_v_models(plain), vec![AttrItem::Attr(attr("x", None))]);
}

#[test]
fn directive_names_are_lowered_and_modifiers_sorted() {
    match parse_directive(attr("vCus_arg_zeta_alpha_zeta", Some(AttrValue::Expr(id("x")))), false) {
        Directive::Normal(d) => {
            assert_eq!(d.name, s("cus"));
            assert_eq!(d.argument, Some(Expr::Lit(Lit::Str(s("arg")))));
            assert_eq!(d.modifiers, vec![s("alpha"), s("zeta")]);
        }
        _ => panic!("expected a custom directive"),
    }
    match parse_directive(attr("v-HTML", Some(AttrValue::Expr(id("h")))), false) {
        Directive::Html(e) => assert_eq!(e, id("h")),
        _ => panic!("expected v-html"),
    }
}

#[test]
fn model_without_expression_is_true_with_a_diagnostic() {
    let a = attr("v-model", None);
    assert_eq!(directive_diagnostic(&a), Some(Diagnostic::ModelWithoutExpression));
    match parse_directive(a, false) {
        Directive::VModel(d) => assert_eq!(d.value, Expr::Lit(Lit::Bool(true))),
        _ => panic!("expected v-model"),
    }
    let b = attr("v-model", Some(AttrValue::Lit(Lit::Str(s("x")))));
    assert_eq!(directive_diagnostic(&b), Some(Diagnostic::ModelWithoutExpression));
    assert_eq!(directive_diagnostic(&attr("v-html", None)), Some(Diagnostic::HtmlWithoutExpression));
    assert_eq!(directive_diagnostic(&attr("v-text", Some(AttrValue::Empty))), Some(Diagnostic::TextWithoutExpression));
    assert_eq!(directive_diagnostic(&attr("v-show", None)), None);
}
