use vue_jsx::ast::{Attr, AttrItem, AttrName, AttrValue, Child, Element, Expr, Ident, Lit, Prop, PropKey, TagName};
use vue_jsx::options::Options;
use vue_jsx::transform::VueJsxTransformVisitor;

fn s(x: &str) -> String {
    x.to_string()
}

fn ident(name: &str, unresolved: bool) -> Ident {
    Ident { name: s(name), unresolved }
}

fn id(name: &str) -> Expr {
    Expr::Ident(ident(name, false))
}

fn text(x: &str) -> Expr {
    Expr::Lit(Lit::Str(s(x)))
}

fn rt(x: &str) -> Expr {
    Expr::Runtime(s(x))
}

fn call(callee: Expr, args: Vec<Expr>) -> Expr {
    Expr::Call(Box::new(callee), args, false)
}

fn kv(k: &str, v: Expr) -> Prop {
    Prop::KeyValue(PropKey::Str(s(k)), v)
}

fn tag(name: &str, unresolved: bool) -> TagName {
    TagName::Ident(ident(name, unresolved))
}

fn attr(name: &str, value: Option<AttrValue>) -> AttrItem {
    AttrItem::Attr(Attr { name: AttrName::Ident(s(name)), value })
}

fn element(name: TagName, attrs: Vec<AttrItem>, children: Vec<Child>) -> Element {
    Element { name, attrs, children }
}

fn optimized() -> Options {
    let mut o = Options::default();
    o.optimize = true;
    o
}

fn compile(options: Options, el: &Element) -> (Expr, VueJsxTransformVisitor) {
    let mut v = VueJsxTransformVisitor::new(options);
    let (e, _) = v.transform_jsx_element(el);
    (e, v)
}

#[test]
fn bare_element_has_null_props_and_children() {
    let el = element(tag("div", true), vec![], vec![]);
    let (e, v) = compile(optimized(), &el);
    assert_eq!(e, call(rt("createVNode"), vec![text("div"), Expr::Lit(Lit::Null), Expr::Lit(Lit::Null)]));
    assert_eq!(v.imports, vec![s("createVNode")]);
}

#[test]
fn bare_component_resolved_at_run_time() {
    let el = element(tag("Foo", true), vec![], vec![]);
    let (e, _) = compile(optimized(), &el);
    let t = call(rt("resolveComponent"), vec![text("Foo")]);
    assert_eq!(e, call(rt("createVNode"), vec![t, Expr::Lit(Lit::Null), Expr::Lit(Lit::Null)]));
}

#[test]
fn single_spread_is_the_props_with_full_props() {
    let el = element(tag("div", true), vec![AttrItem::Spread(id("x"))], vec![]);
    let (e, _) = compile(optimized(), &el);
    assert_eq!(
        e,
        call(rt("createVNode"), vec![text("div"), id("x"), Expr::Lit(Lit::Null), Expr::Lit(Lit::Num(16))])
    );
    let mut o = optimized();
    o.merge_props = false;
    let (e, _) = compile(o, &el);
    assert_eq!(
        e,
        call(rt("createVNode"), vec![text("div"), id("x"), Expr::Lit(Lit::Null), Expr::Lit(Lit::Num(16))])
    );
}

#[test]
fn component_with_ref_needs_patch() {
    let el = element(tag("A", false), vec![attr("ref", Some(AttrValue::Expr(id("r"))))], vec![]);
    let (e, _) = compile(optimized(), &el);
    let props = Expr::Object(vec![kv("ref", id("r"))]);
    assert_eq!(
        e,
        call(rt("createVNode"), vec![id("A"), props, Expr::Lit(Lit::Null), Expr::Lit(Lit::Num(512))])
    );
}

#[test]
fn component_with_dynamic_prop_has_props_flag_only() {
    let el = element(
        tag("A", false),
        vec![attr("ref", Some(AttrValue::Expr(id("r")))), attr("foo", Some(AttrValue::Expr(id("y"))))],
        vec![],
    );
    let (e, _) = compile(optimized(), &el);
    let props = Expr::Object(vec![kv("ref", id("r")), kv("foo", id("y"))]);
    assert_eq!(
        e,
        call(
            rt("createVNode"),
            vec![
                id("A"),
                props,
                Expr::Lit(Lit::Null),
                Expr::Lit(Lit::Num(8)),
                Expr::Array(vec![text("foo")]),
            ]
        )
    );
}

#[test]
fn checkbox_model() {
    let el = element(
        tag("input", true),
        vec![
            attr("type", Some(AttrValue::Lit(Lit::Str(s("checkbox"))))),
            attr("v-model", Some(AttrValue::Expr(id("test")))),
        ],
        vec![],
    );
    let (e, v) = compile(Options::default(), &el);
    assert_eq!(v.imports, vec![s("createVNode"), s("vModelCheckbox"), s("withDirectives")]);
    let updater = Expr::Arrow(
        vec![s("$event")],
        Box::new(Expr::Assign(Box::new(id("test")), Box::new(Expr::Local(s("$event"))))),
    );
    let props = Expr::Object(vec![kv("type", text("checkbox")), kv("onUpdate:modelValue", updater)]);
    let node = call(rt("createVNode"), vec![text("input"), props, Expr::Lit(Lit::Null)]);
    let dirs = Expr::Array(vec![Expr::Array(vec![rt("vModelCheckbox"), id("test")])]);
    assert_eq!(e, call(rt("withDirectives"), vec![node, dirs]));
    assert!(v.imports.contains(&s("vModelCheckbox")));
}

fn slots_case(unresolved: bool) -> Expr {
    let el = element(
        tag("A", false),
        vec![],
        vec![Child::Expr(Expr::Ident(ident("foo", unresolved))), Child::Expr(id("bar"))],
    );
    compile(optimized(), &el).0
}

fn expected_slots(unresolved: bool, flag: i64) -> Expr {
    let items = vec![Expr::Ident(ident("foo", unresolved)), id("bar")];
    let slots = Expr::Object(vec![
        Prop::KeyValue(PropKey::Ident(s("default")), Expr::Arrow(vec![], Box::new(Expr::Array(items)))),
        Prop::KeyValue(PropKey::Ident(s("_")), Expr::Lit(Lit::Num(flag))),
    ]);
    call(rt("createVNode"), vec![id("A"), Expr::Lit(Lit::Null), slots])
}

#[test]
fn component_children_local_identifiers_are_stable() {
    assert_eq!(slots_case(false), expected_slots(false, 1));
}

#[test]
fn component_children_runtime_identifier_is_dynamic() {
    assert_eq!(slots_case(true), expected_slots(true, 2));
}

#[test]
fn spread_between_attributes_merges_in_order() {
    let el = element(
        tag("button", true),
        vec![
            attr("loading", None),
            AttrItem::Spread(id("x")),
            attr("type", Some(AttrValue::Lit(Lit::Str(s("submit"))))),
        ],
        vec![Child::Text(s("btn"))],
    );
    let (e, _) = compile(Options::default(), &el);
    let merged = call(
        rt("mergeProps"),
        vec![
            Expr::Object(vec![kv("loading", Expr::Lit(Lit::Bool(true)))]),
            id("x"),
            Expr::Object(vec![kv("type", text("submit"))]),
        ],
    );
    let children = Expr::Array(vec![call(rt("createTextVNode"), vec![text("btn")])]);
    assert_eq!(e, call(rt("createVNode"), vec![text("button"), merged, children]));
}

#[test]
fn fragment_children_are_an_array() {
    let mut v = VueJsxTransformVisitor::new(Options::default());
    let (e, dynamic) = v.transform_jsx_fragment(&vec![Child::Expr(id("a")), Child::Empty]);
    assert!(!dynamic);
    assert_eq!(
        e,
        call(rt("createVNode"), vec![rt("Fragment"), Expr::Lit(Lit::Null), Expr::Array(vec![id("a")])])
    );
}

#[test]
fn single_identifier_child_of_component_is_guarded() {
    let el = element(tag("A", false), vec![], vec![Child::Expr(id("foo"))]);
    let (e, v) = compile(Options::default(), &el);
    let wrapped = Expr::Object(vec![Prop::KeyValue(
        PropKey::Ident(s("default")),
        Expr::Arrow(vec![], Box::new(Expr::Array(vec![id("foo")]))),
    )]);
    let guard = Expr::Cond(
        Box::new(call(Expr::Local(s("_isSlot")), vec![id("foo")])),
        Box::new(id("foo")),
        Box::new(wrapped),
    );
    assert_eq!(e, call(rt("createVNode"), vec![id("A"), Expr::Lit(Lit::Null), guard]));
    assert!(v.uses_slot_helper);
}

#[test]
fn sourced_call_child_is_hoisted_into_slot_variables() {
    let child = Expr::Call(Box::new(Expr::Host(7)), vec![], true);
    let el = element(tag("A", false), vec![], vec![Child::Expr(child)]);
    let mut v = VueJsxTransformVisitor::new(Options::default());
    let _ = v.transform_jsx_element(&el);
    let _ = v.transform_jsx_element(&el);
    assert_eq!(v.injecting_vars, vec![s("_slot"), s("_slot2")]);
    assert_eq!(v.slot_counter, 3);
}

#[test]
fn v_show_directive_is_resolved() {
    let el = element(tag("div", true), vec![attr("v-show", Some(AttrValue::Expr(id("ok"))))], vec![]);
    let (e, _) = compile(optimized(), &el);
    let node = call(
        rt("createVNode"),
        vec![text("div"), Expr::Lit(Lit::Null), Expr::Lit(Lit::Null), Expr::Lit(Lit::Num(512))],
    );
    let dirs = Expr::Array(vec![Expr::Array(vec![rt("vShow"), id("ok")])]);
    assert_eq!(e, call(rt("withDirectives"), vec![node, dirs]));
}

#[test]
fn custom_directive_with_argument_and_modifiers() {
    let el = element(
        tag("div", true),
        vec![attr("v-foo_bar_a_b", Some(AttrValue::Expr(id("x"))))],
        vec![],
    );
    let (e, _) = compile(Options::default(), &el);
    let node = call(rt("createVNode"), vec![text("div"), Expr::Lit(Lit::Null), Expr::Lit(Lit::Null)]);
    let mods = Expr::Object(vec![
        Prop::KeyValue(PropKey::Ident(s("a")), Expr::Lit(Lit::Bool(true))),
        Prop::KeyValue(PropKey::Ident(s("b")), Expr::Lit(Lit::Bool(true))),
    ]);
    let entry = Expr::Array(vec![call(rt("resolveDirective"), vec![text("foo")]), id("x"), text("bar"), mods]);
    assert_eq!(e, call(rt("withDirectives"), vec![node, Expr::Array(vec![entry])]));
}

#[test]
fn component_model_with_modifiers() {
    let value = Expr::Array(vec![id("v"), Expr::Array(vec![text("trim")])]);
    let el = element(tag("A", false), vec![attr("v-model", Some(AttrValue::Expr(value)))], vec![]);
    let (e, _) = compile(optimized(), &el);
    let updater = Expr::Arrow(
        vec![s("$event")],
        Box::new(Expr::Assign(Box::new(id("v")), Box::new(Expr::Local(s("$event"))))),
    );
    let props = Expr::Object(vec![
        kv("modelValue", id("v")),
        kv("modelModifiers", Expr::Object(vec![kv("trim", Expr::Lit(Lit::Bool(true)))])),
        kv("onUpdate:modelValue", updater),
    ]);
    let dynamic = Expr::Array(vec![text("modelValue"), text("onUpdate:modelValue")]);
    assert_eq!(
        e,
        call(rt("createVNode"), vec![id("A"), props, Expr::Lit(Lit::Null), Expr::Lit(Lit::Num(8)), dynamic])
    );
}

#[test]
fn v_html_without_value_is_true() {
    let el = element(tag("div", true), vec![attr("v-html", None)], vec![]);
    let (e, _) = compile(Options::default(), &el);
    let props = Expr::Object(vec![kv("innerHTML", Expr::Lit(Lit::Bool(true)))]);
    assert_eq!(e, call(rt("createVNode"), vec![text("div"), props, Expr::Lit(Lit::Null)]));
}

#[test]
fn class_and_style_and_handler_flags() {
    let el = element(
        tag("div", true),
        vec![
            attr("class", Some(AttrValue::Expr(id("c")))),
            attr("style", Some(AttrValue::Expr(id("st")))),
            attr("onInput", Some(AttrValue::Expr(id("h")))),
            attr("onClick", Some(AttrValue::Expr(id("k")))),
        ],
        vec![],
    );
    let (e, _) = compile(optimized(), &el);
    match e {
        Expr::Call(_, args, _) => {
            assert_eq!(args[3], Expr::Lit(Lit::Num(2 + 4 + 8 + 32)));
            assert_eq!(args[4], Expr::Array(vec![text("onInput"), text("onClick")]));
        }
        _ => panic!("expected a call"),
    }
}

#[test]
fn pragma_comment_overrides_factory() {
    let mut v = VueJsxTransformVisitor::new(Options::default());
    v.search_jsx_pragma(&vec![s("plain"), s("* @jsx h ")]);
    assert_eq!(v.pragma, Some(s("h")));
    let (e, _) = v.transform_jsx_element(&element(tag("div", true), vec![], vec![]));
    assert_eq!(e, call(Expr::Local(s("h")), vec![text("div"), Expr::Lit(Lit::Null), Expr::Lit(Lit::Null)]));
}

#[test]
fn custom_element_pattern_keeps_string_tag() {
    let mut o = Options::default();
    o.custom_element_patterns = vec![s("^my-")];
    let mut v = VueJsxTransformVisitor::new(o);
    assert!(!v.is_component(&tag("my-el", true)));
    let t = v.transform_tag(tag("my-el", true));
    assert_eq!(t, text("my-el"));
}

#[test]
fn custom_directive_on_component_is_lowered() {
    let el = element(tag("A", true), vec![attr("vCus", Some(AttrValue::Expr(id("x"))))], vec![]);
    let (e, v) = compile(optimized(), &el);
    let node = call(
        rt("createVNode"),
        vec![call(rt("resolveComponent"), vec![text("A")]), Expr::Lit(Lit::Null), Expr::Lit(Lit::Null), Expr::Lit(Lit::Num(512))],
    );
    let dirs = Expr::Array(vec![Expr::Array(vec![call(rt("resolveDirective"), vec![text("cus")]), id("x")])]);
    assert_eq!(e, call(rt("withDirectives"), vec![node, dirs]));
    assert_eq!(v.imports, vec![s("resolveComponent"), s("createVNode"), s("resolveDirective"), s("withDirectives")]);
}

#[test]
fn value_less_model_reports_and_uses_true() {
    let el = element(tag("input", true), vec![attr("v-model", None)], vec![]);
    let (_, v) = compile(Options::default(), &el);
    assert_eq!(v.diagnostics, vec![vue_jsx::directive::Diagnostic::ModelWithoutExpression]);
}

#[test]
fn imports_and_helpers_follow_the_output() {
    let el = element(tag("div", true), vec![AttrItem::Spread(id("x"))], vec![]);
    let (_, v) = compile(optimized(), &el);
    assert_eq!(v.imports, vec![s("createVNode")]);
    let el = element(tag("A", false), vec![], vec![Child::Expr(id("foo"))]);
    let mut o = Options::default();
    o.enable_object_slots = false;
    let (_, v) = compile(o, &el);
    assert!(!v.uses_slot_helper);
    assert!(v.injecting_vars.is_empty());
}

#[test]
fn pending_assignment_target_is_hoisted_into_a_constant() {
    let el = element(tag("A", false), vec![], vec![Child::Expr(id("x"))]);
    let mut v = VueJsxTransformVisitor::new(Options::default());
    v.assignment_left = Some(s("x"));
    let (e, _) = v.transform_jsx_element(&el);
    let wrapped = Expr::Object(vec![Prop::KeyValue(
        PropKey::Ident(s("default")),
        Expr::Arrow(vec![], Box::new(Expr::Array(vec![Expr::Local(s("_x"))]))),
    )]);
    let guard = Expr::Cond(
        Box::new(call(Expr::Local(s("_isSlot")), vec![id("x")])),
        Box::new(id("x")),
        Box::new(wrapped),
    );
    assert_eq!(e, call(rt("createVNode"), vec![id("A"), Expr::Lit(Lit::Null), guard]));
    assert_eq!(v.assignment_left, None);
    assert_eq!(v.injecting_consts.len(), 1);
    assert_eq!(v.injecting_consts[0].0, s("_x"));
    assert_eq!(v.injecting_consts[0].1, call(Expr::FnReturning(Box::new(id("x"))), vec![]));
}
