//! The pass: tags, attributes, children and whole elements, compiled to virtual-node calls.
use vstd::prelude::*;
use crate::ast::{
    copy_lit, copy_strings, cv, cvs, elv, Child, ChildV, Element, ElementV,
    aiv, aivs, av, copy_expr, copy_ident, ev, evs, kv, lemma_evs_push, lemma_pvs_push, pv, pvs,
    strings_view, tv, Attr, AttrItem, AttrItemV, AttrName, AttrNameV, AttrV, AttrValue,
    AttrValueV, Expr, ExprV, Ident, Lit, LitV, Prop, PropKey, PropKeyV, PropV, TagName,
    TagNameV,
};
use crate::directive::{
    directive_diagnostic, directive_error, Diagnostic,
    expand_spec, expand_v_models,
    directive_name, dv, is_directive, oev, parse_directive, parse_spec,
    push_unique, Directive, DirectiveV, NormalDirective,
};
use crate::directive::VModelDirective;
use crate::options::Options;
use crate::patch_flags::PatchFlags;
use crate::props::{constant_attr_value, dedupe_props, deduped, is_attr_value_constant};
use crate::tags::{custom_element, is_custom_element, is_native_tag, native_tag};
use crate::text::{
    jsx_pragma, opt_chars, pragma_of, normalize_text, normalized_text,
    concat, eq_ignore_ascii_case, is_on, is_on_name, str_eq, str_eq_ignore_ascii_case,
    strings_seq,
};

verus! {

broadcast use vstd::std_specs::vec::group_vec_axioms;

/// What the output of the pass depends on besides the tree.
pub ghost struct Cfg {
    pub transform_on: bool,
    pub optimize: bool,
    pub patterns: Seq<String>,
    pub merge_props: bool,
    pub object_slots: bool,
    /// The node-creation function named by an `@jsx` comment or the options.
    pub pragma: Option<Seq<char>>,
}

/// The state of one pass over one file.
pub struct VueJsxTransformVisitor {
    pub options: Options,
    /// The runtime API names used so far, each once, in order of first use.
    pub imports: Vec<String>,
    /// The node-creation function named by an `@jsx` comment.
    pub pragma: Option<String>,
    /// The `isSlot` helper is used and must be declared.
    pub uses_slot_helper: bool,
    /// The event-transform helper is used and must be imported.
    pub uses_transform_on: bool,
    /// The number of the next hoisted slot variable.
    pub slot_counter: usize,
    /// Hoisted slot variables that still have to be declared.
    pub injecting_vars: Vec<String>,
    /// The identifier that the last assignment seen assigned to, not yet consulted.
    pub assignment_left: Option<String>,
    /// Constants to declare where the enclosing scope begins: a name and its value.
    pub injecting_consts: Vec<(String, Expr)>,
    /// The problems found so far, in order.
    pub diagnostics: Vec<Diagnostic>,
}

/// The state a pass keeps besides its configuration.
pub ghost struct PassState {
    /// Runtime API names to import, in order of first use.
    pub imports: Seq<Seq<char>>,
    pub slot_helper: bool,
    pub on_helper: bool,
    pub vars: Seq<Seq<char>>,
    pub counter: nat,
    pub left: Option<Seq<char>>,
    pub consts: Seq<(Seq<char>, ExprV)>,
    pub diagnostics: Seq<Diagnostic>,
}

/// `name` registered for import.
pub open spec fn reg(s: PassState, name: Seq<char>) -> PassState {
    PassState { imports: add_name(s.imports, name), ..s }
}

pub open spec fn consts_view(v: Seq<(String, Expr)>) -> Seq<(Seq<char>, ExprV)> {
    Seq::new(v.len(), |i: int| (v[i].0@, ev(v[i].1)))
}

pub open spec fn opt_str(s: Option<String>) -> Option<Seq<char>> {
    match s {
        Some(a) => Some(a@),
        None => None,
    }
}

impl VueJsxTransformVisitor {
    pub open spec fn cfg(&self) -> Cfg {
        Cfg {
            transform_on: self.options.transform_on,
            optimize: self.options.optimize,
            patterns: self.options.custom_element_patterns@,
            merge_props: self.options.merge_props,
            object_slots: self.options.enable_object_slots,
            pragma: match self.pragma {
                Some(p) => Some(p@),
                None => opt_str(self.options.pragma),
            },
        }
    }

    /// The pass keeps its configuration.
    pub open spec fn same_cfg(&self, other: &Self) -> bool {
        self.cfg() == other.cfg()
    }

    pub open spec fn state(&self) -> PassState {
        PassState {
            imports: strings_seq(self.imports@),
            slot_helper: self.uses_slot_helper,
            on_helper: self.uses_transform_on,
            vars: strings_seq(self.injecting_vars@),
            counter: self.slot_counter as nat,
            left: opt_str(self.assignment_left),
            consts: consts_view(self.injecting_consts@),
            diagnostics: self.diagnostics@,
        }
    }

    pub fn new(options: Options) -> (r: Self)
        ensures
            r.options == options,
            r.imports@.len() == 0,
            r.pragma is None,
            !r.uses_slot_helper,
            !r.uses_transform_on,
            r.slot_counter == 1,
            r.injecting_vars@.len() == 0,
            r.assignment_left is None,
            r.injecting_consts@.len() == 0,
            r.diagnostics@.len() == 0,
    {
        VueJsxTransformVisitor {
            options,
            imports: Vec::new(),
            pragma: None,
            uses_slot_helper: false,
            uses_transform_on: false,
            slot_counter: 1,
            injecting_vars: Vec::new(),
            assignment_left: None,
            injecting_consts: Vec::new(),
            diagnostics: Vec::new(),
        }
    }

    /// The alias of a runtime API symbol, registered for import on first use.
    pub fn import_from_vue(&mut self, name: &str) -> (r: Expr)
        ensures
            ev(r) == ExprV::Runtime(name@),
            final(self).same_cfg(old(self)),
            final(self).state() == reg(old(self).state(), name@),
    {
        let mut k: usize = 0;
        while k < self.imports.len()
            invariant
                k <= self.imports@.len(),
                forall|j: int| 0 <= j < k ==> strings_seq(self.imports@)[j] != name@,
            decreases self.imports.len() - k,
        {
            if str_eq(self.imports[k].as_str(), name) {
                assert(strings_seq(self.imports@)[k as int] == name@);
                return Expr::Runtime(name.to_owned());
            }
            k = k + 1;
        }
        let ghost i0 = strings_seq(self.imports@);
        let s = name.to_owned();
        self.imports.push(s);
        assert(strings_seq(self.imports@) =~= i0.push(name@));
        Expr::Runtime(name.to_owned())
    }
}

/// The node-creation function.
pub open spec fn pragma_expr(c: Cfg) -> ExprV {
    match c.pragma {
        Some(p) => ExprV::Local(p),
        None => ExprV::Runtime("createVNode"@),
    }
}

/// The name a component test reads: the identifier, the last member, or the local part.
pub open spec fn last_name(t: TagNameV) -> Seq<char> {
    match t {
        TagNameV::Ident(i) => i.name,
        TagNameV::Member(segs) => if segs.len() > 0 { segs.last() } else { seq![] },
        TagNameV::Namespaced(_, n) => n,
    }
}

/// Names whose children never become slots.
pub open spec fn slotless(name: Seq<char>) -> bool {
    name == "Fragment"@ || name == "KeepAlive"@
}

/// The element is a component: its children become slots.
pub open spec fn component(t: TagNameV, c: Cfg) -> bool {
    let n = last_name(t);
    match t {
        TagNameV::Member(_) => !slotless(n),
        _ => !custom_element(c.patterns, n) && !slotless(n) && !native_tag(n),
    }
}

/// What stands for the tag in the node-creation call.
pub open spec fn tag_expr(t: TagNameV, c: Cfg) -> ExprV {
    match t {
        TagNameV::Ident(i) => if native_tag(i.name) {
            ExprV::Lit(LitV::Str(i.name))
        } else if i.name == "Fragment"@ {
            ExprV::Runtime("Fragment"@)
        } else if custom_element(c.patterns, i.name) {
            ExprV::Lit(LitV::Str(i.name))
        } else if i.unresolved {
            ExprV::Call(
                Box::new(ExprV::Runtime("resolveComponent"@)),
                seq![ExprV::Lit(LitV::Str(i.name))],
                false,
            )
        } else {
            ExprV::Ident(i)
        },
        TagNameV::Member(segs) => ExprV::Member(segs),
        TagNameV::Namespaced(a, b) => ExprV::Namespaced(a, b),
    }
}

fn is_slotless(name: &str) -> (r: bool)
    ensures
        r == slotless(name@),
{
    str_eq(name, "Fragment") || str_eq(name, "KeepAlive")
}

impl VueJsxTransformVisitor {
    pub fn get_pragma(&mut self) -> (r: Expr)
        ensures
            ev(r) == pragma_expr(old(self).cfg()),
            final(self).same_cfg(old(self)),
            final(self).state() == pragma_state(old(self).cfg(), old(self).state()),
    {
        match &self.pragma {
            Some(p) => Expr::Local(p.clone()),
            None => match &self.options.pragma {
                Some(p) => Expr::Local(p.clone()),
                None => self.import_from_vue("createVNode"),
            },
        }
    }

    pub fn is_component(&self, t: &TagName) -> (r: bool)
        ensures
            r == component(tv(*t), self.cfg()),
    {
        match t {
            TagName::Ident(i) => {
                let n = i.name.as_str();
                !is_custom_element(&self.options.custom_element_patterns, n) && !is_slotless(n)
                    && !is_native_tag(n)
            },
            TagName::Member(segs) => {
                if segs.len() > 0 {
                    assert(strings_view(*segs).last() == segs@[segs@.len() - 1]@);
                    !is_slotless(segs[segs.len() - 1].as_str())
                } else {
                    proof {
                        reveal_strlit("Fragment");
                        reveal_strlit("KeepAlive");
                        assert(last_name(tv(*t)) == Seq::<char>::empty());
                    }
                    true
                }
            },
            TagName::Namespaced(_, n) => {
                let n = n.as_str();
                !is_custom_element(&self.options.custom_element_patterns, n) && !is_slotless(n)
                    && !is_native_tag(n)
            },
        }
    }

    pub fn transform_tag(&mut self, t: TagName) -> (r: Expr)
        ensures
            ev(r) == tag_expr(tv(t), old(self).cfg()),
            final(self).same_cfg(old(self)),
            final(self).state() == tag_state(tv(t), old(self).cfg(), old(self).state()),
    {
        match t {
            TagName::Ident(i) => {
                let n = i.name.as_str();
                if is_native_tag(n) {
                    Expr::Lit(Lit::Str(i.name))
                } else if str_eq(n, "Fragment") {
                    self.import_from_vue("Fragment")
                } else if is_custom_element(&self.options.custom_element_patterns, n) {
                    Expr::Lit(Lit::Str(i.name))
                } else if i.unresolved {
                    let callee = self.import_from_vue("resolveComponent");
                    let mut args: Vec<Expr> = Vec::new();
                    args.push(Expr::Lit(Lit::Str(i.name)));
                    assert(evs(args) =~= seq![ExprV::Lit(LitV::Str(i.name@))]);
                    Expr::Call(Box::new(callee), args, false)
                } else {
                    Expr::Ident(i)
                }
            },
            TagName::Member(segs) => Expr::Member(segs),
            TagName::Namespaced(a, b) => Expr::Namespaced(a, b),
        }
    }
}

/// `s` added to a list of names unless it is there.
pub open spec fn add_name(d: Seq<Seq<char>>, s: Seq<char>) -> Seq<Seq<char>> {
    if d.contains(s) {
        d
    } else {
        d.push(s)
    }
}

/// What the attribute compiler has gathered so far.
pub ghost struct AttrsAccV {
    pub props: Seq<PropV>,
    pub merge_args: Seq<ExprV>,
    pub dynamic: Seq<Seq<char>>,
    pub has_ref: bool,
    pub has_class: bool,
    pub has_style: bool,
    pub has_hydration: bool,
    pub has_dynamic_keys: bool,
    /// An `on` or `nativeOn` value went through the event-transform helper.
    pub on_helper: bool,
    pub errors: Seq<Diagnostic>,
    pub directives: Seq<DirectiveV>,
    pub slots: Option<ExprV>,
}

pub open spec fn acc_init() -> AttrsAccV {
    AttrsAccV {
        props: seq![],
        merge_args: seq![],
        dynamic: seq![],
        has_ref: false,
        has_class: false,
        has_style: false,
        has_hydration: false,
        has_dynamic_keys: false,
        on_helper: false,
        errors: seq![],
        directives: seq![],
        slots: None,
    }
}

/// The prop name of a plain attribute.
pub open spec fn attr_text(n: AttrNameV) -> Seq<char> {
    match n {
        AttrNameV::Ident(s) => s,
        AttrNameV::Namespaced(a, b) => a + ":"@ + b,
    }
}

/// The prop value of a plain attribute; `true` where it has none.
pub open spec fn attr_value_expr(v: Option<AttrValueV>) -> ExprV {
    match v {
        Some(AttrValueV::Lit(l)) => ExprV::Lit(l),
        Some(AttrValueV::Expr(e)) => e,
        Some(AttrValueV::Empty) => ExprV::JsxEmpty,
        None => ExprV::Lit(LitV::Bool(true)),
    }
}

/// An event handler that hydration must attach: not a click, not a model update.
pub open spec fn hydration_name(n: Seq<char>) -> bool {
    is_on_name(n) && !eq_ignore_ascii_case(n, "onclick"@) && n != "onUpdate:modelValue"@
}

pub open spec fn kv_str(k: Seq<char>, v: ExprV) -> PropV {
    PropV::KeyValue(PropKeyV::Str(k), v)
}

/// A plain attribute.
pub open spec fn plain_step(st: AttrsAccV, a: AttrV, comp: bool, c: Cfg) -> AttrsAccV {
    let n = attr_text(a.name);
    let value = attr_value_expr(a.value);
    let st1 = if n == "ref"@ {
        AttrsAccV { has_ref: true, ..st }
    } else if !constant_attr_value(a.value) {
        let class = n == "class"@ && !comp;
        let style = n == "style"@ && !comp;
        AttrsAccV {
            has_hydration: st.has_hydration || (!comp && hydration_name(n)),
            has_class: st.has_class || class,
            has_style: st.has_style || style,
            dynamic: if class || style || n == "key"@ || n == "on"@ {
                st.dynamic
            } else {
                add_name(st.dynamic, n)
            },
            ..st
        }
    } else {
        st
    };
    if c.transform_on && (n == "on"@ || n == "nativeOn"@) {
        AttrsAccV {
            merge_args: st1.merge_args.push(
                ExprV::Call(Box::new(ExprV::Local("_transformOn"@)), seq![value], false),
            ),
            on_helper: true,
            ..st1
        }
    } else {
        AttrsAccV { props: st1.props.push(kv_str(n, value)), ..st1 }
    }
}

/// The argument names the default model.
pub open spec fn default_model(arg: Option<ExprV>) -> bool {
    arg is None || arg == Some(ExprV::Lit(LitV::Null))
}

pub open spec fn model_key(arg: Option<ExprV>) -> PropKeyV {
    if default_model(arg) {
        PropKeyV::Str("modelValue"@)
    } else {
        match arg {
            Some(ExprV::Lit(LitV::Str(v))) => PropKeyV::Str(v),
            _ => PropKeyV::Computed(Box::new(arg->Some_0)),
        }
    }
}

/// The static model name, for the list of dynamic props.
pub open spec fn model_name(arg: Option<ExprV>) -> Option<Seq<char>> {
    if default_model(arg) {
        Some("modelValue"@)
    } else {
        match arg {
            Some(ExprV::Lit(LitV::Str(v))) => Some(v),
            _ => None,
        }
    }
}

pub open spec fn modifiers_key(arg: Option<ExprV>) -> PropKeyV {
    if default_model(arg) {
        PropKeyV::Str("modelModifiers"@)
    } else {
        match arg {
            Some(ExprV::Lit(LitV::Str(v))) => PropKeyV::Str(v + "Modifiers"@),
            _ => PropKeyV::Computed(
                Box::new(
                    ExprV::Add(Box::new(arg->Some_0), Box::new(ExprV::Lit(LitV::Str("Modifiers"@)))),
                ),
            ),
        }
    }
}

pub open spec fn update_key(arg: Option<ExprV>) -> PropKeyV {
    match update_name(arg) {
        Some(n) => PropKeyV::Str(n),
        None => PropKeyV::Computed(
            Box::new(
                ExprV::Add(Box::new(ExprV::Lit(LitV::Str("onUpdate"@))), Box::new(arg->Some_0)),
            ),
        ),
    }
}

pub open spec fn update_name(arg: Option<ExprV>) -> Option<Seq<char>> {
    if default_model(arg) {
        Some("onUpdate:modelValue"@)
    } else {
        match arg {
            Some(ExprV::Lit(LitV::Str(v))) => Some("onUpdate:"@ + v),
            _ => None,
        }
    }
}

/// `{ m1: true, m2: true }`, with string keys when `quoted`.
pub open spec fn modifiers_object(mods: Seq<Seq<char>>, quoted: bool) -> ExprV {
    ExprV::Object(
        Seq::new(
            mods.len(),
            |i: int|
                PropV::KeyValue(
                    if quoted {
                        PropKeyV::Str(mods[i])
                    } else {
                        PropKeyV::Ident(mods[i])
                    },
                    ExprV::Lit(LitV::Bool(true)),
                ),
        ),
    )
}

/// `$event => value = $event`
pub open spec fn updater(value: ExprV) -> ExprV {
    ExprV::Arrow(
        seq!["$event"@],
        Box::new(ExprV::Assign(Box::new(value), Box::new(ExprV::Local("$event"@)))),
    )
}

pub open spec fn add_opt_name(d: Seq<Seq<char>>, s: Option<Seq<char>>) -> Seq<Seq<char>> {
    match s {
        Some(n) => add_name(d, n),
        None => d,
    }
}

/// A `v-model`: on a component the bound props, on an element a directive; then the
/// update handler.
pub open spec fn model_step(st: AttrsAccV, d: DirectiveV, comp: bool) -> AttrsAccV {
    let arg = d->VModel_argument;
    let mods = d->VModel_modifiers;
    let value = d->VModel_value;
    let st1 = if comp {
        let p1 = st.props.push(PropV::KeyValue(model_key(arg), value));
        AttrsAccV {
            props: if mods.len() > 0 {
                p1.push(PropV::KeyValue(modifiers_key(arg), modifiers_object(mods, true)))
            } else {
                p1
            },
            dynamic: add_opt_name(st.dynamic, model_name(arg)),
            ..st
        }
    } else {
        AttrsAccV {
            directives: st.directives.push(
                DirectiveV::Normal {
                    name: "model"@,
                    argument: d->VModel_transformed_argument,
                    modifiers: mods,
                    value,
                },
            ),
            ..st
        }
    };
    AttrsAccV {
        props: st1.props.push(PropV::KeyValue(update_key(arg), updater(value))),
        dynamic: add_opt_name(st1.dynamic, update_name(arg)),
        has_dynamic_keys: st1.has_dynamic_keys || update_name(arg) is None,
        ..st1
    }
}

/// An attribute of directive shape.
pub open spec fn directive_step(st: AttrsAccV, d: DirectiveV, comp: bool) -> AttrsAccV {
    match d {
        DirectiveV::Normal { .. } => AttrsAccV { directives: st.directives.push(d), ..st },
        DirectiveV::Html(e) => AttrsAccV {
            props: st.props.push(kv_str("innerHTML"@, e)),
            dynamic: add_name(st.dynamic, "innerHTML"@),
            ..st
        },
        DirectiveV::Text(e) => AttrsAccV {
            props: st.props.push(kv_str("textContent"@, e)),
            dynamic: add_name(st.dynamic, "textContent"@),
            ..st
        },
        DirectiveV::VModel { .. } => model_step(st, d, comp),
        DirectiveV::Slots(e) => AttrsAccV { slots: e, ..st },
    }
}

/// A spread attribute: the keys become dynamic; in merge mode what was gathered and the
/// spread's own object become arguments of the merge.
pub open spec fn spread_step(st: AttrsAccV, e: ExprV, c: Cfg) -> AttrsAccV {
    spread_push(spread_flush(st, c), e, c)
}

/// Before a spread: the keys become dynamic, and in merge mode the gathered entries
/// become one argument of the merge.
pub open spec fn spread_flush(st: AttrsAccV, c: Cfg) -> AttrsAccV {
    let st0 = AttrsAccV { has_dynamic_keys: true, ..st };
    if st0.props.len() > 0 && c.merge_props {
        AttrsAccV {
            merge_args: st0.merge_args.push(ExprV::Object(deduped(st0.props))),
            props: seq![],
            ..st0
        }
    } else {
        st0
    }
}

/// The spread itself: an argument of the merge, or entries of the object.
pub open spec fn spread_push(st1: AttrsAccV, e: ExprV, c: Cfg) -> AttrsAccV {
    match e {
        ExprV::Object(ps) => if c.merge_props {
            AttrsAccV { merge_args: st1.merge_args.push(e), ..st1 }
        } else {
            AttrsAccV { props: st1.props + ps, ..st1 }
        },
        _ => if c.merge_props {
            AttrsAccV { merge_args: st1.merge_args.push(e), ..st1 }
        } else {
            AttrsAccV { props: st1.props.push(PropV::Spread(e)), ..st1 }
        },
    }
}

pub open spec fn attr_step(st: AttrsAccV, item: AttrItemV, comp: bool, c: Cfg) -> AttrsAccV {
    match item {
        AttrItemV::Spread(e) => spread_step(st, e, c),
        AttrItemV::Attr(a) => if directive_name(a.name) {
            let st1 = directive_step(st, parse_spec(a, comp), comp);
            match directive_error(a) {
                Some(d) => AttrsAccV { errors: st1.errors.push(d), ..st1 },
                None => st1,
            }
        } else {
            plain_step(st, a, comp, c)
        },
    }
}

/// The attribute list folded, in source order.
pub open spec fn attrs_fold(items: Seq<AttrItemV>, comp: bool, c: Cfg) -> AttrsAccV
    decreases items.len(),
{
    if items.len() == 0 {
        acc_init()
    } else {
        attr_step(attrs_fold(items.drop_last(), comp, c), items.last(), comp, c)
    }
}

/// The object of the gathered entries, deduplicated in merge mode.
pub open spec fn props_object(props: Seq<PropV>, c: Cfg) -> ExprV {
    ExprV::Object(if c.merge_props { deduped(props) } else { props })
}

/// The props argument of the node-creation call.
pub open spec fn props_expr(st: AttrsAccV, c: Cfg) -> ExprV {
    if st.merge_args.len() > 0 {
        let args = if st.props.len() > 0 {
            st.merge_args.push(props_object(st.props, c))
        } else {
            st.merge_args
        };
        if args.len() == 1 {
            args[0]
        } else {
            ExprV::Call(Box::new(ExprV::Runtime("mergeProps"@)), args, false)
        }
    } else if st.props.len() > 0 {
        if st.props.len() == 1 && st.props[0] is Spread {
            st.props[0]->Spread_0
        } else {
            props_object(st.props, c)
        }
    } else {
        ExprV::Lit(LitV::Null)
    }
}

/// The patch flags before the need-patch rule.
pub open spec fn base_flags(st: AttrsAccV) -> int {
    if st.has_dynamic_keys {
        16
    } else {
        (if st.has_class { 2int } else { 0 }) + (if st.has_style { 4int } else { 0 }) + (if st.dynamic.len()
            > 0 { 8int } else { 0 }) + (if st.has_hydration { 32int } else { 0 })
    }
}

/// The patch flags: need-patch is added where nothing else or only hydration is set, and
/// a `ref` or a directive is there.
pub open spec fn patch_bits(st: AttrsAccV) -> int {
    let b = base_flags(st);
    if (b == 0 || b == 32) && (st.has_ref || st.directives.len() > 0) {
        b + 512
    } else {
        b
    }
}

/// The state after the props argument is built: `mergeProps` is registered when it is
/// called.
pub open spec fn props_state(st: AttrsAccV, c: Cfg, s: PassState) -> PassState {
    let n = st.merge_args.len() + if st.props.len() > 0 { 1int } else { 0 };
    if st.merge_args.len() > 0 && n != 1 {
        reg(s, "mergeProps"@)
    } else {
        s
    }
}

/// The state after an element's attributes are compiled: problems found in them are
/// added.
pub open spec fn attrs_state(st: AttrsAccV, c: Cfg, s: PassState) -> PassState {
    let s1 = props_state(st, c, s);
    PassState { on_helper: s1.on_helper || st.on_helper, diagnostics: s1.diagnostics + st.errors, ..s1 }
}

/// The state after the node-creation function is named.
pub open spec fn pragma_state(c: Cfg, s: PassState) -> PassState {
    match c.pragma {
        Some(_) => s,
        None => reg(s, "createVNode"@),
    }
}

/// The state after a tag is compiled.
pub open spec fn tag_state(t: TagNameV, c: Cfg, s: PassState) -> PassState {
    match t {
        TagNameV::Ident(i) => if native_tag(i.name) {
            s
        } else if i.name == "Fragment"@ {
            reg(s, "Fragment"@)
        } else if custom_element(c.patterns, i.name) {
            s
        } else if i.unresolved {
            reg(s, "resolveComponent"@)
        } else {
            s
        },
        _ => s,
    }
}

/// What the attribute compiler has gathered so far.
pub struct AttrsAcc {
    pub props: Vec<Prop>,
    pub merge_args: Vec<Expr>,
    pub dynamic: Vec<String>,
    pub has_ref: bool,
    pub has_class: bool,
    pub has_style: bool,
    pub has_hydration: bool,
    pub has_dynamic_keys: bool,
    pub on_helper: bool,
    pub errors: Vec<Diagnostic>,
    pub directives: Vec<NormalDirective>,
    pub slots: Option<Expr>,
}

pub open spec fn directives_view(v: Seq<NormalDirective>) -> Seq<DirectiveV> {
    Seq::new(v.len(), |i: int| dv(Directive::Normal(v[i])))
}

pub open spec fn acc_view(a: AttrsAcc) -> AttrsAccV {
    AttrsAccV {
        props: pvs(a.props),
        merge_args: evs(a.merge_args),
        dynamic: strings_seq(a.dynamic@),
        has_ref: a.has_ref,
        has_class: a.has_class,
        has_style: a.has_style,
        has_hydration: a.has_hydration,
        has_dynamic_keys: a.has_dynamic_keys,
        on_helper: a.on_helper,
        errors: a.errors@,
        directives: directives_view(a.directives@),
        slots: oev(a.slots),
    }
}

fn push_prop(v: &mut Vec<Prop>, p: Prop)
    ensures
        pvs(*final(v)) == pvs(*old(v)).push(pv(p)),
{
    let ghost v0 = *v;
    v.push(p);
    proof {
        lemma_pvs_push(v0, *v, p);
    }
}

fn push_expr(v: &mut Vec<Expr>, e: Expr)
    ensures
        evs(*final(v)) == evs(*old(v)).push(ev(e)),
{
    let ghost v0 = *v;
    v.push(e);
    proof {
        lemma_evs_push(v0, *v, e);
    }
}

fn push_directive(v: &mut Vec<NormalDirective>, d: NormalDirective)
    ensures
        directives_view(final(v)@) == directives_view(old(v)@).push(dv(Directive::Normal(d))),
{
    let ghost v0 = directives_view(v@);
    v.push(d);
    assert(directives_view(v@) =~= v0.push(dv(Directive::Normal(d))));
}

fn add_dynamic(d: &mut Vec<String>, s: String)
    ensures
        strings_seq(final(d)@) == add_name(strings_seq(old(d)@), s@),
{
    push_unique(d, s);
}

fn attr_text_exec(n: &AttrName) -> (r: String)
    ensures
        r@ == attr_text(crate::ast::anv(*n)),
{
    match n {
        AttrName::Ident(s) => s.clone(),
        AttrName::Namespaced(a, b) => {
            let t = concat(a.as_str(), ":");
            concat(t.as_str(), b.as_str())
        },
    }
}

fn attr_value_exec(v: Option<AttrValue>) -> (r: Expr)
    ensures
        ev(r) == attr_value_expr(crate::directive::oavv(v)),
{
    match v {
        Some(AttrValue::Lit(l)) => Expr::Lit(l),
        Some(AttrValue::Expr(e)) => e,
        Some(AttrValue::Empty) => Expr::JsxEmpty,
        None => Expr::Lit(Lit::Bool(true)),
    }
}

fn is_hydration_name(n: &str) -> (r: bool)
    ensures
        r == hydration_name(n@),
{
    is_on(n) && !str_eq_ignore_ascii_case(n, "onclick") && !str_eq(n, "onUpdate:modelValue")
}

fn one_arg(e: Expr) -> (r: Vec<Expr>)
    ensures
        evs(r) == seq![ev(e)],
{
    let mut v: Vec<Expr> = Vec::new();
    v.push(e);
    assert(evs(v) =~= seq![ev(e)]);
    v
}

fn modifiers_object_exec(mods: &Vec<String>, quoted: bool) -> (r: Expr)
    ensures
        ev(r) == modifiers_object(strings_seq(mods@), quoted),
{
    let mut ps: Vec<Prop> = Vec::new();
    let mut k: usize = 0;
    while k < mods.len()
        invariant
            k <= mods@.len(),
            pvs(ps) == modifiers_object(strings_seq(mods@), quoted)->Object_0.subrange(0, k as int),
        decreases mods.len() - k,
    {
        let m = mods[k].clone();
        let key = if quoted { PropKey::Str(m) } else { PropKey::Ident(m) };
        push_prop(&mut ps, Prop::KeyValue(key, Expr::Lit(Lit::Bool(true))));
        k = k + 1;
        assert(pvs(ps) =~= modifiers_object(strings_seq(mods@), quoted)->Object_0.subrange(
            0,
            k as int,
        ));
    }
    assert(modifiers_object(strings_seq(mods@), quoted)->Object_0.subrange(0, k as int)
        =~= modifiers_object(strings_seq(mods@), quoted)->Object_0);
    Expr::Object(ps)
}

impl VueJsxTransformVisitor {
    fn plain_attr(&mut self, acc: &mut AttrsAcc, a: Attr, comp: bool)
        ensures
            acc_view(*final(acc)) == plain_step(acc_view(*old(acc)), av(a), comp, old(self).cfg()),
            final(self).same_cfg(old(self)),
            final(self).state() == old(self).state(),
    {
        let ghost st = acc_view(*acc);
        let ghost ga = av(a);
        let n = attr_text_exec(&a.name);
        let constant = is_attr_value_constant(&a.value);
        assert(constant == constant_attr_value(ga.value));
        let value = attr_value_exec(a.value);
        assert(ev(value) == attr_value_expr(ga.value));
        let ns = n.as_str();
        if str_eq(ns, "ref") {
            acc.has_ref = true;
        } else if !constant {
            let class = str_eq(ns, "class") && !comp;
            let style = str_eq(ns, "style") && !comp;
            if !comp && is_hydration_name(ns) {
                acc.has_hydration = true;
            }
            if class {
                acc.has_class = true;
            }
            if style {
                acc.has_style = true;
            }
            if !(class || style || str_eq(ns, "key") || str_eq(ns, "on")) {
                add_dynamic(&mut acc.dynamic, n.clone());
            }
        }
        let ghost st1 = if n@ == "ref"@ {
            AttrsAccV { has_ref: true, ..st }
        } else if !constant_attr_value(ga.value) {
            let class = n@ == "class"@ && !comp;
            let style = n@ == "style"@ && !comp;
            AttrsAccV {
                has_hydration: st.has_hydration || (!comp && hydration_name(n@)),
                has_class: st.has_class || class,
                has_style: st.has_style || style,
                dynamic: if class || style || n@ == "key"@ || n@ == "on"@ {
                    st.dynamic
                } else {
                    add_name(st.dynamic, n@)
                },
                ..st
            }
        } else {
            st
        };
        assert(acc_view(*acc) == st1);
        if self.options.transform_on && (str_eq(ns, "on") || str_eq(ns, "nativeOn")) {
            acc.on_helper = true;
            let h = Expr::Local("_transformOn".to_owned());
            assert(ev(h) == ExprV::Local("_transformOn"@));
            let args = one_arg(value);
            let call = Expr::Call(Box::new(h), args, false);
            push_expr(&mut acc.merge_args, call);
            assert(acc_view(*acc) == AttrsAccV { merge_args: st1.merge_args.push(ev(call)), on_helper: true, ..st1 });
        } else {
            let ghost nv = n@;
            push_prop(&mut acc.props, Prop::KeyValue(PropKey::Str(n), value));
            assert(acc_view(*acc) == AttrsAccV { props: st1.props.push(kv_str(nv, ev(value))), ..st1 });
        }
    }
}

fn is_default_model(arg: &Option<Expr>) -> (r: bool)
    ensures
        r == default_model(oev(*arg)),
{
    match arg {
        None => true,
        Some(Expr::Lit(Lit::Null)) => true,
        _ => false,
    }
}

fn model_key_exec(arg: &Option<Expr>) -> (r: PropKey)
    ensures
        kv(r) == model_key(oev(*arg)),
{
    if is_default_model(arg) {
        return PropKey::Str("modelValue".to_owned());
    }
    match arg {
        Some(Expr::Lit(Lit::Str(v))) => PropKey::Str(v.clone()),
        Some(x) => {
            let c = copy_expr(x);
            PropKey::Computed(Box::new(c))
        },
        None => PropKey::Str("modelValue".to_owned()),
    }
}

fn model_name_exec(arg: &Option<Expr>) -> (r: Option<String>)
    ensures
        opt_str(r) == model_name(oev(*arg)),
{
    if is_default_model(arg) {
        return Some("modelValue".to_owned());
    }
    match arg {
        Some(Expr::Lit(Lit::Str(v))) => Some(v.clone()),
        _ => None,
    }
}

fn modifiers_key_exec(arg: &Option<Expr>) -> (r: PropKey)
    ensures
        kv(r) == modifiers_key(oev(*arg)),
{
    if is_default_model(arg) {
        return PropKey::Str("modelModifiers".to_owned());
    }
    match arg {
        Some(Expr::Lit(Lit::Str(v))) => PropKey::Str(concat(v.as_str(), "Modifiers")),
        Some(x) => {
            let left = copy_expr(x);
            let right = Expr::Lit(Lit::Str("Modifiers".to_owned()));
            assert(ev(right) == ExprV::Lit(LitV::Str("Modifiers"@)));
            let sum = Expr::Add(Box::new(left), Box::new(right));
            PropKey::Computed(Box::new(sum))
        },
        None => PropKey::Str("modelModifiers".to_owned()),
    }
}

fn update_name_exec(arg: &Option<Expr>) -> (r: Option<String>)
    ensures
        opt_str(r) == update_name(oev(*arg)),
{
    if is_default_model(arg) {
        return Some("onUpdate:modelValue".to_owned());
    }
    match arg {
        Some(Expr::Lit(Lit::Str(v))) => Some(concat("onUpdate:", v.as_str())),
        _ => None,
    }
}

fn update_key_exec(arg: &Option<Expr>) -> (r: PropKey)
    ensures
        kv(r) == update_key(oev(*arg)),
{
    match update_name_exec(arg) {
        Some(n) => PropKey::Str(n),
        None => {
            let x = match arg {
                Some(x) => copy_expr(x),
                None => Expr::Hole,
            };
            let left = Expr::Lit(Lit::Str("onUpdate".to_owned()));
            assert(ev(left) == ExprV::Lit(LitV::Str("onUpdate"@)));
            let sum = Expr::Add(Box::new(left), Box::new(x));
            PropKey::Computed(Box::new(sum))
        },
    }
}

fn updater_exec(value: Expr) -> (r: Expr)
    ensures
        ev(r) == updater(ev(value)),
{
    let mut params: Vec<String> = Vec::new();
    params.push("$event".to_owned());
    assert(strings_view(params) =~= seq!["$event"@]);
    let ev_ident = Expr::Local("$event".to_owned());
    assert(ev(ev_ident) == ExprV::Local("$event"@));
    let assign = Expr::Assign(Box::new(value), Box::new(ev_ident));
    assert(ev(assign) == ExprV::Assign(Box::new(ev(value)), Box::new(ExprV::Local("$event"@))));
    Expr::Arrow(params, Box::new(assign))
}

proof fn lemma_pvs_append(a: Vec<Prop>, b: Vec<Prop>, c: Vec<Prop>)
    requires
        c@ == a@ + b@,
    ensures
        pvs(c) == pvs(a) + pvs(b),
{
    assert(pvs(c) =~= pvs(a) + pvs(b));
}

impl VueJsxTransformVisitor {
    fn model_attr(&mut self, acc: &mut AttrsAcc, d: VModelDirective, comp: bool)
        ensures
            acc_view(*final(acc)) == model_step(
                acc_view(*old(acc)),
                dv(Directive::VModel(d)),
                comp,
            ),
            final(self).same_cfg(old(self)),
            final(self).state() == old(self).state(),
    {
        let ghost st = acc_view(*acc);
        let ghost g = dv(Directive::VModel(d));
        let VModelDirective { argument, transformed_argument, modifiers, value } = d;
        let value_copy = copy_expr(&value);
        if comp {
            let key = model_key_exec(&argument);
            push_prop(&mut acc.props, Prop::KeyValue(key, value_copy));
            if modifiers.len() > 0 {
                let mkey = modifiers_key_exec(&argument);
                let mobj = modifiers_object_exec(&modifiers, true);
                push_prop(&mut acc.props, Prop::KeyValue(mkey, mobj));
            }
            match model_name_exec(&argument) {
                Some(n) => add_dynamic(&mut acc.dynamic, n),
                None => {},
            }
        } else {
            let name = "model".to_owned();
            let nd = NormalDirective {
                name,
                argument: transformed_argument,
                modifiers,
                value: value_copy,
            };
            assert(dv(Directive::Normal(nd)) == DirectiveV::Normal {
                name: "model"@,
                argument: g->VModel_transformed_argument,
                modifiers: g->VModel_modifiers,
                value: g->VModel_value,
            });
            push_directive(&mut acc.directives, nd);
        }
        let key = update_key_exec(&argument);
        match update_name_exec(&argument) {
            Some(n) => add_dynamic(&mut acc.dynamic, n),
            None => {
                acc.has_dynamic_keys = true;
            },
        }
        let up = updater_exec(value);
        push_prop(&mut acc.props, Prop::KeyValue(key, up));
    }

    fn spread_attr(&mut self, acc: &mut AttrsAcc, e: Expr)
        ensures
            acc_view(*final(acc)) == spread_step(acc_view(*old(acc)), ev(e), old(self).cfg()),
            final(self).same_cfg(old(self)),
            final(self).state() == old(self).state(),
    {
        self.spread_flush_exec(acc);
        self.spread_push_exec(acc, e);
    }

    fn spread_flush_exec(&self, acc: &mut AttrsAcc)
        ensures
            acc_view(*final(acc)) == spread_flush(acc_view(*old(acc)), self.cfg()),
    {
        let merge = self.options.merge_props;
        acc.has_dynamic_keys = true;
        if acc.props.len() > 0 && merge {
            let mut taken: Vec<Prop> = Vec::new();
            std::mem::swap(&mut taken, &mut acc.props);
            assert(pvs(acc.props) =~= seq![]);
            let obj = Expr::Object(dedupe_props(taken));
            push_expr(&mut acc.merge_args, obj);
        }
    }

    fn spread_push_exec(&self, acc: &mut AttrsAcc, e: Expr)
        ensures
            acc_view(*final(acc)) == spread_push(acc_view(*old(acc)), ev(e), self.cfg()),
    {
        let merge = self.options.merge_props;
        match e {
            Expr::Object(ps) => {
                if merge {
                    push_expr(&mut acc.merge_args, Expr::Object(ps));
                } else {
                    let ghost p0 = acc.props;
                    let ghost ps0 = ps;
                    let mut ps = ps;
                    acc.props.append(&mut ps);
                    proof {
                        lemma_pvs_append(p0, ps0, acc.props);
                    }
                }
            },
            _ => {
                if merge {
                    push_expr(&mut acc.merge_args, e);
                } else {
                    push_prop(&mut acc.props, Prop::Spread(e));
                }
            },
        }
    }

    fn directive_attr(&mut self, acc: &mut AttrsAcc, a: Attr, comp: bool)
        ensures
            acc_view(*final(acc)) == directive_step(
                acc_view(*old(acc)),
                parse_spec(av(a), comp),
                comp,
            ),
            final(self).same_cfg(old(self)),
            final(self).state() == old(self).state(),
    {
        match parse_directive(a, comp) {
            Directive::Normal(d) => push_directive(&mut acc.directives, d),
            Directive::Html(e) => {
                push_prop(&mut acc.props, Prop::KeyValue(PropKey::Str("innerHTML".to_owned()), e));
                add_dynamic(&mut acc.dynamic, "innerHTML".to_owned());
            },
            Directive::Text(e) => {
                push_prop(
                    &mut acc.props,
                    Prop::KeyValue(PropKey::Str("textContent".to_owned()), e),
                );
                add_dynamic(&mut acc.dynamic, "textContent".to_owned());
            },
            Directive::VModel(d) => self.model_attr(acc, d, comp),
            Directive::Slots(e) => {
                acc.slots = e;
            },
        }
    }

    fn attr_item(&mut self, acc: &mut AttrsAcc, item: AttrItem, comp: bool)
        ensures
            acc_view(*final(acc)) == attr_step(acc_view(*old(acc)), aiv(item), comp, old(self).cfg()),
            final(self).same_cfg(old(self)),
            final(self).state() == old(self).state(),
    {
        match item {
            AttrItem::Spread(e) => self.spread_attr(acc, e),
            AttrItem::Attr(a) => {
                if is_directive(&a) {
                    let problem = directive_diagnostic(&a);
                    self.directive_attr(acc, a, comp);
                    match problem {
                        Some(d) => acc.errors.push(d),
                        None => {},
                    }
                } else {
                    self.plain_attr(acc, a, comp);
                }
            },
        }
    }
}

/// The compiled attributes of one element.
pub struct AttrsResult {
    pub props: Expr,
    pub patch_flags: PatchFlags,
    /// The names of the props that may change, each once, in order of first sight.
    pub dynamic_props: Vec<String>,
    pub directives: Vec<NormalDirective>,
    /// The slots object given by `v-slots`.
    pub slots: Option<Expr>,
}

fn props_object_exec(props: Vec<Prop>, merge: bool) -> (r: Expr)
    ensures
        ev(r) == ExprV::Object(if merge { deduped(pvs(props)) } else { pvs(props) }),
{
    if merge {
        Expr::Object(dedupe_props(props))
    } else {
        Expr::Object(props)
    }
}

impl VueJsxTransformVisitor {
    fn props_expr_exec(&mut self, acc: AttrsAcc) -> (r: Expr)
        ensures
            ev(r) == props_expr(acc_view(acc), old(self).cfg()),
            final(self).same_cfg(old(self)),
            final(self).state() == props_state(acc_view(acc), old(self).cfg(), old(self).state()),
    {
        let ghost c = self.cfg();
        let ghost st = acc_view(acc);
        let merge = self.options.merge_props;
        let AttrsAcc { props, merge_args, .. } = acc;
        let mut merge_args = merge_args;
        if merge_args.len() > 0 {
            if props.len() > 0 {
                let obj = props_object_exec(props, merge);
                push_expr(&mut merge_args, obj);
            }
            if merge_args.len() == 1 {
                let mut only = Expr::Hole;
                merge_args.set_and_swap(0, &mut only);
                only
            } else {
                let callee = self.import_from_vue("mergeProps");
                Expr::Call(Box::new(callee), merge_args, false)
            }
        } else if props.len() > 0 {
            if props.len() == 1 && matches!(props[0], Prop::Spread(_)) {
                let mut props = props;
                let mut only = Prop::Host(0);
                props.set_and_swap(0, &mut only);
                match only {
                    Prop::Spread(e) => e,
                    _ => Expr::Hole,
                }
            } else {
                props_object_exec(props, merge)
            }
        } else {
            Expr::Lit(Lit::Null)
        }
    }
}

fn patch_bits_exec(acc: &AttrsAcc) -> (r: i16)
    ensures
        r == patch_bits(acc_view(*acc)),
{
    let mut b: i16 = 0;
    if acc.has_dynamic_keys {
        b = 16;
    } else {
        if acc.has_class {
            b = b + 2;
        }
        if acc.has_style {
            b = b + 4;
        }
        if acc.dynamic.len() > 0 {
            b = b + 8;
        }
        if acc.has_hydration {
            b = b + 32;
        }
    }
    if (b == 0 || b == 32) && (acc.has_ref || acc.directives.len() > 0) {
        b = b + 512;
    }
    b
}

impl VueJsxTransformVisitor {
    /// Compiles the attribute list of an element that is, or is not, a component.
    pub fn transform_attrs(&mut self, attrs: Vec<AttrItem>, comp: bool) -> (r: AttrsResult)
        ensures
            ({
                let st = attrs_fold(aivs(attrs), comp, old(self).cfg());
                &&& ev(r.props) == props_expr(st, old(self).cfg())
                &&& r.patch_flags.bits == patch_bits(st)
                &&& strings_seq(r.dynamic_props@) == st.dynamic
                &&& directives_view(r.directives@) == st.directives
                &&& oev(r.slots) == st.slots
                &&& final(self).state() == attrs_state(st, old(self).cfg(), old(self).state())
            }),
            final(self).same_cfg(old(self)),
    {
        let ghost c = self.cfg();
        let ghost all = aivs(attrs);
        let mut attrs = attrs;
        let mut acc = AttrsAcc {
            props: Vec::new(),
            merge_args: Vec::new(),
            dynamic: Vec::new(),
            has_ref: false,
            has_class: false,
            has_style: false,
            has_hydration: false,
            has_dynamic_keys: false,
            on_helper: false,
            errors: Vec::new(),
            directives: Vec::new(),
            slots: None,
        };
        assert(acc_view(acc) =~= acc_init()) by {
            assert(pvs(acc.props) =~= seq![]);
            assert(evs(acc.merge_args) =~= seq![]);
            assert(strings_seq(acc.dynamic@) =~= seq![]);
            assert(directives_view(acc.directives@) =~= seq![]);
        }
        let mut i: usize = 0;
        while i < attrs.len()
            invariant
                i <= attrs.len(),
                all.len() == attrs@.len(),
                forall|k: int| i <= k < all.len() ==> #[trigger] aiv(attrs@[k]) == all[k],
                acc_view(acc) == attrs_fold(all.subrange(0, i as int), comp, c),
                self.cfg() == c,
                self.state() == old(self).state(),
            decreases attrs.len() - i,
        {
            let mut item = AttrItem::Spread(Expr::Hole);
            let ghost before = attrs@;
            attrs.set_and_swap(i, &mut item);
            assert(aiv(item) == all[i as int]);
            assert(all.subrange(0, i + 1 as int).drop_last() =~= all.subrange(0, i as int));
            self.attr_item(&mut acc, item, comp);
            i = i + 1;
            assert(forall|k: int| i <= k < all.len() ==> attrs@[k] == before[k]);
        }
        assert(all.subrange(0, i as int) =~= all);
        let bits = patch_bits_exec(&acc);
        let on_helper = acc.on_helper;
        let mut errors: Vec<Diagnostic> = Vec::new();
        std::mem::swap(&mut errors, &mut acc.errors);
        let AttrsAcc { props, merge_args, dynamic, has_ref, has_class, has_style, has_hydration, has_dynamic_keys, directives, slots, .. } = acc;
        let rest = AttrsAcc {
            props,
            merge_args,
            dynamic: Vec::new(),
            has_ref,
            has_class,
            has_style,
            has_hydration,
            has_dynamic_keys,
            on_helper,
            errors: Vec::new(),
            directives: Vec::new(),
            slots: None,
        };
        let e = self.props_expr_exec(rest);
        if on_helper {
            self.uses_transform_on = true;
        }
        let ghost d0 = self.diagnostics@;
        let mut errors = errors;
        self.diagnostics.append(&mut errors);
        AttrsResult {
            props: e,
            patch_flags: PatchFlags { bits },
            dynamic_props: dynamic,
            directives,
            slots,
        }
    }
}

pub open spec fn digit(d: int) -> char {
    if d == 0 { '0' } else if d == 1 { '1' } else if d == 2 { '2' } else if d == 3 { '3' } else if d
        == 4 { '4' } else if d == 5 { '5' } else if d == 6 { '6' } else if d == 7 { '7' } else if d
        == 8 { '8' } else { '9' }
}

/// The decimal digits of `n`.
pub open spec fn decimal(n: nat) -> Seq<char>
    decreases n,
{
    if n < 10 {
        seq![digit(n as int)]
    } else {
        decimal(n / 10).push(digit((n % 10) as int))
    }
}

fn digit_exec(d: usize) -> (r: char)
    requires
        d < 10,
    ensures
        r == digit(d as int),
{
    if d == 0 { '0' } else if d == 1 { '1' } else if d == 2 { '2' } else if d == 3 { '3' } else if d
        == 4 { '4' } else if d == 5 { '5' } else if d == 6 { '6' } else if d == 7 { '7' } else if d
        == 8 { '8' } else { '9' }
}

fn decimal_exec(n: usize) -> (r: Vec<char>)
    ensures
        r@ == decimal(n as nat),
    decreases n,
{
    if n < 10 {
        let mut v: Vec<char> = Vec::new();
        v.push(digit_exec(n));
        assert(v@ =~= seq![digit(n as int)]);
        v
    } else {
        let mut v = decimal_exec(n / 10);
        v.push(digit_exec(n % 10));
        v
    }
}

/// The name of hoisted slot variable number `n`: `_slot`, `_slot2`, `_slot3`, ...
pub open spec fn slot_name(n: nat) -> Seq<char> {
    if n == 1 {
        "_slot"@
    } else {
        "_slot"@ + decimal(n)
    }
}

/// The next number, where there is one.
pub open spec fn next_counter(n: nat) -> nat {
    if n < usize::MAX {
        (n + 1) as nat
    } else {
        n
    }
}

/// The identifier is bound nowhere in this file.
pub open spec fn unresolved_ident(e: ExprV) -> bool {
    e matches ExprV::Ident(i) && i.unresolved
}

/// What compiling a piece of the tree gives: an expression, whether it reads an
/// identifier resolved at run time, and the state of the pass afterwards.
pub ghost struct Out {
    pub expr: ExprV,
    pub dynamic: bool,
    pub state: PassState,
}

pub ghost struct Entries {
    pub items: Seq<ExprV>,
    pub dynamic: bool,
    pub state: PassState,
}

/// The state after a slot variable is hoisted.
pub open spec fn slot_var_state(s: PassState) -> PassState {
    PassState { vars: s.vars.push(slot_name(s.counter)), counter: next_counter(s.counter), ..s }
}

/// `function () { return x; }()`
pub open spec fn iife_of(x: ExprV) -> ExprV {
    ExprV::Call(Box::new(ExprV::FnReturning(Box::new(x))), seq![], false)
}

/// The items with each identifier named `l` replaced by the constant `_l`, and the
/// constants to declare, each bound to an immediately called function returning it.
pub open spec fn iife_items(items: Seq<ExprV>, l: Seq<char>) -> (Seq<ExprV>, Seq<(Seq<char>, ExprV)>)
    decreases items.len(),
{
    if items.len() == 0 {
        (seq![], seq![])
    } else {
        let p = iife_items(items.drop_last(), l);
        let x = items.last();
        if x matches ExprV::Ident(i) && i.name == l {
            let nm = "_"@ + l;
            (p.0.push(ExprV::Local(nm)), p.1.push((nm, iife_of(x))))
        } else {
            (p.0.push(x), p.1)
        }
    }
}

/// The slot items once the pending assignment target is consulted, and the state after:
/// the target is consumed and its constants are added.
pub open spec fn iife(items: Seq<ExprV>, s: PassState) -> (Seq<ExprV>, PassState) {
    match s.left {
        None => (items, s),
        Some(l) => {
            let p = iife_items(items, l);
            (p.0, PassState { left: None, consts: s.consts + p.1, ..s })
        },
    }
}

pub open spec fn flag_code(dynamic: bool) -> i64 {
    if dynamic {
        2
    } else {
        1
    }
}

/// The fields that a `v-slots` value adds to a slots object.
pub open spec fn slot_fields(slots: Option<ExprV>) -> Seq<PropV> {
    match slots {
        Some(ExprV::Object(ps)) => ps,
        Some(e) => seq![PropV::Spread(e)],
        None => seq![],
    }
}

pub open spec fn flag_field(dynamic: bool) -> PropV {
    PropV::KeyValue(PropKeyV::Ident("_"@), ExprV::Lit(LitV::Num(flag_code(dynamic))))
}

/// `{ default: () => [items], ...slots, _: flag }`, the flag only when optimising.
pub open spec fn wrap(items: Seq<ExprV>, slots: Option<ExprV>, dynamic: bool, c: Cfg) -> ExprV {
    let d = PropV::KeyValue(
        PropKeyV::Ident("default"@),
        ExprV::Arrow(seq![], Box::new(ExprV::Array(items))),
    );
    let ps = seq![d] + slot_fields(slots);
    ExprV::Object(if c.optimize { ps.push(flag_field(dynamic)) } else { ps })
}

pub open spec fn is_slot_test(arg: ExprV) -> ExprV {
    ExprV::Call(Box::new(ExprV::Local("_isSlot"@)), seq![arg], false)
}

/// The children argument, from the compiled entries, and the state after it.
pub open spec fn shape(
    items: Seq<ExprV>,
    comp: bool,
    slots: Option<ExprV>,
    dynamic: bool,
    c: Cfg,
    s: PassState,
) -> (ExprV, PassState) {
    if items.len() == 0 {
        (
            match slots {
                Some(v) => v,
                None => ExprV::Lit(LitV::Null),
            },
            s,
        )
    } else if items.len() == 1 && comp && !(items[0] is Spread) {
        let x = items[0];
        match x {
            ExprV::Ident(_) => {
                let (items2, s1) = iife(items, s);
                if c.object_slots {
                    (
                        ExprV::Cond(Box::new(is_slot_test(x)), Box::new(x), Box::new(wrap(items2, slots, dynamic, c))),
                        PassState { slot_helper: true, ..s1 },
                    )
                } else {
                    (wrap(items2, slots, dynamic, c), s1)
                }
            },
            ExprV::Call(_, _, true) => if c.object_slots {
                let t = ExprV::Local(slot_name(s.counter));
                (
                    ExprV::Cond(
                        Box::new(is_slot_test(ExprV::Assign(Box::new(t), Box::new(x)))),
                        Box::new(t),
                        Box::new(wrap(seq![t], slots, dynamic, c)),
                    ),
                    PassState { slot_helper: true, ..slot_var_state(s) },
                )
            } else {
                (wrap(items, slots, dynamic, c), s)
            },
            ExprV::Function(_) => (ExprV::Object(seq![PropV::KeyValue(PropKeyV::Ident("default"@), x)]), s),
            ExprV::Arrow(_, _) => (ExprV::Object(seq![PropV::KeyValue(PropKeyV::Ident("default"@), x)]), s),
            ExprV::Object(ps) => (ExprV::Object(if c.optimize { ps.push(flag_field(dynamic)) } else { ps }), s),
            _ => (wrap(items, slots, dynamic, c), s),
        }
    } else if comp {
        (wrap(items, slots, dynamic, c), s)
    } else {
        (ExprV::Array(items), s)
    }
}

/// The first `type` attribute with a value.
pub open spec fn type_attr(attrs: Seq<AttrItemV>) -> Option<AttrValueV>
    decreases attrs.len(),
{
    if attrs.len() == 0 {
        None
    } else {
        match attrs[0] {
            AttrItemV::Attr(a) => if a.name == AttrNameV::Ident("type"@) && a.value is Some {
                a.value
            } else {
                type_attr(attrs.drop_first())
            },
            _ => type_attr(attrs.drop_first()),
        }
    }
}

/// The runtime `v-model` directive for an element with this name and these attributes.
pub open spec fn model_runtime(name: TagNameV, attrs: Seq<AttrItemV>) -> Seq<char> {
    if name matches TagNameV::Ident(i) && i.name == "select"@ {
        "vModelSelect"@
    } else if name matches TagNameV::Ident(i) && i.name == "textarea"@ {
        "vModelText"@
    } else {
        match type_attr(attrs) {
            Some(AttrValueV::Lit(LitV::Str(t))) => if t == "checkbox"@ {
                "vModelCheckbox"@
            } else if t == "radio"@ {
                "vModelRadio"@
            } else {
                "vModelText"@
            },
            None => "vModelText"@,
            Some(_) => "vModelDynamic"@,
        }
    }
}

/// The runtime value of a directive.
pub open spec fn resolve_spec(name: Seq<char>, model: Seq<char>) -> ExprV {
    if eq_ignore_ascii_case(name, "show"@) {
        ExprV::Runtime("vShow"@)
    } else if eq_ignore_ascii_case(name, "model"@) {
        ExprV::Runtime(model)
    } else {
        ExprV::Call(Box::new(ExprV::Runtime("resolveDirective"@)), seq![ExprV::Lit(LitV::Str(name))], false)
    }
}

/// The state after a directive's runtime value is named.
pub open spec fn resolve_state(name: Seq<char>, model: Seq<char>, s: PassState) -> PassState {
    if eq_ignore_ascii_case(name, "show"@) {
        reg(s, "vShow"@)
    } else if eq_ignore_ascii_case(name, "model"@) {
        reg(s, model)
    } else {
        reg(s, "resolveDirective"@)
    }
}

/// The state after the first `k` directives are named.
pub open spec fn resolves_state(ds: Seq<DirectiveV>, model: Seq<char>, s: PassState, k: int) -> PassState
    decreases k,
{
    if k <= 0 || k > ds.len() {
        s
    } else {
        resolve_state(ds[k - 1]->Normal_name, model, resolves_state(ds, model, s, k - 1))
    }
}

/// The state after the directives wrap the node: each named, then `withDirectives`.
pub open spec fn directives_state(ds: Seq<DirectiveV>, model: Seq<char>, s: PassState) -> PassState {
    if ds.len() == 0 {
        s
    } else {
        reg(resolves_state(ds, model, s, ds.len() as int), "withDirectives"@)
    }
}

/// The state after a text run is compiled.
pub open spec fn text_state(t: Seq<char>, s: PassState) -> PassState {
    if normalized_text(t).len() > 0 {
        reg(s, "createTextVNode"@)
    } else {
        s
    }
}

/// `[directive, value, argument?, modifiers?]`
pub open spec fn directive_entry(d: DirectiveV, model: Seq<char>) -> ExprV {
    let base = seq![resolve_spec(d->Normal_name, model), d->Normal_value];
    let with_arg = match d->Normal_argument {
        Some(a) => base.push(a),
        None => base,
    };
    ExprV::Array(
        if d->Normal_modifiers.len() > 0 {
            with_arg.push(modifiers_object(d->Normal_modifiers, false))
        } else {
            with_arg
        },
    )
}

pub open spec fn dynamic_list(names: Seq<Seq<char>>) -> ExprV {
    ExprV::Array(Seq::new(names.len(), |i: int| ExprV::Lit(LitV::Str(names[i]))))
}

/// The arguments of the node-creation call.
pub open spec fn vnode_args(tag: ExprV, st: AttrsAccV, children: ExprV, c: Cfg) -> Seq<ExprV> {
    let args0 = seq![tag, props_expr(st, c), children];
    let bits = patch_bits(st);
    let args1 = if c.optimize && bits != 0 {
        args0.push(ExprV::Lit(LitV::Num(bits as i64)))
    } else {
        args0
    };
    if c.optimize && st.dynamic.len() > 0 {
        args1.push(dynamic_list(st.dynamic))
    } else {
        args1
    }
}

/// The node-creation call, wrapped with its directives where it has any.
pub open spec fn with_directives(call: ExprV, ds: Seq<DirectiveV>, model: Seq<char>) -> ExprV {
    if ds.len() == 0 {
        call
    } else {
        ExprV::Call(
            Box::new(ExprV::Runtime("withDirectives"@)),
            seq![call, ExprV::Array(Seq::new(ds.len(), |i: int| directive_entry(ds[i], model)))],
            false,
        )
    }
}

/// An element, compiled.
pub open spec fn compile_element(el: ElementV, c: Cfg, s: PassState) -> Out
    decreases el, 0int, 0int,
{
    let comp = component(el.name, c);
    let attrs = expand_spec(el.attrs);
    let st = attrs_fold(attrs, comp, c);
    let s1 = attrs_state(st, c, s);
    let s2 = tag_state(el.name, c, s1);
    let ch = compile_children(el.children, comp, st.slots, c, s2);
    let s3 = pragma_state(c, ch.state);
    let model = model_runtime(el.name, attrs);
    let call = ExprV::Call(Box::new(pragma_expr(c)), vnode_args(tag_expr(el.name, c), st, ch.expr, c), false);
    Out {
        expr: with_directives(call, st.directives, model),
        dynamic: ch.dynamic,
        state: directives_state(st.directives, model, s3),
    }
}

/// A fragment, compiled.
pub open spec fn compile_fragment(cs: Seq<ChildV>, c: Cfg, s: PassState) -> Out
    decreases cs, 2int, 0int,
{
    let ch = compile_children(cs, false, None, c, s);
    Out {
        expr: ExprV::Call(
            Box::new(pragma_expr(c)),
            seq![ExprV::Runtime("Fragment"@), ExprV::Lit(LitV::Null), ch.expr],
            false,
        ),
        dynamic: ch.dynamic,
        state: reg(pragma_state(c, ch.state), "Fragment"@),
    }
}

/// The children argument of an element or fragment.
pub open spec fn compile_children(
    cs: Seq<ChildV>,
    comp: bool,
    slots: Option<ExprV>,
    c: Cfg,
    s: PassState,
) -> Out
    decreases cs, 1int, 0int,
{
    let e = entries(cs, c, s, cs.len() as int);
    let sh = shape(e.items, comp, slots, e.dynamic, c, e.state);
    Out { expr: sh.0, dynamic: e.dynamic, state: sh.1 }
}

/// The entries of the first `k` children.
pub open spec fn entries(cs: Seq<ChildV>, c: Cfg, s: PassState, k: int) -> Entries
    decreases cs, 0int, k,
{
    if k <= 0 || k > cs.len() {
        Entries { items: seq![], dynamic: false, state: s }
    } else {
        let p = entries(cs, c, s, k - 1);
        match cs[k - 1] {
            ChildV::Text(t) => if normalized_text(t).len() > 0 {
                Entries {
                    items: p.items.push(
                        ExprV::Call(
                            Box::new(ExprV::Runtime("createTextVNode"@)),
                            seq![ExprV::Lit(LitV::Str(normalized_text(t)))],
                            false,
                        ),
                    ),
                    state: reg(p.state, "createTextVNode"@),
                    ..p
                }
            } else {
                p
            },
            ChildV::Empty => p,
            ChildV::Expr(e) => Entries {
                items: p.items.push(e),
                dynamic: p.dynamic || unresolved_ident(e),
                ..p
            },
            ChildV::Spread(e) => Entries {
                items: p.items.push(ExprV::Spread(Box::new(e))),
                dynamic: p.dynamic || unresolved_ident(e),
                ..p
            },
            ChildV::Element(el) => {
                let o = compile_element(el, c, p.state);
                Entries { items: p.items.push(o.expr), dynamic: p.dynamic || o.dynamic, state: o.state }
            },
            ChildV::Fragment(fs) => {
                let o = compile_fragment(fs, c, p.state);
                Entries { items: p.items.push(o.expr), dynamic: p.dynamic || o.dynamic, state: o.state }
            },
        }
    }
}

fn copy_attr_value(v: &Option<AttrValue>) -> (r: Option<AttrValue>)
    ensures
        crate::directive::oavv(r) == crate::directive::oavv(*v),
{
    match v {
        Some(AttrValue::Lit(l)) => Some(AttrValue::Lit(copy_lit(l))),
        Some(AttrValue::Expr(e)) => Some(AttrValue::Expr(copy_expr(e))),
        Some(AttrValue::Empty) => Some(AttrValue::Empty),
        None => None,
    }
}

fn copy_attr_item(a: &AttrItem) -> (r: AttrItem)
    ensures
        aiv(r) == aiv(*a),
{
    match a {
        AttrItem::Spread(e) => AttrItem::Spread(copy_expr(e)),
        AttrItem::Attr(x) => {
            let name = match &x.name {
                AttrName::Ident(s) => AttrName::Ident(s.clone()),
                AttrName::Namespaced(a, b) => AttrName::Namespaced(a.clone(), b.clone()),
            };
            AttrItem::Attr(Attr { name, value: copy_attr_value(&x.value) })
        },
    }
}

fn copy_attrs(v: &Vec<AttrItem>) -> (r: Vec<AttrItem>)
    ensures
        aivs(r) == aivs(*v),
{
    let mut r: Vec<AttrItem> = Vec::new();
    let mut i: usize = 0;
    while i < v.len()
        invariant
            i <= v.len(),
            aivs(r) == aivs(*v).subrange(0, i as int),
        decreases v.len() - i,
    {
        let x = copy_attr_item(&v[i]);
        let ghost r0 = aivs(r);
        r.push(x);
        assert(aivs(r) =~= r0.push(aiv(x)));
        i = i + 1;
        assert(aivs(r) =~= aivs(*v).subrange(0, i as int));
    }
    assert(aivs(*v).subrange(0, i as int) =~= aivs(*v));
    r
}

fn type_attr_exec(attrs: &Vec<AttrItem>) -> (r: Option<AttrValue>)
    ensures
        crate::directive::oavv(r) == type_attr(aivs(*attrs)),
{
    let ghost all = aivs(*attrs);
    let mut k: usize = 0;
    assert(all.subrange(0, all.len() as int) =~= all);
    while k < attrs.len()
        invariant
            k <= attrs@.len(),
            all == aivs(*attrs),
            type_attr(all) == type_attr(all.subrange(k as int, all.len() as int)),
        decreases attrs.len() - k,
    {
        assert(all.subrange(k + 1 as int, all.len() as int) =~= all.subrange(
            k as int,
            all.len() as int,
        ).drop_first());
        match &attrs[k] {
            AttrItem::Attr(a) => {
                let named_type = match &a.name {
                    AttrName::Ident(s) => str_eq(s.as_str(), "type"),
                    _ => false,
                };
                if named_type && a.value.is_some() {
                    return copy_attr_value(&a.value);
                }
            },
            _ => {},
        }
        k = k + 1;
    }
    None
}

fn model_runtime_exec(name: &TagName, attrs: &Vec<AttrItem>) -> (r: String)
    ensures
        r@ == model_runtime(tv(*name), aivs(*attrs)),
{
    let special = match name {
        TagName::Ident(i) => {
            if str_eq(i.name.as_str(), "select") {
                Some("vModelSelect".to_owned())
            } else if str_eq(i.name.as_str(), "textarea") {
                Some("vModelText".to_owned())
            } else {
                None
            }
        },
        _ => None,
    };
    match special {
        Some(s) => s,
        None => match type_attr_exec(attrs) {
            Some(AttrValue::Lit(Lit::Str(t))) => {
                if str_eq(t.as_str(), "checkbox") {
                    "vModelCheckbox".to_owned()
                } else if str_eq(t.as_str(), "radio") {
                    "vModelRadio".to_owned()
                } else {
                    "vModelText".to_owned()
                }
            },
            None => "vModelText".to_owned(),
            Some(_) => "vModelDynamic".to_owned(),
        },
    }
}

fn dynamic_list_exec(names: &Vec<String>) -> (r: Expr)
    ensures
        ev(r) == dynamic_list(strings_seq(names@)),
{
    let mut items: Vec<Expr> = Vec::new();
    let mut k: usize = 0;
    while k < names.len()
        invariant
            k <= names@.len(),
            evs(items) == dynamic_list(strings_seq(names@))->Array_0.subrange(0, k as int),
        decreases names.len() - k,
    {
        push_expr(&mut items, Expr::Lit(Lit::Str(names[k].clone())));
        k = k + 1;
        assert(evs(items) =~= dynamic_list(strings_seq(names@))->Array_0.subrange(0, k as int));
    }
    assert(dynamic_list(strings_seq(names@))->Array_0.subrange(0, k as int) =~= dynamic_list(
        strings_seq(names@),
    )->Array_0);
    Expr::Array(items)
}

impl VueJsxTransformVisitor {
    /// The runtime value of a directive; `model` is the element's `v-model` directive.
    pub fn resolve_directive(&mut self, name: &String, model: &String) -> (r: Expr)
        ensures
            ev(r) == resolve_spec(name@, model@),
            final(self).same_cfg(old(self)),
            final(self).state() == resolve_state(name@, model@, old(self).state()),
    {
        if str_eq_ignore_ascii_case(name.as_str(), "show") {
            self.import_from_vue("vShow")
        } else if str_eq_ignore_ascii_case(name.as_str(), "model") {
            self.import_from_vue(model.as_str())
        } else {
            let callee = self.import_from_vue("resolveDirective");
            let args = one_arg(Expr::Lit(Lit::Str(name.clone())));
            Expr::Call(Box::new(callee), args, false)
        }
    }

    fn directive_entry_exec(&mut self, d: NormalDirective, model: &String) -> (r: Expr)
        ensures
            ev(r) == directive_entry(dv(Directive::Normal(d)), model@),
            final(self).same_cfg(old(self)),
            final(self).state() == resolve_state(d.name@, model@, old(self).state()),
    {
        let NormalDirective { name, argument, modifiers, value } = d;
        let mut items: Vec<Expr> = Vec::new();
        assert(evs(items) =~= seq![]);
        let head = self.resolve_directive(&name, model);
        push_expr(&mut items, head);
        push_expr(&mut items, value);
        assert(evs(items) =~= seq![resolve_spec(name@, model@), ev(value)]);
        match argument {
            Some(a) => push_expr(&mut items, a),
            None => {},
        }
        if modifiers.len() > 0 {
            let m = modifiers_object_exec(&modifiers, false);
            push_expr(&mut items, m);
        }
        Expr::Array(items)
    }

    fn with_directives_exec(&mut self, call: Expr, ds: Vec<NormalDirective>, model: &String) -> (r: Expr)
        ensures
            ev(r) == with_directives(ev(call), directives_view(ds@), model@),
            final(self).same_cfg(old(self)),
            final(self).state() == directives_state(directives_view(ds@), model@, old(self).state()),
    {
        if ds.len() == 0 {
            return call;
        }
        let ghost all = directives_view(ds@);
        let mut ds = ds;
        let mut entries: Vec<Expr> = Vec::new();
        let mut k: usize = 0;
        while k < ds.len()
            invariant
                k <= ds@.len(),
                all.len() == ds@.len(),
                forall|j: int| k <= j < all.len() ==> dv(Directive::Normal(#[trigger] ds@[j])) == all[j],
                evs(entries) == Seq::new(k as nat, |i: int| directive_entry(all[i], model@)),
                self.cfg() == old(self).cfg(),
                self.state() == resolves_state(all, model@, old(self).state(), k as int),
            decreases ds.len() - k,
        {
            let mut d = NormalDirective {
                name: String::new(),
                argument: None,
                modifiers: Vec::new(),
                value: Expr::Hole,
            };
            let ghost before = ds@;
            assert(dv(Directive::Normal(before[k as int])) == all[k as int]);
            ds.set_and_swap(k, &mut d);
            assert(d == before[k as int]);
            let e = self.directive_entry_exec(d, model);
            let ghost e0 = evs(entries);
            push_expr(&mut entries, e);
            k = k + 1;
            assert(evs(entries) =~= Seq::new(k as nat, |i: int| directive_entry(all[i], model@)));
            assert(forall|j: int| k <= j < all.len() ==> ds@[j] == before[j]);
        }
        assert(Seq::new(k as nat, |i: int| directive_entry(all[i], model@)) =~= Seq::new(
            all.len(),
            |i: int| directive_entry(all[i], model@),
        ));
        let callee = self.import_from_vue("withDirectives");
        let list = Expr::Array(entries);
        let mut args: Vec<Expr> = Vec::new();
        push_expr(&mut args, call);
        push_expr(&mut args, list);
        assert(evs(args) =~= seq![ev(call), ev(list)]);
        Expr::Call(Box::new(callee), args, false)
    }

    /// A text run as a text node, unless it renders as nothing.
    pub fn transform_jsx_text(&mut self, t: &String) -> (r: Option<Expr>)
        ensures
            normalized_text(t@).len() == 0 ==> r is None,
            normalized_text(t@).len() > 0 ==> (r matches Some(e) && ev(e) == ExprV::Call(
                Box::new(ExprV::Runtime("createTextVNode"@)),
                seq![ExprV::Lit(LitV::Str(normalized_text(t@)))],
                false,
            )),
            final(self).same_cfg(old(self)),
            final(self).state() == text_state(t@, old(self).state()),
    {
        match normalize_text(t.as_str()) {
            None => None,
            Some(s) => {
                let callee = self.import_from_vue("createTextVNode");
                let arg = Expr::Lit(Lit::Str(s));
                assert(ev(arg) == ExprV::Lit(LitV::Str(normalized_text(t@))));
                Some(Expr::Call(Box::new(callee), one_arg(arg), false))
            },
        }
    }

    /// A fresh hoisted slot variable, to be declared where the enclosing scope begins.
    pub fn generate_unique_slot_ident(&mut self) -> (r: String)
        ensures
            r@ == slot_name(old(self).slot_counter as nat),
            final(self).same_cfg(old(self)),
            final(self).state() == slot_var_state(old(self).state()),
    {
        let n = self.slot_counter;
        let name = if n == 1 {
            "_slot".to_owned()
        } else {
            let digits = decimal_exec(n);
            let d = crate::text::string_of(&digits);
            concat("_slot", d.as_str())
        };
        let ghost v0 = strings_seq(self.injecting_vars@);
        self.injecting_vars.push(name.clone());
        assert(strings_seq(self.injecting_vars@) =~= v0.push(name@));
        if self.slot_counter < usize::MAX {
            self.slot_counter = self.slot_counter + 1;
        }
        name
    }
}

fn flag_field_exec(dynamic: bool) -> (r: Prop)
    ensures
        pv(r) == flag_field(dynamic),
{
    let code: i64 = if dynamic { 2 } else { 1 };
    let v = Expr::Lit(Lit::Num(code));
    assert(ev(v) == ExprV::Lit(LitV::Num(flag_code(dynamic))));
    Prop::KeyValue(PropKey::Ident("_".to_owned()), v)
}

fn push_slot_fields(ps: &mut Vec<Prop>, slots: Option<Expr>)
    ensures
        pvs(*final(ps)) == pvs(*old(ps)) + slot_fields(oev(slots)),
{
    let ghost p0 = pvs(*ps);
    match slots {
        Some(Expr::Object(fields)) => {
            let ghost a = *ps;
            let ghost b = fields;
            let mut fields = fields;
            ps.append(&mut fields);
            proof {
                lemma_pvs_append(a, b, *ps);
            }
        },
        Some(e) => {
            push_prop(ps, Prop::Spread(e));
            assert(pvs(*ps) =~= p0 + slot_fields(oev(Some(e))));
        },
        None => {
            assert(pvs(*ps) =~= p0 + seq![]);
        },
    }
}

impl VueJsxTransformVisitor {
    /// Consults the pending assignment target once: each slot item that is that identifier
    /// becomes the constant `_name`, declared where the scope begins as an immediately
    /// called function returning the identifier.
    pub fn build_iife(&mut self, items: Vec<Expr>) -> (r: Vec<Expr>)
        ensures
            (evs(r), final(self).state()) == iife(evs(items), old(self).state()),
            final(self).same_cfg(old(self)),
    {
        let mut left: Option<String> = None;
        std::mem::swap(&mut left, &mut self.assignment_left);
        let l = match left {
            None => {
                return items;
            },
            Some(l) => l,
        };
        let ghost all = evs(items);
        let ghost c0 = consts_view(self.injecting_consts@);
        let mut items = items;
        let mut out: Vec<Expr> = Vec::new();
        assert(evs(out) =~= seq![]);
        let mut k: usize = 0;
        assert(c0 + seq![] =~= c0);
        while k < items.len()
            invariant
                k <= items@.len(),
                all.len() == items@.len(),
                forall|j: int| k <= j < all.len() ==> #[trigger] ev(items@[j]) == all[j],
                evs(out) == iife_items(all.subrange(0, k as int), l@).0,
                consts_view(self.injecting_consts@) == c0 + iife_items(all.subrange(0, k as int), l@).1,
                self.assignment_left is None,
                self.cfg() == old(self).cfg(),
                strings_seq(self.imports@) == strings_seq(old(self).imports@),
                self.uses_slot_helper == old(self).uses_slot_helper,
                self.uses_transform_on == old(self).uses_transform_on,
                self.injecting_vars == old(self).injecting_vars,
                self.slot_counter == old(self).slot_counter,
                self.diagnostics == old(self).diagnostics,
            decreases items.len() - k,
        {
            let mut x = Expr::Hole;
            let ghost before = items@;
            items.set_and_swap(k, &mut x);
            assert(ev(x) == all[k as int]);
            assert(all.subrange(0, k + 1 as int).drop_last() =~= all.subrange(0, k as int));
            let hit = match &x {
                Expr::Ident(i) => str_eq(i.name.as_str(), l.as_str()),
                _ => false,
            };
            if hit {
                let nm = concat("_", l.as_str());
                let no_args: Vec<Expr> = Vec::new();
                assert(evs(no_args) =~= seq![]);
                let f = Expr::FnReturning(Box::new(x));
                assert(ev(f) == ExprV::FnReturning(Box::new(all[k as int])));
                let value = Expr::Call(Box::new(f), no_args, false);
                assert(ev(value) == iife_of(all[k as int]));
                let ghost cv = consts_view(self.injecting_consts@);
                self.injecting_consts.push((nm.clone(), value));
                assert(consts_view(self.injecting_consts@) =~= cv.push((nm@, ev(value))));
                push_expr(&mut out, Expr::Local(nm));
            } else {
                push_expr(&mut out, x);
            }
            k = k + 1;
            assert(forall|j: int| k <= j < all.len() ==> items@[j] == before[j]);
        }
        assert(all.subrange(0, k as int) =~= all);
        proof {
            assert(consts_view(self.injecting_consts@) =~= c0 + iife_items(all, l@).1);
        }
        out
    }

    /// `{ default: () => [items], ...slots, _: flag }`
    pub fn wrap_children(&self, items: Vec<Expr>, slots: Option<Expr>, dynamic: bool) -> (r: Expr)
        ensures
            ev(r) == wrap(evs(items), oev(slots), dynamic, self.cfg()),
    {
        let arr = Expr::Array(items);
        assert(ev(arr) == ExprV::Array(evs(items)));
        let params: Vec<String> = Vec::new();
        assert(strings_view(params) =~= seq![]);
        let arrow = Expr::Arrow(params, Box::new(arr));
        assert(ev(arrow) == ExprV::Arrow(seq![], Box::new(ExprV::Array(evs(items)))));
        let mut ps: Vec<Prop> = Vec::new();
        assert(pvs(ps) =~= seq![]);
        push_prop(&mut ps, Prop::KeyValue(PropKey::Ident("default".to_owned()), arrow));
        push_slot_fields(&mut ps, slots);
        if self.options.optimize {
            push_prop(&mut ps, flag_field_exec(dynamic));
        }
        Expr::Object(ps)
    }

    fn slot_test(&mut self, arg: Expr) -> (r: Expr)
        ensures
            ev(r) == is_slot_test(ev(arg)),
            final(self).same_cfg(old(self)),
            final(self).state() == (PassState { slot_helper: true, ..old(self).state() }),
    {
        self.uses_slot_helper = true;
        let h = Expr::Local("_isSlot".to_owned());
        assert(ev(h) == ExprV::Local("_isSlot"@));
        Expr::Call(Box::new(h), one_arg(arg), false)
    }

    fn shape_exec(&mut self, items: Vec<Expr>, comp: bool, slots: Option<Expr>, dynamic: bool) -> (r: Expr)
        ensures
            ({
                let s = shape(evs(items), comp, oev(slots), dynamic, old(self).cfg(), old(self).state());
                &&& ev(r) == s.0
                &&& final(self).state() == s.1
            }),
            final(self).same_cfg(old(self)),
    {
        if items.len() == 0 {
            return match slots {
                Some(s) => s,
                None => Expr::Lit(Lit::Null),
            };
        }
        if items.len() == 1 && comp && !matches!(items[0], Expr::Spread(_)) {
            let mut items = items;
            let ghost x = ev(items@[0]);
            let ghost orig = evs(items);
            let mut only = Expr::Hole;
            items.set_and_swap(0, &mut only);
            assert(ev(only) == x);
            assert(orig =~= seq![x]);
            match only {
                Expr::Ident(i) => {
                    let a = Expr::Ident(copy_ident(&i));
                    let b = Expr::Ident(copy_ident(&i));
                    let c = Expr::Ident(i);
                    assert(ev(a) == x);
                    assert(ev(b) == x);
                    assert(ev(c) == x);
                    let wrapped = self.build_iife(one_arg(c));
                    if self.options.enable_object_slots {
                        let test = self.slot_test(a);
                        let w = self.wrap_children(wrapped, slots, dynamic);
                        Expr::Cond(Box::new(test), Box::new(b), Box::new(w))
                    } else {
                        self.wrap_children(wrapped, slots, dynamic)
                    }
                },
                Expr::Call(callee, args, sourced) => {
                    if sourced && self.options.enable_object_slots {
                        let name = self.generate_unique_slot_ident();
                        let t1 = Expr::Local(name.clone());
                        let t2 = Expr::Local(name.clone());
                        let t3 = Expr::Local(name);
                        assert(ev(t1) == ExprV::Local(name@));
                        assert(ev(t2) == ExprV::Local(name@));
                        assert(ev(t3) == ExprV::Local(name@));
                        let call = Expr::Call(callee, args, sourced);
                        assert(ev(call) == x);
                        let assign = Expr::Assign(Box::new(t1), Box::new(call));
                        assert(ev(assign) == ExprV::Assign(Box::new(ExprV::Local(name@)), Box::new(x)));
                        let test = self.slot_test(assign);
                        let w = self.wrap_children(one_arg(t3), slots, dynamic);
                        Expr::Cond(Box::new(test), Box::new(t2), Box::new(w))
                    } else {
                        let call = Expr::Call(callee, args, sourced);
                        assert(ev(call) == x);
                        self.wrap_children(one_arg(call), slots, dynamic)
                    }
                },
                Expr::Function(h) => {
                    let mut ps: Vec<Prop> = Vec::new();
                    push_prop(&mut ps, Prop::KeyValue(PropKey::Ident("default".to_owned()), Expr::Function(h)));
                    assert(pvs(ps) =~= seq![PropV::KeyValue(PropKeyV::Ident("default"@), x)]);
                    Expr::Object(ps)
                },
                Expr::Arrow(p, b) => {
                    let mut ps: Vec<Prop> = Vec::new();
                    let f = Expr::Arrow(p, b);
                    assert(ev(f) == x);
                    push_prop(&mut ps, Prop::KeyValue(PropKey::Ident("default".to_owned()), f));
                    assert(pvs(ps) =~= seq![PropV::KeyValue(PropKeyV::Ident("default"@), x)]);
                    Expr::Object(ps)
                },
                Expr::Object(ps) => {
                    let mut ps = ps;
                    if self.options.optimize {
                        push_prop(&mut ps, flag_field_exec(dynamic));
                    }
                    Expr::Object(ps)
                },
                other => {
                    assert(ev(other) == x);
                    self.wrap_children(one_arg(other), slots, dynamic)
                },
            }
        } else if comp {
            self.wrap_children(items, slots, dynamic)
        } else {
            Expr::Array(items)
        }
    }
}

fn is_unresolved_ident(e: &Expr) -> (r: bool)
    ensures
        r == unresolved_ident(ev(*e)),
{
    match e {
        Expr::Ident(i) => i.unresolved,
        _ => false,
    }
}

impl VueJsxTransformVisitor {
    /// Compiles the children of an element that is, or is not, a component, with the slots
    /// object that `v-slots` gave; also says whether they read an identifier resolved at
    /// run time.
    #[verifier::rlimit(50)]
    pub fn transform_children(&mut self, cs: &Vec<Child>, comp: bool, slots: Option<Expr>) -> (r: (Expr, bool))
        ensures
            ({
                let o = compile_children(cvs(*cs), comp, oev(slots), old(self).cfg(), old(self).state());
                &&& ev(r.0) == o.expr
                &&& r.1 == o.dynamic
                &&& final(self).state() == o.state
            }),
            final(self).same_cfg(old(self)),
        decreases cs, 0int,
    {
        let ghost c = self.cfg();
        let ghost n0 = self.state();
        let ghost all = cvs(*cs);
        let mut items: Vec<Expr> = Vec::new();
        let mut dynamic = false;
        let mut k: usize = 0;
        assert(evs(items) =~= seq![]);
        while k < cs.len()
            invariant
                k <= cs@.len(),
                all == cvs(*cs),
                self.cfg() == c,
                ({
                    let e = entries(all, c, n0, k as int);
                    &&& evs(items) == e.items
                    &&& dynamic == e.dynamic
                    &&& self.state() == e.state
                }),
            decreases cs.len() - k,
        {
            assert(all[k as int] == cv(cs@[k as int]));
            match &cs[k] {
                Child::Text(t) => {
                    match self.transform_jsx_text(t) {
                        Some(e) => push_expr(&mut items, e),
                        None => {},
                    }
                },
                Child::Empty => {},
                Child::Expr(e) => {
                    if is_unresolved_ident(e) {
                        dynamic = true;
                    }
                    push_expr(&mut items, copy_expr(e));
                },
                Child::Spread(e) => {
                    if is_unresolved_ident(e) {
                        dynamic = true;
                    }
                    let inner = copy_expr(e);
                    let sp = Expr::Spread(Box::new(inner));
                    push_expr(&mut items, sp);
                },
                Child::Element(el) => {
                    let (e, d) = self.transform_jsx_element(el);
                    push_expr(&mut items, e);
                    dynamic = dynamic || d;
                },
                Child::Fragment(fs) => {
                    let (e, d) = self.transform_jsx_fragment(fs);
                    push_expr(&mut items, e);
                    dynamic = dynamic || d;
                },
            }
            k = k + 1;
        }
        let e = self.shape_exec(items, comp, slots, dynamic);
        (e, dynamic)
    }

    /// Compiles an element, and says whether it reads an identifier resolved at run time.
    #[verifier::rlimit(50)]
    pub fn transform_jsx_element(&mut self, el: &Element) -> (r: (Expr, bool))
        ensures
            ({
                let o = compile_element(elv(*el), old(self).cfg(), old(self).state());
                &&& ev(r.0) == o.expr
                &&& r.1 == o.dynamic
                &&& final(self).state() == o.state
            }),
            final(self).same_cfg(old(self)),
        decreases el, 0int,
    {
        let ghost c = self.cfg();
        let comp = self.is_component(&el.name);
        let attrs = expand_v_models(copy_attrs(&el.attrs));
        let model = model_runtime_exec(&el.name, &attrs);
        let res = self.transform_attrs(attrs, comp);
        let AttrsResult { props, patch_flags, dynamic_props, directives, slots } = res;
        let tag_name = match &el.name {
            TagName::Ident(i) => TagName::Ident(copy_ident(i)),
            TagName::Member(v) => TagName::Member(copy_strings(v)),
            TagName::Namespaced(a, b) => TagName::Namespaced(a.clone(), b.clone()),
        };
        assert(tv(tag_name) == tv(el.name));
        let tag = self.transform_tag(tag_name);
        let (children, dynamic) = self.transform_children(&el.children, comp, slots);
        let mut args: Vec<Expr> = Vec::new();
        push_expr(&mut args, tag);
        push_expr(&mut args, props);
        push_expr(&mut args, children);
        assert(evs(args) =~= seq![ev(tag), ev(props), ev(children)]);
        let bits = patch_flags.bits();
        if self.options.optimize && bits != 0 {
            push_expr(&mut args, Expr::Lit(Lit::Num(bits as i64)));
        }
        if self.options.optimize && dynamic_props.len() > 0 {
            let list = dynamic_list_exec(&dynamic_props);
            push_expr(&mut args, list);
        }
        let callee = self.get_pragma();
        let call = Expr::Call(Box::new(callee), args, false);
        let e = self.with_directives_exec(call, directives, &model);
        (e, dynamic)
    }

    /// Compiles a fragment, by its children.
    #[verifier::rlimit(50)]
    pub fn transform_jsx_fragment(&mut self, cs: &Vec<Child>) -> (r: (Expr, bool))
        ensures
            ({
                let o = compile_fragment(cvs(*cs), old(self).cfg(), old(self).state());
                &&& ev(r.0) == o.expr
                &&& r.1 == o.dynamic
                &&& final(self).state() == o.state
            }),
            final(self).same_cfg(old(self)),
        decreases cs, 1int,
    {
        let (children, dynamic) = self.transform_children(cs, false, None);
        let callee = self.get_pragma();
        let frag = self.import_from_vue("Fragment");
        let null = Expr::Lit(Lit::Null);
        assert(ev(null) == ExprV::Lit(LitV::Null));
        let mut args: Vec<Expr> = Vec::new();
        push_expr(&mut args, frag);
        push_expr(&mut args, null);
        push_expr(&mut args, children);
        assert(evs(args) =~= seq![ExprV::Runtime("Fragment"@), ExprV::Lit(LitV::Null), ev(children)]);
        (Expr::Call(Box::new(callee), args, false), dynamic)
    }
}

/// The node-creation function named by the first of `comments` that names one.
pub open spec fn first_pragma(comments: Seq<String>) -> Option<Seq<char>>
    decreases comments.len(),
{
    if comments.len() == 0 {
        None
    } else {
        match pragma_of(comments[0]@) {
            Some(p) => Some(p),
            None => first_pragma(comments.drop_first()),
        }
    }
}

impl VueJsxTransformVisitor {
    /// Reads the comments that lead one position of the file: the first that names a
    /// node-creation function with `@jsx` sets it for the whole file.
    pub fn search_jsx_pragma(&mut self, comments: &Vec<String>)
        ensures
            final(self).options == old(self).options,
            final(self).state() == old(self).state(),
            match first_pragma(comments@) {
                Some(p) => opt_chars(final(self).pragma) == Some(p),
                None => final(self).pragma == old(self).pragma,
            },
    {
        let ghost all = comments@;
        let mut k: usize = 0;
        assert(all.subrange(0, all.len() as int) =~= all);
        while k < comments.len()
            invariant
                k <= all.len(),
                all == comments@,
                first_pragma(all) == first_pragma(all.subrange(k as int, all.len() as int)),
                self.options == old(self).options,
                self.pragma == old(self).pragma,
                self.state() == old(self).state(),
            decreases comments.len() - k,
        {
            assert(all.subrange(k + 1 as int, all.len() as int) =~= all.subrange(
                k as int,
                all.len() as int,
            ).drop_first());
            match jsx_pragma(comments[k].as_str()) {
                Some(p) => {
                    self.pragma = Some(p);
                    return;
                },
                None => {},
            }
            k = k + 1;
        }
    }
}

} // verus!
