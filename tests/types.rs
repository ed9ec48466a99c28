use vue_jsx::ast::{Expr, Ident, Lit, Prop, PropKey};
use vue_jsx::directive::Diagnostic;
use vue_jsx::resolve_type::{
    resolve_indexed_access, attach_props_declaration, build_props_type, extract_emits_type, infer_runtime_type, resolve_string_or_union_strings, resolve_type_elements, Interface,
    MemberKind, PropMember, TsType, TypeTable,
};

fn s(x: &str) -> String {
    x.to_string()
}

fn member(name: &str, kind: MemberKind) -> PropMember {
    PropMember { name: s(name), quoted: false, kind }
}

fn prop(name: &str, optional: bool, ty: TsType) -> PropMember {
    member(name, MemberKind::Property { optional, ty: Some(ty) })
}

fn empty_table() -> TypeTable {
    TypeTable { aliases: vec![], interfaces: vec![] }
}

fn some(x: &str) -> Option<String> {
    Some(s(x))
}

#[test]
fn keywords_and_literals() {
    let t = empty_table();
    assert_eq!(infer_runtime_type(&TsType::StringKeyword, &t, 8), vec![some("String")]);
    assert_eq!(infer_runtime_type(&TsType::NullKeyword, &t, 8), vec![None]);
    assert_eq!(infer_runtime_type(&TsType::NumLit(Some(1)), &t, 8), vec![some("Number")]);
    assert_eq!(infer_runtime_type(&TsType::Array(Box::new(TsType::StringKeyword)), &t, 8), vec![some("Array")]);
    assert_eq!(infer_runtime_type(&TsType::Tuple(vec![]), &t, 8), vec![some("Array")]);
    assert_eq!(infer_runtime_type(&TsType::Other, &t, 8), vec![some("Object")]);
}

#[test]
fn unions_gather_distinct_constructors() {
    let t = empty_table();
    let u = TsType::Union(vec![TsType::StringKeyword, TsType::StrLit(s("a")), TsType::NumberKeyword, TsType::NullKeyword]);
    assert_eq!(infer_runtime_type(&u, &t, 8), vec![some("String"), some("Number"), None]);
}

#[test]
fn references_follow_aliases_interfaces_and_builtins() {
    let t = TypeTable {
        aliases: vec![(s("Id"), TsType::NumberKeyword), (s("Id"), TsType::StringKeyword)],
        interfaces: vec![
            Interface { name: s("Fn"), members: vec![member("", MemberKind::Call { first_param: None })], extends: vec![] },
            Interface { name: s("Fn"), members: vec![member("x", MemberKind::Other)], extends: vec![] },
        ],
    };
    assert_eq!(infer_runtime_type(&TsType::Ref(s("Id"), false, vec![]), &t, 8), vec![some("String")]);
    assert_eq!(infer_runtime_type(&TsType::Ref(s("Fn"), false, vec![]), &t, 8), vec![some("Function"), some("Object")]);
    assert_eq!(infer_runtime_type(&TsType::Ref(s("Date"), true, vec![]), &t, 8), vec![some("Date")]);
    assert_eq!(infer_runtime_type(&TsType::Ref(s("Partial"), true, vec![]), &t, 8), vec![some("Object")]);
    let nn = TsType::Ref(s("NonNullable"), true, vec![TsType::Union(vec![TsType::NullKeyword, TsType::BooleanKeyword])]);
    assert_eq!(infer_runtime_type(&nn, &t, 8), vec![some("Boolean")]);
    let ex = TsType::Ref(s("Extract"), true, vec![TsType::StringKeyword, TsType::ObjectKeyword]);
    assert_eq!(infer_runtime_type(&ex, &t, 8), vec![some("Object")]);
}

#[test]
fn cyclic_aliases_stop_at_the_depth() {
    let t = TypeTable { aliases: vec![(s("A"), TsType::Ref(s("A"), false, vec![]))], interfaces: vec![] };
    assert_eq!(infer_runtime_type(&TsType::Ref(s("A"), false, vec![]), &t, 3), vec![]);
    assert_eq!(resolve_type_elements(&TsType::Ref(s("A"), false, vec![]), &t, 3, &mut vec![]), vec![]);
}

fn global(n: &str) -> Expr {
    Expr::Ident(Ident { name: s(n), unresolved: true })
}

fn field(k: &str, v: Expr) -> Prop {
    Prop::KeyValue(PropKey::Ident(s(k)), v)
}

#[test]
fn props_declaration_from_members() {
    let members = vec![
        PropMember { name: s("foo"), quoted: false, kind: MemberKind::Property { optional: false, ty: Some(TsType::StringKeyword) } },
        PropMember { name: s("bar"), quoted: true, kind: MemberKind::Method { optional: true } },
        PropMember { name: s("foo"), quoted: false, kind: MemberKind::Property { optional: true, ty: Some(TsType::NumberKeyword) } },
        PropMember { name: s("call"), quoted: false, kind: MemberKind::Call { first_param: None } },
    ];
    let defaults = vec![(s("bar"), Expr::Host(1))];
    let out = build_props_type(members, &empty_table(), 8, &defaults);
    let foo = Expr::Object(vec![
        field("type", Expr::Array(vec![global("String"), global("Number")])),
        field("required", Expr::Lit(Lit::Bool(false))),
    ]);
    let bar = Expr::Object(vec![
        field("type", global("Function")),
        field("required", Expr::Lit(Lit::Bool(false))),
        field("default", Expr::Host(1)),
    ]);
    assert_eq!(out, Expr::Object(vec![field("foo", foo), Prop::KeyValue(PropKey::Str(s("bar")), bar)]));
}

#[test]
fn props_declaration_is_attached_once() {
    let decl = Expr::Object(vec![]);
    let setup = Expr::Function(0);
    let out = attach_props_declaration(vec![Expr::Function(0)], Some(Expr::Object(vec![])));
    assert_eq!(out, vec![setup, Expr::Object(vec![field("props", decl)])]);
    let existing = Expr::Object(vec![field("props", Expr::Host(2))]);
    let out = attach_props_declaration(vec![Expr::Function(0), existing], Some(Expr::Object(vec![])));
    assert_eq!(out, vec![Expr::Function(0), Expr::Object(vec![field("props", Expr::Host(2))])]);
    let other = Expr::Object(vec![field("name", Expr::Lit(Lit::Str(s("A"))))]);
    let out = attach_props_declaration(vec![Expr::Function(0), other], Some(Expr::Host(3)));
    assert_eq!(
        out,
        vec![Expr::Function(0), Expr::Object(vec![field("name", Expr::Lit(Lit::Str(s("A")))), field("props", Expr::Host(3))])]
    );
    assert_eq!(attach_props_declaration(vec![], Some(Expr::Host(3))), vec![]);
}

#[test]
fn members_of_literal_interface_and_extends() {
    let t = TypeTable {
        aliases: vec![],
        interfaces: vec![
            Interface { name: s("Base"), members: vec![prop("id", false, TsType::NumberKeyword)], extends: vec![] },
            Interface {
                name: s("Props"),
                members: vec![prop("a", false, TsType::StringKeyword), member("", MemberKind::Construct)],
                extends: vec![s("Base")],
            },
            Interface { name: s("Props"), members: vec![prop("b", true, TsType::BooleanKeyword)], extends: vec![] },
        ],
    };
    let out = resolve_type_elements(&TsType::Ref(s("Props"), false, vec![]), &t, 8, &mut vec![]);
    assert_eq!(
        out,
        vec![
            prop("a", false, TsType::StringKeyword),
            prop("b", true, TsType::BooleanKeyword),
            prop("id", false, TsType::NumberKeyword),
        ]
    );
}

#[test]
fn utility_types_on_members() {
    let lit = TsType::TypeLit(vec![
        prop("a", false, TsType::StringKeyword),
        prop("b", true, TsType::NumberKeyword),
        member("m", MemberKind::Method { optional: false }),
    ]);
    let t = empty_table();
    let partial = TsType::Ref(s("Partial"), true, vec![lit]);
    assert_eq!(
        resolve_type_elements(&partial, &t, 8, &mut vec![]),
        vec![
            prop("a", true, TsType::StringKeyword),
            prop("b", true, TsType::NumberKeyword),
            member("m", MemberKind::Method { optional: true }),
        ]
    );
    let lit = TsType::TypeLit(vec![prop("a", false, TsType::StringKeyword), prop("b", true, TsType::NumberKeyword)]);
    let keys = TsType::Union(vec![TsType::StrLit(s("b")), TsType::StrLit(s("c"))]);
    assert_eq!(resolve_string_or_union_strings(&keys, &t, 8), vec![s("b"), s("c")]);
    let pick = TsType::Ref(s("Pick"), true, vec![lit, keys]);
    assert_eq!(resolve_type_elements(&pick, &t, 8, &mut vec![]), vec![prop("b", true, TsType::NumberKeyword)]);
    let lit = TsType::TypeLit(vec![prop("a", false, TsType::StringKeyword), prop("b", true, TsType::NumberKeyword)]);
    let omit = TsType::Ref(s("Omit"), true, vec![lit, TsType::StrLit(s("b"))]);
    assert_eq!(resolve_type_elements(&omit, &t, 8, &mut vec![]), vec![prop("a", false, TsType::StringKeyword)]);
    let foreign = TsType::Ref(s("Partial"), false, vec![TsType::TypeLit(vec![prop("a", false, TsType::StringKeyword)])]);
    let mut diags = vec![];
    assert_eq!(resolve_type_elements(&foreign, &t, 8, &mut diags), vec![]);
    assert_eq!(diags, vec![Diagnostic::ForeignType]);
}

#[test]
fn static_defaults_are_read_into_the_declaration() {
    let mut v = vue_jsx::transform::VueJsxTransformVisitor::new(vue_jsx::options::Options::default());
    let ty = TsType::TypeLit(vec![prop("a", true, TsType::StringKeyword), prop("b", true, TsType::NumberKeyword)]);
    let defaults = Expr::Object(vec![
        Prop::KeyValue(PropKey::Ident(s("a")), Expr::Lit(Lit::Str(s("x")))),
        Prop::KeyValue(PropKey::Str(s("b")), Expr::Host(4)),
    ]);
    let out = v.extract_props_type(&ty, Some(defaults), &empty_table(), 8);
    let a = Expr::Object(vec![
        field("type", global("String")),
        field("required", Expr::Lit(Lit::Bool(false))),
        field("default", Expr::Lit(Lit::Str(s("x")))),
    ]);
    let b = Expr::Object(vec![
        field("type", global("Number")),
        field("required", Expr::Lit(Lit::Bool(false))),
        field("default", Expr::Arrow(vec![], Box::new(Expr::Host(4)))),
    ]);
    assert_eq!(out, Expr::Object(vec![field("a", a), field("b", b)]));
    assert!(v.imports.is_empty());
}

#[test]
fn dynamic_defaults_are_merged_at_run_time() {
    let mut v = vue_jsx::transform::VueJsxTransformVisitor::new(vue_jsx::options::Options::default());
    let ty = TsType::TypeLit(vec![prop("a", false, TsType::BooleanKeyword)]);
    let out = v.extract_props_type(&ty, Some(Expr::Host(9)), &empty_table(), 8);
    let a = Expr::Object(vec![field("type", global("Boolean")), field("required", Expr::Lit(Lit::Bool(true)))]);
    assert_eq!(
        out,
        Expr::Call(Box::new(Expr::Runtime(s("mergeDefaults"))), vec![Expr::Object(vec![field("a", a)]), Expr::Host(9)], false)
    );
    assert_eq!(v.imports, vec![s("mergeDefaults")]);
}

#[test]
fn emits_from_members_and_call_signatures() {
    let ty = TsType::TypeLit(vec![
        member("change", MemberKind::Method { optional: false }),
        prop("update", false, TsType::Function),
        member("", MemberKind::Call { first_param: Some(TsType::Union(vec![TsType::StrLit(s("a")), TsType::StrLit(s("b"))])) }),
        member("", MemberKind::Other),
    ]);
    let out = extract_emits_type(&ty, &empty_table(), 8, &mut vec![]);
    let names = ["change", "update", "a", "b"].iter().map(|n| Expr::Lit(Lit::Str(s(n)))).collect();
    assert_eq!(out, Expr::Array(names));
}

#[test]
fn indexed_access_on_objects_arrays_and_tuples() {
    let t = TypeTable {
        aliases: vec![(s("Key"), TsType::StrLit(s("b")))],
        interfaces: vec![Interface {
            name: s("P"),
            members: vec![
                prop("a", false, TsType::StringKeyword),
                prop("b", true, TsType::NumberKeyword),
                member("m", MemberKind::Method { optional: false }),
                member("", MemberKind::Index { ty: Some(TsType::BooleanKeyword) }),
            ],
            extends: vec![],
        }],
    };
    let p = || TsType::Ref(s("P"), false, vec![]);
    let by = |i: TsType| resolve_indexed_access(&p(), &i, &t, 8);
    assert_eq!(by(TsType::StrLit(s("a"))), Some(TsType::StringKeyword));
    assert_eq!(by(TsType::Ref(s("Key"), false, vec![])), Some(TsType::NumberKeyword));
    assert_eq!(
        by(TsType::Union(vec![TsType::StrLit(s("a")), TsType::StrLit(s("m"))])),
        Some(TsType::Union(vec![TsType::StringKeyword, TsType::Ref(s("Function"), true, vec![])]))
    );
    assert_eq!(
        by(TsType::StringKeyword),
        Some(TsType::Union(vec![
            TsType::StringKeyword,
            TsType::NumberKeyword,
            TsType::Ref(s("Function"), true, vec![]),
            TsType::BooleanKeyword,
        ]))
    );
    let arr = TsType::Array(Box::new(TsType::BooleanKeyword));
    assert_eq!(resolve_indexed_access(&arr, &TsType::NumberKeyword, &t, 8), Some(TsType::BooleanKeyword));
    assert_eq!(resolve_indexed_access(&arr, &TsType::StringKeyword, &t, 8), None);
    let generic = TsType::Ref(s("Array"), true, vec![TsType::StringKeyword]);
    assert_eq!(resolve_indexed_access(&generic, &TsType::NumLit(Some(0)), &t, 8), Some(TsType::StringKeyword));
    let tup = TsType::Tuple(vec![TsType::StringKeyword, TsType::NullKeyword]);
    assert_eq!(resolve_indexed_access(&tup, &TsType::NumLit(Some(1)), &t, 8), Some(TsType::NullKeyword));
    assert_eq!(resolve_indexed_access(&tup, &TsType::NumLit(Some(2)), &t, 8), None);
    assert_eq!(
        resolve_indexed_access(&tup, &TsType::NumberKeyword, &t, 8),
        Some(TsType::Union(vec![TsType::StringKeyword, TsType::NullKeyword]))
    );
    let ia = TsType::IndexedAccess(Box::new(p()), Box::new(TsType::StrLit(s("a"))));
    assert_eq!(infer_runtime_type(&ia, &t, 8), vec![some("String")]);
}

#[test]
fn unsupported_types_report_one_diagnostic_each() {
    let t = empty_table();
    let mut diags = vec![];
    assert_eq!(resolve_type_elements(&TsType::Ref(s("Unknown"), true, vec![]), &t, 8, &mut diags), vec![]);
    assert_eq!(diags, vec![Diagnostic::UnresolvableType]);
    let mut diags = vec![];
    assert_eq!(resolve_type_elements(&TsType::StringKeyword, &t, 8, &mut diags), vec![]);
    assert_eq!(diags, vec![Diagnostic::UnresolvableType]);
    let lit = TsType::TypeLit(vec![prop("a", false, TsType::StringKeyword)]);
    let pick = TsType::Ref(s("Pick"), true, vec![lit, TsType::NumberKeyword]);
    let mut diags = vec![];
    assert_eq!(resolve_type_elements(&pick, &t, 8, &mut diags), vec![]);
    assert_eq!(diags, vec![Diagnostic::UnsupportedKeyType]);
}

#[test]
fn getter_and_method_defaults_stay_static() {
    let mut v = vue_jsx::transform::VueJsxTransformVisitor::new(vue_jsx::options::Options::default());
    let ty = TsType::TypeLit(vec![prop("a", true, TsType::StringKeyword), prop("b", true, TsType::Function)]);
    let defaults = Expr::Object(vec![Prop::Getter(PropKey::Ident(s("a")), 5), Prop::Method(PropKey::Ident(s("b")), 6)]);
    let out = v.extract_props_type(&ty, Some(defaults), &empty_table(), 8);
    let a = Expr::Object(vec![
        field("type", global("String")),
        field("required", Expr::Lit(Lit::Bool(false))),
        field("default", Expr::BlockArrow(5)),
    ]);
    let b = Expr::Object(vec![
        field("type", global("Function")),
        field("required", Expr::Lit(Lit::Bool(false))),
        field("default", Expr::Function(6)),
    ]);
    assert_eq!(out, Expr::Object(vec![field("a", a), field("b", b)]));
    assert!(v.imports.is_empty());
    assert!(v.diagnostics.is_empty());
}
