use pod_analysis::api::{
    Api, ApiName, ConvertError, EnumItem, ErrorContext, Field, PodApi, StructItem, TypeArg,
    TypeKind, TypeRef, UnanalyzedApi,
};
use pod_analysis::checker::{ByValueChecker, KnownTypes};
use pod_analysis::config::{Allowlist, IncludeCppConfig, UnsafePolicy};
use pod_analysis::converter::{make_concrete_name, TypeConverter};
use pod_analysis::names::{Namespace, QualifiedName};
use pod_analysis::pipeline::analyze_pod_apis;
use pod_analysis::pod::{analyze_enum, get_bases, has_prefix, remove_bindgen_attrs};

fn qn(ns: &[&str], id: &str) -> QualifiedName {
    QualifiedName::new(
        Namespace::new(ns.iter().map(|s| s.to_string()).collect()),
        id.to_string(),
    )
}

fn field(ident: &str, ty: TypeRef) -> Field {
    Field { ident: ident.to_string(), ty }
}

fn prim(s: &str) -> TypeRef {
    TypeRef::Primitive(s.to_string())
}

fn named(ns: &[&str], id: &str) -> TypeRef {
    TypeRef::Named(qn(ns, id))
}

fn strukt(ns: &[&str], id: &str, fields: Vec<Field>) -> UnanalyzedApi {
    flagged(ns, id, fields, false)
}

fn flagged(ns: &[&str], id: &str, fields: Vec<Field>, has_lifecycle: bool) -> UnanalyzedApi {
    Api::Struct {
        name: ApiName { name: qn(ns, id), nested: false },
        item: StructItem { attrs: vec![], fields, has_lifecycle, opaque: false },
        analysis: (),
    }
}

fn config(pod_requests: &[&str]) -> IncludeCppConfig {
    IncludeCppConfig {
        inclusions: vec![],
        unsafe_policy: UnsafePolicy::AllFunctionsUnsafe,
        parse_only: false,
        exclude_impls: false,
        pod_requests: pod_requests.iter().map(|s| s.to_string()).collect(),
        allowlist: Allowlist::Specific(vec![]),
        blocklist: vec![],
        exclude_utilities: false,
        mod_name: None,
        rust_types: vec![],
        subclasses: vec![],
        extern_rust_funs: vec![],
    }
}

fn no_known() -> KnownTypes {
    KnownTypes { by_value: vec![] }
}

fn kind_of(api: &PodApi) -> Option<TypeKind> {
    match api {
        Api::Struct { analysis, .. } => Some(analysis.kind),
        _ => None,
    }
}

fn deps_of(api: &PodApi) -> Vec<String> {
    match api {
        Api::Struct { analysis, .. } => {
            let mut v: Vec<String> = analysis.field_deps.iter().map(|q| q.to_cpp_name()).collect();
            v.sort();
            v
        }
        _ => panic!("not a struct"),
    }
}

#[test]
fn plain_integer_struct_is_pod() {
    let apis = vec![strukt(&["ns"], "Point", vec![field("x", prim("int32_t")), field("y", prim("int32_t"))])];
    let out = analyze_pod_apis(apis, &config(&[]), &no_known()).unwrap();
    assert_eq!(out.len(), 1);
    assert_eq!(kind_of(&out[0]), Some(TypeKind::Pod));
    assert!(deps_of(&out[0]).is_empty());
    match &out[0] {
        Api::Struct { analysis, .. } => assert!(analysis.bases.is_empty()),
        _ => panic!("not a struct"),
    }
}

#[test]
fn owning_field_makes_struct_and_embedders_non_pod() {
    // std::string is not listed as flat, so it owns resources as far as the checker knows.
    let apis = vec![
        strukt(&[], "Holder", vec![field("s", named(&["std"], "string"))]),
        strukt(&[], "Outer", vec![field("h", named(&[], "Holder")), field("n", prim("int"))]),
        strukt(&[], "Plain", vec![field("n", prim("int"))]),
    ];
    let out = analyze_pod_apis(apis, &config(&[]), &no_known()).unwrap();
    assert_eq!(out.len(), 3);
    assert_eq!(kind_of(&out[0]), Some(TypeKind::NonPod));
    assert_eq!(kind_of(&out[1]), Some(TypeKind::NonPod));
    assert_eq!(kind_of(&out[2]), Some(TypeKind::Pod));
    assert!(deps_of(&out[0]).is_empty());
}

#[test]
fn ineligibility_propagates_through_a_chain() {
    let apis = vec![
        strukt(&[], "A", vec![field("b", named(&[], "B"))]),
        strukt(&[], "B", vec![field("c", named(&[], "C"))]),
        flagged(&[], "C", vec![field("n", prim("int"))], true),
    ];
    let out = analyze_pod_apis(apis, &config(&[]), &no_known()).unwrap();
    assert_eq!(kind_of(&out[0]), Some(TypeKind::NonPod));
    assert_eq!(kind_of(&out[1]), Some(TypeKind::NonPod));
    assert_eq!(kind_of(&out[2]), Some(TypeKind::NonPod));
}

#[test]
fn nested_ineligible_struct_is_non_pod_nested() {
    let apis = vec![Api::Struct {
        name: ApiName { name: qn(&["Outer"], "Inner"), nested: true },
        item: StructItem { attrs: vec![], fields: vec![], has_lifecycle: true, opaque: false },
        analysis: (),
    }];
    let out = analyze_pod_apis(apis, &config(&[]), &no_known()).unwrap();
    assert_eq!(kind_of(&out[0]), Some(TypeKind::NonPodNested));
}

#[test]
fn pod_request_on_ineligible_type_fails_construction() {
    let apis = vec![strukt(&[], "Holder", vec![field("s", named(&["std"], "string"))])];
    let r = analyze_pod_apis(apis, &config(&["Holder"]), &no_known());
    match r {
        Err(ConvertError::UnsafePodType(s)) => assert_eq!(s, "Holder"),
        other => panic!("unexpected {:?}", other),
    }
}

#[test]
fn pod_request_on_unknown_name_fails() {
    let apis = vec![strukt(&[], "Plain", vec![field("n", prim("int"))])];
    let r = analyze_pod_apis(apis, &config(&["Missing"]), &no_known());
    assert!(matches!(r, Err(ConvertError::UnsafePodType(_))));
}

#[test]
fn pod_request_on_eligible_type_succeeds() {
    let apis = vec![
        strukt(&["a", "b"], "Plain", vec![field("n", prim("int"))]),
        strukt(&[], "Other", vec![field("s", named(&["std"], "string"))]),
    ];
    let checker = ByValueChecker::new_from_apis(&apis, &config(&["a::b::Plain"]), &no_known()).unwrap();
    assert!(checker.is_pod(&qn(&["a", "b"], "Plain")));
    assert!(!checker.is_pod(&qn(&[], "Other")));
    assert!(!checker.is_pod(&qn(&[], "Plain")));
    assert!(!checker.is_pod(&qn(&["std"], "string")));
}

#[test]
fn known_flat_type_keeps_struct_pod() {
    let apis = vec![strukt(&[], "S", vec![field("t", named(&["ext"], "Flat"))])];
    let known = KnownTypes { by_value: vec![qn(&["ext"], "Flat")] };
    let out = analyze_pod_apis(apis, &config(&["ext::Flat", "S"]), &known).unwrap();
    assert_eq!(kind_of(&out[0]), Some(TypeKind::Pod));
    assert_eq!(deps_of(&out[0]), vec!["ext::Flat".to_string()]);
}

#[test]
fn enum_field_is_flat_and_enum_passes_through() {
    let apis = vec![
        Api::Enum {
            name: ApiName { name: qn(&[], "Color"), nested: false },
            item: EnumItem {
                attrs: vec!["bindgen_opaque_type".to_string(), "repr(u32)".to_string()],
                variants: vec!["Red".to_string()],
            },
        },
        strukt(&[], "S", vec![field("c", named(&[], "Color"))]),
    ];
    let out = analyze_pod_apis(apis, &config(&[]), &no_known()).unwrap();
    match &out[0] {
        Api::Enum { item, .. } => assert_eq!(item.attrs, vec!["repr(u32)".to_string()]),
        _ => panic!("not an enum"),
    }
    assert_eq!(kind_of(&out[1]), Some(TypeKind::Pod));
    assert_eq!(deps_of(&out[1]), vec!["Color".to_string()]);
}

#[test]
fn novel_instantiation_is_discovered_and_classified() {
    let pair = qn(&["std"], "pair");
    let apis = vec![
        strukt(&[], "Elem", vec![field("n", prim("int"))]),
        strukt(
            &[],
            "S",
            vec![field(
                "p",
                TypeRef::Generic(pair, vec![TypeArg::Named(qn(&[], "Elem")), TypeArg::Primitive("int".to_string())]),
            )],
        ),
    ];
    let known = KnownTypes { by_value: vec![qn(&["std"], "pair")] };
    let out = analyze_pod_apis(apis, &config(&[]), &known).unwrap();
    assert_eq!(out.len(), 3);
    assert_eq!(kind_of(&out[1]), Some(TypeKind::Pod));
    assert_eq!(deps_of(&out[1]), vec!["Elem".to_string(), "std::pair<Elem,int>".to_string()]);
    match &out[2] {
        Api::Struct { name, item, analysis } => {
            assert_eq!(name.name.to_cpp_name(), "std::pair<Elem,int>");
            assert!(item.fields.is_empty());
            assert!(!item.opaque);
            assert_eq!(analysis.kind, TypeKind::Pod);
        }
        _ => panic!("not a struct"),
    }
}

#[test]
fn repeated_instantiation_is_emitted_once() {
    let vec_t = || TypeRef::Generic(qn(&["std"], "array"), vec![TypeArg::Primitive("int".to_string())]);
    let apis = vec![
        strukt(&[], "A", vec![field("v", vec_t()), field("w", vec_t())]),
        strukt(&[], "B", vec![field("v", vec_t())]),
    ];
    let known = KnownTypes { by_value: vec![qn(&["std"], "array")] };
    let out = analyze_pod_apis(apis, &config(&[]), &known).unwrap();
    assert_eq!(out.len(), 3);
    assert_eq!(out[2].name().name.to_cpp_name(), "std::array<int>");
}

#[test]
fn function_pointer_field_fails_only_its_struct() {
    let apis = vec![
        strukt(&[], "Callback", vec![field("f", TypeRef::FunctionPointer)]),
        strukt(&[], "Plain", vec![field("n", prim("int"))]),
    ];
    let out = analyze_pod_apis(apis, &config(&[]), &no_known()).unwrap();
    match &out[0] {
        Api::IgnoredItem { name, err, ctx } => {
            assert_eq!(name.name.get_final_ident(), "Callback");
            assert!(matches!(err, ConvertError::UnsupportedFunctionPointer));
            assert!(matches!(ctx, Some(ErrorContext::Item(id)) if id == "Callback"));
        }
        _ => panic!("expected a recorded failure"),
    }
    assert_eq!(kind_of(&out[1]), Some(TypeKind::Pod));
}

#[test]
fn pipeline_is_deterministic() {
    let build = || {
        vec![
            strukt(&[], "Elem", vec![field("n", prim("int"))]),
            strukt(
                &[],
                "S",
                vec![
                    field("a", TypeRef::Generic(qn(&["std"], "pair"), vec![TypeArg::Named(qn(&[], "Elem"))])),
                    field("b", named(&[], "Elem")),
                    field("_base0", named(&[], "Elem")),
                ],
            ),
            strukt(&[], "T", vec![field("s", named(&["std"], "string"))]),
        ]
    };
    let known = KnownTypes { by_value: vec![qn(&["std"], "pair")] };
    let first = analyze_pod_apis(build(), &config(&[]), &known).unwrap();
    let second = analyze_pod_apis(build(), &config(&[]), &known).unwrap();
    assert_eq!(format!("{:?}", first), format!("{:?}", second));
}

#[test]
fn field_deps_match_converted_types() {
    let apis = vec![
        strukt(&[], "Elem", vec![]),
        strukt(
            &["n"],
            "S",
            vec![
                field("p", TypeRef::Pointer(TypeArg::Named(qn(&["x"], "Far")))),
                field("q", TypeRef::Pointer(TypeArg::Primitive("char".to_string()))),
                field("e", named(&[], "Elem")),
                field("e2", named(&[], "Elem")),
            ],
        ),
    ];
    let out = analyze_pod_apis(apis, &config(&[]), &no_known()).unwrap();
    assert_eq!(kind_of(&out[1]), Some(TypeKind::Pod));
    assert_eq!(deps_of(&out[1]), vec!["Elem".to_string(), "x::Far".to_string()]);
}

#[test]
fn bases_come_from_base_slots() {
    let item = StructItem {
        attrs: vec![],
        fields: vec![
            field("_base", named(&["ns"], "Parent")),
            field("_base_1", TypeRef::Generic(qn(&[], "Tmpl"), vec![])),
            field("base", named(&[], "NotABase")),
            field("_base2", prim("int")),
        ],
        has_lifecycle: false,
        opaque: false,
    };
    let mut bases: Vec<String> = get_bases(&item).iter().map(|q| q.to_cpp_name()).collect();
    bases.sort();
    assert_eq!(bases, vec!["Tmpl".to_string(), "ns::Parent".to_string()]);
}

#[test]
fn marker_attributes_are_removed() {
    let mut attrs = vec![
        "bindgen_semantics_opaque".to_string(),
        "repr(C)".to_string(),
        "bindgen_unused_template_param".to_string(),
        "doc".to_string(),
    ];
    remove_bindgen_attrs(&mut attrs);
    assert_eq!(attrs, vec!["repr(C)".to_string(), "doc".to_string()]);
    assert!(has_prefix(&"_base3".to_string(), "_base"));
    assert!(!has_prefix(&"_bas".to_string(), "_base"));
}

#[test]
fn enum_analysis_keeps_variants() {
    let api = analyze_enum(
        ApiName { name: qn(&[], "E"), nested: false },
        EnumItem { attrs: vec!["bindgen_x".to_string()], variants: vec!["A".to_string(), "B".to_string()] },
    );
    match api {
        Api::Enum { item, .. } => {
            assert!(item.attrs.is_empty());
            assert_eq!(item.variants, vec!["A".to_string(), "B".to_string()]);
        }
        _ => panic!("not an enum"),
    }
}

#[test]
fn concrete_names_and_converter_cache() {
    let c = make_concrete_name(&qn(&["std"], "map"), &vec![TypeArg::Named(qn(&["a"], "K")), TypeArg::Primitive("int".to_string())]);
    assert_eq!(c.to_cpp_name(), "std::map<a::K,int>");
    let apis: Vec<UnanalyzedApi> = vec![strukt(&[], "Declared", vec![])];
    let mut conv = TypeConverter::new(&apis);
    let t = TypeRef::Generic(qn(&[], "Box"), vec![TypeArg::Primitive("int".to_string())]);
    let first = conv.convert_type(&t).unwrap();
    assert_eq!(first.extra_apis.len(), 1);
    assert!(matches!(&first.ty, TypeRef::Named(q) if q.to_cpp_name() == "Box<int>"));
    let second = conv.convert_type(&t).unwrap();
    assert!(second.extra_apis.is_empty());
    assert!(conv.convert_type(&TypeRef::FunctionPointer).is_err());
    let plain = conv.convert_type(&named(&[], "Declared")).unwrap();
    assert!(plain.extra_apis.is_empty());
    assert_eq!(plain.types_encountered.len(), 1);
}

#[test]
fn checker_handles_cycles_without_flags() {
    // A cycle through pointers and names: nothing in it is flagged.
    let apis = vec![
        strukt(&[], "A", vec![field("b", named(&[], "B"))]),
        strukt(&[], "B", vec![field("a", TypeRef::Pointer(TypeArg::Named(qn(&[], "A"))))]),
    ];
    let checker = ByValueChecker::new_from_apis(&apis, &config(&["A", "B"]), &no_known()).unwrap();
    assert!(checker.is_pod(&qn(&[], "A")));
    assert!(checker.is_pod(&qn(&[], "B")));
}

fn typedef(ns: &[&str], id: &str, target: TypeRef) -> UnanalyzedApi {
    Api::Typedef { name: ApiName { name: qn(ns, id), nested: false }, target }
}

#[test]
fn typedef_follows_its_target() {
    let apis = vec![
        typedef(&[], "Int", prim("int")),
        typedef(&[], "Str", named(&["std"], "string")),
        typedef(&[], "Alias", named(&[], "Int")),
        strukt(&[], "A", vec![field("x", named(&[], "Alias"))]),
        strukt(&[], "B", vec![field("s", named(&[], "Str"))]),
    ];
    let checker = ByValueChecker::new_from_apis(&apis, &config(&["A", "Int"]), &no_known()).unwrap();
    assert!(checker.is_pod(&qn(&[], "Int")));
    assert!(checker.is_pod(&qn(&[], "Alias")));
    assert!(!checker.is_pod(&qn(&[], "Str")));
    assert!(checker.is_pod(&qn(&[], "A")));
    assert!(!checker.is_pod(&qn(&[], "B")));
    let r = ByValueChecker::new_from_apis(&apis, &config(&["B"]), &no_known());
    assert!(matches!(r, Err(ConvertError::UnsafePodType(_))));
    let out = analyze_pod_apis(apis, &config(&[]), &no_known()).unwrap();
    assert_eq!(kind_of(&out[3]), Some(TypeKind::Pod));
    assert_eq!(kind_of(&out[4]), Some(TypeKind::NonPod));
}

#[test]
fn is_pod_answers_for_enums_known_types_and_instantiations() {
    let apis = vec![
        Api::Enum {
            name: ApiName { name: qn(&[], "Color"), nested: false },
            item: EnumItem { attrs: vec![], variants: vec!["Red".to_string()] },
        },
        strukt(
            &[],
            "S",
            vec![
                field("p", TypeRef::Generic(qn(&["std"], "pair"), vec![TypeArg::Primitive("int".to_string())])),
                field("q", TypeRef::Generic(qn(&["std"], "pair"), vec![TypeArg::Named(qn(&["std"], "string"))])),
            ],
        ),
    ];
    let known = KnownTypes { by_value: vec![qn(&["std"], "pair"), qn(&["ext"], "Flat")] };
    let checker = ByValueChecker::new_from_apis(&apis, &config(&["Color"]), &known).unwrap();
    assert!(checker.is_pod(&qn(&[], "Color")));
    assert!(checker.is_pod(&qn(&["ext"], "Flat")));
    assert!(checker.is_pod(&qn(&["std"], "pair<int>")));
    assert!(!checker.is_pod(&qn(&["std"], "pair<std::string>")));
    assert!(!checker.is_pod(&qn(&[], "S")));
    assert!(!checker.is_pod(&qn(&["std"], "string")));
}
