use pod_analysis::config::{
    Allowlist, ConfigError, DirectiveArg, IncludeCppConfig, RustFun, Subclass, UnsafePolicy,
};
use pod_analysis::directives::Directive;

fn words(w: &[&str]) -> Vec<String> {
    w.iter().map(|s| s.to_string()).collect()
}

fn idents(w: &[&str]) -> Vec<DirectiveArg> {
    w.iter().map(|s| DirectiveArg::Ident(s.to_string())).collect()
}

fn directive(name: &str, args: Vec<DirectiveArg>) -> Directive {
    Directive { pound: false, name: name.to_string(), args }
}

fn lit(s: &str) -> DirectiveArg {
    DirectiveArg::Str(s.to_string())
}

fn base_config() -> IncludeCppConfig {
    IncludeCppConfig {
        inclusions: vec![],
        unsafe_policy: UnsafePolicy::AllFunctionsUnsafe,
        parse_only: false,
        exclude_impls: false,
        pod_requests: words(&["P"]),
        allowlist: Allowlist::Specific(words(&["A", "B"])),
        blocklist: words(&["Bad"]),
        exclude_utilities: false,
        mod_name: None,
        rust_types: words(&["RustThing"]),
        subclasses: vec![
            Subclass { superclass: "Base".to_string(), subclass: "Sub".to_string() },
            Subclass { superclass: "Base".to_string(), subclass: "Other".to_string() },
        ],
        extern_rust_funs: vec![RustFun { path: "crate::f".to_string(), ident: "f".to_string() }],
    }
}

#[test]
fn test_safety_unsafe() {
    let us = UnsafePolicy::parse(&idents(&["unsafe"])).unwrap();
    assert_eq!(us, UnsafePolicy::AllFunctionsSafe)
}

#[test]
fn test_safety_unsafe_ffi() {
    let us = UnsafePolicy::parse(&idents(&["unsafe_ffi"])).unwrap();
    assert_eq!(us, UnsafePolicy::AllFunctionsSafe)
}

#[test]
fn test_safety_safe() {
    let us = UnsafePolicy::parse(&idents(&[])).unwrap();
    assert_eq!(us, UnsafePolicy::AllFunctionsUnsafe)
}

#[test]
fn safety_errors() {
    assert_eq!(UnsafePolicy::parse(&idents(&["safe"])), Err(ConfigError::ExpectedUnsafeFfi));
    assert_eq!(UnsafePolicy::parse(&idents(&["unsafe_ffi", "x"])), Err(ConfigError::UnexpectedSafetyTokens));
}

#[test]
fn allowlist_push_and_set_all() {
    let mut a = Allowlist::default();
    a.push("X".to_string()).unwrap();
    assert!(matches!(&a, Allowlist::Specific(v) if v == &words(&["X"])));
    assert_eq!(a.set_all(), Err(ConfigError::AllowlistConflict));
    let mut b = Allowlist::default();
    b.set_all().unwrap();
    assert!(matches!(b, Allowlist::All));
    assert_eq!(b.push("Y".to_string()), Err(ConfigError::AllowlistConflict));
}

#[test]
fn names_from_module_name() {
    let mut c = base_config();
    assert_eq!(c.get_mod_name(), "ffi");
    assert_eq!(c.get_makestring_name(), "autocxx_make_string_default");
    assert_eq!(c.get_rs_filename(), "autocxx-ffi-default-gen.rs");
    c.mod_name = Some("mine".to_string());
    assert_eq!(c.get_mod_name(), "mine");
    assert_eq!(c.get_makestring_name(), "autocxx_make_string_mine");
    assert_eq!(c.get_rs_filename(), "autocxx-mine-gen.rs");
}

#[test]
fn allowlist_queries() {
    let c = base_config();
    assert_eq!(c.must_generate_list(), words(&["A", "B", "P"]));
    assert_eq!(
        c.bindgen_allowlist().unwrap(),
        words(&["A", "B", "P", "autocxx_make_string_default", "SubCpp", "Sub", "Base", "OtherCpp", "Other", "Base"])
    );
    assert!(c.is_on_allowlist(&"A".to_string()));
    assert!(c.is_on_allowlist(&"SubHolder".to_string()));
    assert!(c.is_on_allowlist(&"f".to_string()));
    assert!(!c.is_on_allowlist(&"Z".to_string()));
    assert!(c.is_on_blocklist(&"Bad".to_string()));
    assert!(!c.is_on_blocklist(&"A".to_string()));
    assert!(c.is_rust_type(&"RustThing".to_string()));
    assert!(c.is_rust_type(&"OtherHolder".to_string()));
    assert!(!c.is_rust_type(&"Sub".to_string()));
    assert_eq!(c.superclasses(), words(&["Base"]));
    assert_eq!(c.get_blocklist(), &words(&["Bad"]));
    let mut all = base_config();
    all.allowlist = Allowlist::All;
    all.exclude_utilities = true;
    assert!(all.bindgen_allowlist().is_none());
    assert!(all.is_on_allowlist(&"anything".to_string()));
    assert!(all.active_utilities().is_empty());
    assert!(all.exclude_utilities());
}

#[test]
fn confirm_complete_settles_allowlist() {
    let mut c = base_config();
    c.allowlist = Allowlist::default();
    assert_eq!(c.confirm_complete(false), Err(ConfigError::AllowlistUnspecified));
    assert!(c.confirm_complete(true).is_ok());
    assert!(matches!(&c.allowlist, Allowlist::Specific(v) if v.is_empty()));
    let mut d = base_config();
    assert!(d.confirm_complete(false).is_ok());
    assert_eq!(d.get_pod_requests(), &words(&["P"]));
}

#[test]
fn safety_with_literal_is_rejected() {
    assert_eq!(UnsafePolicy::parse(&vec![lit("x")]), Err(ConfigError::UnexpectedSafetyTokens));
    assert_eq!(UnsafePolicy::parse(&vec![DirectiveArg::Ident("unsafe".to_string()), lit("x")]), Err(ConfigError::UnexpectedSafetyTokens));
    assert_eq!(UnsafePolicy::parse(&idents(&["unsafe", "unsafe"])), Err(ConfigError::UnexpectedSafetyTokens));
}

#[test]
fn directives_build_a_config() {
    let ds = vec![
        Directive { pound: true, name: "include".to_string(), args: vec![lit("a.h")] },
        directive("generate", vec![lit("A")]),
        directive("generate_pod", vec![lit("B")]),
        directive("pod", vec![lit("C")]),
        directive("block", vec![lit("D")]),
        directive("rust_type", idents(&["R"])),
        directive("extern_rust_type", idents(&["S"])),
        directive("subclass", vec![lit("Base"), DirectiveArg::Comma, DirectiveArg::Ident("Sub".to_string())]),
        directive("parse_only", vec![]),
        directive("exclude_impls", vec![]),
        directive("name", idents(&["m"])),
        directive("exclude_utilities", vec![]),
        directive("safety", idents(&["unsafe_ffi"])),
    ];
    let c = IncludeCppConfig::parse(&ds).unwrap();
    assert_eq!(c.inclusions, words(&["a.h"]));
    assert!(matches!(&c.allowlist, Allowlist::Specific(v) if v == &words(&["A", "B"])));
    assert_eq!(c.pod_requests, words(&["B", "C"]));
    assert_eq!(c.blocklist, words(&["D"]));
    assert_eq!(c.rust_types, words(&["R", "S"]));
    assert_eq!(c.subclasses.len(), 1);
    assert_eq!(c.subclasses[0].superclass, "Base");
    assert_eq!(c.subclasses[0].subclass, "Sub");
    assert!(c.parse_only && c.exclude_impls && c.exclude_utilities);
    assert_eq!(c.mod_name, Some("m".to_string()));
    assert_eq!(c.unsafe_policy, UnsafePolicy::AllFunctionsSafe);
}

#[test]
fn directive_errors() {
    let bad_pound = vec![Directive { pound: true, name: "define".to_string(), args: vec![lit("X")] }];
    assert_eq!(IncludeCppConfig::parse(&bad_pound).err(), Some(ConfigError::ExpectedInclude));
    let conflict = vec![directive("generate", vec![lit("A")]), directive("generate_all", vec![])];
    assert_eq!(IncludeCppConfig::parse(&conflict).err(), Some(ConfigError::AllowlistConflict));
    let conflict2 = vec![directive("generate_all", vec![]), directive("generate_pod", vec![lit("A")])];
    assert_eq!(IncludeCppConfig::parse(&conflict2).err(), Some(ConfigError::AllowlistConflict));
    let args = vec![directive("parse_only", vec![lit("x")])];
    assert_eq!(IncludeCppConfig::parse(&args).err(), Some(ConfigError::ExpectedNoArguments));
    let shape = vec![directive("generate", idents(&["A"]))];
    assert_eq!(IncludeCppConfig::parse(&shape).err(), Some(ConfigError::MalformedArguments));
    let unknown = vec![directive("nested_type", vec![])];
    assert_eq!(IncludeCppConfig::parse(&unknown).err(), Some(ConfigError::UnknownDirective));
    let all = IncludeCppConfig::parse(&vec![directive("generate_all", vec![])]).unwrap();
    assert!(matches!(all.allowlist, Allowlist::All));
    let empty = IncludeCppConfig::parse(&vec![]).unwrap();
    assert!(matches!(empty.allowlist, Allowlist::Unspecified(_)));
    assert_eq!(empty.unsafe_policy, UnsafePolicy::AllFunctionsUnsafe);
}
