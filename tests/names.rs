use pod_analysis::api::{Api, ApiName, UnanalyzedApi};
use pod_analysis::checker::{contains_name, find_api, has_distinct_names};
use pod_analysis::names::{Namespace, QualifiedName};
use pod_analysis::usage::ffi_reference;

fn qn(ns: &[&str], id: &str) -> QualifiedName {
    QualifiedName::new(Namespace::new(ns.iter().map(|s| s.to_string()).collect()), id.to_string())
}

fn func(ns: &[&str], id: &str) -> UnanalyzedApi {
    Api::Function { name: ApiName { name: qn(ns, id), nested: false } }
}

#[test]
fn qualified_names_render_and_compare() {
    assert_eq!(qn(&["a", "b"], "C").to_cpp_name(), "a::b::C");
    assert_eq!(qn(&[], "C").to_cpp_name(), "C");
    assert!(qn(&["a"], "C").equals(&qn(&["a"], "C")));
    assert!(!qn(&["a"], "C").equals(&qn(&["b"], "C")));
    assert!(!qn(&["a"], "C").equals(&qn(&["a", "b"], "C")));
    assert!(!qn(&["a"], "C").equals(&qn(&["a"], "D")));
    let c = qn(&["x", "y"], "Z").clone_name();
    assert_eq!(c, qn(&["x", "y"], "Z"));
    assert_eq!(c.get_final_ident(), "Z");
    assert_eq!(c.get_namespace().segments, vec!["x".to_string(), "y".to_string()]);
}

#[test]
fn name_lookups() {
    let apis = vec![func(&[], "f"), func(&["n"], "f")];
    assert!(has_distinct_names(&apis));
    assert_eq!(find_api(&apis, &qn(&["n"], "f")), Some(1));
    assert_eq!(find_api(&apis, &qn(&["m"], "f")), None);
    let dup = vec![func(&[], "f"), func(&["n"], "g"), func(&[], "f")];
    assert!(!has_distinct_names(&dup));
    let names = vec![qn(&[], "A"), qn(&["s"], "B")];
    assert!(contains_name(&names, &qn(&["s"], "B")));
    assert!(!contains_name(&names, &qn(&[], "B")));
}

#[test]
fn ffi_paths_name_generated_items() {
    let path = |s: &[&str]| s.iter().map(|x| x.to_string()).collect::<Vec<String>>();
    assert_eq!(ffi_reference(&path(&["ffi", "a", "b", "xxx"])), Some("a::b::xxx".to_string()));
    assert_eq!(ffi_reference(&path(&["ffi", "xxx"])), Some("xxx".to_string()));
    assert_eq!(ffi_reference(&path(&["ffi"])), Some(String::new()));
    assert_eq!(ffi_reference(&path(&["std", "ffi", "x"])), None);
    assert_eq!(ffi_reference(&path(&[])), None);
}
