use nmt::module_graph::Visitor;
use nmt::specifier::{classify, is_asset_specifier, is_builtin_module, is_local_module, SpecifierKind};

#[test]
fn test_classify_local() {
    assert_eq!(classify("./lib/util"), SpecifierKind::Local);
    assert_eq!(classify("../sibling"), SpecifierKind::Local);
}

#[test]
fn test_classify_builtin() {
    assert_eq!(classify("node:fs"), SpecifierKind::Builtin);
}

#[test]
fn test_classify_bare() {
    assert_eq!(classify("fastify"), SpecifierKind::Bare);
    assert_eq!(classify("path"), SpecifierKind::Bare);
    assert_eq!(classify("@scope/pkg"), SpecifierKind::Bare);
}

#[test]
fn test_classify_asset_wins_over_local() {
    assert_eq!(classify("./config.json"), SpecifierKind::Asset);
    assert_eq!(classify("pkg/addon.node"), SpecifierKind::Asset);
}

#[test]
fn test_asset_suffix_is_case_insensitive() {
    assert!(is_asset_specifier("./CONFIG.JSON"));
    assert!(is_asset_specifier("addon.NoDe"));
    assert!(!is_asset_specifier("jsonish"));
    assert!(!is_asset_specifier("a.json5"));
}

#[test]
fn test_local_shape() {
    assert!(is_local_module("./a"));
    assert!(is_local_module("../a"));
    assert!(!is_local_module(".hidden"));
    assert!(!is_local_module("lodash"));
}

#[test]
fn test_builtin_shape() {
    assert!(is_builtin_module("node:path"));
    assert!(!is_builtin_module("node_fetch"));
}

#[test]
fn test_condition_names_cjs() {
    let names = Visitor::build_condition_names(true);
    assert_eq!(names, vec!["node".to_string(), "require".to_string()]);
}

#[test]
fn test_condition_names_esm() {
    let names = Visitor::build_condition_names(false);
    assert_eq!(names, vec!["node".to_string(), "import".to_string()]);
}
