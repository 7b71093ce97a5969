use assert_fs::prelude::{FileWriteStr, PathChild};
use assert_fs::TempDir;
use nmt::disk::canonicalize_path;
use nmt::module_graph::Visitor;
use nmt::specifier::ModuleSpecifier;
use oxc_allocator::Allocator;
use oxc_ast::ast::Expression;
use oxc_ast_visit::Visit;
use oxc_parser::{ParseOptions, Parser};
use oxc_span::SourceType;

const LEGIT_ESM: &str = "import path from 'path';\n\nimport('stream');\nimport.meta.resolve('fs');\n\nexport default function (file) {\n    return path.extname(file) === '.md';\n}\n";

const LEGIT_CJS: &str = "(function () {\n    let path = require('path');\n    require.resolve('stream');\n    require('depd')('body-parser');\n    path.join(require('module'));\n})();\n\nmodule.exports = function (file) {\n    return path.extname(file) === '.md';\n};\n";

const UNLEGIT_MIN: &str = "export { fastify } from 'fastify';\nexport * from 'stream';\n";

const INDEX_JS: &str = "const legit = require('ilteoood');\nlegit('README.md');\n";

const ILTEOOOD_MANIFEST: &str = "{\"name\":\"ilteoood\",\"main\":\"legit.js\"}\n";

struct Collector {
    collected: Vec<(String, bool)>,
}

impl Collector {
    fn insert_first_argument(&mut self, it: &oxc_ast::ast::CallExpression, is_cjs: bool) {
        if let Some(Expression::StringLiteral(lit)) = &it.arguments[0].as_expression() {
            self.collected.push((lit.value.to_string(), is_cjs));
        }
    }

    fn deep_call_expression<'a>(&mut self, it: &oxc_ast::ast::CallExpression<'a>) {
        self.visit_expression(it.callee.get_inner_expression());
        self.visit_arguments(&it.arguments);
    }
}

impl<'a> Visit<'a> for Collector {
    fn visit_import_declaration(&mut self, it: &oxc_ast::ast::ImportDeclaration<'a>) {
        self.collected.push((it.source.to_string(), false));
    }

    fn visit_call_expression(&mut self, it: &oxc_ast::ast::CallExpression<'a>) {
        match it.common_js_require() {
            Some(lit) => self.collected.push((lit.value.to_string(), true)),
            None => match &it.callee {
                Expression::StaticMemberExpression(static_member_expression) => {
                    if it.callee.is_specific_member_access("require", "resolve") {
                        self.insert_first_argument(it, true);
                    } else if let Expression::MetaProperty(meta_property) =
                        &static_member_expression.object
                    {
                        if meta_property.meta.name.as_str() == "import"
                            && meta_property.property.name.as_str() == "meta"
                            && it.callee_name() == Some("resolve")
                        {
                            self.insert_first_argument(it, false);
                        }
                    } else {
                        self.deep_call_expression(it);
                    }
                }
                _ => self.deep_call_expression(it),
            },
        }
    }

    fn visit_export_named_declaration(&mut self, it: &oxc_ast::ast::ExportNamedDeclaration<'a>) {
        if let Some(source) = it.source.as_ref() {
            self.collected.push((source.to_string(), false));
        }
    }

    fn visit_export_all_declaration(&mut self, it: &oxc_ast::ast::ExportAllDeclaration<'a>) {
        self.collected.push((it.source.to_string(), false));
    }

    fn visit_import_expression(&mut self, it: &oxc_ast::ast::ImportExpression<'a>) {
        if let Expression::StringLiteral(source_lit) = &it.source {
            self.collected.push((source_lit.value.to_string(), false));
        }
    }
}

fn collect_specifiers(path: &str, source: &str) -> Vec<ModuleSpecifier> {
    let source_type = SourceType::from_path(path).unwrap();
    let allocator = Allocator::default();
    let parsed = Parser::new(&allocator, source, source_type)
        .with_options(ParseOptions {
            parse_regular_expression: true,
            ..ParseOptions::default()
        })
        .parse();
    let mut collector = Collector { collected: Vec::new() };
    collector.visit_program(&parsed.program);
    collector
        .collected
        .into_iter()
        .map(|(name, is_cjs)| ModuleSpecifier { name, is_cjs })
        .collect()
}

fn pending_pairs(visitor: &Visitor) -> Vec<(String, bool)> {
    let mut pairs: Vec<(String, bool)> = visitor
        .pending_modules()
        .iter()
        .map(|m| (m.name.clone(), m.is_cjs))
        .collect();
    pairs.sort();
    pairs
}

fn visit_one_file(source: &str, file_name: &str) -> Visitor {
    let temp = TempDir::new().unwrap().into_persistent();
    temp.child(file_name).write_str(source).unwrap();
    let path = canonicalize_path(temp.child(file_name).path().to_str().unwrap()).unwrap();
    let mut visitor = Visitor::from_seeds(vec![path]);
    let current = visitor.next_file().unwrap();
    visitor.visit_collected(collect_specifiers(current.as_str(), source));
    visitor
}

#[test]
fn module_graph_test_esm_specifier() {
    let visitor = visit_one_file(LEGIT_ESM, "legit.esm.js");
    assert_eq!(
        pending_pairs(&visitor),
        vec![
            ("fs".to_string(), false),
            ("path".to_string(), false),
            ("stream".to_string(), false),
        ]
    );
}

#[test]
fn test_esm_export() {
    let visitor = visit_one_file(UNLEGIT_MIN, "unlegit.min.js");
    assert_eq!(
        pending_pairs(&visitor),
        vec![("fastify".to_string(), false), ("stream".to_string(), false)]
    );
}

#[test]
fn module_graph_test_cjs_specifier() {
    let visitor = visit_one_file(LEGIT_CJS, "legit.js");
    assert_eq!(
        pending_pairs(&visitor),
        vec![
            ("depd".to_string(), true),
            ("module".to_string(), true),
            ("path".to_string(), true),
            ("stream".to_string(), true),
        ]
    );
}

#[test]
fn test_same_name_under_both_conditions_is_two_specifiers() {
    let visitor = visit_one_file(
        "import 'dual';\nrequire('dual');\n",
        "both.js",
    );
    assert_eq!(
        pending_pairs(&visitor),
        vec![("dual".to_string(), false), ("dual".to_string(), true)]
    );
}

#[test]
fn test_insert_module_deduplicates() {
    let temp = TempDir::new().unwrap().into_persistent();
    temp.child("a.js").write_str("1;").unwrap();
    let path = canonicalize_path(temp.child("a.js").path().to_str().unwrap()).unwrap();
    let mut visitor = Visitor::from_seeds(vec![path]);
    assert!(visitor.insert_module("depd".to_string(), true));
    assert!(!visitor.insert_module("depd".to_string(), true));
    assert!(visitor.insert_module("depd".to_string(), false));
    assert_eq!(visitor.pending_modules().len(), 2);
    temp.close().unwrap();
}

#[test]
fn test_new_canonicalizes_entry_points() {
    let temp = TempDir::new().unwrap().into_persistent();
    temp.child("dist/index.js").write_str("1;").unwrap();
    let cli = nmt::configurations::Cli {
        project_root_location: temp.path().to_str().unwrap().to_string(),
        entry_point_location: vec!["dist/index.js".to_string()],
        ..nmt::configurations::Cli::default()
    };
    let visitor = Visitor::new(&cli).unwrap();
    let expected =
        canonicalize_path(temp.child("dist/index.js").path().to_str().unwrap()).unwrap();
    assert_eq!(visitor.paths_found(), &vec![expected.clone()]);
    assert!(expected.starts_with('/'));
    temp.close().unwrap();
}

#[test]
fn test_new_seeds_keep_glob_matches() {
    let temp = TempDir::new().unwrap().into_persistent();
    temp.child("dist/index.js").write_str("1;").unwrap();
    temp.child("data/extra.js").write_str("1;").unwrap();
    let cli = nmt::configurations::Cli {
        project_root_location: temp.path().to_str().unwrap().to_string(),
        entry_point_location: vec!["dist/index.js".to_string()],
        keep: Some(vec!["data/*.js".to_string()]),
        ..nmt::configurations::Cli::default()
    };
    let visitor = Visitor::new(&cli).unwrap();
    let entry = canonicalize_path(temp.child("dist/index.js").path().to_str().unwrap()).unwrap();
    let kept = canonicalize_path(temp.child("data/extra.js").path().to_str().unwrap()).unwrap();
    assert!(visitor.paths_found().contains(&entry));
    assert!(visitor.paths_found().contains(&kept));
    temp.close().unwrap();
}

#[test]
fn test_new_rejects_missing_entry_point() {
    let temp = TempDir::new().unwrap().into_persistent();
    let cli = nmt::configurations::Cli {
        project_root_location: temp.path().to_str().unwrap().to_string(),
        entry_point_location: vec!["no/such/file.js".to_string()],
        ..nmt::configurations::Cli::default()
    };
    assert!(matches!(
        Visitor::new(&cli),
        Err(nmt::module_graph::VisitorError::EntryPointNotCanonical)
    ));
    temp.close().unwrap();
}

#[test]
fn test_new_rejects_bad_keep_pattern() {
    let temp = TempDir::new().unwrap().into_persistent();
    temp.child("dist/index.js").write_str("1;").unwrap();
    let cli = nmt::configurations::Cli {
        project_root_location: temp.path().to_str().unwrap().to_string(),
        entry_point_location: vec!["dist/index.js".to_string()],
        keep: Some(vec!["[".to_string()]),
        ..nmt::configurations::Cli::default()
    };
    assert!(matches!(
        Visitor::new(&cli),
        Err(nmt::module_graph::VisitorError::InvalidKeepPattern)
    ));
    temp.close().unwrap();
}

#[test]
fn module_graph_test_resolve() {
    let temp = TempDir::new().unwrap().into_persistent();
    temp.child("tests/index.js").write_str(INDEX_JS).unwrap();
    temp.child("tests/node_modules/ilteoood/package.json")
        .write_str(ILTEOOOD_MANIFEST)
        .unwrap();
    temp.child("tests/node_modules/ilteoood/legit.js")
        .write_str(LEGIT_CJS)
        .unwrap();
    temp.child("tests/node_modules/ilteoood/legit.esm.js")
        .write_str(LEGIT_ESM)
        .unwrap();
    temp.child("tests/node_modules/ilteoood/unlegit.min.js")
        .write_str(UNLEGIT_MIN)
        .unwrap();

    let index = canonicalize_path(temp.child("tests/index.js").path().to_str().unwrap()).unwrap();
    let legit =
        canonicalize_path(temp.child("tests/node_modules/ilteoood/legit.js").path().to_str().unwrap())
            .unwrap();
    let manifest = canonicalize_path(
        temp.child("tests/node_modules/ilteoood/package.json").path().to_str().unwrap(),
    )
    .unwrap();

    let sources = vec![(index.clone(), INDEX_JS), (legit.clone(), LEGIT_CJS)];
    let mut visitor = Visitor::from_seeds(vec![index.clone()]);
    while let Some(current) = visitor.next_file() {
        let source = sources
            .iter()
            .find(|(path, _)| *path == current)
            .map(|(_, source)| *source)
            .unwrap();
        visitor.visit_collected(collect_specifiers(current.as_str(), source));
        visitor.resolve_modules_to_visit();
    }

    let mut found = visitor.paths_found().clone();
    found.sort();
    let mut expected = vec![index, legit, manifest];
    expected.sort();
    assert_eq!(found, expected);
    temp.close().unwrap();
}
