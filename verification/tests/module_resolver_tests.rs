use glimmer_weave::ast::AstNode;
use glimmer_weave::module_resolver::{ModuleResolver, ResolverError};
use glimmer_weave::source_location::SourceSpan;

fn resolver() -> ModuleResolver {
    ModuleResolver::new("/project".to_string(), "/usr/lib/glimmer-weave/std".to_string())
}

fn texts(items: &[&str]) -> Vec<String> {
    items.iter().map(|s| s.to_string()).collect()
}

#[test]
fn test_new_resolver() {
    let resolver = resolver();

    assert_eq!(resolver.project_root, "/project");
    assert_eq!(resolver.stdlib_path, "/usr/lib/glimmer-weave/std");
    assert_eq!(resolver.module_cache.len(), 0);
}

#[test]
fn test_resolve_stdlib_path() {
    let resolver = resolver();

    let resolved = resolver.resolve_path("std/math.gw", None).unwrap();
    assert_eq!(resolved, "/usr/lib/glimmer-weave/std/std/math.gw");
}

#[test]
fn test_resolve_project_path() {
    let resolver = resolver();

    let resolved = resolver.resolve_path("lib/utils.gw", None).unwrap();
    assert_eq!(resolved, "/project/lib/utils.gw");
}

#[test]
fn test_resolve_relative_path() {
    let resolver = resolver();

    let resolved = resolver.resolve_path("./utils.gw", Some("/project/lib/main.gw")).unwrap();
    assert_eq!(resolved, "/project/lib/./utils.gw");
}

#[test]
fn test_module_name_from_path() {
    assert_eq!(ModuleResolver::module_name_from_path("std/math.gw"), "math");
    assert_eq!(ModuleResolver::module_name_from_path("math.gw"), "math");
    assert_eq!(ModuleResolver::module_name_from_path("lib/utils/helpers.gw"), "helpers");
}

#[test]
fn test_circular_dependency_detection() {
    let mut resolver = resolver();

    resolver.add_dependencies("a.gw".to_string(), texts(&["b.gw"]));
    resolver.add_dependencies("b.gw".to_string(), texts(&["c.gw"]));
    resolver.add_dependencies("c.gw".to_string(), texts(&["a.gw"]));

    let result = resolver.check_circular_dependencies();
    assert!(result.is_err());

    if let Err(ResolverError::CircularDependency { cycle }) = result {
        assert!(cycle.len() >= 3);
        assert!(cycle.contains(&"a.gw".to_string()));
    } else {
        panic!("Expected CircularDependency error");
    }
}

#[test]
fn test_no_circular_dependency() {
    let mut resolver = resolver();

    resolver.add_dependencies("a.gw".to_string(), texts(&["b.gw"]));
    resolver.add_dependencies("b.gw".to_string(), texts(&["c.gw"]));
    resolver.add_dependencies("c.gw".to_string(), vec![]);

    let result = resolver.check_circular_dependencies();
    assert!(result.is_ok());
}

#[test]
fn circular_dependency_reports_exact_cycle_from_first_module() {
    let mut resolver = resolver();
    resolver.add_dependencies("c.gw".to_string(), texts(&["a.gw"]));
    resolver.add_dependencies("a.gw".to_string(), texts(&["b.gw"]));
    resolver.add_dependencies("b.gw".to_string(), texts(&["c.gw"]));

    let result = resolver.check_circular_dependencies();
    assert_eq!(
        result,
        Err(ResolverError::CircularDependency { cycle: texts(&["a.gw", "b.gw", "c.gw"]) })
    );
}

#[test]
fn self_import_is_a_cycle_of_one() {
    let mut resolver = resolver();
    resolver.add_dependencies("a.gw".to_string(), texts(&["b.gw"]));
    resolver.add_dependencies("b.gw".to_string(), texts(&["b.gw"]));

    let result = resolver.check_circular_dependencies();
    assert_eq!(result, Err(ResolverError::CircularDependency { cycle: texts(&["b.gw"]) }));
}

#[test]
fn later_dependencies_replace_earlier_ones() {
    let mut resolver = resolver();
    resolver.add_dependencies("a.gw".to_string(), texts(&["a.gw"]));
    assert!(resolver.check_circular_dependencies().is_err());
    resolver.add_dependencies("a.gw".to_string(), texts(&["b.gw"]));
    assert!(resolver.check_circular_dependencies().is_ok());
}

#[test]
fn diamond_dependencies_are_not_a_cycle() {
    let mut resolver = resolver();
    resolver.add_dependencies("a.gw".to_string(), texts(&["b.gw", "c.gw"]));
    resolver.add_dependencies("b.gw".to_string(), texts(&["d.gw"]));
    resolver.add_dependencies("c.gw".to_string(), texts(&["d.gw"]));
    resolver.add_dependencies("d.gw".to_string(), vec![]);
    assert_eq!(resolver.check_circular_dependencies(), Ok(()));
}

#[test]
fn clear_cache_forgets_the_graph() {
    let mut resolver = resolver();
    resolver.add_dependencies("a.gw".to_string(), texts(&["a.gw"]));
    resolver.clear_cache();
    assert_eq!(resolver.check_circular_dependencies(), Ok(()));
    assert_eq!(resolver.loaded_modules().len(), 0);
}

#[test]
fn relative_path_without_importer_is_invalid() {
    let resolver = resolver();
    let result = resolver.resolve_path("../lib/utils.gw", None);
    assert_eq!(
        result,
        Err(ResolverError::InvalidPath {
            path: "../lib/utils.gw".to_string(),
            reason: "Relative path used but no importer specified".to_string(),
        })
    );
}

#[test]
fn relative_path_from_file_without_directory() {
    let resolver = resolver();
    let resolved = resolver.resolve_path("../x.gw", Some("main.gw")).unwrap();
    assert_eq!(resolved, "./../x.gw");
    assert_eq!(ModuleResolver::resolve_relative("b.gw", "/a/c.gw"), "/a/b.gw");
}

#[test]
fn module_name_trims_every_trailing_extension() {
    assert_eq!(ModuleResolver::module_name_from_path("dir/a.gw.gw"), "a");
    assert_eq!(ModuleResolver::module_name_from_path("dir/readme"), "readme");
    assert_eq!(ModuleResolver::module_name_from_path("dir/"), "");
}

#[test]
fn extract_module_info_collects_name_imports_and_exports() {
    let ast = vec![
        AstNode::ModuleDecl {
            name: "Math".to_string(),
            body: vec![],
            exports: texts(&["sqrt"]),
            span: SourceSpan::unknown(),
        },
        AstNode::Import {
            module_name: "Util".to_string(),
            path: "lib/util.gw".to_string(),
            items: None,
            alias: None,
            span: SourceSpan::unknown(),
        },
        AstNode::Export { items: texts(&["pow", "abs"]), span: SourceSpan::unknown() },
        AstNode::Import {
            module_name: "Io".to_string(),
            path: "std/io.gw".to_string(),
            items: Some(texts(&["print"])),
            alias: None,
            span: SourceSpan::unknown(),
        },
    ];
    let info = ModuleResolver::extract_module_info("src/math.gw", ast).unwrap();
    assert_eq!(info.path, "src/math.gw");
    assert_eq!(info.name, "Math");
    assert_eq!(info.dependencies, texts(&["lib/util.gw", "std/io.gw"]));
    assert_eq!(info.exports, texts(&["sqrt", "pow", "abs"]));
    assert_eq!(info.ast.len(), 4);
}

#[test]
fn extract_module_info_names_module_after_file_without_declaration() {
    let info = ModuleResolver::extract_module_info("lib/helpers.gw", vec![]).unwrap();
    assert_eq!(info.name, "helpers");
    assert!(info.dependencies.is_empty());
    assert!(info.exports.is_empty());
}

#[test]
fn get_module_on_empty_cache_is_none() {
    let resolver = resolver();
    assert!(resolver.get_module("std/math.gw").is_none());
}

/// Token `i` of the source is given column `i + 1` on line 1.
fn positioned(source: &str) -> Vec<glimmer_weave::token::PositionedToken> {
    let mut lexer = glimmer_weave::lexer::Lexer::new(source);
    lexer
        .tokenize()
        .into_iter()
        .enumerate()
        .map(|(i, token)| glimmer_weave::token::PositionedToken { token, span: glimmer_weave::token::Span::new(1, i + 1) })
        .collect()
}

#[test]
fn load_module_parses_and_caches() {
    let mut resolver = ModuleResolver::new("/project".to_string(), "/stdlib".to_string());
    assert_eq!(resolver.load_module("lib/util.gw", positioned("bind x to 1\nbind y to 2")), Ok(()));
    let info = resolver.get_module("lib/util.gw").expect("module is cached");
    assert_eq!(info.name, "util");
    assert_eq!(info.path, "lib/util.gw");
    assert_eq!(info.ast.len(), 2);
    assert!(info.dependencies.is_empty());
    assert!(info.exports.is_empty());
    // Loading it again changes nothing.
    assert_eq!(resolver.load_module("lib/util.gw", positioned("x")), Ok(()));
    assert_eq!(resolver.loaded_modules().len(), 1);
    assert_eq!(resolver.get_module("lib/util.gw").map(|m| m.ast.len()), Some(2));
    assert_eq!(resolver.check_circular_dependencies(), Ok(()));
}

#[test]
fn load_module_reports_parse_errors_and_then_a_cycle() {
    let mut resolver = ModuleResolver::new("/project".to_string(), "/stdlib".to_string());
    let error = "ParseError { message: \"Expected identifier after 'bind'\", position: 1 }".to_string();
    assert_eq!(
        resolver.load_module("bad.gw", positioned("bind 5 to 1")),
        Err(ResolverError::ParseError { path: "bad.gw".to_string(), error }),
    );
    assert!(resolver.get_module("bad.gw").is_none());
    // The module that failed is still being loaded, so loading it again is a cycle.
    assert_eq!(
        resolver.load_module("bad.gw", positioned("x")),
        Err(ResolverError::CircularDependency { cycle: vec!["bad.gw".to_string(), "bad.gw".to_string()] }),
    );
    resolver.clear_cache();
    assert_eq!(resolver.load_module("bad.gw", positioned("x")), Ok(()));
}

#[test]
fn loaded_modules_are_in_order_of_path() {
    let mut resolver = ModuleResolver::new("/project".to_string(), "/stdlib".to_string());
    assert_eq!(resolver.load_module("b.gw", positioned("x")), Ok(()));
    assert_eq!(resolver.load_module("c.gw", positioned("y")), Ok(()));
    assert_eq!(resolver.load_module("a.gw", positioned("z")), Ok(()));
    let paths: Vec<&str> = resolver.loaded_modules().iter().map(|(p, _)| p.as_str()).collect();
    assert_eq!(paths, vec!["a.gw", "b.gw", "c.gw"]);
    assert_eq!(resolver.get_module("c.gw").map(|m| m.name.as_str()), Some("c"));
}
