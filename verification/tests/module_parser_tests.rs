use glimmer_weave::ast::{AstNode, TypeAnnotation};
use glimmer_weave::lexer::Lexer;
use glimmer_weave::parser::{ParseError, Parser};
use glimmer_weave::token::{PositionedToken, Span, Token};

/// The lexer reads the module and trait keywords as identifiers; the
/// parser is given their keyword tokens. Token `i` of the source is given column `i + 1`.
fn module_tokens(source: &str) -> Vec<PositionedToken> {
    let mut lexer = Lexer::new(source);
    lexer
        .tokenize()
        .into_iter()
        .map(|t| match t {
            Token::Ident(ref w) if w == "grove" => Token::Grove,
            Token::Ident(ref w) if w == "summon" => Token::Summon,
            Token::Ident(ref w) if w == "gather" => Token::Gather,
            Token::Ident(ref w) if w == "offer" => Token::Offer,
            Token::Ident(ref w) if w == "from" => Token::From,
            Token::Ident(ref w) if w == "aspect" => Token::Aspect,
            Token::Ident(ref w) if w == "embody" => Token::Embody,
            other => other,
        })
        .enumerate()
        .map(|(i, token)| PositionedToken { token, span: Span::new(1, i + 1) })
        .collect()
}

fn parse_single_statement(source: &str) -> Result<AstNode, ParseError> {
    let mut statements = Parser::new(module_tokens(source)).parse()?;
    assert_eq!(statements.len(), 1);
    Ok(statements.remove(0))
}

// === Module Declaration Tests ===

#[test]
fn test_parse_module_decl_simple() {
    let source = r#"
grove Math with
    chant add(a, b) then
        yield a + b
    end
    offer add
end
        "#;

    let result = parse_single_statement(source);
    assert!(result.is_ok(), "Failed to parse module declaration: {:?}", result);

    if let Ok(AstNode::ModuleDecl { name, body, exports, .. }) = result {
        assert_eq!(name, "Math");
        assert_eq!(body.len(), 2); // chant def + export
        assert_eq!(exports.len(), 1);
        assert_eq!(exports[0], "add");
    } else {
        panic!("Expected ModuleDecl, got: {:?}", result);
    }
}

#[test]
fn test_parse_module_decl_empty() {
    let source = r#"
grove Empty with
end
        "#;

    let result = parse_single_statement(source);
    assert!(result.is_ok(), "Failed to parse empty module: {:?}", result);

    if let Ok(AstNode::ModuleDecl { name, body, exports, .. }) = result {
        assert_eq!(name, "Empty");
        assert_eq!(body.len(), 0);
        assert_eq!(exports.len(), 0);
    } else {
        panic!("Expected ModuleDecl, got: {:?}", result);
    }
}

// === Import Tests ===

#[test]
fn test_parse_summon_with_path() {
    let source = r#"summon Math from "std/math.gw""#;

    let result = parse_single_statement(source);
    assert!(result.is_ok(), "Failed to parse summon statement: {:?}", result);

    if let Ok(AstNode::Import { module_name, path, items, alias, .. }) = result {
        assert_eq!(module_name, "Math"); // Module name from "summon Math"
        assert_eq!(path, "std/math.gw");
        assert!(items.is_none());
        assert!(alias.is_none());
    } else {
        panic!("Expected Import, got: {:?}", result);
    }
}

#[test]
fn test_parse_summon_with_alias() {
    let source = r#"summon Math from "std/math.gw" as M"#;

    let result = parse_single_statement(source);
    assert!(result.is_ok(), "Failed to parse summon with alias: {:?}", result);

    if let Ok(AstNode::Import { module_name, path, items, alias, .. }) = result {
        assert_eq!(module_name, "Math"); // Module name from "summon Math"
        assert_eq!(path, "std/math.gw");
        assert!(items.is_none());
        assert_eq!(alias, Some("M".to_string()));
    } else {
        panic!("Expected Import, got: {:?}", result);
    }
}

#[test]
fn test_parse_gather_specific_items() {
    let source = r#"gather sqrt, pow from Math"#;

    let result = parse_single_statement(source);
    assert!(result.is_ok(), "Failed to parse gather statement: {:?}", result);

    if let Ok(AstNode::Import { module_name, path, items, alias, .. }) = result {
        assert_eq!(module_name, "Math");
        assert_eq!(path, "Math.gw");
        assert_eq!(items, Some(vec!["sqrt".to_string(), "pow".to_string()]));
        assert!(alias.is_none());
    } else {
        panic!("Expected Import, got: {:?}", result);
    }
}

// === Export Tests ===

#[test]
fn test_parse_export_single_item() {
    let source = r#"offer sqrt"#;

    let result = parse_single_statement(source);
    assert!(result.is_ok(), "Failed to parse export: {:?}", result);

    if let Ok(AstNode::Export { items, .. }) = result {
        assert_eq!(items.len(), 1);
        assert_eq!(items[0], "sqrt");
    } else {
        panic!("Expected Export, got: {:?}", result);
    }
}

#[test]
fn test_parse_export_multiple_items() {
    let source = r#"offer sqrt, pow, abs"#;

    let result = parse_single_statement(source);
    assert!(result.is_ok(), "Failed to parse export: {:?}", result);

    if let Ok(AstNode::Export { items, .. }) = result {
        assert_eq!(items.len(), 3);
        assert_eq!(items, vec!["sqrt".to_string(), "pow".to_string(), "abs".to_string()]);
    } else {
        panic!("Expected Export, got: {:?}", result);
    }
}

// === Integration Test ===

#[test]
fn test_parse_complete_module() {
    let source = r#"
grove Math with
    chant sqrt(x) then
        yield x * 0.5
    end

    chant pow(base, exp) then
        yield base * exp
    end

    chant _helper() then
        yield 42
    end

    offer sqrt, pow
end
        "#;

    let result = parse_single_statement(source);
    assert!(result.is_ok(), "Failed to parse complete module: {:?}", result);

    if let Ok(AstNode::ModuleDecl { name, body, exports, .. }) = result {
        assert_eq!(name, "Math");
        assert_eq!(body.len(), 4); // 3 functions + 1 export statement
        assert_eq!(exports, vec!["sqrt".to_string(), "pow".to_string()]);

        // Verify first function is sqrt
        if let AstNode::ChantDef { name, .. } = &body[0] {
            assert_eq!(name, "sqrt");
        } else {
            panic!("Expected ChantDef for sqrt");
        }

        // Verify export statement is last
        if let AstNode::Export { items, .. } = &body[3] {
            assert_eq!(items, &vec!["sqrt".to_string(), "pow".to_string()]);
        } else {
            panic!("Expected Export statement");
        }
    } else {
        panic!("Expected ModuleDecl, got: {:?}", result);
    }
}

#[test]
fn summon_from_a_path_names_the_module_after_its_file() {
    match parse_single_statement(r#"summon from "lib/geometry.gw""#) {
        Ok(AstNode::Import { module_name, path, .. }) => {
            assert_eq!(module_name, "geometry");
            assert_eq!(path, "lib/geometry.gw");
        }
        other => panic!("Expected Import, got: {:?}", other),
    }
}

#[test]
fn an_export_needs_a_name() {
    match parse_single_statement("offer 3") {
        Err(e) => {
            assert_eq!(e.message, "Expected identifier in export list");
            assert_eq!(e.position, 1);
        }
        other => panic!("Expected an error, got: {:?}", other),
    }
}

#[test]
fn a_module_needs_a_name() {
    match parse_single_statement("grove 3 with end") {
        Err(e) => assert_eq!(e.message, "Expected module name after 'grove'"),
        other => panic!("Expected an error, got: {:?}", other),
    }
}

#[test]
fn an_aspect_lists_method_signatures() {
    let source = r#"
aspect Container<T> then
    chant add(self, item: T) -> Number
    chant size(self)
end
"#;
    match parse_single_statement(source) {
        Ok(AstNode::AspectDef { name, type_params, methods, .. }) => {
            assert_eq!(name, "Container");
            assert_eq!(type_params, vec!["T".to_string()]);
            assert_eq!(methods.len(), 2);
            assert_eq!(methods[0].name, "add");
            assert_eq!(methods[0].params.len(), 2);
            assert_eq!(methods[0].params[0].name, "self");
            assert_eq!(methods[0].params[1].name, "item");
            assert_eq!(methods[0].params[1].typ, Some(TypeAnnotation::Generic("T".to_string())));
            assert_eq!(methods[0].return_type, Some(TypeAnnotation::Named("Number".to_string())));
            assert_eq!(methods[1].params.len(), 1);
            assert_eq!(methods[1].return_type, None);
        }
        other => panic!("Expected AspectDef, got: {:?}", other),
    }
}

#[test]
fn an_aspect_method_starts_with_self() {
    match parse_single_statement("aspect Show then\nchant show(x)\nend") {
        Err(e) => assert_eq!(e.message, "Trait methods must have 'self' as first parameter"),
        other => panic!("Expected an error, got: {:?}", other),
    }
}

#[test]
fn an_embodiment_holds_its_methods() {
    let source = r#"
embody Show for Number then
    chant show(self) then
        yield "n"
    end
end
"#;
    match parse_single_statement(source) {
        Ok(AstNode::EmbodyStmt { aspect_name, type_args, target_type, methods, .. }) => {
            assert_eq!(aspect_name, "Show");
            assert!(type_args.is_empty());
            assert_eq!(target_type, TypeAnnotation::Named("Number".to_string()));
            assert_eq!(methods.len(), 1);
            assert!(matches!(&methods[0], AstNode::ChantDef { name, .. } if name == "show"));
        }
        other => panic!("Expected EmbodyStmt, got: {:?}", other),
    }
}
