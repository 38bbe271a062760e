use glimmer_weave::ast::AstNode;
use glimmer_weave::bytecode::Instruction;
use glimmer_weave::bytecode_compiler::{
    compile, compile_checked, BytecodeCompiler, CompileError, CompileStop, CompiledChunk, ConstantValue,
};
use glimmer_weave::lexer::Lexer;
use glimmer_weave::parser::Parser;
use glimmer_weave::source_location::{SourceLocation, SourceSpan};
use glimmer_weave::token::{PositionedToken, Span};

fn compile_source(source: &str) -> Result<CompiledChunk, CompileError> {
    let mut lexer = Lexer::new(source);
    let tokens: Vec<PositionedToken> = lexer
        .tokenize()
        .into_iter()
        .enumerate()
        .map(|(i, token)| PositionedToken { token, span: Span::new(1, i + 1) })
        .collect();
    let ast = Parser::new(tokens).parse().expect("Parse failed");
    compile(&ast)
}

fn span() -> SourceSpan {
    let loc = SourceLocation { line: 1, column: 1 };
    SourceSpan { start: loc, end: loc }
}

fn number_is(c: &ConstantValue, expected: f64) -> bool {
    match c {
        ConstantValue::Number(text) => text.parse::<f64>().unwrap() == expected,
        _ => false,
    }
}

fn text_is(c: &ConstantValue, expected: &str) -> bool {
    match c {
        ConstantValue::Text(text) => text == expected,
        _ => false,
    }
}

#[test]
fn test_compile_simple_number() {
    let chunk = compile_source("42").expect("Compile failed");
    assert!(chunk.instructions.len() > 0);
    assert_eq!(chunk.constants.len(), 1);
    assert!(number_is(&chunk.constants[0], 42.0));
}

#[test]
fn bytecode_compiler_test_compile_arithmetic() {
    let chunk = compile_source("10 + 20").expect("Compile failed");
    // Should have: LOAD_CONST, LOAD_CONST, ADD_NUM, HALT
    assert!(chunk.instructions.len() >= 3);
}

#[test]
fn test_compile_bind() {
    let chunk = compile_source("bind x to 42").expect("Compile failed");
    // Should have: LOAD_CONST, DEF_GLOBAL, HALT
    assert!(chunk.instructions.len() >= 2);
}

#[test]
fn test_compile_if_statement() {
    let chunk = compile_source(
        r#"
            should true then
                42
            end
        "#,
    )
    .expect("Compile failed");
    // Should have jumps and conditional logic
    assert!(chunk.instructions.len() >= 4);
}

#[test]
fn test_compile_while_loop() {
    let chunk = compile_source(
        r#"
            weave i as 0
            whilst i less than 10 then
                set i to i + 1
            end
        "#,
    )
    .expect("Compile failed");
    // Should have jumps for loop
    assert!(chunk.instructions.len() >= 5);
}

#[test]
fn test_compile_tco_recursion() {
    let chunk = compile_source(
        r#"
            chant sum_to(n, acc) then
                should n at most 0 then
                    yield acc
                otherwise
                    yield sum_to(n - 1, acc + n)
                end
            end
        "#,
    )
    .expect("Compile failed");

    // Should have Jump instruction for TCO (not Call+Return)
    let has_jump_back = chunk
        .instructions
        .iter()
        .any(|inst| matches!(inst, Instruction::Jump { offset } if *offset < 0));
    assert!(has_jump_back, "TCO should emit a backwards jump");
}

#[test]
fn test_compile_pattern_matching() {
    let chunk = compile_source(
        r#"
            bind x to 2

            match x with
                when 1 then "one"
                when 2 then "two"
                when 3 then "three"
                otherwise then "other"
            end
        "#,
    )
    .expect("Compile failed");

    let has_eq = chunk.instructions.iter().any(|inst| matches!(inst, Instruction::Eq { .. }));
    let has_jump_if_false = chunk.instructions.iter().any(|inst| matches!(inst, Instruction::JumpIfFalse { .. }));

    assert!(has_eq, "Pattern matching should emit Eq instruction");
    assert!(has_jump_if_false, "Pattern matching should emit JumpIfFalse");
}

#[test]
fn bytecode_compiler_test_compile_pattern_matching_with_binding() {
    let chunk = compile_source(
        r#"
            bind x to 42

            match x with
                when 0 then "zero"
                when n then n * 2
            end
        "#,
    )
    .expect("Compile failed");

    let has_store_local = chunk.instructions.iter().any(|inst| matches!(inst, Instruction::StoreLocal { .. }));
    assert!(has_store_local, "Pattern binding should emit StoreLocal");
}

// The lexer has no module keywords, so the module tests build their
// statements directly.

#[test]
fn bytecode_compiler_test_module_declaration_unsupported() {
    let add = AstNode::ChantDef {
        name: "add".to_string(),
        type_params: vec![],
        lifetime_params: vec![],
        params: vec![],
        return_type: None,
        body: vec![],
        span: span(),
    };
    let decl = AstNode::ModuleDecl {
        name: "Math".to_string(),
        body: vec![add],
        exports: vec!["add".to_string()],
        span: span(),
    };
    let result = compile(&[decl]);

    assert!(result.is_err(), "Module declarations should fail in bytecode compiler");
    let err = result.unwrap_err();
    match err {
        CompileError::UnsupportedFeature(msg) => {
            assert!(msg.contains("Module"), "Error should mention module");
            assert!(msg.contains("Math"), "Error should mention module name");
        }
        _ => panic!("Expected UnsupportedFeature error, got: {:?}", err),
    }
}

#[test]
fn bytecode_compiler_test_import_unsupported() {
    let import = AstNode::Import {
        module_name: "Math".to_string(),
        path: "std/math.gw".to_string(),
        items: None,
        alias: None,
        span: span(),
    };
    let result = compile(&[import]);

    assert!(result.is_err(), "Module imports should fail in bytecode compiler");
    let err = result.unwrap_err();
    match err {
        CompileError::UnsupportedFeature(msg) => {
            assert!(msg.contains("import"), "Error should mention import");
            assert!(msg.contains("Math"), "Error should mention module name");
        }
        _ => panic!("Expected UnsupportedFeature error, got: {:?}", err),
    }
}

#[test]
fn bytecode_compiler_test_export_unsupported() {
    let export = AstNode::Export { items: vec!["add".to_string(), "mul".to_string()], span: span() };
    let result = compile(&[export]);

    assert!(result.is_err(), "Module exports should fail in bytecode compiler");
    let err = result.unwrap_err();
    match err {
        CompileError::UnsupportedFeature(msg) => {
            assert!(msg.contains("export"), "Error should mention export");
        }
        _ => panic!("Expected UnsupportedFeature error, got: {:?}", err),
    }
}

#[test]
fn test_module_qualified_access_compiles() {
    let ast = vec![AstNode::ModuleAccess { module: "Math".to_string(), member: "add".to_string(), span: span() }];

    let mut compiler = BytecodeCompiler::new("test".to_string());
    let result = compiler.compile(&ast);

    assert!(result.is_ok(), "Module-qualified access should compile");
    let chunk = result.unwrap();
    let has_load_global = chunk.instructions.iter().any(|inst| matches!(inst, Instruction::LoadGlobal { .. }));
    assert!(has_load_global, "Should emit LoadGlobal for qualified access");
    assert!(text_is(&chunk.constants[0], "Math.add"));
    assert_eq!(chunk.name, "test");
}

#[test]
fn compiles_a_number_to_exact_code() {
    let chunk = compile_source("42").unwrap();
    assert_eq!(chunk.instructions, vec![Instruction::LoadConst { dest: 0, constant_id: 0 }, Instruction::Halt]);
    assert_eq!(chunk.lines, vec![0, 0]);
    assert_eq!(chunk.name, "main");
    assert_eq!(chunk.param_count, 0);
}

#[test]
fn compiles_a_global_binding_to_exact_code() {
    let chunk = compile_source("bind x to 1").unwrap();
    assert_eq!(
        chunk.instructions,
        vec![
            Instruction::LoadConst { dest: 0, constant_id: 0 },
            Instruction::DefineGlobal { name_id: 1, src: 0 },
            Instruction::Halt,
        ]
    );
    assert_eq!(chunk.constants.len(), 2);
    assert!(number_is(&chunk.constants[0], 1.0));
    assert!(text_is(&chunk.constants[1], "x"));
}

#[test]
fn equal_constants_share_one_pool_entry() {
    let chunk = compile_source("bind x to 7\nbind y to 7").unwrap();
    assert_eq!(chunk.constants.len(), 3);
    assert!(number_is(&chunk.constants[0], 7.0));
    assert!(text_is(&chunk.constants[1], "x"));
    assert!(text_is(&chunk.constants[2], "y"));
}

#[test]
fn an_undefined_variable_is_reported() {
    match compile_source("missing + 1") {
        Err(CompileError::UndefinedVariable(name)) => assert_eq!(name, "missing"),
        other => panic!("expected an undefined variable, got {:?}", other),
    }
}

#[test]
fn a_conditional_jumps_over_its_branches() {
    let chunk = compile_source("should true then 1 otherwise 2 end").unwrap();
    // cond, jump-if-false, then, jump, else, halt
    let jif = chunk.instructions.iter().position(|i| matches!(i, Instruction::JumpIfFalse { .. })).unwrap();
    let jmp = chunk.instructions.iter().position(|i| matches!(i, Instruction::Jump { .. })).unwrap();
    match chunk.instructions[jif] {
        Instruction::JumpIfFalse { offset, .. } => assert_eq!(jif as i64 + 1 + offset as i64, jmp as i64 + 1),
        _ => unreachable!(),
    }
    match chunk.instructions[jmp] {
        Instruction::Jump { offset } => {
            assert_eq!(jmp as i64 + 1 + offset as i64, chunk.instructions.len() as i64 - 1)
        }
        _ => unreachable!(),
    }
    assert_eq!(*chunk.instructions.last().unwrap(), Instruction::Halt);
}

#[test]
fn a_loop_jumps_back_to_its_condition() {
    let chunk = compile_source("weave i as 0\nwhilst i less than 3 then set i to i + 1 end").unwrap();
    let back = chunk
        .instructions
        .iter()
        .enumerate()
        .find_map(|(k, i)| match i {
            Instruction::Jump { offset } if *offset < 0 => Some((k, *offset)),
            _ => None,
        })
        .unwrap();
    // The loop starts right after the binding (load, define).
    assert_eq!(back.0 as i64 + 1 + back.1 as i64, 2);
}

#[test]
fn an_attempt_block_cannot_be_compiled() {
    let attempt = AstNode::AttemptStmt { body: vec![], handlers: vec![], span: span() };
    assert!(matches!(compile_checked(&[attempt]), Err(CompileStop::Abort)));
}

#[test]
fn a_function_is_reached_by_its_offset() {
    let chunk = compile_source("chant one() then yield 1 end\none()").unwrap();
    assert!(chunk.instructions.iter().any(|i| matches!(i, Instruction::Call { .. })));
    assert!(chunk.constants.iter().any(|c| matches!(c, ConstantValue::Number(t) if t == "0")));
}
