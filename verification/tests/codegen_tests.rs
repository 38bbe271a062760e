use glimmer_weave::ast::{AstNode, BinaryOperator, BorrowMode, MatchArm, Parameter, Pattern, StructField, TypeAnnotation};
use glimmer_weave::codegen::{compile_to_asm, CodeGen, Instruction};
use glimmer_weave::source_location::SourceSpan;

fn span() -> SourceSpan {
    SourceSpan::unknown()
}

#[test]
fn test_compile_number() {
    let ast = vec![AstNode::Number { value: "42".to_string(), span: span() }];
    let result = compile_to_asm(&ast);
    if let Err(e) = &result {
        println!("Compilation error: {}", e);
    }
    assert!(result.is_ok());
    let out = result.unwrap();
    assert!(out.contains("movq $42"));
}

#[test]
fn codegen_test_compile_arithmetic() {
    
    // 2 + 3
    let ast = vec![AstNode::BinaryOp {
        left: Box::new(AstNode::Number { value: "2".to_string(), span: span() }),
        op: BinaryOperator::Add,
        right: Box::new(AstNode::Number { value: "3".to_string(), span: span() }),
        span: span(),
    }];

    let result = compile_to_asm(&ast);
    assert!(result.is_ok());
}

#[test]
fn test_compile_comparison() {

    // 10 > 5
    let ast = vec![AstNode::BinaryOp {
        left: Box::new(AstNode::Number { value: "10".to_string(), span: span() }),
        op: BinaryOperator::Greater,
        right: Box::new(AstNode::Number { value: "5".to_string(), span: span() }),
        span: span(),
    }];

    let result = compile_to_asm(&ast);
    assert!(result.is_ok());
    let out = result.unwrap();
    // Should contain cmp and setg instructions
    assert!(out.contains("cmpq"));
    assert!(out.contains("setg"));
}

#[test]
fn test_compile_equality() {

    // 5 is 5
    let ast = vec![AstNode::BinaryOp {
        left: Box::new(AstNode::Number { value: "5".to_string(), span: span() }),
        op: BinaryOperator::Equal,
        right: Box::new(AstNode::Number { value: "5".to_string(), span: span() }),
        span: span(),
    }];

    let result = compile_to_asm(&ast);
    assert!(result.is_ok());
    let out = result.unwrap();
    // Should contain cmp and sete instructions
    assert!(out.contains("cmpq"));
    assert!(out.contains("sete"));
}

#[test]
fn test_compile_logical_and() {

    // 1 and 1
    let ast = vec![AstNode::BinaryOp {
        left: Box::new(AstNode::Number { value: "1".to_string(), span: span() }),
        op: BinaryOperator::And,
        right: Box::new(AstNode::Number { value: "1".to_string(), span: span() }),
        span: span(),
    }];

    let result = compile_to_asm(&ast);
    assert!(result.is_ok());
    let out = result.unwrap();
    // Should contain conditional jumps for short-circuit evaluation
    assert!(out.contains("cmpq"));
    assert!(out.contains("je") || out.contains("jne"));
}

#[test]
fn test_compile_modulo() {

    // 10 % 3
    let ast = vec![AstNode::BinaryOp {
        left: Box::new(AstNode::Number { value: "10".to_string(), span: span() }),
        op: BinaryOperator::Mod,
        right: Box::new(AstNode::Number { value: "3".to_string(), span: span() }),
        span: span(),
    }];

    let result = compile_to_asm(&ast);
    assert!(result.is_ok());
    let out = result.unwrap();
    // Should contain idiv instruction
    assert!(out.contains("idivq"));
}

#[test]
fn test_compile_if_stmt() {

    // should 1 > 0 then bind x to 42 end
    let ast = vec![AstNode::IfStmt {
        condition: Box::new(AstNode::BinaryOp {
            left: Box::new(AstNode::Number { value: "1".to_string(), span: span() }),
            op: BinaryOperator::Greater,
            right: Box::new(AstNode::Number { value: "0".to_string(), span: span() }),
            span: span(),
        }),
        then_branch: vec![AstNode::BindStmt {
            name: "x".to_string(),
            typ: None,
            value: Box::new(AstNode::Number { value: "42".to_string(), span: span() }),
            span: span(),
        }],
        else_branch: None,
        span: span(),
    }];

    let result = compile_to_asm(&ast);
    assert!(result.is_ok());
    let out = result.unwrap();
    // Should contain conditional jump and labels
    assert!(out.contains("cmpq"));
    assert!(out.contains("je"));
    assert!(out.contains(".L_if_end_"));
}

#[test]
fn test_compile_if_else_stmt() {

    // should 0 > 1 then bind x to 1 otherwise bind x to 2 end
    let ast = vec![AstNode::IfStmt {
        condition: Box::new(AstNode::BinaryOp {
            left: Box::new(AstNode::Number { value: "0".to_string(), span: span() }),
            op: BinaryOperator::Greater,
            right: Box::new(AstNode::Number { value: "1".to_string(), span: span() }),
            span: span(),
        }),
        then_branch: vec![AstNode::BindStmt {
            name: "x".to_string(),
            typ: None,
            value: Box::new(AstNode::Number { value: "1".to_string(), span: span() }),
            span: span(),
        }],
        else_branch: Some(vec![AstNode::BindStmt {
            name: "x".to_string(),
            typ: None,
            value: Box::new(AstNode::Number { value: "2".to_string(), span: span() }),
            span: span(),
        }]),
        span: span(),
    }];

    let result = compile_to_asm(&ast);
    assert!(result.is_ok());
    let out = result.unwrap();
    // Should contain else label and unconditional jump
    assert!(out.contains(".L_else_"));
    assert!(out.contains(".L_if_end_"));
    assert!(out.contains("jmp"));
}

#[test]
fn test_compile_while_stmt() {

    // bind x to 5
    // whilst x > 0 then set x to x - 1 end
    let ast = vec![
        AstNode::BindStmt {
            name: "x".to_string(),
            typ: None,
            value: Box::new(AstNode::Number { value: "5".to_string(), span: span() }),
            span: span(),
        },
        AstNode::WhileStmt {
            condition: Box::new(AstNode::BinaryOp {
                left: Box::new(AstNode::Ident { name: "x".to_string(), span: span() }),
                op: BinaryOperator::Greater,
                right: Box::new(AstNode::Number { value: "0".to_string(), span: span() }),
                span: span(),
            }),
            body: vec![AstNode::SetStmt {
                target: Box::new(AstNode::Ident { name: "x".to_string(), span: span() }),
                value: Box::new(AstNode::BinaryOp {
                    left: Box::new(AstNode::Ident { name: "x".to_string(), span: span() }),
                    op: BinaryOperator::Sub,
                    right: Box::new(AstNode::Number { value: "1".to_string(), span: span() }),
                    span: span(),
                }),
                span: span(),
            }],
            span: span(),
        },
    ];

    let result = compile_to_asm(&ast);
    assert!(result.is_ok());
    let out = result.unwrap();
    // Should contain loop labels and conditional/unconditional jumps
    assert!(out.contains(".L_while_start_"));
    assert!(out.contains(".L_while_end_"));
    assert!(out.contains("je"));
    assert!(out.contains("jmp"));
}

#[test]
fn test_compile_tco_tail_recursion() {
    
    // chant sum_to(n, acc) then
    //     should n at most 0 then
    //         yield acc
    //     otherwise
    //         yield sum_to(n - 1, acc + n)
    //     end
    // end
    let ast = vec![AstNode::ChantDef {
        name: "sum_to".to_string(),
        type_params: vec![],
        lifetime_params: vec![],
        params: vec![
            Parameter {  name: "n".to_string(), typ: None, is_variadic: false, borrow_mode: BorrowMode::Owned, lifetime: None },
            Parameter {  name: "acc".to_string(), typ: None, is_variadic: false, borrow_mode: BorrowMode::Owned, lifetime: None },
        ],
        return_type: None,
        body: vec![AstNode::IfStmt {
            condition: Box::new(AstNode::BinaryOp {
                left: Box::new(AstNode::Ident { name: "n".to_string(), span: span() }),
                op: BinaryOperator::LessEq,
                right: Box::new(AstNode::Number { value: "0".to_string(), span: span() }),
                span: span(),
            }),
            then_branch: vec![AstNode::YieldStmt {
                value: Box::new(AstNode::Ident { name: "acc".to_string(), span: span() }),
                span: span(),
            }],
            else_branch: Some(vec![AstNode::YieldStmt {
                value: Box::new(AstNode::Call {
                    callee: Box::new(AstNode::Ident { name: "sum_to".to_string(), span: span() }),
                    type_args: vec![],
                    args: vec![
                        AstNode::BinaryOp {
                            left: Box::new(AstNode::Ident { name: "n".to_string(), span: span() }),
                            op: BinaryOperator::Sub,
                            right: Box::new(AstNode::Number { value: "1".to_string(), span: span() }),
                            span: span(),
                        },
                        AstNode::BinaryOp {
                            left: Box::new(AstNode::Ident { name: "acc".to_string(), span: span() }),
                            op: BinaryOperator::Add,
                            right: Box::new(AstNode::Ident { name: "n".to_string(), span: span() }),
                            span: span(),
                        },
                    ],
                    span: span(),
                }),
                span: span(),
            }]),
            span: span(),
        }],
        span: span(),
    }];

    let result = compile_to_asm(&ast);
    assert!(result.is_ok());
    let out = result.unwrap();

    // Should contain function label
    assert!(out.contains(".L_func_sum_to"));

    // Should contain jmp for TCO (not call)
    // TCO converts recursive call to jump back to function start
    assert!(out.contains("jmp") || out.contains("ret"));
}

#[test]
fn test_compile_pattern_matching_literals() {

    // match 2 with
    //     when 1 then 100
    //     when 2 then 200
    //     otherwise then 999
    // end
    let ast = vec![AstNode::MatchStmt {
        value: Box::new(AstNode::Number { value: "2".to_string(), span: span() }),
        arms: vec![
            MatchArm {
                pattern: Pattern::Literal(AstNode::Number { value: "1".to_string(), span: span() }),
                body: vec![AstNode::Number { value: "100".to_string(), span: span() }],
            },
            MatchArm {
                pattern: Pattern::Literal(AstNode::Number { value: "2".to_string(), span: span() }),
                body: vec![AstNode::Number { value: "200".to_string(), span: span() }],
            },
            MatchArm {
                pattern: Pattern::Wildcard,
                body: vec![AstNode::Number { value: "999".to_string(), span: span() }],
            },
        ],
        span: span(),
    }];

    let result = compile_to_asm(&ast);
    if let Err(e) = &result {
        println!("Compilation error: {}", e);
    }
    assert!(result.is_ok());
    let out = result.unwrap();

    // Should contain comparison instruction
    assert!(out.contains("cmpq"));

    // Should contain conditional jump (jne)
    assert!(out.contains("jne"));

    // Should contain match labels
    assert!(out.contains(".L_match_"));
}

#[test]
fn codegen_test_compile_pattern_matching_with_binding() {

    // match 42 with
    //     when n then n * 2
    // end
    let ast = vec![AstNode::MatchStmt {
        value: Box::new(AstNode::Number { value: "42".to_string(), span: span() }),
        arms: vec![
            MatchArm {
                pattern: Pattern::Ident("n".to_string()),
                body: vec![AstNode::BinaryOp {
                    left: Box::new(AstNode::Ident { name: "n".to_string(), span: span() }),
                    op: BinaryOperator::Mul,
                    right: Box::new(AstNode::Number { value: "2".to_string(), span: span() }),
                    span: span(),
                }],
            },
        ],
        span: span(),
    }];

    let result = compile_to_asm(&ast);
    assert!(result.is_ok());
    let out = result.unwrap();

    // Should contain mov instructions for binding
    assert!(out.contains("movq"));
}

#[test]
fn test_compile_triumph_constructor() {

    // Triumph(42)
    let ast = vec![AstNode::Triumph { value: Box::new(AstNode::Number { value: "42".to_string(), span: span() }), span: span() }];

    let result = compile_to_asm(&ast);
    assert!(result.is_ok());
    let out = result.unwrap();

    // Should contain comment
    assert!(out.contains("Create Triumph variant"));

    // Should store tag=1 and value
    assert!(out.contains("movq $1"));
    assert!(out.contains("movq $42"));
}

#[test]
fn test_compile_mishap_constructor() {

    // Mishap(99)
    let ast = vec![AstNode::Mishap { value: Box::new(AstNode::Number { value: "99".to_string(), span: span() }), span: span() }];

    let result = compile_to_asm(&ast);
    assert!(result.is_ok());
    let out = result.unwrap();

    // Should contain comment
    assert!(out.contains("Create Mishap variant"));

    // Should store tag=0 and value
    assert!(out.contains("movq $0"));
    assert!(out.contains("movq $99"));
}

#[test]
fn test_compile_present_constructor() {

    // Present(123)
    let ast = vec![AstNode::Present { value: Box::new(AstNode::Number { value: "123".to_string(), span: span() }), span: span() }];

    let result = compile_to_asm(&ast);
    assert!(result.is_ok());
    let out = result.unwrap();

    // Should contain comment
    assert!(out.contains("Create Present variant"));

    // Should store tag=1 and value
    assert!(out.contains("movq $1"));
    assert!(out.contains("movq $123"));
}

#[test]
fn test_compile_absent_constructor() {

    // Absent
    let ast = vec![AstNode::Absent { span: span() }];

    let result = compile_to_asm(&ast);
    assert!(result.is_ok());
    let out = result.unwrap();

    // Should contain comment
    assert!(out.contains("Create Absent { span: SourceSpan::default() } variant"));

    // Should store tag=0
    assert!(out.contains("movq $0"));
}

#[test]
fn test_compile_outcome_pattern_match() {
    
    // bind result = Triumph(42)
    // match result with
    //     when Triumph(x) then x
    //     when Mishap(e) then 0
    // end
    let ast = vec![
        AstNode::BindStmt {
            name: "result".to_string(),
            typ: None,
            value: Box::new(AstNode::Triumph { value: Box::new(AstNode::Number { value: "42".to_string(), span: span() }), span: span() }),
            span: span(),
        },
        AstNode::MatchStmt {
            value: Box::new(AstNode::Ident { name: "result".to_string(), span: span() }),
            arms: vec![
                MatchArm {
                    pattern: Pattern::Enum {
                        variant: "Triumph".to_string(),
                        inner: Some(Box::new(Pattern::Ident("x".to_string()))),
                    },
                    body: vec![AstNode::Ident { name: "x".to_string(), span: span() }],
                },
                MatchArm {
                    pattern: Pattern::Enum {
                        variant: "Mishap".to_string(),
                        inner: Some(Box::new(Pattern::Ident("e".to_string()))),
                    },
                    body: vec![AstNode::Number { value: "0".to_string(), span: span() }],
                },
            ],
            span: span(),
        },
    ];

    let result = compile_to_asm(&ast);
    assert!(result.is_ok());
    let out = result.unwrap();

    // Should contain comments for variants
    assert!(out.contains("Match Triumph variant") || out.contains("Match"));

    // Should load tag from offset +8
    assert!(out.contains("8(%rax)"));

    // Should compare tag with expected values
    assert!(out.contains("cmpq"));

    // Should have conditional jumps
    assert!(out.contains("jne"));
}

#[test]
fn test_compile_maybe_pattern_match() {
    
    // bind option = Present(10)
    // match option with
    //     when Present(n) then n * 2
    //     when AstNode::Absent { span: span() } then 0
    // end
    let ast = vec![
        AstNode::BindStmt {
            name: "option".to_string(),
            typ: None,
            value: Box::new(AstNode::Present { value: Box::new(AstNode::Number { value: "10".to_string(), span: span() }), span: span() }),
            span: span(),
        },
        AstNode::MatchStmt {
            value: Box::new(AstNode::Ident { name: "option".to_string(), span: span() }),
            arms: vec![
                MatchArm {
                    pattern: Pattern::Enum {
                        variant: "Present".to_string(),
                        inner: Some(Box::new(Pattern::Ident("n".to_string()))),
                    },
                    body: vec![AstNode::BinaryOp {
                        left: Box::new(AstNode::Ident { name: "n".to_string(), span: span() }),
                        op: BinaryOperator::Mul,
                        right: Box::new(AstNode::Number { value: "2".to_string(), span: span() }),
                        span: span(),
                    }],
                },
                MatchArm {
                    pattern: Pattern::Enum {
                        variant: "Absent".to_string(),
                        inner: None,
                    },
                    body: vec![AstNode::Number { value: "0".to_string(), span: span() }],
                },
            ],
            span: span(),
        },
    ];

    let result = compile_to_asm(&ast);
    assert!(result.is_ok());
    let out = result.unwrap();

    // Should contain pattern matching logic
    assert!(out.contains("cmpq"));
    assert!(out.contains("jne") || out.contains("jmp"));

    // Should load from enum structure
    assert!(out.contains("(%rax)"));
}

#[test]
fn test_compile_string_literal_codegen() {

    // Test string literal generates correct code
    let ast = vec![AstNode::Text { value: "Hello, World!".to_string(), span: span() }];

    let result = compile_to_asm(&ast);
    assert!(result.is_ok(), "String literal compilation failed: {:?}", result);
    let out = result.unwrap();

    // Verify .data section is emitted
    assert!(out.contains(".data"), "Should have .data section");
    assert!(out.contains(".L_string_data_"), "Should have string label");
    assert!(out.contains(".ascii"), "Should use .ascii directive");
    assert!(out.contains("Hello, World!"), "Should contain string data");

    // Verify code loads string length into %r10
    assert!(out.contains("$13") && out.contains("%r10"),
            "Should load length 13 into %r10");

    // Verify code uses LEA to load string address
    assert!(out.contains("leaq"), "Should use leaq instruction");
    assert!(out.contains("%r11"), "Should load address into %r11");

    // Verify code calls gl_malloc via gen_string_alloc
    assert!(out.contains("gl_malloc"), "Should call gl_malloc");
}

// === Module System Tests (Phase 6: Native Codegen Support) ===

#[test]
fn codegen_test_module_declaration_unsupported() {
    // Module declarations should return a clear error
    let ast = vec![AstNode::ModuleDecl {
        name: "Math".to_string(),
        body: vec![],
        exports: vec!["add".to_string()],
        span: span(),
    }];

    let result = compile_to_asm(&ast);
    assert!(result.is_err(), "Module declarations should fail in native codegen");

    let err = result.unwrap_err();
    assert!(err.contains("Module declarations not supported"), "Error should explain limitation");
    assert!(err.contains("Math"), "Error should mention module name");
    assert!(err.contains("multi-file compilation"), "Error should explain requirement");
    assert!(err.contains("interpreter"), "Error should suggest workaround");
}

#[test]
fn codegen_test_import_unsupported() {
    // Module imports should return a clear error
    let ast = vec![AstNode::Import {
        module_name: "Math".to_string(),
        path: "std/math.gw".to_string(),
        items: None,
        alias: None,
        span: span(),
    }];

    let result = compile_to_asm(&ast);
    assert!(result.is_err(), "Module imports should fail in native codegen");

    let err = result.unwrap_err();
    assert!(err.contains("Module imports not supported"), "Error should explain limitation");
    assert!(err.contains("Math"), "Error should mention module name");
    assert!(err.contains("std/math.gw"), "Error should mention path");
    assert!(err.contains("runtime module resolution"), "Error should explain requirement");
    assert!(err.contains("interpreter"), "Error should suggest workaround");
}

#[test]
fn codegen_test_export_unsupported() {
    // Export statements should return a clear error
    let ast = vec![AstNode::Export {
        items: vec!["add".to_string(), "mul".to_string()],
        span: span(),
    }];

    let result = compile_to_asm(&ast);
    assert!(result.is_err(), "Module exports should fail in native codegen");

    let err = result.unwrap_err();
    assert!(err.contains("Module exports not supported"), "Error should explain limitation");
    assert!(err.contains("add"), "Error should mention exported items");
    assert!(err.contains("symbol export"), "Error should explain requirement");
    assert!(err.contains("interpreter"), "Error should suggest workaround");
}

#[test]
fn test_module_qualified_access_unsupported() {
    // Module-qualified access should return a clear error
    let ast = vec![AstNode::ModuleAccess {
        module: "Math".to_string(),
        member: "add".to_string(),
        span: span(),
    }];

    let result = compile_to_asm(&ast);
    assert!(result.is_err(), "Module-qualified access should fail in native codegen");

    let err = result.unwrap_err();
    assert!(err.contains("Module-qualified access not supported"), "Error should explain limitation");
    assert!(err.contains("Math.add"), "Error should mention qualified name");
    assert!(err.contains("runtime symbol resolution"), "Error should explain requirement");
    assert!(err.contains("interpreter"), "Error should suggest workaround");
    assert!(err.contains("bytecode VM"), "Error should suggest VM as alternative");
}

fn num(n: &str) -> AstNode {
    AstNode::Number { value: n.to_string(), span: span() }
}

fn ident(n: &str) -> AstNode {
    AstNode::Ident { name: n.to_string(), span: span() }
}

#[test]
fn bind_then_read_uses_the_same_slot() {
    let ast = vec![
        AstNode::BindStmt { name: "x".to_string(), typ: None, value: Box::new(num("7")), span: span() },
        ident("x"),
    ];
    let mut g = CodeGen::new();
    let code: Vec<String> = g.compile(&ast).unwrap().iter().map(|i| i.to_asm()).collect();
    assert_eq!(code, vec![
        "main:".to_string(),
        "    pushq %rbp".to_string(),
        "    movq %rsp, %rbp".to_string(),
        "    movq $7, %rax".to_string(),
        "    movq %rax, -8(%rbp)".to_string(),
        "    movq -8(%rbp), %rax".to_string(),
        "    movq %rbp, %rsp".to_string(),
        "    popq %rbp".to_string(),
        "    ret".to_string(),
    ]);
}

#[test]
fn whole_assembly_file_for_a_number() {
    let out = compile_to_asm(&[num("5")]).unwrap();
    assert_eq!(
        out,
        ".text\n.globl main\n\n    # External runtime functions (custom allocator in native_allocator.S)\n.globl gl_malloc\n.globl gl_free\n\nmain:\n    pushq %rbp\n    movq %rsp, %rbp\n    movq $5, %rax\n    movq %rbp, %rsp\n    popq %rbp\n    ret\n"
    );
}

#[test]
fn number_literals_use_their_whole_part() {
    assert!(compile_to_asm(&[num("3.75")]).unwrap().contains("movq $3, %rax"));
    assert!(compile_to_asm(&[num("99999999999999999999")]).unwrap().contains("movq $9223372036854775807, %rax"));
}

#[test]
fn undefined_variable_is_an_error() {
    assert_eq!(compile_to_asm(&[ident("ghost")]), Err("Undefined variable: ghost".to_string()));
}

#[test]
fn assignment_to_a_field_is_refused() {
    let set = AstNode::SetStmt {
        target: Box::new(AstNode::FieldAccess { object: Box::new(ident("p")), field: "x".to_string(), span: span() }),
        value: Box::new(num("1")),
        span: span(),
    };
    let err = compile_to_asm(&[set]).unwrap_err();
    assert!(err.starts_with("Index and field assignment not supported in native codegen"));
}

#[test]
fn unsupported_expression_names_itself() {
    let err = compile_to_asm(&[AstNode::Truth { value: true, span: span() }]).unwrap_err();
    assert!(err.starts_with("Expression codegen not implemented: "));
}

#[test]
fn labels_are_numbered_in_order() {
    let cond = || AstNode::BinaryOp { left: Box::new(num("1")), op: BinaryOperator::Less, right: Box::new(num("2")), span: span() };
    let ast = vec![
        AstNode::WhileStmt { condition: Box::new(cond()), body: vec![], span: span() },
        AstNode::IfStmt { condition: Box::new(cond()), then_branch: vec![], else_branch: None, span: span() },
    ];
    let out = compile_to_asm(&ast).unwrap();
    assert!(out.contains(".L_while_start_0:"));
    assert!(out.contains(".L_if_end_1:"));
}

#[test]
fn struct_literal_and_field_access() {
    let def = AstNode::FormDef {
        name: "Point".to_string(),
        type_params: vec![],
        fields: vec![
            StructField { name: "x".to_string(), typ: TypeAnnotation::Named("Number".to_string()) },
            StructField { name: "y".to_string(), typ: TypeAnnotation::Named("Number".to_string()) },
        ],
        span: span(),
    };
    let lit = AstNode::StructLiteral {
        struct_name: "Point".to_string(),
        type_args: vec![],
        fields: vec![("y".to_string(), num("4")), ("x".to_string(), num("3"))],
        span: span(),
    };
    let bind = AstNode::BindStmt { name: "p".to_string(), typ: None, value: Box::new(lit), span: span() };
    let access = AstNode::FieldAccess { object: Box::new(ident("p")), field: "y".to_string(), span: span() };
    let out = compile_to_asm(&[def, bind, access]).unwrap();
    assert!(out.contains("    # Struct definition: Point"));
    assert!(out.contains("    movq $16, %rdi"));
    assert!(out.contains("    movq %rax, 8(%rbx)"));
    assert!(out.contains("    movq %rax, 0(%rbx)"));
    assert!(out.contains("    # Assuming struct type: Point (field index: 1)"));
    assert!(out.contains("    movq 8(%rax), %rax"));
    let missing = AstNode::StructLiteral { struct_name: "Nope".to_string(), type_args: vec![], fields: vec![], span: span() };
    assert_eq!(compile_to_asm(&[missing]), Err("Undefined struct: Nope".to_string()));
}

#[test]
fn text_length_counts_bytes() {
    let out = compile_to_asm(&[AstNode::Text { value: "héllo".to_string(), span: span() }]).unwrap();
    assert!(out.contains("    movq $6, %r10"));
    assert!(out.contains(".L_string_data_0:\n    .ascii \"héllo\"\n"));
}

#[test]
fn unknown_enum_variant_is_an_error() {
    let m = AstNode::MatchStmt {
        value: Box::new(num("1")),
        arms: vec![MatchArm { pattern: Pattern::Enum { variant: "Maybe".to_string(), inner: None }, body: vec![] }],
        span: span(),
    };
    assert_eq!(compile_to_asm(&[m]), Err("Unknown enum variant: Maybe".to_string()));
}

#[test]
fn instruction_copy_is_equal() {
    let i = Instruction::Mov("$1".to_string(), "%rax".to_string());
    assert_eq!(i.duplicate(), i);
}

#[test]
fn a_program_without_text_has_no_data_section() {
    let ast = vec![AstNode::BinaryOp {
        left: Box::new(AstNode::Number { value: "1".to_string(), span: span() }),
        op: BinaryOperator::Add,
        right: Box::new(AstNode::Number { value: "2".to_string(), span: span() }),
        span: span(),
    }];
    let out = compile_to_asm(&ast).unwrap();
    assert!(out.starts_with(".text\n.globl main\n\n"));
    assert!(!out.contains(".data"));
}

#[test]
fn a_program_with_text_has_a_data_section() {
    let ast = vec![AstNode::Text { value: "hi".to_string(), span: span() }];
    let out = compile_to_asm(&ast).unwrap();
    assert!(out.starts_with(".data\n"));
}
