use glimmer_weave::codegen::Instruction;
use glimmer_weave::native_runtime::NativeRuntime;

#[test]
fn test_gen_malloc_call() {
    let code = NativeRuntime::gen_malloc_call();
    assert!(code.len() >= 1);

    // Should contain call to gl_malloc
    assert!(code.iter().any(|inst| {
        matches!(inst, Instruction::Call(name) if name == "gl_malloc")
    }));
}

#[test]
fn test_gen_struct_alloc() {
    let code = NativeRuntime::gen_struct_alloc(3);

    // Should calculate size (3 fields * 8 bytes = 24)
    assert!(code.iter().any(|inst| {
        matches!(inst, Instruction::Mov(src, dst)
            if src == "$24" && dst == "%rdi")
    }));

    // Should call gl_malloc
    assert!(code.iter().any(|inst| {
        matches!(inst, Instruction::Call(name) if name == "gl_malloc")
    }));
}

#[test]
fn test_gen_struct_field_load() {
    let code = NativeRuntime::gen_struct_field_load(2);

    // Should load from offset 16 (field 2 * 8 bytes)
    assert!(code.iter().any(|inst| {
        matches!(inst, Instruction::Mov(src, dst)
            if src == "16(%rax)" && dst == "%rax")
    }));
}

#[test]
fn test_gen_struct_field_store() {
    let code = NativeRuntime::gen_struct_field_store(1);

    // Should store to offset 8 (field 1 * 8 bytes)
    assert!(code.iter().any(|inst| {
        matches!(inst, Instruction::Mov(src, dst)
            if src == "%rax" && dst == "8(%rbx)")
    }));
}

#[test]
fn test_gen_external_declarations() {
    let decls = NativeRuntime::gen_external_declarations();

    assert!(decls.contains("gl_malloc"));
    assert!(decls.contains("gl_free"));
    assert!(decls.contains(".globl"));
}

#[test]
fn test_compile_struct_codegen_produces_malloc_calls() {
    // Test 1: Verify gen_struct_alloc generates correct code
    let alloc_code = NativeRuntime::gen_struct_alloc(2);
    let asm_str = alloc_code.iter()
        .map(|inst| format!("{:?}", inst))
        .collect::<Vec<_>>()
        .join("\n");

    assert!(asm_str.contains("16") || asm_str.contains("$16"),
            "Should allocate 16 bytes for 2 fields");
    assert!(asm_str.contains("gl_malloc"),
            "Should call gl_malloc");

    // Test 2: Verify gen_struct_field_load generates correct offset
    let load_code = NativeRuntime::gen_struct_field_load(1);
    let load_asm = load_code.iter()
        .map(|inst| format!("{:?}", inst))
        .collect::<Vec<_>>()
        .join("\n");

    assert!(load_asm.contains("8") && load_asm.contains("rax"),
            "Should load from offset 8 (field 1)");

    // Test 3: Verify gen_struct_field_store generates correct offset
    let store_code = NativeRuntime::gen_struct_field_store(1);
    let store_asm = store_code.iter()
        .map(|inst| format!("{:?}", inst))
        .collect::<Vec<_>>()
        .join("\n");

    assert!(store_asm.contains("8") && store_asm.contains("rbx"),
            "Should store to offset 8 (field 1)");
}

#[test]
fn test_string_allocation_runtime_codegen() {
    // Test that gen_string_alloc generates complete memcpy code
    let alloc_code = NativeRuntime::gen_string_alloc();
    let asm_str = alloc_code.iter()
        .map(|inst| inst.to_asm())
        .collect::<Vec<_>>()
        .join("\n");

    // Verify malloc call
    assert!(asm_str.contains("gl_malloc"), "Should call gl_malloc");

    // Verify length prefix is stored
    assert!(asm_str.contains("0(%rax)"), "Should store length at offset 0");

    // Verify memcpy loop exists
    assert!(asm_str.contains(".L_string_copy_loop"), "Should have copy loop label");
    assert!(asm_str.contains(".L_string_copy_done"), "Should have done label");

    // Verify loop uses counter
    assert!(asm_str.contains("%rcx"), "Should use rcx as counter");
    assert!(asm_str.contains("incq"), "Should increment counter");

    // Verify byte-by-byte copy
    assert!(asm_str.contains("(%r11"), "Should read from source");
    assert!(asm_str.contains("(%rax"), "Should write to destination");
}

#[test]
fn struct_alloc_exact_sequence() {
    let code = NativeRuntime::gen_struct_alloc(3);
    let text: Vec<String> = code.iter().map(|i| i.to_asm()).collect();
    assert_eq!(text, vec![
        "    # Allocate struct with 3 fields (24 bytes)".to_string(),
        "    movq $24, %rdi".to_string(),
        "    # Allocate heap memory via gl_malloc".to_string(),
        "    call gl_malloc".to_string(),
        "    # Allocated pointer now in rax".to_string(),
        "    # Check for allocation failure".to_string(),
        "    cmpq $0, %rax".to_string(),
    ]);
}

#[test]
fn struct_free_and_field_access() {
    let free: Vec<String> = NativeRuntime::gen_struct_free().iter().map(|i| i.to_asm()).collect();
    assert_eq!(free, vec![
        "    # Free struct memory".to_string(),
        "    movq %rax, %rdi".to_string(),
        "    # Free heap memory via gl_free".to_string(),
        "    call gl_free".to_string(),
    ]);
    let load: Vec<String> = NativeRuntime::gen_struct_field_load(0).iter().map(|i| i.to_asm()).collect();
    assert_eq!(load, vec!["    # Load struct field 0 (offset 0)".to_string(), "    movq 0(%rax), %rax".to_string()]);
    let store: Vec<String> = NativeRuntime::gen_struct_field_store(12).iter().map(|i| i.to_asm()).collect();
    assert_eq!(store, vec!["    # Store to struct field 12 (offset 96)".to_string(), "    movq %rax, 96(%rbx)".to_string()]);
    assert!(NativeRuntime::new().init_code.is_empty());
}
