use glimmer_weave::bytecode::{disassemble_chunk, disassemble_instruction, patch_jump, Instruction};

#[test]
fn test_patch_jump() {
    let mut instructions = vec![
        Instruction::Jump { offset: 0 },
        Instruction::LoadConst { dest: 0, constant_id: 0 },
        Instruction::LoadConst { dest: 1, constant_id: 1 },
        Instruction::Return { value: 0 },
    ];

    // Patch jump from 0 to 3 (skip two instructions)
    patch_jump(&mut instructions, 0, 3);

    if let Instruction::Jump { offset } = instructions[0] {
        assert_eq!(offset, 2);
    } else {
        panic!("Expected Jump instruction");
    }
}

#[test]
fn test_disassembler() {
    let constants = vec![format!("{:?}", ConstantForTest::Number(42.0))];
    let instructions = vec![Instruction::LoadConst { dest: 0, constant_id: 0 }, Instruction::Return { value: 0 }];
    let lines = vec![1, 2];

    let output = disassemble_chunk("test_function", 0, 0, &constants, &instructions, &lines);

    assert!(output.contains("test_function"));
    assert!(output.contains("LOAD_CONST"));
    assert!(output.contains("RETURN"));
}

/// The constant pool's entries are shown by their `Debug` text.
#[derive(Debug)]
enum ConstantForTest {
    Number(f64),
}

#[test]
fn disassembler_listing_is_exact() {
    let constants = vec!["Number(42.0)".to_string()];
    let instructions = vec![Instruction::LoadConst { dest: 0, constant_id: 0 }, Instruction::Return { value: 0 }];
    let lines = vec![1, 2];
    let output = disassemble_chunk("test_function", 0, 0, &constants, &instructions, &lines);
    assert_eq!(
        output,
        "==== test_function ====\n\
         Parameters: 0\n\
         Locals: 0\n\
         Constants: 1\n\
         Instructions: 2\n\
         \n\
         Constants:\n  #0: Number(42.0)\n\
         \n\
         Code:\n\
         0000    1 LOAD_CONST     r0 <- #0 (Some(Number(42.0)))\n\
         0001    2 RETURN         r0\n"
    );
}

#[test]
fn disassembler_shows_missing_constant_as_none() {
    let constants: Vec<String> = vec![];
    let instructions = vec![Instruction::LoadConst { dest: 3, constant_id: 7 }];
    let lines = vec![12345];
    let output = disassemble_chunk("f", 2, 5, &constants, &instructions, &lines);
    assert_eq!(
        output,
        "==== f ====\nParameters: 2\nLocals: 5\nConstants: 0\nInstructions: 1\n\nConstants:\n\nCode:\n\
         0000 12345 LOAD_CONST     r3 <- #7 (None)\n"
    );
}

#[test]
fn patch_jump_backwards_and_conditional() {
    let mut instructions = vec![
        Instruction::LoadTruth { dest: 0, value: true },
        Instruction::JumpIfFalse { cond: 0, offset: 0 },
        Instruction::JumpIfTrue { cond: 1, offset: 0 },
    ];
    patch_jump(&mut instructions, 1, 3);
    patch_jump(&mut instructions, 2, 0);
    assert_eq!(instructions[1], Instruction::JumpIfFalse { cond: 0, offset: 1 });
    assert_eq!(instructions[2], Instruction::JumpIfTrue { cond: 1, offset: -3 });
    assert_eq!(instructions[0], Instruction::LoadTruth { dest: 0, value: true });
}

#[test]
fn disassemble_single_instructions() {
    assert_eq!(disassemble_instruction(&Instruction::Move { dest: 1, src: 2 }, ""), "MOVE           r1 <- r2");
    assert_eq!(disassemble_instruction(&Instruction::Return { value: 9 }, ""), "RETURN         r9");
    assert_eq!(
        disassemble_instruction(&Instruction::LoadConst { dest: 0, constant_id: 4 }, "Some(Text(\"a\"))"),
        "LOAD_CONST     r0 <- #4 (Some(Text(\"a\")))"
    );
}
