//! Heap allocation and memory management primitives for generated x86-64
//! code: calls into the `gl_malloc` / `gl_free` allocator, struct and
//! string allocation, and struct field access.
//!
//! Structs are laid out as consecutive 8-byte fields; strings as an 8-byte
//! length followed by the character data.

use vstd::prelude::*;
use crate::codegen::{Instruction, InstructionOf, InstructionView, code_view};
use crate::text::{push_str, usize_to_string, spec_decimal};

verus! {

/// The runtime's declarations in the assembly header.
pub open spec fn external_declarations_text() -> Seq<char> {
    "    # External runtime functions (custom allocator in native_allocator.S)\n.globl gl_malloc\n.globl gl_free\n\n"@
}

/// Code calling `gl_malloc` (size in %rdi, pointer back in %rax).
pub open spec fn malloc_call_code() -> Seq<InstructionView> {
    seq![
        InstructionOf::Comment("Allocate heap memory via gl_malloc"@),
        InstructionOf::Call("gl_malloc"@),
        InstructionOf::Comment("Allocated pointer now in rax"@),
    ]
}

/// Code calling `gl_free` (pointer in %rdi).
pub open spec fn free_call_code() -> Seq<InstructionView> {
    seq![InstructionOf::Comment("Free heap memory via gl_free"@), InstructionOf::Call("gl_free"@)]
}

/// Code allocating a struct of `n` fields of 8 bytes; the pointer is left in %rax.
pub open spec fn struct_alloc_code(n: nat) -> Seq<InstructionView> {
    seq![
        InstructionOf::Comment(
            "Allocate struct with "@ + spec_decimal(n) + " fields ("@ + spec_decimal(8 * n) + " bytes)"@,
        ),
        InstructionOf::Mov("$"@ + spec_decimal(8 * n), "%rdi"@),
    ] + malloc_call_code() + seq![
        InstructionOf::Comment("Check for allocation failure"@),
        InstructionOf::Cmp("$0"@, "%rax"@),
    ]
}

/// Code copying a string (length in %r10, data at %r11) to the heap with an
/// 8-byte length prefix; the new string is left in %rax.
pub open spec fn string_alloc_code() -> Seq<InstructionView> {
    seq![
        InstructionOf::Comment("Allocate string on heap"@),
        InstructionOf::Mov("%r10"@, "%rdi"@),
        InstructionOf::Add("$8"@, "%rdi"@),
        InstructionOf::Push("%r10"@),
        InstructionOf::Push("%r11"@),
    ] + malloc_call_code() + seq![
        InstructionOf::Pop("%r11"@),
        InstructionOf::Pop("%r10"@),
        InstructionOf::Mov("%r10"@, "0(%rax)"@),
        InstructionOf::Comment("Copy string data byte-by-byte"@),
        InstructionOf::Xor("%rcx"@, "%rcx"@),
        InstructionOf::Mov("$8"@, "%rdx"@),
        InstructionOf::Label(".L_string_copy_loop"@),
        InstructionOf::Cmp("%r10"@, "%rcx"@),
        InstructionOf::Jge(".L_string_copy_done"@),
        InstructionOf::Mov("(%r11,%rcx,1)"@, "%r8b"@),
        InstructionOf::Mov("%r8b"@, "(%rax,%rdx,1)"@),
        InstructionOf::Inc("%rcx"@),
        InstructionOf::Inc("%rdx"@),
        InstructionOf::Jmp(".L_string_copy_loop"@),
        InstructionOf::Label(".L_string_copy_done"@),
        InstructionOf::Comment("String allocated at rax"@),
    ]
}

/// Code freeing the struct whose pointer is in %rax.
pub open spec fn struct_free_code() -> Seq<InstructionView> {
    seq![InstructionOf::Comment("Free struct memory"@), InstructionOf::Mov("%rax"@, "%rdi"@)]
        + free_call_code()
}

/// Code loading field `i` of the struct at %rax into %rax.
pub open spec fn field_load_code(i: nat) -> Seq<InstructionView> {
    seq![
        InstructionOf::Comment(
            "Load struct field "@ + spec_decimal(i) + " (offset "@ + spec_decimal(8 * i) + ")"@,
        ),
        InstructionOf::Mov(spec_decimal(8 * i) + "(%rax)"@, "%rax"@),
    ]
}

/// Code storing %rax into field `i` of the struct at %rbx.
pub open spec fn field_store_code(i: nat) -> Seq<InstructionView> {
    seq![
        InstructionOf::Comment(
            "Store to struct field "@ + spec_decimal(i) + " (offset "@ + spec_decimal(8 * i) + ")"@,
        ),
        InstructionOf::Mov("%rax"@, spec_decimal(8 * i) + "(%rbx)"@),
    ]
}

/// An instruction with one literal operand.
#[verifier::spinoff_prover]
fn ins1(make: u8, a: &str) -> (i: Instruction)
    requires
        make < 10,
    ensures
        i@ == (if make == 0 {
            InstructionOf::Comment(a@)
        } else if make == 1 {
            InstructionOf::Call(a@)
        } else if make == 2 {
            InstructionOf::Push(a@)
        } else if make == 3 {
            InstructionOf::Pop(a@)
        } else if make == 4 {
            InstructionOf::Label(a@)
        } else if make == 5 {
            InstructionOf::Jge(a@)
        } else if make == 6 {
            InstructionOf::Inc(a@)
        } else {
            InstructionOf::Jmp(a@)
        }),
{
    let s = String::from_str(a);
    if make == 0 {
        Instruction::Comment(s)
    } else if make == 1 {
        Instruction::Call(s)
    } else if make == 2 {
        Instruction::Push(s)
    } else if make == 3 {
        Instruction::Pop(s)
    } else if make == 4 {
        Instruction::Label(s)
    } else if make == 5 {
        Instruction::Jge(s)
    } else if make == 6 {
        Instruction::Inc(s)
    } else {
        Instruction::Jmp(s)
    }
}

/// A `movq` with two literal operands.
#[verifier::spinoff_prover]
fn mov(src: &str, dst: &str) -> (i: Instruction)
    ensures
        i@ == InstructionOf::Mov(src@, dst@),
{
    Instruction::Mov(String::from_str(src), String::from_str(dst))
}

/// Append `more` to `code`.
#[verifier::spinoff_prover]
fn append_code(code: &mut Vec<Instruction>, more: Vec<Instruction>)
    ensures
        code_view(final(code)@) == code_view(old(code)@) + code_view(more@),
{
    let mut more = more;
    let ghost m = more@;
    code.append(&mut more);
    assert(code_view(code@) =~= code_view(old(code)@) + code_view(m));
}

/// Native runtime functions available to generated code
pub struct NativeRuntime {
    /// Generated initialization code (data section, etc)
    pub init_code: Vec<Instruction>,
}

impl NativeRuntime {
    /// Create a new native runtime
    #[verifier::spinoff_prover]
    pub fn new() -> (r: NativeRuntime)
        ensures
            r.init_code@ == Seq::<Instruction>::empty(),
    {
        NativeRuntime { init_code: Vec::new() }
    }

    /// Generate code to call gl_malloc (size in rdi; pointer or NULL back in rax)
    #[verifier::spinoff_prover]
    pub fn gen_malloc_call() -> (code: Vec<Instruction>)
        ensures
            code_view(code@) == malloc_call_code(),
    {
        let mut code = Vec::new();
        code.push(ins1(0, "Allocate heap memory via gl_malloc"));
        code.push(ins1(1, "gl_malloc"));
        code.push(ins1(0, "Allocated pointer now in rax"));
        assert(code_view(code@) =~= malloc_call_code());
        code
    }

    /// Generate code to call gl_free (pointer in rdi)
    #[verifier::spinoff_prover]
    pub fn gen_free_call() -> (code: Vec<Instruction>)
        ensures
            code_view(code@) == free_call_code(),
    {
        let mut code = Vec::new();
        code.push(ins1(0, "Free heap memory via gl_free"));
        code.push(ins1(1, "gl_free"));
        assert(code_view(code@) =~= free_call_code());
        code
    }

    /// Generate code to allocate a struct of `field_count` 8-byte fields;
    /// the pointer is left in rax.
    #[verifier::spinoff_prover]
    pub fn gen_struct_alloc(field_count: usize) -> (code: Vec<Instruction>)
        requires
            field_count * 8 <= usize::MAX,
        ensures
            code_view(code@) == struct_alloc_code(field_count as nat),
    {
        let size = field_count * 8;  // 8 bytes per field
        let mut code: Vec<Instruction> = Vec::new();

        let mut text = String::from_str("Allocate struct with ");
        push_str(&mut text, usize_to_string(field_count).as_str());
        push_str(&mut text, " fields (");
        push_str(&mut text, usize_to_string(size).as_str());
        push_str(&mut text, " bytes)");
        code.push(Instruction::Comment(text));

        // Load size into rdi (first argument to malloc)
        let mut imm = String::from_str("$");
        push_str(&mut imm, usize_to_string(size).as_str());
        code.push(Instruction::Mov(imm, String::from_str("%rdi")));

        let ghost n = field_count as nat;
        assert(size as nat == 8 * n);
        let ghost first = seq![
            InstructionOf::Comment(
                "Allocate struct with "@ + spec_decimal(n) + " fields ("@ + spec_decimal(8 * n) + " bytes)"@,
            ),
            InstructionOf::Mov("$"@ + spec_decimal(8 * n), "%rdi"@),
        ];
        assert(code_view(code@) =~= first);

        // Call malloc
        append_code(&mut code, Self::gen_malloc_call());
        assert(code_view(code@) == first + malloc_call_code());

        // Check if malloc returned NULL
        let ghost before = code_view(code@);
        code.push(ins1(0, "Check for allocation failure"));
        code.push(compare_ins("$0", "%rax"));
        assert(code_view(code@) =~= struct_alloc_code(field_count as nat));
        code
    }

    /// Generate code to allocate a string with a length prefix
    /// (length in r10, data in r11; the new string is left in rax).
    #[verifier::spinoff_prover]
    pub fn gen_string_alloc() -> (code: Vec<Instruction>)
        ensures
            code_view(code@) == string_alloc_code(),
    {
        let mut code: Vec<Instruction> = Vec::new();
        code.push(ins1(0, "Allocate string on heap"));
        // Calculate total size: 8 bytes (length) + string data
        code.push(mov("%r10", "%rdi"));
        code.push(Instruction::Add(String::from_str("$8"), String::from_str("%rdi")));
        // Save r10 and r11 (will be clobbered by malloc call)
        code.push(ins1(2, "%r10"));
        code.push(ins1(2, "%r11"));
        let ghost first = seq![
            InstructionOf::Comment("Allocate string on heap"@),
            InstructionOf::Mov("%r10"@, "%rdi"@),
            InstructionOf::Add("$8"@, "%rdi"@),
            InstructionOf::Push("%r10"@),
            InstructionOf::Push("%r11"@),
        ];
        assert(code_view(code@) =~= first);
        // Call malloc
        append_code(&mut code, Self::gen_malloc_call());
        assert(code_view(code@) == first + malloc_call_code());
        let ghost mid = code_view(code@);
        // Restore r10 and r11
        code.push(ins1(3, "%r11"));
        code.push(ins1(3, "%r10"));
        // Store length at offset 0
        code.push(mov("%r10", "0(%rax)"));
        // Copy string data byte-by-byte: rcx = counter, rdx = destination offset
        code.push(ins1(0, "Copy string data byte-by-byte"));
        code.push(Instruction::Xor(String::from_str("%rcx"), String::from_str("%rcx")));
        code.push(mov("$8", "%rdx"));
        code.push(ins1(4, ".L_string_copy_loop"));
        code.push(compare_ins("%r10", "%rcx"));
        code.push(ins1(5, ".L_string_copy_done"));
        code.push(mov("(%r11,%rcx,1)", "%r8b"));
        code.push(mov("%r8b", "(%rax,%rdx,1)"));
        code.push(ins1(6, "%rcx"));
        code.push(ins1(6, "%rdx"));
        code.push(ins1(7, ".L_string_copy_loop"));
        code.push(ins1(4, ".L_string_copy_done"));
        code.push(ins1(0, "String allocated at rax"));
        assert(code_view(code@) =~= string_alloc_code());
        code
    }

    /// Generate code to free a struct (pointer in rax)
    #[verifier::spinoff_prover]
    pub fn gen_struct_free() -> (code: Vec<Instruction>)
        ensures
            code_view(code@) == struct_free_code(),
    {
        let mut code: Vec<Instruction> = Vec::new();
        code.push(ins1(0, "Free struct memory"));
        // Move pointer to rdi (first argument to free)
        code.push(mov("%rax", "%rdi"));
        append_code(&mut code, Self::gen_free_call());
        assert(code_view(code@) =~= struct_free_code());
        code
    }

    /// Generate code to load field `field_index` of the struct in rax into rax
    #[verifier::spinoff_prover]
    pub fn gen_struct_field_load(field_index: usize) -> (code: Vec<Instruction>)
        requires
            field_index * 8 <= usize::MAX,
        ensures
            code_view(code@) == field_load_code(field_index as nat),
    {
        let offset = field_index * 8;  // 8 bytes per field
        let mut code: Vec<Instruction> = Vec::new();
        let mut text = String::from_str("Load struct field ");
        push_str(&mut text, usize_to_string(field_index).as_str());
        push_str(&mut text, " (offset ");
        push_str(&mut text, usize_to_string(offset).as_str());
        push_str(&mut text, ")");
        code.push(Instruction::Comment(text));
        let mut src = usize_to_string(offset);
        push_str(&mut src, "(%rax)");
        code.push(Instruction::Mov(src, String::from_str("%rax")));
        assert(code_view(code@) =~= field_load_code(field_index as nat));
        code
    }

    /// Generate code to store rax into field `field_index` of the struct in rbx
    #[verifier::spinoff_prover]
    pub fn gen_struct_field_store(field_index: usize) -> (code: Vec<Instruction>)
        requires
            field_index * 8 <= usize::MAX,
        ensures
            code_view(code@) == field_store_code(field_index as nat),
    {
        let offset = field_index * 8;
        let mut code: Vec<Instruction> = Vec::new();
        let mut text = String::from_str("Store to struct field ");
        push_str(&mut text, usize_to_string(field_index).as_str());
        push_str(&mut text, " (offset ");
        push_str(&mut text, usize_to_string(offset).as_str());
        push_str(&mut text, ")");
        code.push(Instruction::Comment(text));
        let mut dst = usize_to_string(offset);
        push_str(&mut dst, "(%rbx)");
        code.push(Instruction::Mov(String::from_str("%rax"), dst));
        assert(code_view(code@) =~= field_store_code(field_index as nat));
        code
    }

    /// Generate external function declarations for gl_malloc and gl_free
    #[verifier::spinoff_prover]
    pub fn gen_external_declarations() -> (s: String)
        ensures
            s@ == external_declarations_text(),
    {
        String::from_str(
            "    # External runtime functions (custom allocator in native_allocator.S)\n.globl gl_malloc\n.globl gl_free\n\n",
        )
    }
}

/// A `cmpq` with two literal operands.
#[verifier::spinoff_prover]
fn compare_ins(a: &str, b: &str) -> (i: Instruction)
    ensures
        i@ == InstructionOf::Cmp(a@, b@),
{
    Instruction::Cmp(String::from_str(a), String::from_str(b))
}

impl Default for NativeRuntime {
    #[verifier::spinoff_prover]
    fn default() -> (r: NativeRuntime)
        ensures
            r.init_code@ == Seq::<Instruction>::empty(),
    {
        Self::new()
    }
}

} // verus!
