//! x86-64 code generation (AT&T syntax).

use vstd::prelude::*;
use crate::debug_text::{node_debug_text, texts_debug_text};
use crate::text::{push_str, i64_to_string, usize_to_string, str_to_chars};
use crate::native_runtime::{NativeRuntime, external_declarations_text};
use crate::codegen_rules::{
    all_no_text, program_without_text_law, GenState, GenOut, GenError, reports, ok, emit, emit_all, alloc_slot, find_var, slot, imm, numbered, arg_reg,
    rax, rbx, binary_code, enum_value_code, expr_code, args_code, fields_code, node_size, nodes_size, fields_size,
    reg_args, find_struct, field_owner, index_of, literal_int, digits_value, lemma_nodes_size_prefix,
    lemma_fields_size_prefix, lemma_args_stop, lemma_fields_stop, lemma_index_of_first, lemma_find_struct_first,
    lemma_field_owner_first, lemma_leading_digits, stmt_code, stmts_code, arm_code, arms_code, arm_end_code,
    handler_code, handlers_code, arms_size, arm_size, handlers_size, store_params, next_arm_label, field_names,
    lemma_stmts_stop, lemma_arms_stop, lemma_handlers_stop, lemma_arms_size_prefix, lemma_handlers_size_prefix,
    enum_arm_code, program_code, program_size, empty_state, if_code, while_code, match_code, chant_code, yield_code, attempt_code,
};
use crate::ast::{AstNode, BinaryOperator, UnaryOperator, MatchArm, Pattern, ErrorHandler, StructField, Parameter};

verus! {

/// x86-64 register
#[derive(Debug, Clone, Copy, PartialEq, Eq, Structural)]
pub enum Register {
    Rax,
    Rbx,
    Rcx,
    Rdx,
    Rsi,
    Rdi,
    Rbp,
    Rsp,
    R8,
    R9,
    R10,
    R11,
    R12,
    R13,
    R14,
    R15,
}

/// AT&T name of a register.
pub open spec fn register_name(r: Register) -> Seq<char> {
    match r {
        Register::Rax => "%rax"@,
        Register::Rbx => "%rbx"@,
        Register::Rcx => "%rcx"@,
        Register::Rdx => "%rdx"@,
        Register::Rsi => "%rsi"@,
        Register::Rdi => "%rdi"@,
        Register::Rbp => "%rbp"@,
        Register::Rsp => "%rsp"@,
        Register::R8 => "%r8"@,
        Register::R9 => "%r9"@,
        Register::R10 => "%r10"@,
        Register::R11 => "%r11"@,
        Register::R12 => "%r12"@,
        Register::R13 => "%r13"@,
        Register::R14 => "%r14"@,
        Register::R15 => "%r15"@,
    }
}

impl Register {
    /// Get register name in AT&T syntax
    #[verifier::spinoff_prover]
    pub fn name(&self) -> (n: &'static str)
        ensures
            n@ == register_name(*self),
    {
        match self {
            Register::Rax => "%rax",
            Register::Rbx => "%rbx",
            Register::Rcx => "%rcx",
            Register::Rdx => "%rdx",
            Register::Rsi => "%rsi",
            Register::Rdi => "%rdi",
            Register::Rbp => "%rbp",
            Register::Rsp => "%rsp",
            Register::R8 => "%r8",
            Register::R9 => "%r9",
            Register::R10 => "%r10",
            Register::R11 => "%r11",
            Register::R12 => "%r12",
            Register::R13 => "%r13",
            Register::R14 => "%r14",
            Register::R15 => "%r15",
        }
    }
}

/// Assembly instruction; operands are text in AT&T syntax.
#[derive(Debug, Clone, PartialEq)]
pub enum InstructionOf<S> {
    /// Label (for jumps, functions)
    Label(S),
    /// Move: mov src, dst
    Mov(S, S),
    /// Add: add src, dst (dst += src)
    Add(S, S),
    /// Subtract: sub src, dst (dst -= src)
    Sub(S, S),
    /// Multiply: imul src, dst (dst *= src)
    IMul(S, S),
    /// Divide: idiv divisor (rax /= divisor, rdx = remainder)
    IDiv(S),
    /// Compare: cmp op1, op2 (sets flags)
    Cmp(S, S),
    /// Jump: jmp label
    Jmp(S),
    /// Jump if equal: je label
    Je(S),
    /// Jump if not equal: jne label
    Jne(S),
    /// Jump if greater: jg label
    Jg(S),
    /// Jump if less: jl label
    Jl(S),
    /// Jump if greater or equal: jge label
    Jge(S),
    /// Jump if less or equal: jle label
    Jle(S),
    /// Call function: call label
    Call(S),
    /// Return: ret
    Ret,
    /// Push to stack: push src
    Push(S),
    /// Pop from stack: pop dst
    Pop(S),
    /// Logical AND: and src, dst
    And(S, S),
    /// Logical OR: or src, dst
    Or(S, S),
    /// Logical XOR: xor src, dst
    Xor(S, S),
    /// Logical NOT: not dst
    Not(S),
    /// Negate: neg dst
    Neg(S),
    /// Increment: inc dst (dst++)
    Inc(S),
    /// Decrement: dec dst (dst--)
    Dec(S),
    /// Load effective address: leaq src, dst
    Lea(S, S),
    /// Set if equal: sete dst
    Sete(S),
    /// Set if not equal: setne dst
    Setne(S),
    /// Set if greater: setg dst (signed)
    Setg(S),
    /// Set if less: setl dst (signed)
    Setl(S),
    /// Set if greater or equal: setge dst (signed)
    Setge(S),
    /// Set if less or equal: setle dst (signed)
    Setle(S),
    /// Comment (for debugging generated code)
    Comment(S),
}

/// Executable instruction.
pub type Instruction = InstructionOf<String>;

/// Mathematical view of an instruction.
pub type InstructionView = InstructionOf<Seq<char>>;

impl View for InstructionOf<String> {
    type V = InstructionOf<Seq<char>>;

    open spec fn view(&self) -> InstructionOf<Seq<char>> {
        match self {
            InstructionOf::Label(a) => InstructionOf::Label(a@),
            InstructionOf::Mov(a, b) => InstructionOf::Mov(a@, b@),
            InstructionOf::Add(a, b) => InstructionOf::Add(a@, b@),
            InstructionOf::Sub(a, b) => InstructionOf::Sub(a@, b@),
            InstructionOf::IMul(a, b) => InstructionOf::IMul(a@, b@),
            InstructionOf::IDiv(a) => InstructionOf::IDiv(a@),
            InstructionOf::Cmp(a, b) => InstructionOf::Cmp(a@, b@),
            InstructionOf::Jmp(a) => InstructionOf::Jmp(a@),
            InstructionOf::Je(a) => InstructionOf::Je(a@),
            InstructionOf::Jne(a) => InstructionOf::Jne(a@),
            InstructionOf::Jg(a) => InstructionOf::Jg(a@),
            InstructionOf::Jl(a) => InstructionOf::Jl(a@),
            InstructionOf::Jge(a) => InstructionOf::Jge(a@),
            InstructionOf::Jle(a) => InstructionOf::Jle(a@),
            InstructionOf::Call(a) => InstructionOf::Call(a@),
            InstructionOf::Ret => InstructionOf::Ret,
            InstructionOf::Push(a) => InstructionOf::Push(a@),
            InstructionOf::Pop(a) => InstructionOf::Pop(a@),
            InstructionOf::And(a, b) => InstructionOf::And(a@, b@),
            InstructionOf::Or(a, b) => InstructionOf::Or(a@, b@),
            InstructionOf::Xor(a, b) => InstructionOf::Xor(a@, b@),
            InstructionOf::Not(a) => InstructionOf::Not(a@),
            InstructionOf::Neg(a) => InstructionOf::Neg(a@),
            InstructionOf::Inc(a) => InstructionOf::Inc(a@),
            InstructionOf::Dec(a) => InstructionOf::Dec(a@),
            InstructionOf::Lea(a, b) => InstructionOf::Lea(a@, b@),
            InstructionOf::Sete(a) => InstructionOf::Sete(a@),
            InstructionOf::Setne(a) => InstructionOf::Setne(a@),
            InstructionOf::Setg(a) => InstructionOf::Setg(a@),
            InstructionOf::Setl(a) => InstructionOf::Setl(a@),
            InstructionOf::Setge(a) => InstructionOf::Setge(a@),
            InstructionOf::Setle(a) => InstructionOf::Setle(a@),
            InstructionOf::Comment(a) => InstructionOf::Comment(a@),
        }
    }
}

/// AT&T syntax text of an instruction.
pub open spec fn asm_text(i: InstructionView) -> Seq<char> {
    match i {
        InstructionOf::Label(l) => l + ":"@,
        InstructionOf::Mov(a, b) => "    movq "@ + a + ", "@ + b,
        InstructionOf::Add(a, b) => "    addq "@ + a + ", "@ + b,
        InstructionOf::Sub(a, b) => "    subq "@ + a + ", "@ + b,
        InstructionOf::IMul(a, b) => "    imulq "@ + a + ", "@ + b,
        InstructionOf::IDiv(a) => "    idivq "@ + a,
        InstructionOf::Cmp(a, b) => "    cmpq "@ + a + ", "@ + b,
        InstructionOf::Jmp(a) => "    jmp "@ + a,
        InstructionOf::Je(a) => "    je "@ + a,
        InstructionOf::Jne(a) => "    jne "@ + a,
        InstructionOf::Jg(a) => "    jg "@ + a,
        InstructionOf::Jl(a) => "    jl "@ + a,
        InstructionOf::Jge(a) => "    jge "@ + a,
        InstructionOf::Jle(a) => "    jle "@ + a,
        InstructionOf::Call(a) => "    call "@ + a,
        InstructionOf::Ret => "    ret"@,
        InstructionOf::Push(a) => "    pushq "@ + a,
        InstructionOf::Pop(a) => "    popq "@ + a,
        InstructionOf::And(a, b) => "    andq "@ + a + ", "@ + b,
        InstructionOf::Or(a, b) => "    orq "@ + a + ", "@ + b,
        InstructionOf::Xor(a, b) => "    xorq "@ + a + ", "@ + b,
        InstructionOf::Not(a) => "    notq "@ + a,
        InstructionOf::Neg(a) => "    negq "@ + a,
        InstructionOf::Inc(a) => "    incq "@ + a,
        InstructionOf::Dec(a) => "    decq "@ + a,
        InstructionOf::Lea(a, b) => "    leaq "@ + a + ", "@ + b,
        InstructionOf::Sete(a) => "    sete "@ + a,
        InstructionOf::Setne(a) => "    setne "@ + a,
        InstructionOf::Setg(a) => "    setg "@ + a,
        InstructionOf::Setl(a) => "    setl "@ + a,
        InstructionOf::Setge(a) => "    setge "@ + a,
        InstructionOf::Setle(a) => "    setle "@ + a,
        InstructionOf::Comment(a) => "    # "@ + a,
    }
}

/// `prefix` followed by one operand.
#[verifier::spinoff_prover]
fn asm1(prefix: &str, a: &String) -> (s: String)
    ensures
        s@ == prefix@ + a@,
{
    let mut s = String::from_str(prefix);
    push_str(&mut s, a.as_str());
    s
}

/// `prefix` followed by two operands separated by a comma.
#[verifier::spinoff_prover]
fn asm2(prefix: &str, a: &String, b: &String) -> (s: String)
    ensures
        s@ == prefix@ + a@ + ", "@ + b@,
{
    let mut s = String::from_str(prefix);
    push_str(&mut s, a.as_str());
    push_str(&mut s, ", ");
    push_str(&mut s, b.as_str());
    s
}

impl InstructionOf<String> {

    /// A copy of the instruction.
    #[verifier::spinoff_prover]
    pub fn duplicate(&self) -> (c: Instruction)
        ensures
            c@ == self@,
    {
        match self {
            InstructionOf::Label(a) => InstructionOf::Label(a.clone()),
            InstructionOf::Mov(a, b) => InstructionOf::Mov(a.clone(), b.clone()),
            InstructionOf::Add(a, b) => InstructionOf::Add(a.clone(), b.clone()),
            InstructionOf::Sub(a, b) => InstructionOf::Sub(a.clone(), b.clone()),
            InstructionOf::IMul(a, b) => InstructionOf::IMul(a.clone(), b.clone()),
            InstructionOf::IDiv(a) => InstructionOf::IDiv(a.clone()),
            InstructionOf::Cmp(a, b) => InstructionOf::Cmp(a.clone(), b.clone()),
            InstructionOf::Jmp(a) => InstructionOf::Jmp(a.clone()),
            InstructionOf::Je(a) => InstructionOf::Je(a.clone()),
            InstructionOf::Jne(a) => InstructionOf::Jne(a.clone()),
            InstructionOf::Jg(a) => InstructionOf::Jg(a.clone()),
            InstructionOf::Jl(a) => InstructionOf::Jl(a.clone()),
            InstructionOf::Jge(a) => InstructionOf::Jge(a.clone()),
            InstructionOf::Jle(a) => InstructionOf::Jle(a.clone()),
            InstructionOf::Call(a) => InstructionOf::Call(a.clone()),
            InstructionOf::Ret => InstructionOf::Ret,
            InstructionOf::Push(a) => InstructionOf::Push(a.clone()),
            InstructionOf::Pop(a) => InstructionOf::Pop(a.clone()),
            InstructionOf::And(a, b) => InstructionOf::And(a.clone(), b.clone()),
            InstructionOf::Or(a, b) => InstructionOf::Or(a.clone(), b.clone()),
            InstructionOf::Xor(a, b) => InstructionOf::Xor(a.clone(), b.clone()),
            InstructionOf::Not(a) => InstructionOf::Not(a.clone()),
            InstructionOf::Neg(a) => InstructionOf::Neg(a.clone()),
            InstructionOf::Inc(a) => InstructionOf::Inc(a.clone()),
            InstructionOf::Dec(a) => InstructionOf::Dec(a.clone()),
            InstructionOf::Lea(a, b) => InstructionOf::Lea(a.clone(), b.clone()),
            InstructionOf::Sete(a) => InstructionOf::Sete(a.clone()),
            InstructionOf::Setne(a) => InstructionOf::Setne(a.clone()),
            InstructionOf::Setg(a) => InstructionOf::Setg(a.clone()),
            InstructionOf::Setl(a) => InstructionOf::Setl(a.clone()),
            InstructionOf::Setge(a) => InstructionOf::Setge(a.clone()),
            InstructionOf::Setle(a) => InstructionOf::Setle(a.clone()),
            InstructionOf::Comment(a) => InstructionOf::Comment(a.clone()),
        }
    }
    /// Convert instruction to AT&T syntax assembly string
    #[verifier::spinoff_prover]
    pub fn to_asm(&self) -> (s: String)
        ensures
            s@ == asm_text(self@),
    {
        match self {
            InstructionOf::Label(l) => {
                let mut s = l.clone();
                push_str(&mut s, ":");
                s
            },
            InstructionOf::Mov(a, b) => asm2("    movq ", a, b),
            InstructionOf::Add(a, b) => asm2("    addq ", a, b),
            InstructionOf::Sub(a, b) => asm2("    subq ", a, b),
            InstructionOf::IMul(a, b) => asm2("    imulq ", a, b),
            InstructionOf::IDiv(a) => asm1("    idivq ", a),
            InstructionOf::Cmp(a, b) => asm2("    cmpq ", a, b),
            InstructionOf::Jmp(a) => asm1("    jmp ", a),
            InstructionOf::Je(a) => asm1("    je ", a),
            InstructionOf::Jne(a) => asm1("    jne ", a),
            InstructionOf::Jg(a) => asm1("    jg ", a),
            InstructionOf::Jl(a) => asm1("    jl ", a),
            InstructionOf::Jge(a) => asm1("    jge ", a),
            InstructionOf::Jle(a) => asm1("    jle ", a),
            InstructionOf::Call(a) => asm1("    call ", a),
            InstructionOf::Ret => String::from_str("    ret"),
            InstructionOf::Push(a) => asm1("    pushq ", a),
            InstructionOf::Pop(a) => asm1("    popq ", a),
            InstructionOf::And(a, b) => asm2("    andq ", a, b),
            InstructionOf::Or(a, b) => asm2("    orq ", a, b),
            InstructionOf::Xor(a, b) => asm2("    xorq ", a, b),
            InstructionOf::Not(a) => asm1("    notq ", a),
            InstructionOf::Neg(a) => asm1("    negq ", a),
            InstructionOf::Inc(a) => asm1("    incq ", a),
            InstructionOf::Dec(a) => asm1("    decq ", a),
            InstructionOf::Lea(a, b) => asm2("    leaq ", a, b),
            InstructionOf::Sete(a) => asm1("    sete ", a),
            InstructionOf::Setne(a) => asm1("    setne ", a),
            InstructionOf::Setg(a) => asm1("    setg ", a),
            InstructionOf::Setl(a) => asm1("    setl ", a),
            InstructionOf::Setge(a) => asm1("    setge ", a),
            InstructionOf::Setle(a) => asm1("    setle ", a),
            InstructionOf::Comment(a) => asm1("    # ", a),
        }
    }
}

/// View of a sequence of instructions.
pub open spec fn code_view(code: Seq<Instruction>) -> Seq<InstructionView> {
    code.map_values(|i: Instruction| i@)
}

/// One `.ascii` entry per string literal: its label, then its data.
pub open spec fn literal_lines(lits: Seq<(Seq<char>, Seq<char>)>) -> Seq<char>
    decreases lits.len(),
{
    if lits.len() == 0 {
        Seq::empty()
    } else {
        literal_lines(lits.drop_last()) + lits.last().0 + ":\n"@ + "    .ascii \""@ + lits.last().1
            + "\"\n"@
    }
}

/// One line per instruction.
pub open spec fn instruction_lines(code: Seq<InstructionView>) -> Seq<char>
    decreases code.len(),
{
    if code.len() == 0 {
        Seq::empty()
    } else {
        instruction_lines(code.drop_last()) + asm_text(code.last()) + "\n"@
    }
}

/// The assembly file: a .data section when there are string literals, then
/// the .text header, the runtime declarations and the instructions.
pub open spec fn assembly_text(lits: Seq<(Seq<char>, Seq<char>)>, code: Seq<InstructionView>) -> Seq<char> {
    (if lits.len() == 0 {
        Seq::empty()
    } else {
        ".data\n"@ + literal_lines(lits) + "\n"@
    }) + ".text\n"@ + ".globl main\n\n"@ + external_declarations_text() + instruction_lines(code)
}

/// With no text literals registered the assembly has no `.data` section:
/// it is the `.text` header, the runtime's external declarations and one
/// line for each instruction.
pub proof fn assembly_without_literals_law(code: Seq<InstructionView>)
    ensures
        assembly_text(Seq::empty(), code) == ".text\n"@ + ".globl main\n\n"@ + external_declarations_text()
            + instruction_lines(code),
{
    let rest = ".text\n"@ + ".globl main\n\n"@ + external_declarations_text() + instruction_lines(code);
    assert(Seq::<char>::empty() + ".text\n"@ + ".globl main\n\n"@ + external_declarations_text() + instruction_lines(code)
        =~= rest);
}

/// A program with no text literal gets no `.data` section: after a new
/// generator has compiled it (its state is then that of `program_code`
/// from the empty state), `to_assembly` gives the `.text` header, the
/// runtime's external declarations and one line per instruction.
pub proof fn assembly_without_text_law(g: CodeGen, nodes: Seq<AstNode>)
    requires
        all_no_text(nodes),
        g.state() == program_code(empty_state(), nodes).st,
    ensures
        g.literals() == Seq::<(Seq<char>, Seq<char>)>::empty(),
        assembly_text(g.literals(), g.code()) == ".text\n"@ + ".globl main\n\n"@ + external_declarations_text()
            + instruction_lines(g.code()),
{
    program_without_text_law(empty_state(), nodes);
    assert(g.literals() == g.state().literals);
    assembly_without_literals_law(g.code());
}

/// Code generation context
pub struct CodeGen {
    /// Generated instructions
    instructions: Vec<Instruction>,
    /// Label counter (for generating unique labels)
    label_counter: usize,
    /// Current stack offset (for local variables)
    stack_offset: i32,
    /// Variable locations on stack (name -> offset from rbp)
    variables: Vec<(String, i32)>,
    /// Current function name (for TCO detection)
    current_function: Option<String>,
    /// Current function entry label (for TCO jumps)
    function_entry_label: Option<String>,
    /// Native runtime support
    runtime: NativeRuntime,
    /// Struct definitions (name -> field names)
    struct_defs: Vec<(String, Vec<String>)>,
    /// String literals (label, data)
    string_literals: Vec<(String, String)>,
}

/// View of an optional text.
pub open spec fn opt_view(o: Option<String>) -> Option<Seq<char>> {
    match o {
        Some(s) => Some(s@),
        None => None,
    }
}

/// Whether generation may use `size` more labels and `64 * size` more
/// bytes of stack frame without overflowing the counters.
pub open spec fn fits(st: GenState, size: nat) -> bool {
    st.labels + size <= usize::MAX && st.stack - 64 * size >= i32::MIN
}

/// Generation went from `before` to `after` using at most `size` labels
/// and `64 * size` bytes of stack frame.
pub open spec fn within(before: GenState, after: GenState, size: nat) -> bool {
    after.labels <= before.labels + size && after.stack >= before.stack - 64 * size
}

/// A generation step's result agrees with the model's outcome.
pub open spec fn outcome(r: Result<(), String>, o: GenOut) -> bool {
    match r {
        Ok(()) => o.err is None,
        Err(m) => match o.err {
            Some(e) => reports(m@, e),
            None => false,
        },
    }
}

/// Text of a stack slot.
#[verifier::spinoff_prover]
fn slot_text(off: i32) -> (s: String)
    ensures
        s@ == slot(off as int),
{
    let mut s = i64_to_string(off as i64);
    push_str(&mut s, "(%rbp)");
    s
}

/// Text of an immediate operand.
#[verifier::spinoff_prover]
fn imm_text(n: i64) -> (s: String)
    ensures
        s@ == imm(n as int),
{
    let mut s = String::from_str("$");
    push_str(&mut s, i64_to_string(n).as_str());
    s
}

/// A prefix followed by a number.
#[verifier::spinoff_prover]
fn numbered_text(prefix: &str, n: usize) -> (s: String)
    ensures
        s@ == numbered(prefix@, n as int),
{
    let mut s = String::from_str(prefix);
    push_str(&mut s, usize_to_string(n).as_str());
    s
}

/// The register that carries argument `i`.
#[verifier::spinoff_prover]
fn arg_reg_text(i: usize) -> (s: String)
    requires
        i < 6,
    ensures
        s@ == arg_reg(i as int),
{
    if i == 0 {
        String::from_str("%rdi")
    } else if i == 1 {
        String::from_str("%rsi")
    } else if i == 2 {
        String::from_str("%rdx")
    } else if i == 3 {
        String::from_str("%rcx")
    } else if i == 4 {
        String::from_str("%r8")
    } else {
        String::from_str("%r9")
    }
}

/// The value of a number literal as used in generated code: its whole part,
/// at most the largest `i64`.
#[verifier::spinoff_prover]
fn literal_value(value: &String) -> (n: i64)
    ensures
        n == literal_int(value@),
{
    let v = str_to_chars(value.as_str());
    let ghost s = v@;
    let mut n: i64 = 0;
    let mut i: usize = 0;
    while i < v.len() && '0' <= v[i] && v[i] <= '9'
        invariant
            s == v@,
            i <= s.len(),
            forall|j: int| 0 <= j < i ==> '0' <= #[trigger] s[j] <= '9',
            n == (if digits_value(s.take(i as int)) > i64::MAX { i64::MAX as int } else { digits_value(
                s.take(i as int),
            ) as int }),
        decreases s.len() - i,
    {
        let d = (v[i] as u32 - '0' as u32) as i64;
        let ghost before = digits_value(s.take(i as int));
        if n > (i64::MAX - d) / 10 {
            n = i64::MAX;
        } else {
            n = n * 10 + d;
        }
        i += 1;
        assert(s.take(i as int).drop_last() =~= s.take(i - 1));
        assert(digits_value(s.take(i as int)) == 10 * before + d);
    }
    proof {
        lemma_leading_digits(s, i as int);
    }
    n
}

/// The positions of the first occurrence of `name` in `names`.
#[verifier::spinoff_prover]
fn index_in(names: &Vec<String>, name: &String) -> (r: Option<usize>)
    ensures
        match r {
            Some(i) => i < names@.len() && index_of(names@.map_values(|f: String| f@), name@) == Some(i as nat),
            None => index_of(names@.map_values(|f: String| f@), name@) is None,
        },
{
    let ghost ns = names@.map_values(|f: String| f@);
    let mut i: usize = 0;
    while i < names.len()
        invariant
            i <= names@.len(),
            ns == names@.map_values(|f: String| f@),
            forall|j: int| 0 <= j < i ==> #[trigger] ns[j] != name@,
        decreases names@.len() - i,
    {
        if names[i] == *name {
            proof {
                lemma_index_of_first(ns, name@, i as int);
            }
            return Some(i);
        }
        i += 1;
    }
    proof {
        lemma_index_of_first(ns, name@, i as int);
    }
    None
}

/// A copy of a list of names.
#[verifier::spinoff_prover]
fn copy_names(names: &Vec<String>) -> (r: Vec<String>)
    ensures
        r@.map_values(|f: String| f@) == names@.map_values(|f: String| f@),
        r@.len() == names@.len(),
{
    let mut r: Vec<String> = Vec::new();
    let mut i: usize = 0;
    while i < names.len()
        invariant
            i <= names@.len(),
            r@.len() == i,
            forall|j: int| 0 <= j < i ==> #[trigger] r@[j]@ == names@[j]@,
        decreases names@.len() - i,
    {
        r.push(names[i].clone());
        i += 1;
    }
    assert(r@.map_values(|f: String| f@) =~= names@.map_values(|f: String| f@));
    r
}


/// Whether a string reads `t`.
#[verifier::spinoff_prover]
fn eq_str(s: &String, t: &str) -> (r: bool)
    ensures
        r == (s@ == t@),
{
    *s == String::from_str(t)
}

/// Label of the arm after arm `idx` of match number `id`.
#[verifier::spinoff_prover]
fn next_arm_text(id: usize, idx: usize) -> (s: String)
    requires
        idx < usize::MAX,
    ensures
        s@ == next_arm_label(id as int, idx as int),
{
    let mut s = numbered_text(".L_match_arm_", id);
    push_str(&mut s, "_");
    push_str(&mut s, usize_to_string(idx + 1).as_str());
    s
}

/// A copy of an optional text.
#[verifier::spinoff_prover]
fn copy_opt(o: &Option<String>) -> (r: Option<String>)
    ensures
        opt_view(r) == opt_view(*o),
{
    match o {
        Some(s) => Some(s.clone()),
        None => None,
    }
}

/// A copy of a variable list.
#[verifier::spinoff_prover]
fn copy_vars(v: &Vec<(String, i32)>) -> (r: Vec<(String, i32)>)
    ensures
        r@.map_values(|p: (String, i32)| (p.0@, p.1 as int)) == v@.map_values(|p: (String, i32)| (p.0@, p.1 as int)),
{
    let mut r: Vec<(String, i32)> = Vec::new();
    let mut i: usize = 0;
    while i < v.len()
        invariant
            i <= v@.len(),
            r@.len() == i,
            forall|j: int| 0 <= j < i ==> #[trigger] r@[j].0@ == v@[j].0@ && r@[j].1 == v@[j].1,
        decreases v@.len() - i,
    {
        r.push((v[i].0.clone(), v[i].1));
        i += 1;
    }
    assert(r@.map_values(|p: (String, i32)| (p.0@, p.1 as int)) =~= v@.map_values(
        |p: (String, i32)| (p.0@, p.1 as int),
    ));
    r
}

/// The names of a struct's fields.
#[verifier::spinoff_prover]
fn struct_field_names(fields: &Vec<StructField>) -> (r: Vec<String>)
    ensures
        r@.map_values(|f: String| f@) == field_names(fields@),
        r@.len() == fields@.len(),
{
    let mut r: Vec<String> = Vec::new();
    let mut i: usize = 0;
    while i < fields.len()
        invariant
            i <= fields@.len(),
            r@.len() == i,
            forall|j: int| 0 <= j < i ==> #[trigger] r@[j]@ == fields@[j].name@,
        decreases fields@.len() - i,
    {
        r.push(fields[i].name.clone());
        i += 1;
    }
    assert(r@.map_values(|f: String| f@) =~= field_names(fields@));
    r
}

#[verifier::spinoff_prover]
fn text(s: &str) -> (t: String)
    ensures
        t@ == s@,
{
    String::from_str(s)
}

impl CodeGen {
    /// Instructions generated so far.
    pub closed spec fn code(&self) -> Seq<InstructionView> {
        code_view(self.instructions@)
    }

    /// String literals collected so far (label, data).
    pub closed spec fn literals(&self) -> Seq<(Seq<char>, Seq<char>)> {
        self.string_literals@.map_values(|p: (String, String)| (p.0@, p.1@))
    }

    /// The generator's state.
    pub closed spec fn state(&self) -> GenState {
        GenState {
            code: self.code(),
            labels: self.label_counter as int,
            stack: self.stack_offset as int,
            vars: self.variables@.map_values(|p: (String, i32)| (p.0@, p.1 as int)),
            func: opt_view(self.current_function),
            entry: opt_view(self.function_entry_label),
            structs: self.struct_defs@.map_values(
                |p: (String, Vec<String>)| (p.0@, p.1@.map_values(|f: String| f@)),
            ),
            literals: self.literals(),
        }
    }

    /// The stack frame grows downwards from 0, and no struct has so many
    /// fields that their byte offsets overflow.
    pub closed spec fn wf(&self) -> bool {
        &&& self.stack_offset <= 0
        &&& forall|i: int| 0 <= i < self.struct_defs@.len() ==> #[trigger] self.struct_defs@[i].1.len() <= 0x200_0000
    }

    /// Create a new code generator
    #[verifier::spinoff_prover]
    pub fn new() -> (g: CodeGen)
        ensures
            g.wf(),
            g.state() == empty_state(),
    {
        let g = CodeGen {
            instructions: Vec::new(),
            label_counter: 0,
            stack_offset: 0,
            variables: Vec::new(),
            current_function: None,
            function_entry_label: None,
            runtime: NativeRuntime::new(),
            struct_defs: Vec::new(),
            string_literals: Vec::new(),
        };
        assert(g.state().code =~= Seq::<InstructionView>::empty());
        assert(g.state().literals =~= Seq::<(Seq<char>, Seq<char>)>::empty());
        assert(g.state().vars =~= Seq::<(Seq<char>, int)>::empty());
        assert(g.state().structs =~= Seq::<(Seq<char>, Seq<Seq<char>>)>::empty());
        g
    }

    /// Generate a unique label
    #[verifier::spinoff_prover]
    fn gen_label(&mut self, prefix: &str) -> (label: String)
        requires
            old(self).label_counter < usize::MAX,
        ensures
            label@ == numbered(prefix@, old(self).state().labels),
            final(self).state() == (GenState { labels: old(self).state().labels + 1, ..old(self).state() }),
            final(self).wf() == old(self).wf(),
    {
        let label = numbered_text(prefix, self.label_counter);
        self.label_counter += 1;
        label
    }

    /// Emit an instruction
    #[verifier::spinoff_prover]
    fn emit(&mut self, inst: Instruction)
        ensures
            final(self).state() == emit(old(self).state(), inst@),
            final(self).wf() == old(self).wf(),
    {
        self.instructions.push(inst);
        assert(self.code() =~= old(self).code().push(inst@));
    }

    /// Emit a sequence of instructions
    #[verifier::spinoff_prover]
    fn emit_all(&mut self, code: Vec<Instruction>)
        ensures
            final(self).state() == emit_all(old(self).state(), code_view(code@)),
            final(self).wf() == old(self).wf(),
    {
        let ghost st0 = self.state();
        let ghost all = code_view(code@);
        let n = code.len();
        let mut rest = code;
        let mut k: usize = 0;
        while rest.len() > 0
            invariant
                k + rest@.len() == all.len(),
                all.len() == n,
                code_view(rest@) == all.skip(k as int),
                self.state() == emit_all(st0, all.take(k as int)),
                self.wf() == old(self).wf(),
            decreases rest@.len(),
        {
            let ghost r0 = rest@;
            let inst = rest.remove(0);
            assert(code_view(r0)[0] == all.skip(k as int)[0]);
            assert(inst@ == all[k as int]);
            assert(rest@ =~= r0.drop_first());
            self.emit(inst);
            k += 1;
            assert(code_view(rest@) =~= code_view(r0).drop_first());
            assert(code_view(rest@) =~= all.skip(k as int));
            assert(st0.code + all.take(k as int) =~= (st0.code + all.take(k - 1)).push(all[k - 1]));
        }
        assert(all.take(k as int) =~= all);
    }

    /// Allocate space for a local variable
    #[verifier::spinoff_prover]
    fn alloc_var(&mut self, name: String) -> (offset: i32)
        requires
            old(self).stack_offset - 8 >= i32::MIN,
        ensures
            final(self).state() == alloc_slot(old(self).state(), name@),
            offset == final(self).state().stack,
            old(self).wf() ==> final(self).wf(),
    {
        self.stack_offset -= 8;
        let offset = self.stack_offset;
        self.variables.push((name, offset));
        assert(self.state().vars =~= old(self).state().vars.push((name@, offset as int)));
        offset
    }

    /// Get variable stack offset (the most recent variable of that name)
    #[verifier::spinoff_prover]
    fn get_var(&self, name: &String) -> (r: Option<i32>)
        ensures
            match r {
                Some(off) => find_var(self.state().vars, name@) == Some(off as int),
                None => find_var(self.state().vars, name@) is None,
            },
    {
        let ghost vars = self.state().vars;
        let mut i = self.variables.len();
        assert(vars.take(i as int) =~= vars);
        while i > 0
            invariant
                i <= self.variables@.len(),
                vars == self.state().vars,
                find_var(vars, name@) == find_var(vars.take(i as int), name@),
            decreases i,
        {
            assert(vars.take(i as int).drop_last() =~= vars.take(i - 1));
            if self.variables[i - 1].0 == *name {
                return Some(self.variables[i - 1].1);
            }
            i -= 1;
        }
        None
    }

    /// Emit the code that combines the operands of a binary operation (left
    /// in rax, right in rbx).
    #[verifier::spinoff_prover]
    fn emit_binary(&mut self, op: BinaryOperator)
        requires
            old(self).label_counter < usize::MAX,
        ensures
            final(self).state() == binary_code(old(self).state(), op),
            final(self).wf() == old(self).wf(),
    {
        match op {
            BinaryOperator::Add => self.emit(InstructionOf::Add(text("%rbx"), text("%rax"))),
            BinaryOperator::Sub => self.emit(InstructionOf::Sub(text("%rbx"), text("%rax"))),
            BinaryOperator::Mul => self.emit(InstructionOf::IMul(text("%rbx"), text("%rax"))),
            BinaryOperator::Div => {
                self.emit(InstructionOf::Xor(text("%rdx"), text("%rdx")));
                self.emit(InstructionOf::IDiv(text("%rbx")));
            },
            BinaryOperator::Mod => {
                self.emit(InstructionOf::Xor(text("%rdx"), text("%rdx")));
                self.emit(InstructionOf::IDiv(text("%rbx")));
                self.emit(InstructionOf::Mov(text("%rdx"), text("%rax")));
            },
            BinaryOperator::Equal => self.emit_compare(InstructionOf::Sete(text("%al"))),
            BinaryOperator::NotEqual => self.emit_compare(InstructionOf::Setne(text("%al"))),
            BinaryOperator::Greater => self.emit_compare(InstructionOf::Setg(text("%al"))),
            BinaryOperator::Less => self.emit_compare(InstructionOf::Setl(text("%al"))),
            BinaryOperator::GreaterEq => self.emit_compare(InstructionOf::Setge(text("%al"))),
            BinaryOperator::LessEq => self.emit_compare(InstructionOf::Setle(text("%al"))),
            BinaryOperator::And => {
                self.emit(InstructionOf::Cmp(text("$0"), text("%rax")));
                let label_false = numbered_text(".L_and_false_", self.label_counter);
                let label_end = numbered_text(".L_and_end_", self.label_counter);
                self.label_counter += 1;
                self.emit(InstructionOf::Je(label_false.clone()));
                self.emit(InstructionOf::Cmp(text("$0"), text("%rbx")));
                self.emit(InstructionOf::Je(label_false.clone()));
                self.emit(InstructionOf::Mov(text("$1"), text("%rax")));
                self.emit(InstructionOf::Jmp(label_end.clone()));
                self.emit(InstructionOf::Label(label_false));
                self.emit(InstructionOf::Mov(text("$0"), text("%rax")));
                self.emit(InstructionOf::Label(label_end));
                assert(self.state().code =~= binary_code(old(self).state(), op).code);
            },
            BinaryOperator::Or => {
                self.emit(InstructionOf::Cmp(text("$0"), text("%rax")));
                let label_true = numbered_text(".L_or_true_", self.label_counter);
                let label_end = numbered_text(".L_or_end_", self.label_counter);
                self.label_counter += 1;
                self.emit(InstructionOf::Jne(label_true.clone()));
                self.emit(InstructionOf::Cmp(text("$0"), text("%rbx")));
                self.emit(InstructionOf::Jne(label_true.clone()));
                self.emit(InstructionOf::Mov(text("$0"), text("%rax")));
                self.emit(InstructionOf::Jmp(label_end.clone()));
                self.emit(InstructionOf::Label(label_true));
                self.emit(InstructionOf::Mov(text("$1"), text("%rax")));
                self.emit(InstructionOf::Label(label_end));
                assert(self.state().code =~= binary_code(old(self).state(), op).code);
            },
        }
    }

    /// Compare rax with rbx and set rax to 0 or 1 by `set`.
    #[verifier::spinoff_prover]
    fn emit_compare(&mut self, set: Instruction)
        ensures
            final(self).state() == emit(
                emit(emit(old(self).state(), InstructionOf::Cmp(rbx(), rax())), InstructionOf::Mov("$0"@, rax())),
                set@,
            ),
            final(self).wf() == old(self).wf(),
    {
        self.emit(InstructionOf::Cmp(text("%rbx"), text("%rax")));
        self.emit(InstructionOf::Mov(text("$0"), text("%rax")));
        self.emit(set);
    }

    /// Put a two-word enum value (value, then tag) in 16 fresh stack bytes
    /// and leave its address in rax.
    #[verifier::spinoff_prover]
    fn emit_enum_value(&mut self, tag: &str, value: &str)
        requires
            old(self).stack_offset - 16 >= i32::MIN,
        ensures
            final(self).state() == enum_value_code(old(self).state(), tag@, value@),
            old(self).wf() ==> final(self).wf(),
    {
        self.stack_offset -= 16;
        let off = self.stack_offset;
        self.emit(InstructionOf::Mov(text(tag), slot_text(off + 8)));
        self.emit(InstructionOf::Mov(text(value), slot_text(off)));
        self.emit(InstructionOf::Mov(text("%rbp"), text("%rax")));
        self.emit(InstructionOf::Add(imm_text(off as i64), text("%rax")));
        assert(self.state().code =~= enum_value_code(old(self).state(), tag@, value@).code);
    }

    /// Generate code for the binary operation `node` (result in rax).
    #[verifier::spinoff_prover]
    fn gen_binary(&mut self, node: &AstNode) -> (r: Result<(), String>)
        requires
            old(self).wf(),
            fits(old(self).state(), node_size(*node)),
            node is BinaryOp,
        ensures
            final(self).wf(),
            final(self).state() == expr_code(old(self).state(), *node).st,
            outcome(r, expr_code(old(self).state(), *node)),
            within(old(self).state(), final(self).state(), node_size(*node)),
        decreases node, 1nat,
    {
        match node {
            AstNode::BinaryOp { left, op, right, .. } => {
                match self.gen_expr(left) {
                    Err(e) => return Err(e),
                    Ok(()) => {},
                }
                self.emit(InstructionOf::Push(text("%rax")));
                match self.gen_expr(right) {
                    Err(e) => return Err(e),
                    Ok(()) => {},
                }
                self.emit(InstructionOf::Mov(text("%rax"), text("%rbx")));
                self.emit(InstructionOf::Pop(text("%rax")));
                self.emit_binary(*op);
                Ok(())
            },
            _ => Ok(()),
        }
    }

    /// Generate code for an enum constructor with a value: evaluate the
    /// value, then store it with `tag`.
    #[verifier::spinoff_prover]
    fn gen_variant(&mut self, value: &AstNode, comment: &str, tag: &str) -> (r: Result<(), String>)
        requires
            old(self).wf(),
            fits(old(self).state(), node_size(*value) + 1),
        ensures
            final(self).wf(),
            ({
                let o = expr_code(emit(old(self).state(), InstructionOf::Comment(comment@)), *value);
                &&& outcome(r, if o.err is Some { o } else { ok(enum_value_code(o.st, tag@, rax())) })
                &&& final(self).state() == (if o.err is Some { o } else { ok(enum_value_code(o.st, tag@, rax())) }).st
            }),
            within(old(self).state(), final(self).state(), node_size(*value) + 1),
        decreases value, 3nat,
    {
        self.emit(InstructionOf::Comment(text(comment)));
        match self.gen_expr(value) {
            Err(e) => return Err(e),
            Ok(()) => {},
        }
        self.emit_enum_value(tag, "%rax");
        Ok(())
    }

    /// Evaluate the first six arguments into the argument registers.
    #[verifier::spinoff_prover]
    fn gen_args(&mut self, args: &Vec<AstNode>) -> (r: Result<(), String>)
        requires
            old(self).wf(),
            fits(old(self).state(), nodes_size(args@)),
        ensures
            final(self).wf(),
            final(self).state() == args_code(old(self).state(), args@, reg_args(args@.len() as int) as nat).st,
            outcome(r, args_code(old(self).state(), args@, reg_args(args@.len() as int) as nat)),
            within(old(self).state(), final(self).state(), nodes_size(args@)),
        decreases args@, 0nat,
    {
        let ghost st0 = self.state();
        let count: usize = if args.len() < 6 { args.len() } else { 6 };
        let mut i: usize = 0;
        while i < count
            invariant
                count == reg_args(args@.len() as int),
                st0 == old(self).state(),
                i <= count <= args@.len(),
                self.wf(),
                fits(st0, nodes_size(args@)),
                self.state() == args_code(st0, args@, i as nat).st,
                args_code(st0, args@, i as nat).err is None,
                within(st0, self.state(), nodes_size(args@.take(i as int))),
            decreases count - i,
        {
            proof {
                lemma_nodes_size_prefix(args@, i as int);
                lemma_nodes_size_prefix(args@, i + 1);
                assert(decreases_to!(args@ => args@[i as int]));
            }
            let ghost before = self.state();
            assert(nodes_size(args@.take(i as int)) + node_size(args@[i as int]) <= nodes_size(args@));
            match self.gen_expr(&args[i]) {
                Err(e) => {
                    proof {
                        assert(args_code(st0, args@, (i + 1) as nat) == expr_code(before, args@[i as int]));
                        assert(args_code(st0, args@, (i + 1) as nat).err is Some);
                        lemma_args_stop(st0, args@, (i + 1) as nat, count as nat);
                        assert(args_code(st0, args@, count as nat) == expr_code(before, args@[i as int]));
                        assert(self.state() == expr_code(before, args@[i as int]).st);
                    }
                    return Err(e);
                },
                Ok(()) => {},
            }
            self.emit(InstructionOf::Mov(text("%rax"), arg_reg_text(i)));
            i += 1;
        }
        proof {
            lemma_nodes_size_prefix(args@, i as int);
        }
        Ok(())
    }

    /// Index of the first struct definition called `name`.
    #[verifier::spinoff_prover]
    fn find_struct_def(&self, name: &String) -> (r: Option<usize>)
        ensures
            match r {
                Some(i) => i < self.struct_defs@.len() && find_struct(self.state().structs, name@) == Some(
                    self.state().structs[i as int].1,
                ),
                None => find_struct(self.state().structs, name@) is None,
            },
    {
        let ghost structs = self.state().structs;
        let mut i: usize = 0;
        while i < self.struct_defs.len()
            invariant
                i <= self.struct_defs@.len(),
                structs == self.state().structs,
                forall|j: int| 0 <= j < i ==> #[trigger] structs[j].0 != name@,
            decreases self.struct_defs@.len() - i,
        {
            if self.struct_defs[i].0 == *name {
                proof {
                    lemma_find_struct_first(structs, name@, i as int);
                }
                return Some(i);
            }
            i += 1;
        }
        proof {
            lemma_find_struct_first(structs, name@, i as int);
        }
        None
    }

    /// Initialise the fields of a struct literal from their values, in order.
    #[verifier::spinoff_prover]
    fn gen_fields(&mut self, fields: &Vec<(String, AstNode)>, names: &Vec<String>, struct_name: &String) -> (r: Result<
        (),
        String,
    >)
        requires
            old(self).wf(),
            fits(old(self).state(), fields_size(fields@)),
            names@.len() <= 0x200_0000,
        ensures
            final(self).wf(),
            final(self).state() == fields_code(
                old(self).state(),
                fields@,
                names@.map_values(|f: String| f@),
                struct_name@,
            ).st,
            outcome(r, fields_code(old(self).state(), fields@, names@.map_values(|f: String| f@), struct_name@)),
            within(old(self).state(), final(self).state(), fields_size(fields@)),
        decreases fields@, 0nat,
    {
        let ghost st0 = self.state();
        let ghost sf = names@.map_values(|f: String| f@);
        let mut i: usize = 0;
        while i < fields.len()
            invariant
                i <= fields@.len(),
                names@.len() <= 0x200_0000,
                st0 == old(self).state(),
                sf == names@.map_values(|f: String| f@),
                self.wf(),
                fits(st0, fields_size(fields@)),
                self.state() == fields_code(st0, fields@.take(i as int), sf, struct_name@).st,
                fields_code(st0, fields@.take(i as int), sf, struct_name@).err is None,
                within(st0, self.state(), fields_size(fields@.take(i as int))),
            decreases fields@.len() - i,
        {
            proof {
                lemma_fields_size_prefix(fields@, i as int);
                lemma_fields_size_prefix(fields@, i + 1);
                assert(fields@.take(i + 1).drop_last() =~= fields@.take(i as int));
                assert(decreases_to!(fields@ => fields@[i as int]));
                assert(decreases_to!(fields@[i as int] => fields@[i as int].1));
            }
            let ghost before = self.state();
            let ghost prev = fields_code(st0, fields@.take(i as int), sf, struct_name@);
            assert(fields_size(fields@.take(i as int)) + 1 + node_size(fields@[i as int].1) <= fields_size(fields@));
            assert(fields@.take(i + 1).last() == fields@[i as int]);
            match self.gen_expr(&fields[i].1) {
                Err(e) => {
                    proof {
                        assert(fields_code(st0, fields@.take(i + 1), sf, struct_name@) == expr_code(
                            before,
                            fields@[i as int].1,
                        ));
                        lemma_fields_stop(st0, fields@, sf, struct_name@, i + 1);
                    }
                    return Err(e);
                },
                Ok(()) => {},
            }
            match index_in(names, &fields[i].0) {
                None => {
                    proof {
                        lemma_fields_stop(st0, fields@, sf, struct_name@, i + 1);
                    }
                    let mut m = text("Field ");
                    push_str(&mut m, fields[i].0.as_str());
                    push_str(&mut m, " not found in struct ");
                    push_str(&mut m, struct_name.as_str());
                    return Err(m);
                },
                Some(idx) => {
                    let store = NativeRuntime::gen_struct_field_store(idx);
                    self.emit_all(store);
                },
            }
            i += 1;
        }
        proof {
            lemma_fields_size_prefix(fields@, i as int);
            assert(fields@.take(i as int) =~= fields@);
        }
        Ok(())
    }

    /// The first struct that has a field called `field`: its index and the field's.
    #[verifier::spinoff_prover]
    fn find_field_owner(&self, field: &String) -> (r: Option<(usize, usize)>)
        requires
            self.wf(),
        ensures
            match r {
                Some((i, j)) => {
                    &&& i < self.struct_defs@.len()
                    &&& j < self.struct_defs@[i as int].1.len()
                    &&& field_owner(self.state().structs, field@) == Some((self.state().structs[i as int].0, j as nat))
                },
                None => field_owner(self.state().structs, field@) is None,
            },
    {
        let ghost structs = self.state().structs;
        let mut i: usize = 0;
        while i < self.struct_defs.len()
            invariant
                i <= self.struct_defs@.len(),
                structs == self.state().structs,
                forall|j: int| 0 <= j < i ==> #[trigger] index_of(structs[j].1, field@) is None,
            decreases self.struct_defs@.len() - i,
        {
            match index_in(&self.struct_defs[i].1, field) {
                Some(j) => {
                    proof {
                        lemma_field_owner_first(structs, field@, i as int);
                    }
                    return Some((i, j));
                },
                None => {},
            }
            i += 1;
        }
        proof {
            lemma_field_owner_first(structs, field@, i as int);
        }
        None
    }

    /// Generate code for a call: arguments in registers, then `call`.
    #[verifier::spinoff_prover]
    fn gen_call(&mut self, node: &AstNode) -> (r: Result<(), String>)
        requires
            old(self).wf(),
            fits(old(self).state(), node_size(*node)),
            node is Call,
        ensures
            final(self).wf(),
            final(self).state() == expr_code(old(self).state(), *node).st,
            outcome(r, expr_code(old(self).state(), *node)),
            within(old(self).state(), final(self).state(), node_size(*node)),
        decreases node, 1nat,
    {
        match node {
            AstNode::Call { callee, args, .. } => {
                match self.gen_args(args) {
                    Err(e) => return Err(e),
                    Ok(()) => {},
                }
                match &**callee {
                    AstNode::Ident { name, .. } => {
                        let mut label = text(".L_func_");
                        push_str(&mut label, name.as_str());
                        self.emit(InstructionOf::Call(label));
                        Ok(())
                    },
                    _ => Err(text("Indirect calls not supported yet")),
                }
            },
            _ => Ok(()),
        }
    }

    /// Generate code for a struct literal: allocate it on the heap and store its fields.
    #[verifier::spinoff_prover]
    fn gen_struct_literal(&mut self, node: &AstNode) -> (r: Result<(), String>)
        requires
            old(self).wf(),
            fits(old(self).state(), node_size(*node)),
            node is StructLiteral,
        ensures
            final(self).wf(),
            final(self).state() == expr_code(old(self).state(), *node).st,
            outcome(r, expr_code(old(self).state(), *node)),
            within(old(self).state(), final(self).state(), node_size(*node)),
        decreases node, 1nat,
    {
        match node {
            AstNode::StructLiteral { struct_name, fields, .. } => {
                let mut c = text("Struct literal: ");
                push_str(&mut c, struct_name.as_str());
                self.emit(InstructionOf::Comment(c));
                match self.find_struct_def(struct_name) {
                    None => {
                        let mut m = text("Undefined struct: ");
                        push_str(&mut m, struct_name.as_str());
                        Err(m)
                    },
                    Some(k) => {
                        assert(self.struct_defs@[k as int].1.len() <= 0x200_0000);
                        let names = copy_names(&self.struct_defs[k].1);
                        let alloc = NativeRuntime::gen_struct_alloc(names.len());
                        self.emit_all(alloc);
                        self.emit(InstructionOf::Mov(text("%rax"), text("%rbx")));
                        match self.gen_fields(fields, &names, struct_name) {
                            Err(e) => return Err(e),
                            Ok(()) => {},
                        }
                        self.emit(InstructionOf::Mov(text("%rbx"), text("%rax")));
                        Ok(())
                    },
                }
            },
            _ => Ok(()),
        }
    }

    /// Generate code for a field access on a heap-allocated struct.
    #[verifier::spinoff_prover]
    fn gen_field_access(&mut self, node: &AstNode) -> (r: Result<(), String>)
        requires
            old(self).wf(),
            fits(old(self).state(), node_size(*node)),
            node is FieldAccess,
        ensures
            final(self).wf(),
            final(self).state() == expr_code(old(self).state(), *node).st,
            outcome(r, expr_code(old(self).state(), *node)),
            within(old(self).state(), final(self).state(), node_size(*node)),
        decreases node, 1nat,
    {
        match node {
            AstNode::FieldAccess { object, field, .. } => {
                let mut c = text("Field access: .");
                push_str(&mut c, field.as_str());
                self.emit(InstructionOf::Comment(c));
                match self.gen_expr(object) {
                    Err(e) => return Err(e),
                    Ok(()) => {},
                }
                match self.find_field_owner(field) {
                    None => {
                        let mut m = text("Field '");
                        push_str(&mut m, field.as_str());
                        push_str(&mut m, "' not found in any struct definition");
                        Err(m)
                    },
                    Some((k, idx)) => {
                        let mut c = text("Assuming struct type: ");
                        push_str(&mut c, self.struct_defs[k].0.as_str());
                        push_str(&mut c, " (field index: ");
                        push_str(&mut c, usize_to_string(idx).as_str());
                        push_str(&mut c, ")");
                        self.emit(InstructionOf::Comment(c));
                        let load = NativeRuntime::gen_struct_field_load(idx);
                        self.emit_all(load);
                        Ok(())
                    },
                }
            },
            _ => Ok(()),
        }
    }

    /// Generate code for a string literal: copy its text to the heap.
    #[verifier::spinoff_prover]
    fn gen_text(&mut self, node: &AstNode) -> (r: Result<(), String>)
        requires
            old(self).wf(),
            fits(old(self).state(), node_size(*node)),
            node is Text,
        ensures
            final(self).wf(),
            final(self).state() == expr_code(old(self).state(), *node).st,
            outcome(r, expr_code(old(self).state(), *node)),
            within(old(self).state(), final(self).state(), node_size(*node)),
        decreases node, 1nat,
    {
        match node {
            AstNode::Text { value, .. } => {
                let mut c = text("String literal: \"");
                push_str(&mut c, value.as_str());
                push_str(&mut c, "\"");
                self.emit(InstructionOf::Comment(c));
                let label = numbered_text(".L_string_data_", self.label_counter);
                self.label_counter += 1;
                self.string_literals.push((label.clone(), value.clone()));
                let ghost lits = self.literals();
                let n = value.as_str().len();
                let mut len_text = text("$");
                push_str(&mut len_text, usize_to_string(n).as_str());
                self.emit(InstructionOf::Mov(len_text, text("%r10")));
                let mut addr = label.clone();
                push_str(&mut addr, "(%rip)");
                self.emit(InstructionOf::Lea(addr, text("%r11")));
                let ghost mid = self.state();
                let alloc = NativeRuntime::gen_string_alloc();
                self.emit_all(alloc);
                proof {
                    assert(lits =~= old(self).state().literals.push((label@, value@)));
                    let o = expr_code(old(self).state(), *node);
                    assert(self.state().code =~= o.st.code);
                    assert(self.state().literals == o.st.literals);
                }
                Ok(())
            },
            _ => Ok(()),
        }
    }

    /// Generate code for an expression (result in rax)
    #[verifier::spinoff_prover]
    fn gen_expr(&mut self, node: &AstNode) -> (r: Result<(), String>)
        requires
            old(self).wf(),
            fits(old(self).state(), node_size(*node)),
        ensures
            final(self).wf(),
            final(self).state() == expr_code(old(self).state(), *node).st,
            outcome(r, expr_code(old(self).state(), *node)),
            within(old(self).state(), final(self).state(), node_size(*node)),
        decreases node, 2nat,
    {
        match node {
            AstNode::Number { value, .. } => {
                let n = literal_value(value);
                self.emit(InstructionOf::Mov(imm_text(n), text("%rax")));
                Ok(())
            },
            AstNode::Ident { name, .. } => match self.get_var(name) {
                Some(off) => {
                    self.emit(InstructionOf::Mov(slot_text(off), text("%rax")));
                    Ok(())
                },
                None => {
                    let mut m = text("Undefined variable: ");
                    push_str(&mut m, name.as_str());
                    Err(m)
                },
            },
            AstNode::BinaryOp { .. } => self.gen_binary(node),
            AstNode::UnaryOp { op, operand, .. } => {
                match self.gen_expr(operand) {
                    Err(e) => return Err(e),
                    Ok(()) => {},
                }
                match op {
                    UnaryOperator::Negate => self.emit(InstructionOf::Neg(text("%rax"))),
                    UnaryOperator::Not => {
                        self.emit(InstructionOf::Cmp(text("$0"), text("%rax")));
                        self.emit(InstructionOf::Mov(text("$0"), text("%rax")));
                    },
                }
                Ok(())
            },
            AstNode::Call { .. } => self.gen_call(node),
            AstNode::Triumph { value, .. } => self.gen_variant(value, "Create Triumph variant", "$1"),
            AstNode::Mishap { value, .. } => self.gen_variant(value, "Create Mishap variant", "$0"),
            AstNode::Present { value, .. } => self.gen_variant(value, "Create Present variant", "$1"),
            AstNode::Absent { .. } => {
                self.emit(InstructionOf::Comment(text("Create Absent { span: SourceSpan::default() } variant")));
                self.emit_enum_value("$0", "$0");
                Ok(())
            },
            AstNode::StructLiteral { .. } => self.gen_struct_literal(node),
            AstNode::FieldAccess { .. } => self.gen_field_access(node),
            AstNode::Text { .. } => self.gen_text(node),
            AstNode::ModuleAccess { module, member, .. } => {
                let mut m = text(
                    "Module-qualified access not supported in native codegen (requires runtime symbol resolution). Attempted to access ",
                );
                push_str(&mut m, module.as_str());
                push_str(&mut m, ".");
                push_str(&mut m, member.as_str());
                push_str(&mut m, ". Use interpreter or bytecode VM instead.");
                Err(m)
            },
            _ => {
                let mut m = text("Expression codegen not implemented: ");
                push_str(&mut m, node_debug_text(node).as_str());
                Err(m)
            },
        }
    }

    /// Generate code for statements in order, stopping at the first error.
    #[verifier::spinoff_prover]
    fn gen_statements(&mut self, nodes: &[AstNode]) -> (r: Result<(), String>)
        requires
            old(self).wf(),
            fits(old(self).state(), nodes_size(nodes@)),
        ensures
            final(self).wf(),
            final(self).state() == stmts_code(old(self).state(), nodes@).st,
            outcome(r, stmts_code(old(self).state(), nodes@)),
            within(old(self).state(), final(self).state(), nodes_size(nodes@)),
        decreases nodes@, 0nat,
    {
        let ghost st0 = self.state();
        let mut i: usize = 0;
        while i < nodes.len()
            invariant
                i <= nodes@.len(),
                st0 == old(self).state(),
                self.wf(),
                fits(st0, nodes_size(nodes@)),
                self.state() == stmts_code(st0, nodes@.take(i as int)).st,
                stmts_code(st0, nodes@.take(i as int)).err is None,
                within(st0, self.state(), nodes_size(nodes@.take(i as int))),
            decreases nodes@.len() - i,
        {
            proof {
                lemma_nodes_size_prefix(nodes@, i as int);
                lemma_nodes_size_prefix(nodes@, i + 1);
                assert(nodes@.take(i + 1).drop_last() =~= nodes@.take(i as int));
                assert(nodes@.take(i + 1).last() == nodes@[i as int]);
                assert(decreases_to!(nodes@ => nodes@[i as int]));
            }
            let ghost before = self.state();
            match self.gen_statement(&nodes[i]) {
                Err(e) => {
                    proof {
                        assert(stmts_code(st0, nodes@.take(i + 1)) == stmt_code(before, nodes@[i as int]));
                        lemma_stmts_stop(st0, nodes@, i + 1);
                    }
                    return Err(e);
                },
                Ok(()) => {},
            }
            i += 1;
        }
        proof {
            lemma_nodes_size_prefix(nodes@, i as int);
            assert(nodes@.take(i as int) =~= nodes@);
        }
        Ok(())
    }

    /// The end of a match arm: its body, the jump to the end of the match,
    /// and the next arm's label unless this is the last arm.
    #[verifier::spinoff_prover]
    fn gen_arm_end(&mut self, body: &Vec<AstNode>, idx: usize, n: usize, id: usize) -> (r: Result<(), String>)
        requires
            old(self).wf(),
            fits(old(self).state(), nodes_size(body@)),
            idx < n,
        ensures
            final(self).wf(),
            final(self).state() == arm_end_code(old(self).state(), body@, idx as int, n as int, id as int).st,
            outcome(r, arm_end_code(old(self).state(), body@, idx as int, n as int, id as int)),
            within(old(self).state(), final(self).state(), nodes_size(body@)),
        decreases body@, 1nat,
    {
        match self.gen_statements(body.as_slice()) {
            Err(e) => return Err(e),
            Ok(()) => {},
        }
        self.emit(InstructionOf::Jmp(numbered_text(".L_match_end_", id)));
        if idx + 1 < n {
            self.emit(InstructionOf::Label(next_arm_text(id, idx)));
        }
        Ok(())
    }

    /// Generate code for an arm whose pattern is an enum variant.
    #[verifier::spinoff_prover]
    fn gen_enum_arm(&mut self, arm: &MatchArm, idx: usize, n: usize, id: usize, off: i32) -> (r: Result<(), String>)
        requires
            old(self).wf(),
            fits(old(self).state(), arm_size(*arm)),
            idx < n,
            arm.pattern is Enum,
        ensures
            final(self).wf(),
            final(self).state() == enum_arm_code(old(self).state(), *arm, idx as int, n as int, id as int, off as int).st,
            outcome(r, enum_arm_code(old(self).state(), *arm, idx as int, n as int, id as int, off as int)),
            within(old(self).state(), final(self).state(), arm_size(*arm)),
        decreases arm, 1nat,
    {
        match &arm.pattern {
            Pattern::Enum { variant, inner } => {
                let mut c = text("Match ");
                push_str(&mut c, variant.as_str());
                push_str(&mut c, " variant");
                self.emit(InstructionOf::Comment(c));
                self.emit(InstructionOf::Mov(slot_text(off), text("%rax")));
                self.emit(InstructionOf::Mov(text("8(%rax)"), text("%rbx")));
                let tag: i64 = if eq_str(variant, "Triumph") || eq_str(variant, "Present") {
                    1
                } else if eq_str(variant, "Mishap") || eq_str(variant, "Absent") {
                    0
                } else {
                    let mut m = text("Unknown enum variant: ");
                    push_str(&mut m, variant.as_str());
                    return Err(m);
                };
                self.emit(InstructionOf::Cmp(imm_text(tag), text("%rbx")));
                if idx + 1 < n {
                    self.emit(InstructionOf::Jne(next_arm_text(id, idx)));
                }
                match inner {
                    None => self.gen_arm_end(&arm.body, idx, n, id),
                    Some(p) => match &**p {
                        Pattern::Ident(v) => {
                            self.emit(InstructionOf::Mov(slot_text(off), text("%rax")));
                            self.emit(InstructionOf::Mov(text("0(%rax)"), text("%rbx")));
                            let var_offset = self.alloc_var(v.clone());
                            self.emit(InstructionOf::Mov(text("%rbx"), slot_text(var_offset)));
                            self.gen_arm_end(&arm.body, idx, n, id)
                        },
                        Pattern::Wildcard => self.gen_arm_end(&arm.body, idx, n, id),
                        _ => Err(text("Complex nested enum patterns not yet supported in native codegen")),
                    },
                }
            },
            _ => Ok(()),
        }
    }

    /// Generate code for arm `idx` of `n` of match number `id`; the matched
    /// value is in slot `off`.
    #[verifier::spinoff_prover]
    fn gen_arm(&mut self, arm: &MatchArm, idx: usize, n: usize, id: usize, off: i32) -> (r: Result<(), String>)
        requires
            old(self).wf(),
            fits(old(self).state(), arm_size(*arm)),
            idx < n,
        ensures
            final(self).wf(),
            final(self).state() == arm_code(old(self).state(), *arm, idx as int, n as int, id as int, off as int).st,
            outcome(r, arm_code(old(self).state(), *arm, idx as int, n as int, id as int, off as int)),
            within(old(self).state(), final(self).state(), arm_size(*arm)),
        decreases arm, 2nat,
    {
        match &arm.pattern {
            Pattern::Literal(lit) => {
                match self.gen_expr(lit) {
                    Err(e) => return Err(e),
                    Ok(()) => {},
                }
                self.emit(InstructionOf::Mov(text("%rax"), text("%rbx")));
                self.emit(InstructionOf::Mov(slot_text(off), text("%rax")));
                self.emit(InstructionOf::Cmp(text("%rbx"), text("%rax")));
                if idx + 1 < n {
                    self.emit(InstructionOf::Jne(next_arm_text(id, idx)));
                }
                self.gen_arm_end(&arm.body, idx, n, id)
            },
            Pattern::Ident(v) => {
                self.emit(InstructionOf::Mov(slot_text(off), text("%rax")));
                let var_offset = self.alloc_var(v.clone());
                self.emit(InstructionOf::Mov(text("%rax"), slot_text(var_offset)));
                self.gen_arm_end(&arm.body, idx, n, id)
            },
            Pattern::Wildcard => self.gen_arm_end(&arm.body, idx, n, id),
            Pattern::Enum { .. } => self.gen_enum_arm(arm, idx, n, id, off),
        }
    }

    /// Generate code for the arms of match number `id`.
    #[verifier::spinoff_prover]
    fn gen_arms(&mut self, arms: &Vec<MatchArm>, id: usize, off: i32) -> (r: Result<(), String>)
        requires
            old(self).wf(),
            fits(old(self).state(), arms_size(arms@)),
        ensures
            final(self).wf(),
            final(self).state() == arms_code(old(self).state(), arms@, arms@.len() as int, id as int, off as int).st,
            outcome(r, arms_code(old(self).state(), arms@, arms@.len() as int, id as int, off as int)),
            within(old(self).state(), final(self).state(), arms_size(arms@)),
        decreases arms@, 3nat,
    {
        let ghost st0 = self.state();
        let ghost n = arms@.len() as int;
        let mut i: usize = 0;
        while i < arms.len()
            invariant
                i <= arms@.len(),
                n == arms@.len(),
                st0 == old(self).state(),
                self.wf(),
                fits(st0, arms_size(arms@)),
                self.state() == arms_code(st0, arms@.take(i as int), n, id as int, off as int).st,
                arms_code(st0, arms@.take(i as int), n, id as int, off as int).err is None,
                within(st0, self.state(), arms_size(arms@.take(i as int))),
            decreases arms@.len() - i,
        {
            proof {
                lemma_arms_size_prefix(arms@, i as int);
                lemma_arms_size_prefix(arms@, i + 1);
                assert(arms@.take(i + 1).drop_last() =~= arms@.take(i as int));
                assert(arms@.take(i + 1).last() == arms@[i as int]);
                assert(decreases_to!(arms@ => arms@[i as int]));
            }
            let ghost before = self.state();
            match self.gen_arm(&arms[i], i, arms.len(), id, off) {
                Err(e) => {
                    proof {
                        assert(arms_code(st0, arms@.take(i + 1), n, id as int, off as int) == arm_code(
                            before,
                            arms@[i as int],
                            i as int,
                            n,
                            id as int,
                            off as int,
                        ));
                        lemma_arms_stop(st0, arms@, n, id as int, off as int, i + 1);
                    }
                    return Err(e);
                },
                Ok(()) => {},
            }
            i += 1;
        }
        proof {
            lemma_arms_size_prefix(arms@, i as int);
            assert(arms@.take(i as int) =~= arms@);
        }
        Ok(())
    }

    /// Generate code for handler `i` of `n` of attempt block number `id`.
    #[verifier::spinoff_prover]
    fn gen_handler(&mut self, h: &ErrorHandler, i: usize, n: usize, id: usize) -> (r: Result<(), String>)
        requires
            old(self).wf(),
            fits(old(self).state(), 1 + nodes_size(h.body@)),
            i < n,
        ensures
            final(self).wf(),
            final(self).state() == handler_code(old(self).state(), *h, i as int, n as int, id as int).st,
            outcome(r, handler_code(old(self).state(), *h, i as int, n as int, id as int)),
            within(old(self).state(), final(self).state(), 1 + nodes_size(h.body@)),
        decreases h, 2nat,
    {
        if eq_str(&h.error_type, "_") {
            self.emit(InstructionOf::Comment(text("Wildcard handler")));
            match self.gen_statements(h.body.as_slice()) {
                Err(e) => return Err(e),
                Ok(()) => {},
            }
            self.emit(InstructionOf::Jmp(numbered_text(".L_attempt_end_", id)));
        } else {
            let mut c = text("Handler for ");
            push_str(&mut c, h.error_type.as_str());
            self.emit(InstructionOf::Comment(c));
            match self.gen_statements(h.body.as_slice()) {
                Err(e) => return Err(e),
                Ok(()) => {},
            }
            self.emit(InstructionOf::Jmp(numbered_text(".L_attempt_end_", id)));
            if i + 1 < n {
                let mut l = numbered_text(".L_attempt_handler_", id);
                push_str(&mut l, "_");
                push_str(&mut l, usize_to_string(i + 1).as_str());
                self.emit(InstructionOf::Label(l));
            }
        }
        Ok(())
    }

    /// Generate code for the handlers of attempt block number `id`.
    #[verifier::spinoff_prover]
    fn gen_handlers(&mut self, hs: &Vec<ErrorHandler>, id: usize) -> (r: Result<(), String>)
        requires
            old(self).wf(),
            fits(old(self).state(), handlers_size(hs@)),
        ensures
            final(self).wf(),
            final(self).state() == handlers_code(old(self).state(), hs@, hs@.len() as int, id as int).st,
            outcome(r, handlers_code(old(self).state(), hs@, hs@.len() as int, id as int)),
            within(old(self).state(), final(self).state(), handlers_size(hs@)),
        decreases hs@, 3nat,
    {
        let ghost st0 = self.state();
        let ghost n = hs@.len() as int;
        let mut i: usize = 0;
        while i < hs.len()
            invariant
                i <= hs@.len(),
                n == hs@.len(),
                st0 == old(self).state(),
                self.wf(),
                fits(st0, handlers_size(hs@)),
                self.state() == handlers_code(st0, hs@.take(i as int), n, id as int).st,
                handlers_code(st0, hs@.take(i as int), n, id as int).err is None,
                within(st0, self.state(), handlers_size(hs@.take(i as int))),
            decreases hs@.len() - i,
        {
            proof {
                lemma_handlers_size_prefix(hs@, i as int);
                lemma_handlers_size_prefix(hs@, i + 1);
                assert(hs@.take(i + 1).drop_last() =~= hs@.take(i as int));
                assert(hs@.take(i + 1).last() == hs@[i as int]);
                assert(decreases_to!(hs@ => hs@[i as int]));
            }
            let ghost before = self.state();
            match self.gen_handler(&hs[i], i, hs.len(), id) {
                Err(e) => {
                    proof {
                        assert(handlers_code(st0, hs@.take(i + 1), n, id as int) == handler_code(
                            before,
                            hs@[i as int],
                            i as int,
                            n,
                            id as int,
                        ));
                        lemma_handlers_stop(st0, hs@, n, id as int, i + 1);
                    }
                    return Err(e);
                },
                Ok(()) => {},
            }
            i += 1;
        }
        proof {
            lemma_handlers_size_prefix(hs@, i as int);
            assert(hs@.take(i as int) =~= hs@);
        }
        Ok(())
    }

    /// Generate code for an `if` statement.
    #[verifier::spinoff_prover]
    fn gen_if(&mut self, node: &AstNode) -> (r: Result<(), String>)
        requires
            old(self).wf(),
            fits(old(self).state(), node_size(*node)),
            node is IfStmt,
        ensures
            final(self).wf(),
            final(self).state() == if_code(old(self).state(), *node).st,
            outcome(r, if_code(old(self).state(), *node)),
            within(old(self).state(), final(self).state(), node_size(*node)),
        decreases node, 3nat,
    {
        match node {
            AstNode::IfStmt { condition, then_branch, else_branch, .. } => {
                let else_label = numbered_text(".L_else_", self.label_counter);
                let end_label = numbered_text(".L_if_end_", self.label_counter);
                self.label_counter += 1;
                match self.gen_expr(condition) {
                    Err(e) => return Err(e),
                    Ok(()) => {},
                }
                self.emit(InstructionOf::Cmp(text("$0"), text("%rax")));
                match else_branch {
                    Some(_) => self.emit(InstructionOf::Je(else_label.clone())),
                    None => self.emit(InstructionOf::Je(end_label.clone())),
                }
                match self.gen_statements(then_branch.as_slice()) {
                    Err(e) => return Err(e),
                    Ok(()) => {},
                }
                match else_branch {
                    Some(eb) => {
                        self.emit(InstructionOf::Jmp(end_label.clone()));
                        self.emit(InstructionOf::Label(else_label));
                        match self.gen_statements(eb.as_slice()) {
                            Err(e) => return Err(e),
                            Ok(()) => {},
                        }
                    },
                    None => {},
                }
                self.emit(InstructionOf::Label(end_label));
                Ok(())
            },
            _ => Ok(()),
        }
    }

    /// Generate code for a `while` loop.
    #[verifier::spinoff_prover]
    fn gen_while(&mut self, node: &AstNode) -> (r: Result<(), String>)
        requires
            old(self).wf(),
            fits(old(self).state(), node_size(*node)),
            node is WhileStmt,
        ensures
            final(self).wf(),
            final(self).state() == while_code(old(self).state(), *node).st,
            outcome(r, while_code(old(self).state(), *node)),
            within(old(self).state(), final(self).state(), node_size(*node)),
        decreases node, 3nat,
    {
        match node {
            AstNode::WhileStmt { condition, body, .. } => {
                let start_label = numbered_text(".L_while_start_", self.label_counter);
                let end_label = numbered_text(".L_while_end_", self.label_counter);
                self.label_counter += 1;
                self.emit(InstructionOf::Label(start_label.clone()));
                match self.gen_expr(condition) {
                    Err(e) => return Err(e),
                    Ok(()) => {},
                }
                self.emit(InstructionOf::Cmp(text("$0"), text("%rax")));
                self.emit(InstructionOf::Je(end_label.clone()));
                match self.gen_statements(body.as_slice()) {
                    Err(e) => return Err(e),
                    Ok(()) => {},
                }
                self.emit(InstructionOf::Jmp(start_label));
                self.emit(InstructionOf::Label(end_label));
                Ok(())
            },
            _ => Ok(()),
        }
    }

    /// Generate code for a `match` statement.
    #[verifier::spinoff_prover]
    fn gen_match(&mut self, node: &AstNode) -> (r: Result<(), String>)
        requires
            old(self).wf(),
            fits(old(self).state(), node_size(*node)),
            node is MatchStmt,
        ensures
            final(self).wf(),
            final(self).state() == match_code(old(self).state(), *node).st,
            outcome(r, match_code(old(self).state(), *node)),
            within(old(self).state(), final(self).state(), node_size(*node)),
        decreases node, 3nat,
    {
        match node {
            AstNode::MatchStmt { value, arms, .. } => {
                let match_id = self.label_counter;
                self.label_counter += 1;
                match self.gen_expr(value) {
                    Err(e) => return Err(e),
                    Ok(()) => {},
                }
                let tmp = numbered_text("__match_tmp_", match_id);
                let match_value_offset = self.alloc_var(tmp);
                self.emit(InstructionOf::Mov(text("%rax"), slot_text(match_value_offset)));
                match self.gen_arms(arms, match_id, match_value_offset) {
                    Err(e) => return Err(e),
                    Ok(()) => {},
                }
                self.emit(InstructionOf::Label(numbered_text(".L_match_end_", match_id)));
                Ok(())
            },
            _ => Ok(()),
        }
    }

    /// Generate a function: its label, prologue, parameters stored from their
    /// registers, body and default return; the caller's context is restored.
    #[verifier::spinoff_prover]
    fn gen_chant(&mut self, node: &AstNode) -> (r: Result<(), String>)
        requires
            old(self).wf(),
            fits(old(self).state(), node_size(*node)),
            node is ChantDef,
        ensures
            final(self).wf(),
            final(self).state() == chant_code(old(self).state(), *node).st,
            outcome(r, chant_code(old(self).state(), *node)),
            within(old(self).state(), final(self).state(), node_size(*node)),
        decreases node, 3nat,
    {
        match node {
            AstNode::ChantDef { name, params, body, .. } => {
                let old_function = copy_opt(&self.current_function);
                let old_label = copy_opt(&self.function_entry_label);
                let old_vars = copy_vars(&self.variables);
                let old_stack = self.stack_offset;
                let mut func_label = text(".L_func_");
                push_str(&mut func_label, name.as_str());
                self.current_function = Some(name.clone());
                self.function_entry_label = Some(func_label.clone());
                self.emit(InstructionOf::Label(func_label));
                self.emit(InstructionOf::Push(text("%rbp")));
                self.emit(InstructionOf::Mov(text("%rsp"), text("%rbp")));
                let ghost s1 = self.state();
                self.store_params(params);
                let ghost s2 = self.state();
                assert(s2 == store_params(s1, params@.take(reg_args(params@.len() as int))));
                match self.gen_statements(body.as_slice()) {
                    Err(e) => return Err(e),
                    Ok(()) => {},
                }
                self.emit(InstructionOf::Mov(text("$0"), text("%rax")));
                self.emit(InstructionOf::Mov(text("%rbp"), text("%rsp")));
                self.emit(InstructionOf::Pop(text("%rbp")));
                self.emit(InstructionOf::Ret);
                let ghost s3 = self.state();
                self.current_function = old_function;
                self.function_entry_label = old_label;
                self.variables = old_vars;
                self.stack_offset = old_stack;
                assert(self.state() == (GenState {
                    func: old(self).state().func,
                    entry: old(self).state().entry,
                    vars: old(self).state().vars,
                    stack: old(self).state().stack,
                    ..s3
                }));
                Ok(())
            },
            _ => Ok(()),
        }
    }

    /// Store the first six parameters from their argument registers into
    /// fresh stack slots.
    #[verifier::spinoff_prover]
    fn store_params(&mut self, params: &Vec<Parameter>)
        requires
            old(self).wf(),
            old(self).stack_offset - 48 >= i32::MIN,
        ensures
            final(self).wf(),
            final(self).state() == store_params(old(self).state(), params@.take(reg_args(params@.len() as int))),
            final(self).stack_offset >= old(self).stack_offset - 48,
            final(self).label_counter == old(self).label_counter,
    {
        let ghost s1 = self.state();
        let count: usize = if params.len() < 6 { params.len() } else { 6 };
        let mut i: usize = 0;
        assert(params@.take(0) =~= Seq::<Parameter>::empty());
        while i < count
            invariant
                i <= count <= params@.len(),
                count == reg_args(params@.len() as int),
                count <= 6,
                self.wf(),
                s1 == old(self).state(),
                self.stack_offset == s1.stack - 8 * i,
                s1.stack - 48 >= i32::MIN,
                self.label_counter == old(self).label_counter,
                self.state() == store_params(s1, params@.take(i as int)),
            decreases count - i,
        {
            let offset = self.alloc_var(params[i].name.clone());
            self.emit(InstructionOf::Mov(arg_reg_text(i), slot_text(offset)));
            i += 1;
            assert(params@.take(i as int).drop_last() =~= params@.take(i - 1));
        }
    }

    /// Generate a `yield`: a jump back to the function's start for a call of
    /// the function being compiled (its arguments in registers), else the
    /// value in rax and a return.
    #[verifier::spinoff_prover]
    fn gen_yield(&mut self, node: &AstNode) -> (r: Result<(), String>)
        requires
            old(self).wf(),
            fits(old(self).state(), node_size(*node)),
            node is YieldStmt,
        ensures
            final(self).wf(),
            final(self).state() == yield_code(old(self).state(), *node).st,
            outcome(r, yield_code(old(self).state(), *node)),
            within(old(self).state(), final(self).state(), node_size(*node)),
        decreases node, 3nat,
    {
        match node {
            AstNode::YieldStmt { value, .. } => {
                let tail_args = match &**value {
                    AstNode::Call { callee, args, .. } => match &**callee {
                        AstNode::Ident { name, .. } => match &self.current_function {
                            Some(f) => if *f == *name {
                                Some(args)
                            } else {
                                None
                            },
                            None => None,
                        },
                        _ => None,
                    },
                    _ => None,
                };
                match tail_args {
                    Some(args) => {
                        match self.gen_args(args) {
                            Err(e) => return Err(e),
                            Ok(()) => {},
                        }
                        match copy_opt(&self.function_entry_label) {
                            Some(entry_label) => {
                                self.emit(InstructionOf::Mov(text("%rbp"), text("%rsp")));
                                self.emit(InstructionOf::Pop(text("%rbp")));
                                self.emit(InstructionOf::Jmp(entry_label));
                            },
                            None => {},
                        }
                        Ok(())
                    },
                    None => {
                        match self.gen_expr(value) {
                            Err(e) => return Err(e),
                            Ok(()) => {},
                        }
                        self.emit(InstructionOf::Mov(text("%rbp"), text("%rsp")));
                        self.emit(InstructionOf::Pop(text("%rbp")));
                        self.emit(InstructionOf::Ret);
                        Ok(())
                    },
                }
            },
            _ => Ok(()),
        }
    }

    /// Generate an `attempt` block: its body, then its handlers.
    #[verifier::spinoff_prover]
    fn gen_attempt(&mut self, node: &AstNode) -> (r: Result<(), String>)
        requires
            old(self).wf(),
            fits(old(self).state(), node_size(*node)),
            node is AttemptStmt,
        ensures
            final(self).wf(),
            final(self).state() == attempt_code(old(self).state(), *node).st,
            outcome(r, attempt_code(old(self).state(), *node)),
            within(old(self).state(), final(self).state(), node_size(*node)),
        decreases node, 3nat,
    {
        match node {
            AstNode::AttemptStmt { body, handlers, .. } => {
                let attempt_id = self.label_counter;
                self.label_counter += 1;
                let handler_label = numbered_text(".L_attempt_handler_", attempt_id);
                let end_label = numbered_text(".L_attempt_end_", attempt_id);
                self.emit(InstructionOf::Comment(numbered_text("Attempt block ", attempt_id)));
                match self.gen_statements(body.as_slice()) {
                    Err(e) => return Err(e),
                    Ok(()) => {},
                }
                self.emit(InstructionOf::Jmp(end_label.clone()));
                self.emit(InstructionOf::Label(handler_label));
                self.emit(InstructionOf::Comment(text("Exception handlers")));
                match self.gen_handlers(handlers, attempt_id) {
                    Err(e) => return Err(e),
                    Ok(()) => {},
                }
                self.emit(InstructionOf::Label(end_label));
                self.emit(InstructionOf::Comment(text("End of attempt block")));
                Ok(())
            },
            _ => Ok(()),
        }
    }

    /// Generate code for a statement
    #[verifier::spinoff_prover]
    fn gen_statement(&mut self, node: &AstNode) -> (r: Result<(), String>)
        requires
            old(self).wf(),
            fits(old(self).state(), node_size(*node)),
        ensures
            final(self).wf(),
            final(self).state() == stmt_code(old(self).state(), *node).st,
            outcome(r, stmt_code(old(self).state(), *node)),
            within(old(self).state(), final(self).state(), node_size(*node)),
        decreases node, 4nat,
    {
        match node {
            AstNode::BindStmt { name, value, .. } => {
                match self.gen_expr(value) {
                    Err(e) => return Err(e),
                    Ok(()) => {},
                }
                let offset = self.alloc_var(name.clone());
                self.emit(InstructionOf::Mov(text("%rax"), slot_text(offset)));
                Ok(())
            },
            AstNode::WeaveStmt { name, value, .. } => {
                match self.gen_expr(value) {
                    Err(e) => return Err(e),
                    Ok(()) => {},
                }
                let offset = self.alloc_var(name.clone());
                self.emit(InstructionOf::Mov(text("%rax"), slot_text(offset)));
                Ok(())
            },
            AstNode::SetStmt { target, value, .. } => match &**target {
                AstNode::Ident { name, .. } => {
                    match self.gen_expr(value) {
                        Err(e) => return Err(e),
                        Ok(()) => {},
                    }
                    match self.get_var(name) {
                        None => {
                            let mut m = text("Undefined variable: ");
                            push_str(&mut m, name.as_str());
                            Err(m)
                        },
                        Some(offset) => {
                            self.emit(InstructionOf::Mov(text("%rax"), slot_text(offset)));
                            Ok(())
                        },
                    }
                },
                _ => Err(
                    text(
                        "Index and field assignment not supported in native codegen (requires heap allocation runtime). Use interpreter or bytecode VM instead.",
                    ),
                ),
            },
            AstNode::IfStmt { .. } => self.gen_if(node),
            AstNode::WhileStmt { .. } => self.gen_while(node),
            AstNode::MatchStmt { .. } => self.gen_match(node),
            AstNode::ChantDef { .. } => self.gen_chant(node),
            AstNode::FormDef { name, fields, .. } => {
                let mut c = text("Struct definition: ");
                push_str(&mut c, name.as_str());
                self.emit(InstructionOf::Comment(c));
                let names = struct_field_names(fields);
                self.struct_defs.push((name.clone(), names));
                proof {
                    assert(self.state().structs =~= old(self).state().structs.push((name@, field_names(fields@))));
                }
                Ok(())
            },
            AstNode::YieldStmt { .. } => self.gen_yield(node),
            AstNode::AttemptStmt { .. } => self.gen_attempt(node),
            AstNode::ModuleDecl { name, .. } => {
                let mut m = text(
                    "Module declarations not supported in native codegen (multi-file compilation required). Module: ",
                );
                push_str(&mut m, name.as_str());
                push_str(&mut m, ". Use interpreter or bytecode VM instead.");
                Err(m)
            },
            AstNode::Import { module_name, path, .. } => {
                let mut m = text(
                    "Module imports not supported in native codegen (runtime module resolution required). Attempted to import ",
                );
                push_str(&mut m, module_name.as_str());
                push_str(&mut m, " from ");
                push_str(&mut m, path.as_str());
                push_str(&mut m, ". Use interpreter or bytecode VM instead.");
                Err(m)
            },
            AstNode::Export { items, .. } => {
                let mut m = text(
                    "Module exports not supported in native codegen (symbol export infrastructure required). Attempted to export: ",
                );
                push_str(&mut m, texts_debug_text(items).as_str());
                push_str(&mut m, ". Use interpreter or bytecode VM instead.");
                Err(m)
            },
            AstNode::RequestStmt { .. } => Err(
                text(
                    "Capability requests are not supported in native codegen. Use interpreter or bytecode VM instead. (Requires runtime object creation which is not yet implemented)",
                ),
            ),
            AstNode::ExprStmt { expr, .. } => self.gen_expr(expr),
            _ => self.gen_expr(node),
        }
    }

    /// A copy of the instructions generated so far.
    #[verifier::spinoff_prover]
    fn copy_code(&self) -> (code: Vec<Instruction>)
        ensures
            code_view(code@) == self.code(),
    {
        let mut code: Vec<Instruction> = Vec::new();
        let mut i: usize = 0;
        while i < self.instructions.len()
            invariant
                i <= self.instructions@.len(),
                code@.len() == i,
                forall|j: int| 0 <= j < i ==> #[trigger] code@[j]@ == self.instructions@[j]@,
            decreases self.instructions@.len() - i,
        {
            code.push(self.instructions[i].duplicate());
            i += 1;
        }
        assert(code_view(code@) =~= self.code());
        code
    }

    /// Generate code for a program (list of statements): `main`'s prologue,
    /// each statement in order, then the epilogue. On success the result is
    /// all instructions generated so far; on failure, the first error.
    #[verifier::spinoff_prover]
    pub fn compile(&mut self, nodes: &[AstNode]) -> (r: Result<Vec<Instruction>, String>)
        requires
            old(self).wf(),
            fits(old(self).state(), program_size(nodes@)),
        ensures
            final(self).wf(),
            final(self).state() == program_code(old(self).state(), nodes@).st,
            match r {
                Ok(code) => {
                    &&& program_code(old(self).state(), nodes@).err is None
                    &&& code_view(code@) == final(self).state().code
                },
                Err(m) => match program_code(old(self).state(), nodes@).err {
                    Some(e) => reports(m@, e),
                    None => false,
                },
            },
    {
        self.emit(InstructionOf::Label(text("main")));
        self.emit(InstructionOf::Push(text("%rbp")));
        self.emit(InstructionOf::Mov(text("%rsp"), text("%rbp")));
        match self.gen_statements(nodes) {
            Err(e) => return Err(e),
            Ok(()) => {},
        }
        self.emit(InstructionOf::Mov(text("%rbp"), text("%rsp")));
        self.emit(InstructionOf::Pop(text("%rbp")));
        self.emit(InstructionOf::Ret);
        Ok(self.copy_code())
    }

    /// Get generated assembly code as string
    #[verifier::spinoff_prover]
    pub fn to_assembly(&self) -> (out: String)
        ensures
            out@ == assembly_text(self.literals(), self.code()),
    {
        let mut out = String::new();
        let ghost lits = self.literals();

        // .data section for string literals
        if self.string_literals.len() > 0 {
            push_str(&mut out, ".data\n");
            let mut i: usize = 0;
            while i < self.string_literals.len()
                invariant
                    i <= self.string_literals.len(),
                    lits == self.literals(),
                    out@ == ".data\n"@ + literal_lines(lits.subrange(0, i as int)),
                decreases self.string_literals.len() - i,
            {
                let ghost before = out@;
                push_str(&mut out, self.string_literals[i].0.as_str());
                push_str(&mut out, ":\n");
                // Emit string as .ascii directive (not null-terminated)
                push_str(&mut out, "    .ascii \"");
                push_str(&mut out, self.string_literals[i].1.as_str());
                push_str(&mut out, "\"\n");
                i = i + 1;
                assert(lits.subrange(0, i as int).drop_last() =~= lits.subrange(0, i - 1));
                assert(out@ =~= ".data\n"@ + literal_lines(lits.subrange(0, i as int)));
            }
            assert(lits.subrange(0, i as int) =~= lits);
            push_str(&mut out, "\n");
        }
        let ghost data_part = out@;
        // AT&T syntax header
        push_str(&mut out, ".text\n");
        push_str(&mut out, ".globl main\n\n");

        // External declarations for runtime functions
        let decls = NativeRuntime::gen_external_declarations();
        push_str(&mut out, decls.as_str());
        let ghost header = out@;
        let ghost code = self.code();

        let mut i: usize = 0;
        while i < self.instructions.len()
            invariant
                i <= self.instructions.len(),
                code == self.code(),
                out@ == header + instruction_lines(code.subrange(0, i as int)),
            decreases self.instructions.len() - i,
        {
            let line = self.instructions[i].to_asm();
            push_str(&mut out, line.as_str());
            push_str(&mut out, "\n");
            i = i + 1;
            assert(code.subrange(0, i as int).drop_last() =~= code.subrange(0, i - 1));
            assert(out@ =~= header + instruction_lines(code.subrange(0, i as int)));
        }
        assert(code.subrange(0, i as int) =~= code);
        assert(out@ =~= assembly_text(lits, code));
        out
    }
}

/// Compile Glimmer-Weave AST to x86-64 assembly: the program's code (see
/// `program_code`) written out as an assembly file.
#[verifier::spinoff_prover]
pub fn compile_to_asm(nodes: &[AstNode]) -> (r: Result<String, String>)
    requires
        fits(empty_state(), program_size(nodes@)),
    ensures
        match r {
            Ok(assembly) => {
                let o = program_code(empty_state(), nodes@);
                &&& o.err is None
                &&& assembly@ == assembly_text(o.st.literals, o.st.code)
            },
            Err(m) => match program_code(empty_state(), nodes@).err {
                Some(e) => reports(m@, e),
                None => false,
            },
        },
{
    let mut codegen = CodeGen::new();
    match codegen.compile(nodes) {
        Err(e) => return Err(e),
        Ok(_) => {},
    }
    Ok(codegen.to_assembly())
}

} // verus!
