//! Register-based bytecode: the instruction set, patching of jumps, and a
//! readable listing of compiled code.

use vstd::prelude::*;
use crate::text::{push_char, push_str, spec_decimal, spec_signed_decimal, u64_to_string, i64_to_string, usize_to_string};

verus! {

/// Virtual register index (0-255)
pub type Register = u8;

/// Constant pool index
pub type ConstantId = u16;

/// Jump offset (signed)
pub type JumpOffset = i16;

/// Bytecode instruction
#[derive(Debug, Clone, Copy, PartialEq, Eq, Structural)]
pub enum Instruction {
    // ===== Move/Load Instructions =====

    /// Load constant into register: `r[dest] = constants[id]`
    LoadConst { dest: Register, constant_id: ConstantId },

    /// Move value between registers: `r[dest] = r[src]`
    Move { dest: Register, src: Register },

    /// Load Nothing (null) into register: `r[dest] = nothing`
    LoadNothing { dest: Register },

    /// Load Truth (boolean) into register: `r[dest] = true/false`
    LoadTruth { dest: Register, value: bool },

    // ===== Arithmetic Instructions =====

    /// Add numbers: `r[dest] = r[left] + r[right]`
    AddNum { dest: Register, left: Register, right: Register },

    /// Subtract numbers: `r[dest] = r[left] - r[right]`
    SubNum { dest: Register, left: Register, right: Register },

    /// Multiply numbers: `r[dest] = r[left] * r[right]`
    MulNum { dest: Register, left: Register, right: Register },

    /// Divide numbers: `r[dest] = r[left] / r[right]`
    DivNum { dest: Register, left: Register, right: Register },

    /// Modulo: `r[dest] = r[left] % r[right]`
    ModNum { dest: Register, left: Register, right: Register },

    /// Negate number: `r[dest] = -r[src]`
    NegNum { dest: Register, src: Register },

    // ===== String Instructions =====

    /// Concatenate strings: `r[dest] = r[left] + r[right]`
    ConcatText { dest: Register, left: Register, right: Register },

    // ===== Comparison Instructions =====

    /// Equal: `r[dest] = r[left] == r[right]`
    Eq { dest: Register, left: Register, right: Register },

    /// Not equal: `r[dest] = r[left] != r[right]`
    Ne { dest: Register, left: Register, right: Register },

    /// Less than: `r[dest] = r[left] < r[right]`
    Lt { dest: Register, left: Register, right: Register },

    /// Less than or equal: `r[dest] = r[left] <= r[right]`
    Le { dest: Register, left: Register, right: Register },

    /// Greater than: `r[dest] = r[left] > r[right]`
    Gt { dest: Register, left: Register, right: Register },

    /// Greater than or equal: `r[dest] = r[left] >= r[right]`
    Ge { dest: Register, left: Register, right: Register },

    // ===== Logical Instructions =====

    /// Logical NOT: `r[dest] = not r[src]`
    Not { dest: Register, src: Register },

    /// Logical AND: `r[dest] = r[left] and r[right]`
    And { dest: Register, left: Register, right: Register },

    /// Logical OR: `r[dest] = r[left] or r[right]`
    Or { dest: Register, left: Register, right: Register },

    // ===== Control Flow Instructions =====

    /// Unconditional jump: `pc += offset`
    Jump { offset: JumpOffset },

    /// Jump if true: `if r[cond] then pc += offset`
    JumpIfTrue { cond: Register, offset: JumpOffset },

    /// Jump if false: `if not r[cond] then pc += offset`
    JumpIfFalse { cond: Register, offset: JumpOffset },

    // ===== Variable Instructions =====

    /// Define global variable: `globals[name] = r[src]`
    DefineGlobal { name_id: ConstantId, src: Register },

    /// Load global variable: `r[dest] = globals[name]`
    LoadGlobal { dest: Register, name_id: ConstantId },

    /// Store global variable: `globals[name] = r[src]`
    StoreGlobal { name_id: ConstantId, src: Register },

    /// Load local variable: `r[dest] = locals[index]`
    LoadLocal { dest: Register, local_index: u8 },

    /// Store local variable: `locals[index] = r[src]`
    StoreLocal { local_index: u8, src: Register },

    // ===== Collection Instructions =====

    /// Create list: `r[dest] = [r[start]..r[start+count-1]]`
    CreateList { dest: Register, start: Register, count: u8 },

    /// Create map: `r[dest] = {}`
    CreateMap { dest: Register },

    /// Get list element: `r[dest] = r[list][r[index]]`
    GetIndex { dest: Register, list: Register, index: Register },

    /// Set list element: `r[list][r[index]] = r[value]`
    SetIndex { list: Register, index: Register, value: Register },

    /// Get map field: `r[dest] = r[map].field`
    GetField { dest: Register, map: Register, field_id: ConstantId },

    /// Set map field: `r[map].field = r[value]`
    SetField { map: Register, field_id: ConstantId, value: Register },

    // ===== Function Instructions =====

    /// Call function: `r[dest] = r[func](r[arg_start]..r[arg_start+arg_count-1])`
    Call { dest: Register, func: Register, arg_start: Register, arg_count: u8 },

    /// Return from function: `return r[value]`
    Return { value: Register },

    /// Create closure: `r[dest] = closure(function_id, captured)`
    CreateClosure { dest: Register, function_id: ConstantId, capture_count: u8 },

    // ===== Enum/Variant Instructions =====

    /// Create Outcome (Result) - Triumph variant: `r[dest] = Triumph(r[value])`
    CreateTriumph { dest: Register, value: Register },

    /// Create Outcome (Result) - Mishap variant: `r[dest] = Mishap(r[value])`
    CreateMishap { dest: Register, value: Register },

    /// Create Maybe (Option) - Present variant: `r[dest] = Present(r[value])`
    CreatePresent { dest: Register, value: Register },

    /// Create Maybe (Option) - Absent variant: `r[dest] = Absent`
    CreateAbsent { dest: Register },

    /// Check if Outcome is Triumph: `r[dest] = is_triumph(r[value])`
    IsTriumph { dest: Register, value: Register },

    /// Check if Outcome is Mishap: `r[dest] = is_mishap(r[value])`
    IsMishap { dest: Register, value: Register },

    /// Check if Maybe is Present: `r[dest] = is_present(r[value])`
    IsPresent { dest: Register, value: Register },

    /// Check if Maybe is Absent: `r[dest] = is_absent(r[value])`
    IsAbsent { dest: Register, value: Register },

    /// Extract inner value from Outcome/Maybe: `r[dest] = r[value].inner`
    ExtractInner { dest: Register, value: Register },

    // ===== Struct Instructions =====

    /// Create struct instance: `r[dest] = StructName { field1: r[field_start], field2: r[field_start+1], ... }`
    /// The struct definition ID and field values are provided
    CreateStruct {
        dest: Register,
        struct_def_id: ConstantId,
        field_start: Register,
        field_count: u8
    },

    // ===== Exception Handling Instructions =====

    /// Setup exception handler: records handler offset for error recovery
    /// When an error occurs, VM will jump to handler_offset
    SetupTry { handler_offset: usize },

    /// Pop exception handler: removes the most recent exception handler
    PopTry,

    /// Throw/raise an error: signals an error condition
    /// The error message is in r[error_reg]
    Throw { error_reg: Register },

    // ===== Special Instructions =====

    /// Halt execution
    Halt,

    /// Print for debugging: `print(r[src])`
    Print { src: Register },
}

/// Instructions whose listing names a register range: the range's last
/// register must exist (the start plus the count is between 1 and 255).
pub open spec fn listable(ins: Instruction) -> bool {
    match ins {
        Instruction::CreateList { start, count, .. } => 1 <= start + count <= 255,
        Instruction::Call { arg_start, arg_count, .. } => 1 <= arg_start + arg_count <= 255,
        Instruction::CreateStruct { field_start, field_count, .. } => 1 <= field_start + field_count <= 255,
        _ => true,
    }
}

/// The listing of an instruction; `constant` is the text shown for the
/// constant a `LoadConst` loads.
pub open spec fn instruction_text(ins: Instruction, constant: Seq<char>) -> Seq<char> {
    match ins {
        Instruction::LoadConst { dest, constant_id } => "LOAD_CONST     r"@ + spec_decimal(dest as nat) + " <- #"@ + spec_decimal(constant_id as nat) + " ("@ + constant + ")"@,
        Instruction::Move { dest, src } => "MOVE           r"@ + spec_decimal(dest as nat) + " <- r"@ + spec_decimal(src as nat),
        Instruction::LoadNothing { dest } => "LOAD_NOTHING   r"@ + spec_decimal(dest as nat),
        Instruction::LoadTruth { dest, value } => "LOAD_TRUTH     r"@ + spec_decimal(dest as nat) + " <- "@ + (if value { "true"@ } else { "false"@ }),
        Instruction::AddNum { dest, left, right } => "ADD_NUM        r"@ + spec_decimal(dest as nat) + " <- r"@ + spec_decimal(left as nat) + " + r"@ + spec_decimal(right as nat),
        Instruction::SubNum { dest, left, right } => "SUB_NUM        r"@ + spec_decimal(dest as nat) + " <- r"@ + spec_decimal(left as nat) + " - r"@ + spec_decimal(right as nat),
        Instruction::MulNum { dest, left, right } => "MUL_NUM        r"@ + spec_decimal(dest as nat) + " <- r"@ + spec_decimal(left as nat) + " * r"@ + spec_decimal(right as nat),
        Instruction::DivNum { dest, left, right } => "DIV_NUM        r"@ + spec_decimal(dest as nat) + " <- r"@ + spec_decimal(left as nat) + " / r"@ + spec_decimal(right as nat),
        Instruction::ModNum { dest, left, right } => "MOD_NUM        r"@ + spec_decimal(dest as nat) + " <- r"@ + spec_decimal(left as nat) + " % r"@ + spec_decimal(right as nat),
        Instruction::NegNum { dest, src } => "NEG_NUM        r"@ + spec_decimal(dest as nat) + " <- -r"@ + spec_decimal(src as nat),
        Instruction::ConcatText { dest, left, right } => "CONCAT_TEXT    r"@ + spec_decimal(dest as nat) + " <- r"@ + spec_decimal(left as nat) + " + r"@ + spec_decimal(right as nat),
        Instruction::Eq { dest, left, right } => "EQ             r"@ + spec_decimal(dest as nat) + " <- r"@ + spec_decimal(left as nat) + " == r"@ + spec_decimal(right as nat),
        Instruction::Ne { dest, left, right } => "NE             r"@ + spec_decimal(dest as nat) + " <- r"@ + spec_decimal(left as nat) + " != r"@ + spec_decimal(right as nat),
        Instruction::Lt { dest, left, right } => "LT             r"@ + spec_decimal(dest as nat) + " <- r"@ + spec_decimal(left as nat) + " < r"@ + spec_decimal(right as nat),
        Instruction::Le { dest, left, right } => "LE             r"@ + spec_decimal(dest as nat) + " <- r"@ + spec_decimal(left as nat) + " <= r"@ + spec_decimal(right as nat),
        Instruction::Gt { dest, left, right } => "GT             r"@ + spec_decimal(dest as nat) + " <- r"@ + spec_decimal(left as nat) + " > r"@ + spec_decimal(right as nat),
        Instruction::Ge { dest, left, right } => "GE             r"@ + spec_decimal(dest as nat) + " <- r"@ + spec_decimal(left as nat) + " >= r"@ + spec_decimal(right as nat),
        Instruction::Not { dest, src } => "NOT            r"@ + spec_decimal(dest as nat) + " <- not r"@ + spec_decimal(src as nat),
        Instruction::And { dest, left, right } => "AND            r"@ + spec_decimal(dest as nat) + " <- r"@ + spec_decimal(left as nat) + " and r"@ + spec_decimal(right as nat),
        Instruction::Or { dest, left, right } => "OR             r"@ + spec_decimal(dest as nat) + " <- r"@ + spec_decimal(left as nat) + " or r"@ + spec_decimal(right as nat),
        Instruction::Jump { offset } => "JUMP           +"@ + spec_signed_decimal(offset as int),
        Instruction::JumpIfTrue { cond, offset } => "JUMP_IF_TRUE   r"@ + spec_decimal(cond as nat) + " +"@ + spec_signed_decimal(offset as int),
        Instruction::JumpIfFalse { cond, offset } => "JUMP_IF_FALSE  r"@ + spec_decimal(cond as nat) + " +"@ + spec_signed_decimal(offset as int),
        Instruction::DefineGlobal { name_id, src } => "DEF_GLOBAL     #"@ + spec_decimal(name_id as nat) + " <- r"@ + spec_decimal(src as nat),
        Instruction::LoadGlobal { dest, name_id } => "LOAD_GLOBAL    r"@ + spec_decimal(dest as nat) + " <- #"@ + spec_decimal(name_id as nat),
        Instruction::StoreGlobal { name_id, src } => "STORE_GLOBAL   #"@ + spec_decimal(name_id as nat) + " <- r"@ + spec_decimal(src as nat),
        Instruction::LoadLocal { dest, local_index } => "LOAD_LOCAL     r"@ + spec_decimal(dest as nat) + " <- local["@ + spec_decimal(local_index as nat) + "]"@,
        Instruction::StoreLocal { local_index, src } => "STORE_LOCAL    local["@ + spec_decimal(local_index as nat) + "] <- r"@ + spec_decimal(src as nat),
        Instruction::CreateList { dest, start, count } => "CREATE_LIST    r"@ + spec_decimal(dest as nat) + " <- [r"@ + spec_decimal(start as nat) + "..r"@ + spec_decimal((start + count - 1) as nat) + "]"@,
        Instruction::CreateMap { dest } => "CREATE_MAP     r"@ + spec_decimal(dest as nat),
        Instruction::GetIndex { dest, list, index } => "GET_INDEX      r"@ + spec_decimal(dest as nat) + " <- r"@ + spec_decimal(list as nat) + "[r"@ + spec_decimal(index as nat) + "]"@,
        Instruction::SetIndex { list, index, value } => "SET_INDEX      r"@ + spec_decimal(list as nat) + "[r"@ + spec_decimal(index as nat) + "] <- r"@ + spec_decimal(value as nat),
        Instruction::GetField { dest, map, field_id } => "GET_FIELD      r"@ + spec_decimal(dest as nat) + " <- r"@ + spec_decimal(map as nat) + ".#"@ + spec_decimal(field_id as nat),
        Instruction::SetField { map, field_id, value } => "SET_FIELD      r"@ + spec_decimal(map as nat) + ".#"@ + spec_decimal(field_id as nat) + " <- r"@ + spec_decimal(value as nat),
        Instruction::Call { dest, func, arg_start, arg_count } => "CALL           r"@ + spec_decimal(dest as nat) + " <- r"@ + spec_decimal(func as nat) + "(r"@ + spec_decimal(arg_start as nat) + "..r"@ + spec_decimal((arg_start + arg_count - 1) as nat) + ")"@,
        Instruction::Return { value } => "RETURN         r"@ + spec_decimal(value as nat),
        Instruction::CreateClosure { dest, function_id, capture_count } => "CREATE_CLOSURE r"@ + spec_decimal(dest as nat) + " <- closure(#"@ + spec_decimal(function_id as nat) + ", "@ + spec_decimal(capture_count as nat) + " captures)"@,
        Instruction::Halt => "HALT"@,
        Instruction::Print { src } => "PRINT          r"@ + spec_decimal(src as nat),
        Instruction::CreateTriumph { dest, value } => "CREATE_TRIUMPH r"@ + spec_decimal(dest as nat) + " <- Triumph(r"@ + spec_decimal(value as nat) + ")"@,
        Instruction::CreateMishap { dest, value } => "CREATE_MISHAP  r"@ + spec_decimal(dest as nat) + " <- Mishap(r"@ + spec_decimal(value as nat) + ")"@,
        Instruction::CreatePresent { dest, value } => "CREATE_PRESENT r"@ + spec_decimal(dest as nat) + " <- Present(r"@ + spec_decimal(value as nat) + ")"@,
        Instruction::CreateAbsent { dest } => "CREATE_ABSENT  r"@ + spec_decimal(dest as nat) + " <- Absent"@,
        Instruction::IsTriumph { dest, value } => "IS_TRIUMPH     r"@ + spec_decimal(dest as nat) + " <- is_triumph(r"@ + spec_decimal(value as nat) + ")"@,
        Instruction::IsMishap { dest, value } => "IS_MISHAP      r"@ + spec_decimal(dest as nat) + " <- is_mishap(r"@ + spec_decimal(value as nat) + ")"@,
        Instruction::IsPresent { dest, value } => "IS_PRESENT     r"@ + spec_decimal(dest as nat) + " <- is_present(r"@ + spec_decimal(value as nat) + ")"@,
        Instruction::IsAbsent { dest, value } => "IS_ABSENT      r"@ + spec_decimal(dest as nat) + " <- is_absent(r"@ + spec_decimal(value as nat) + ")"@,
        Instruction::ExtractInner { dest, value } => "EXTRACT_INNER  r"@ + spec_decimal(dest as nat) + " <- r"@ + spec_decimal(value as nat) + ".inner"@,
        Instruction::CreateStruct { dest, struct_def_id, field_start, field_count } => "CREATE_STRUCT  r"@ + spec_decimal(dest as nat) + " <- struct(#"@ + spec_decimal(struct_def_id as nat) + ", r"@ + spec_decimal(field_start as nat) + "..r"@ + spec_decimal((field_start + field_count - 1) as nat) + " ("@ + spec_decimal(field_count as nat) + " fields))"@,
        Instruction::SetupTry { handler_offset } => "SETUP_TRY      handler @"@ + spec_decimal(handler_offset as nat),
        Instruction::PopTry => "POP_TRY"@,
        Instruction::Throw { error_reg } => "THROW          r"@ + spec_decimal(error_reg as nat),
    }
}

/// Disassemble a single instruction; `constant` is the text of the
/// constant a `LoadConst` loads (as the constant pool's entry is shown).
pub fn disassemble_instruction(instruction: &Instruction, constant: &str) -> (text: String)
    requires
        listable(*instruction),
    ensures
        text@ == instruction_text(*instruction, constant@),
{
    let mut s = String::new();
    match instruction {
        Instruction::LoadConst { dest, constant_id } => {
            push_str(&mut s, "LOAD_CONST     r");
            push_str(&mut s, u64_to_string(*dest as u64).as_str());
            push_str(&mut s, " <- #");
            push_str(&mut s, u64_to_string(*constant_id as u64).as_str());
            push_str(&mut s, " (");
            push_str(&mut s, constant);
            push_str(&mut s, ")");
        },
        Instruction::Move { dest, src } => {
            push_str(&mut s, "MOVE           r");
            push_str(&mut s, u64_to_string(*dest as u64).as_str());
            push_str(&mut s, " <- r");
            push_str(&mut s, u64_to_string(*src as u64).as_str());
        },
        Instruction::LoadNothing { dest } => {
            push_str(&mut s, "LOAD_NOTHING   r");
            push_str(&mut s, u64_to_string(*dest as u64).as_str());
        },
        Instruction::LoadTruth { dest, value } => {
            push_str(&mut s, "LOAD_TRUTH     r");
            push_str(&mut s, u64_to_string(*dest as u64).as_str());
            push_str(&mut s, " <- ");
            push_str(&mut s, if *value { "true" } else { "false" });
        },
        Instruction::AddNum { dest, left, right } => {
            push_str(&mut s, "ADD_NUM        r");
            push_str(&mut s, u64_to_string(*dest as u64).as_str());
            push_str(&mut s, " <- r");
            push_str(&mut s, u64_to_string(*left as u64).as_str());
            push_str(&mut s, " + r");
            push_str(&mut s, u64_to_string(*right as u64).as_str());
        },
        Instruction::SubNum { dest, left, right } => {
            push_str(&mut s, "SUB_NUM        r");
            push_str(&mut s, u64_to_string(*dest as u64).as_str());
            push_str(&mut s, " <- r");
            push_str(&mut s, u64_to_string(*left as u64).as_str());
            push_str(&mut s, " - r");
            push_str(&mut s, u64_to_string(*right as u64).as_str());
        },
        Instruction::MulNum { dest, left, right } => {
            push_str(&mut s, "MUL_NUM        r");
            push_str(&mut s, u64_to_string(*dest as u64).as_str());
            push_str(&mut s, " <- r");
            push_str(&mut s, u64_to_string(*left as u64).as_str());
            push_str(&mut s, " * r");
            push_str(&mut s, u64_to_string(*right as u64).as_str());
        },
        Instruction::DivNum { dest, left, right } => {
            push_str(&mut s, "DIV_NUM        r");
            push_str(&mut s, u64_to_string(*dest as u64).as_str());
            push_str(&mut s, " <- r");
            push_str(&mut s, u64_to_string(*left as u64).as_str());
            push_str(&mut s, " / r");
            push_str(&mut s, u64_to_string(*right as u64).as_str());
        },
        Instruction::ModNum { dest, left, right } => {
            push_str(&mut s, "MOD_NUM        r");
            push_str(&mut s, u64_to_string(*dest as u64).as_str());
            push_str(&mut s, " <- r");
            push_str(&mut s, u64_to_string(*left as u64).as_str());
            push_str(&mut s, " % r");
            push_str(&mut s, u64_to_string(*right as u64).as_str());
        },
        Instruction::NegNum { dest, src } => {
            push_str(&mut s, "NEG_NUM        r");
            push_str(&mut s, u64_to_string(*dest as u64).as_str());
            push_str(&mut s, " <- -r");
            push_str(&mut s, u64_to_string(*src as u64).as_str());
        },
        Instruction::ConcatText { dest, left, right } => {
            push_str(&mut s, "CONCAT_TEXT    r");
            push_str(&mut s, u64_to_string(*dest as u64).as_str());
            push_str(&mut s, " <- r");
            push_str(&mut s, u64_to_string(*left as u64).as_str());
            push_str(&mut s, " + r");
            push_str(&mut s, u64_to_string(*right as u64).as_str());
        },
        Instruction::Eq { dest, left, right } => {
            push_str(&mut s, "EQ             r");
            push_str(&mut s, u64_to_string(*dest as u64).as_str());
            push_str(&mut s, " <- r");
            push_str(&mut s, u64_to_string(*left as u64).as_str());
            push_str(&mut s, " == r");
            push_str(&mut s, u64_to_string(*right as u64).as_str());
        },
        Instruction::Ne { dest, left, right } => {
            push_str(&mut s, "NE             r");
            push_str(&mut s, u64_to_string(*dest as u64).as_str());
            push_str(&mut s, " <- r");
            push_str(&mut s, u64_to_string(*left as u64).as_str());
            push_str(&mut s, " != r");
            push_str(&mut s, u64_to_string(*right as u64).as_str());
        },
        Instruction::Lt { dest, left, right } => {
            push_str(&mut s, "LT             r");
            push_str(&mut s, u64_to_string(*dest as u64).as_str());
            push_str(&mut s, " <- r");
            push_str(&mut s, u64_to_string(*left as u64).as_str());
            push_str(&mut s, " < r");
            push_str(&mut s, u64_to_string(*right as u64).as_str());
        },
        Instruction::Le { dest, left, right } => {
            push_str(&mut s, "LE             r");
            push_str(&mut s, u64_to_string(*dest as u64).as_str());
            push_str(&mut s, " <- r");
            push_str(&mut s, u64_to_string(*left as u64).as_str());
            push_str(&mut s, " <= r");
            push_str(&mut s, u64_to_string(*right as u64).as_str());
        },
        Instruction::Gt { dest, left, right } => {
            push_str(&mut s, "GT             r");
            push_str(&mut s, u64_to_string(*dest as u64).as_str());
            push_str(&mut s, " <- r");
            push_str(&mut s, u64_to_string(*left as u64).as_str());
            push_str(&mut s, " > r");
            push_str(&mut s, u64_to_string(*right as u64).as_str());
        },
        Instruction::Ge { dest, left, right } => {
            push_str(&mut s, "GE             r");
            push_str(&mut s, u64_to_string(*dest as u64).as_str());
            push_str(&mut s, " <- r");
            push_str(&mut s, u64_to_string(*left as u64).as_str());
            push_str(&mut s, " >= r");
            push_str(&mut s, u64_to_string(*right as u64).as_str());
        },
        Instruction::Not { dest, src } => {
            push_str(&mut s, "NOT            r");
            push_str(&mut s, u64_to_string(*dest as u64).as_str());
            push_str(&mut s, " <- not r");
            push_str(&mut s, u64_to_string(*src as u64).as_str());
        },
        Instruction::And { dest, left, right } => {
            push_str(&mut s, "AND            r");
            push_str(&mut s, u64_to_string(*dest as u64).as_str());
            push_str(&mut s, " <- r");
            push_str(&mut s, u64_to_string(*left as u64).as_str());
            push_str(&mut s, " and r");
            push_str(&mut s, u64_to_string(*right as u64).as_str());
        },
        Instruction::Or { dest, left, right } => {
            push_str(&mut s, "OR             r");
            push_str(&mut s, u64_to_string(*dest as u64).as_str());
            push_str(&mut s, " <- r");
            push_str(&mut s, u64_to_string(*left as u64).as_str());
            push_str(&mut s, " or r");
            push_str(&mut s, u64_to_string(*right as u64).as_str());
        },
        Instruction::Jump { offset } => {
            push_str(&mut s, "JUMP           +");
            push_str(&mut s, i64_to_string(*offset as i64).as_str());
        },
        Instruction::JumpIfTrue { cond, offset } => {
            push_str(&mut s, "JUMP_IF_TRUE   r");
            push_str(&mut s, u64_to_string(*cond as u64).as_str());
            push_str(&mut s, " +");
            push_str(&mut s, i64_to_string(*offset as i64).as_str());
        },
        Instruction::JumpIfFalse { cond, offset } => {
            push_str(&mut s, "JUMP_IF_FALSE  r");
            push_str(&mut s, u64_to_string(*cond as u64).as_str());
            push_str(&mut s, " +");
            push_str(&mut s, i64_to_string(*offset as i64).as_str());
        },
        Instruction::DefineGlobal { name_id, src } => {
            push_str(&mut s, "DEF_GLOBAL     #");
            push_str(&mut s, u64_to_string(*name_id as u64).as_str());
            push_str(&mut s, " <- r");
            push_str(&mut s, u64_to_string(*src as u64).as_str());
        },
        Instruction::LoadGlobal { dest, name_id } => {
            push_str(&mut s, "LOAD_GLOBAL    r");
            push_str(&mut s, u64_to_string(*dest as u64).as_str());
            push_str(&mut s, " <- #");
            push_str(&mut s, u64_to_string(*name_id as u64).as_str());
        },
        Instruction::StoreGlobal { name_id, src } => {
            push_str(&mut s, "STORE_GLOBAL   #");
            push_str(&mut s, u64_to_string(*name_id as u64).as_str());
            push_str(&mut s, " <- r");
            push_str(&mut s, u64_to_string(*src as u64).as_str());
        },
        Instruction::LoadLocal { dest, local_index } => {
            push_str(&mut s, "LOAD_LOCAL     r");
            push_str(&mut s, u64_to_string(*dest as u64).as_str());
            push_str(&mut s, " <- local[");
            push_str(&mut s, u64_to_string(*local_index as u64).as_str());
            push_str(&mut s, "]");
        },
        Instruction::StoreLocal { local_index, src } => {
            push_str(&mut s, "STORE_LOCAL    local[");
            push_str(&mut s, u64_to_string(*local_index as u64).as_str());
            push_str(&mut s, "] <- r");
            push_str(&mut s, u64_to_string(*src as u64).as_str());
        },
        Instruction::CreateList { dest, start, count } => {
            push_str(&mut s, "CREATE_LIST    r");
            push_str(&mut s, u64_to_string(*dest as u64).as_str());
            push_str(&mut s, " <- [r");
            push_str(&mut s, u64_to_string(*start as u64).as_str());
            push_str(&mut s, "..r");
            push_str(&mut s, u64_to_string((*start + *count - 1) as u64).as_str());
            push_str(&mut s, "]");
        },
        Instruction::CreateMap { dest } => {
            push_str(&mut s, "CREATE_MAP     r");
            push_str(&mut s, u64_to_string(*dest as u64).as_str());
        },
        Instruction::GetIndex { dest, list, index } => {
            push_str(&mut s, "GET_INDEX      r");
            push_str(&mut s, u64_to_string(*dest as u64).as_str());
            push_str(&mut s, " <- r");
            push_str(&mut s, u64_to_string(*list as u64).as_str());
            push_str(&mut s, "[r");
            push_str(&mut s, u64_to_string(*index as u64).as_str());
            push_str(&mut s, "]");
        },
        Instruction::SetIndex { list, index, value } => {
            push_str(&mut s, "SET_INDEX      r");
            push_str(&mut s, u64_to_string(*list as u64).as_str());
            push_str(&mut s, "[r");
            push_str(&mut s, u64_to_string(*index as u64).as_str());
            push_str(&mut s, "] <- r");
            push_str(&mut s, u64_to_string(*value as u64).as_str());
        },
        Instruction::GetField { dest, map, field_id } => {
            push_str(&mut s, "GET_FIELD      r");
            push_str(&mut s, u64_to_string(*dest as u64).as_str());
            push_str(&mut s, " <- r");
            push_str(&mut s, u64_to_string(*map as u64).as_str());
            push_str(&mut s, ".#");
            push_str(&mut s, u64_to_string(*field_id as u64).as_str());
        },
        Instruction::SetField { map, field_id, value } => {
            push_str(&mut s, "SET_FIELD      r");
            push_str(&mut s, u64_to_string(*map as u64).as_str());
            push_str(&mut s, ".#");
            push_str(&mut s, u64_to_string(*field_id as u64).as_str());
            push_str(&mut s, " <- r");
            push_str(&mut s, u64_to_string(*value as u64).as_str());
        },
        Instruction::Call { dest, func, arg_start, arg_count } => {
            push_str(&mut s, "CALL           r");
            push_str(&mut s, u64_to_string(*dest as u64).as_str());
            push_str(&mut s, " <- r");
            push_str(&mut s, u64_to_string(*func as u64).as_str());
            push_str(&mut s, "(r");
            push_str(&mut s, u64_to_string(*arg_start as u64).as_str());
            push_str(&mut s, "..r");
            push_str(&mut s, u64_to_string((*arg_start + *arg_count - 1) as u64).as_str());
            push_str(&mut s, ")");
        },
        Instruction::Return { value } => {
            push_str(&mut s, "RETURN         r");
            push_str(&mut s, u64_to_string(*value as u64).as_str());
        },
        Instruction::CreateClosure { dest, function_id, capture_count } => {
            push_str(&mut s, "CREATE_CLOSURE r");
            push_str(&mut s, u64_to_string(*dest as u64).as_str());
            push_str(&mut s, " <- closure(#");
            push_str(&mut s, u64_to_string(*function_id as u64).as_str());
            push_str(&mut s, ", ");
            push_str(&mut s, u64_to_string(*capture_count as u64).as_str());
            push_str(&mut s, " captures)");
        },
        Instruction::Halt => push_str(&mut s, "HALT"),
        Instruction::Print { src } => {
            push_str(&mut s, "PRINT          r");
            push_str(&mut s, u64_to_string(*src as u64).as_str());
        },
        Instruction::CreateTriumph { dest, value } => {
            push_str(&mut s, "CREATE_TRIUMPH r");
            push_str(&mut s, u64_to_string(*dest as u64).as_str());
            push_str(&mut s, " <- Triumph(r");
            push_str(&mut s, u64_to_string(*value as u64).as_str());
            push_str(&mut s, ")");
        },
        Instruction::CreateMishap { dest, value } => {
            push_str(&mut s, "CREATE_MISHAP  r");
            push_str(&mut s, u64_to_string(*dest as u64).as_str());
            push_str(&mut s, " <- Mishap(r");
            push_str(&mut s, u64_to_string(*value as u64).as_str());
            push_str(&mut s, ")");
        },
        Instruction::CreatePresent { dest, value } => {
            push_str(&mut s, "CREATE_PRESENT r");
            push_str(&mut s, u64_to_string(*dest as u64).as_str());
            push_str(&mut s, " <- Present(r");
            push_str(&mut s, u64_to_string(*value as u64).as_str());
            push_str(&mut s, ")");
        },
        Instruction::CreateAbsent { dest } => {
            push_str(&mut s, "CREATE_ABSENT  r");
            push_str(&mut s, u64_to_string(*dest as u64).as_str());
            push_str(&mut s, " <- Absent");
        },
        Instruction::IsTriumph { dest, value } => {
            push_str(&mut s, "IS_TRIUMPH     r");
            push_str(&mut s, u64_to_string(*dest as u64).as_str());
            push_str(&mut s, " <- is_triumph(r");
            push_str(&mut s, u64_to_string(*value as u64).as_str());
            push_str(&mut s, ")");
        },
        Instruction::IsMishap { dest, value } => {
            push_str(&mut s, "IS_MISHAP      r");
            push_str(&mut s, u64_to_string(*dest as u64).as_str());
            push_str(&mut s, " <- is_mishap(r");
            push_str(&mut s, u64_to_string(*value as u64).as_str());
            push_str(&mut s, ")");
        },
        Instruction::IsPresent { dest, value } => {
            push_str(&mut s, "IS_PRESENT     r");
            push_str(&mut s, u64_to_string(*dest as u64).as_str());
            push_str(&mut s, " <- is_present(r");
            push_str(&mut s, u64_to_string(*value as u64).as_str());
            push_str(&mut s, ")");
        },
        Instruction::IsAbsent { dest, value } => {
            push_str(&mut s, "IS_ABSENT      r");
            push_str(&mut s, u64_to_string(*dest as u64).as_str());
            push_str(&mut s, " <- is_absent(r");
            push_str(&mut s, u64_to_string(*value as u64).as_str());
            push_str(&mut s, ")");
        },
        Instruction::ExtractInner { dest, value } => {
            push_str(&mut s, "EXTRACT_INNER  r");
            push_str(&mut s, u64_to_string(*dest as u64).as_str());
            push_str(&mut s, " <- r");
            push_str(&mut s, u64_to_string(*value as u64).as_str());
            push_str(&mut s, ".inner");
        },
        Instruction::CreateStruct { dest, struct_def_id, field_start, field_count } => {
            push_str(&mut s, "CREATE_STRUCT  r");
            push_str(&mut s, u64_to_string(*dest as u64).as_str());
            push_str(&mut s, " <- struct(#");
            push_str(&mut s, u64_to_string(*struct_def_id as u64).as_str());
            push_str(&mut s, ", r");
            push_str(&mut s, u64_to_string(*field_start as u64).as_str());
            push_str(&mut s, "..r");
            push_str(&mut s, u64_to_string((*field_start + *field_count - 1) as u64).as_str());
            push_str(&mut s, " (");
            push_str(&mut s, u64_to_string(*field_count as u64).as_str());
            push_str(&mut s, " fields))");
        },
        Instruction::SetupTry { handler_offset } => {
            push_str(&mut s, "SETUP_TRY      handler @");
            push_str(&mut s, u64_to_string(*handler_offset as u64).as_str());
        },
        Instruction::PopTry => push_str(&mut s, "POP_TRY"),
        Instruction::Throw { error_reg } => {
            push_str(&mut s, "THROW          r");
            push_str(&mut s, u64_to_string(*error_reg as u64).as_str());
        },
    }
    s
}

/// A jump instruction with its offset replaced.
pub open spec fn with_jump_offset(ins: Instruction, offset: JumpOffset) -> Instruction {
    match ins {
        Instruction::Jump { .. } => Instruction::Jump { offset },
        Instruction::JumpIfTrue { cond, .. } => Instruction::JumpIfTrue { cond, offset },
        Instruction::JumpIfFalse { cond, .. } => Instruction::JumpIfFalse { cond, offset },
        _ => ins,
    }
}

/// Patch the jump at `jump_offset` to land on `target_offset`: its offset
/// becomes the number of instructions skipped, `target - jump - 1`, kept to
/// its low 16 bits.
pub fn patch_jump(instructions: &mut Vec<Instruction>, jump_offset: usize, target_offset: usize)
    requires
        jump_offset < old(instructions)@.len(),
        old(instructions)@[jump_offset as int] is Jump || old(instructions)@[jump_offset as int] is JumpIfTrue
            || old(instructions)@[jump_offset as int] is JumpIfFalse,
        jump_offset <= isize::MAX,
        target_offset <= isize::MAX,
    ensures
        final(instructions)@ == old(instructions)@.update(
            jump_offset as int,
            with_jump_offset(old(instructions)@[jump_offset as int], (target_offset - jump_offset - 1) as i16),
        ),
{
    let relative_offset = (target_offset as isize - jump_offset as isize - 1) as i16;
    let patched = match instructions[jump_offset] {
        Instruction::Jump { .. } => Instruction::Jump { offset: relative_offset },
        Instruction::JumpIfTrue { cond, .. } => Instruction::JumpIfTrue { cond, offset: relative_offset },
        Instruction::JumpIfFalse { cond, .. } => Instruction::JumpIfFalse { cond, offset: relative_offset },
        other => other,
    };
    instructions.set(jump_offset, patched);
}

/// `s` padded on the left with `fill` to at least `width` characters.
pub open spec fn pad_left(s: Seq<char>, width: nat, fill: char) -> Seq<char>
    decreases width,
{
    if s.len() >= width {
        s
    } else {
        pad_left(s, (width - 1) as nat, fill).insert(0, fill)
    }
}

fn pad_text(s: String, width: usize, fill: char) -> (r: String)
    ensures
        r@ == pad_left(s@, width as nat, fill),
    decreases width,
{
    if s.as_str().unicode_len() >= width {
        s
    } else {
        let inner = pad_text(s, width - 1, fill);
        let mut r = String::new();
        push_char(&mut r, fill);
        push_str(&mut r, inner.as_str());
        assert(r@ =~= inner@.insert(0, fill));
        r
    }
}

/// The text shown for the constant an instruction loads: the pool entry
/// as `Some(..)`, or `None` past the end of the pool.
pub open spec fn loaded_constant(constants: Seq<Seq<char>>, ins: Instruction) -> Seq<char> {
    match ins {
        Instruction::LoadConst { constant_id, .. } => if constant_id < constants.len() {
            "Some("@ + constants[constant_id as int] + ")"@
        } else {
            "None"@
        },
        _ => Seq::empty(),
    }
}

/// The listing's constant lines, one per pool entry.
pub open spec fn constant_lines(constants: Seq<Seq<char>>) -> Seq<char>
    decreases constants.len(),
{
    if constants.len() == 0 {
        Seq::empty()
    } else {
        constant_lines(constants.drop_last()) + "  #"@ + spec_decimal((constants.len() - 1) as nat) + ": "@
            + constants.last() + "\n"@
    }
}

/// The listing's code lines: index (4 digits), source line (width 4) and
/// instruction, for the first `n` instructions.
pub open spec fn code_lines(
    constants: Seq<Seq<char>>,
    instructions: Seq<Instruction>,
    lines: Seq<usize>,
    n: nat,
) -> Seq<char>
    decreases n,
{
    if n == 0 {
        Seq::empty()
    } else {
        let i = (n - 1) as int;
        code_lines(constants, instructions, lines, (n - 1) as nat) + pad_left(spec_decimal(i as nat), 4, '0')
            + " "@ + pad_left(spec_decimal(lines[i] as nat), 4, ' ') + " "@ + instruction_text(
            instructions[i],
            loaded_constant(constants, instructions[i]),
        ) + "\n"@
    }
}

/// The whole listing of a compiled chunk.
pub open spec fn chunk_listing(
    name: Seq<char>,
    param_count: u8,
    local_count: u8,
    constants: Seq<Seq<char>>,
    instructions: Seq<Instruction>,
    lines: Seq<usize>,
) -> Seq<char> {
    "==== "@ + name + " ====\n"@ + "Parameters: "@ + spec_decimal(param_count as nat) + "\n"@ + "Locals: "@
        + spec_decimal(local_count as nat) + "\n"@ + "Constants: "@ + spec_decimal(constants.len()) + "\n"@
        + "Instructions: "@ + spec_decimal(instructions.len()) + "\n\n"@ + "Constants:\n"@ + constant_lines(constants)
        + "\n"@ + "Code:\n"@ + code_lines(constants, instructions, lines, instructions.len())
}

/// Disassemble a compiled chunk: its name and counts, its constant pool
/// (`constants` holds each entry's text) and its instructions with their
/// source lines.
pub fn disassemble_chunk(
    name: &str,
    param_count: u8,
    local_count: u8,
    constants: &Vec<String>,
    instructions: &Vec<Instruction>,
    lines: &Vec<usize>,
) -> (text: String)
    requires
        lines@.len() >= instructions@.len(),
        forall|i: int| 0 <= i < instructions@.len() ==> listable(#[trigger] instructions@[i]),
    ensures
        text@ == chunk_listing(
            name@,
            param_count,
            local_count,
            constants@.map_values(|c: String| c@),
            instructions@,
            lines@,
        ),
{
    let ghost cs = constants@.map_values(|c: String| c@);
    let mut s = String::from_str("==== ");
    push_str(&mut s, name);
    push_str(&mut s, " ====\n");
    push_str(&mut s, "Parameters: ");
    push_str(&mut s, u64_to_string(param_count as u64).as_str());
    push_str(&mut s, "\n");
    push_str(&mut s, "Locals: ");
    push_str(&mut s, u64_to_string(local_count as u64).as_str());
    push_str(&mut s, "\n");
    push_str(&mut s, "Constants: ");
    push_str(&mut s, usize_to_string(constants.len()).as_str());
    push_str(&mut s, "\n");
    push_str(&mut s, "Instructions: ");
    push_str(&mut s, usize_to_string(instructions.len()).as_str());
    push_str(&mut s, "\n\n");
    push_str(&mut s, "Constants:\n");
    let ghost head = s@;
    let mut i: usize = 0;
    while i < constants.len()
        invariant
            i <= constants@.len(),
            cs == constants@.map_values(|c: String| c@),
            s@ == head + constant_lines(cs.take(i as int)),
        decreases constants@.len() - i,
    {
        push_str(&mut s, "  #");
        push_str(&mut s, usize_to_string(i).as_str());
        push_str(&mut s, ": ");
        push_str(&mut s, constants[i].as_str());
        push_str(&mut s, "\n");
        i += 1;
        assert(cs.take(i as int).drop_last() =~= cs.take(i - 1));
        assert(s@ =~= head + constant_lines(cs.take(i as int)));
    }
    assert(cs.take(i as int) =~= cs);
    push_str(&mut s, "\n");
    push_str(&mut s, "Code:\n");
    let ghost head2 = s@;
    let mut k: usize = 0;
    while k < instructions.len()
        invariant
            k <= instructions@.len(),
            lines@.len() >= instructions@.len(),
            forall|i: int| 0 <= i < instructions@.len() ==> listable(#[trigger] instructions@[i]),
            cs == constants@.map_values(|c: String| c@),
            s@ == head2 + code_lines(cs, instructions@, lines@, k as nat),
        decreases instructions@.len() - k,
    {
        let ins = instructions[k];
        let constant = match ins {
            Instruction::LoadConst { constant_id, .. } => if (constant_id as usize) < constants.len() {
                let mut c = String::from_str("Some(");
                push_str(&mut c, constants[constant_id as usize].as_str());
                push_str(&mut c, ")");
                c
            } else {
                String::from_str("None")
            },
            _ => String::new(),
        };
        assert(constant@ == loaded_constant(cs, ins));
        push_str(&mut s, pad_text(usize_to_string(k), 4, '0').as_str());
        push_str(&mut s, " ");
        push_str(&mut s, pad_text(usize_to_string(lines[k]), 4, ' ').as_str());
        push_str(&mut s, " ");
        push_str(&mut s, disassemble_instruction(&ins, constant.as_str()).as_str());
        push_str(&mut s, "\n");
        k += 1;
        assert(s@ =~= head2 + code_lines(cs, instructions@, lines@, k as nat));
    }
    s
}

} // verus!
