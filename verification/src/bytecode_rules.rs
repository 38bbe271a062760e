//! What compiling a syntax tree to bytecode produces: the compiler's
//! state as a mathematical value and each compilation step as a spec
//! function from a state to the next state and a result.
//!
//! Registers are handed out as a stack: a value's register is the next
//! free one, and freeing gives back the most recent. Names resolve from the
//! innermost scope out, then to compiled functions. Jumps are emitted with
//! offset 0 and patched once their target is known.

use vstd::prelude::*;
use crate::ast::{AstNode, BinaryOperator, MatchArm, Parameter, Pattern, UnaryOperator};
use crate::bytecode::{Instruction, with_jump_offset};
use crate::debug_text::{node_text, strs_text};
use crate::parser::TypeView;
use crate::parser::grammar::form_fields_view;
use crate::text::spec_decimal;
use crate::source_location::SourceSpan;

verus! {

/// A constant of the pool as a mathematical value; a number is held as the
/// text of its literal.
pub enum ConstView {
    Number(Seq<char>),
    Text(Seq<char>),
    Truth(bool),
    Nothing,
    StructDef { name: Seq<char>, fields: Seq<(Seq<char>, TypeView)> },
}

/// Where a name lives.
pub enum Loc {
    Local(u8),
    Global(Seq<char>),
    Function(usize),
}

/// Why compilation stopped.
pub enum CompileErrorView {
    TooManyRegisters,
    TooManyConstants,
    UndefinedVariable(Seq<char>),
    UnsupportedFeature(Seq<char>),
}

/// How a step ends other than with a result: an error, or an abort where
/// the compiler cannot go on (a 256th local variable, a jump patched at an
/// offset beyond `isize::MAX`, or an `attempt` statement, whose handler
/// entry is not a jump that can be patched).
pub enum Stop {
    Error(CompileErrorView),
    Abort,
}

/// The compiler's state.
pub struct CState {
    pub code: Seq<Instruction>,
    pub lines: Seq<usize>,
    pub consts: Seq<ConstView>,
    pub chunk_locals: u8,
    pub next_reg: u8,
    pub max_reg: u8,
    pub scopes: Seq<Seq<(Seq<char>, Loc)>>,
    pub locals: u8,
    pub current_function: Option<Seq<char>>,
    pub function_entry: Option<usize>,
    pub functions: Seq<(Seq<char>, usize)>,
}

/// A step's outcome: the state after it and its result.
pub type Out<T> = (CState, Result<T, Stop>);

/// Whether a step aborts.
pub open spec fn aborts<T>(o: Out<T>) -> bool {
    o.1 matches Err(Stop::Abort)
}

/// An unsupported feature, with its message.
pub open spec fn unsupported<T>(s: CState, message: Seq<char>) -> Out<T> {
    (s, Err(Stop::Error(CompileErrorView::UnsupportedFeature(message))))
}

/// Emit an instruction (at source line 0).
pub open spec fn emit(s: CState, i: Instruction) -> CState {
    CState { code: s.code.push(i), lines: s.lines.push(0usize), ..s }
}

/// Take the next free register; register 255 is never handed out.
pub open spec fn take_reg(s: CState) -> Out<u8> {
    if s.next_reg == 255 {
        (s, Err(Stop::Error(CompileErrorView::TooManyRegisters)))
    } else {
        (
            CState {
                next_reg: (s.next_reg + 1) as u8,
                max_reg: if s.next_reg > s.max_reg { s.next_reg } else { s.max_reg },
                ..s
            },
            Ok(s.next_reg),
        )
    }
}

/// Give back the most recently taken register.
pub open spec fn free(s: CState) -> CState {
    if s.next_reg > 0 {
        CState { next_reg: (s.next_reg - 1) as u8, ..s }
    } else {
        s
    }
}

/// Give back `k` registers.
pub open spec fn frees(s: CState, k: nat) -> CState
    decreases k,
{
    if k == 0 {
        s
    } else {
        frees(free(s), (k - 1) as nat)
    }
}

/// The value bound to `k` in an association list, first match.
pub open spec fn lookup<V>(m: Seq<(Seq<char>, V)>, k: Seq<char>) -> Option<V>
    decreases m.len(),
{
    if m.len() == 0 {
        None
    } else if m[0].0 == k {
        Some(m[0].1)
    } else {
        lookup(m.drop_first(), k)
    }
}

/// An association list with `k` bound to `v`: its entry replaced, else a
/// new entry at the end.
pub open spec fn assoc_insert<V>(m: Seq<(Seq<char>, V)>, k: Seq<char>, v: V) -> Seq<(Seq<char>, V)>
    decreases m.len(),
{
    if m.len() == 0 {
        seq![(k, v)]
    } else if m[0].0 == k {
        m.update(0, (k, v))
    } else {
        seq![m[0]] + assoc_insert(m.drop_first(), k, v)
    }
}

/// Position of the first constant equal to `c`, or the pool's length.
pub open spec fn const_pos(cs: Seq<ConstView>, c: ConstView) -> nat
    decreases cs.len(),
{
    if cs.len() == 0 {
        0
    } else if cs[0] == c {
        0
    } else {
        1 + const_pos(cs.drop_first(), c)
    }
}

/// Add a constant, reusing an equal one; its index, kept to 16 bits.
pub open spec fn add_const(s: CState, c: ConstView) -> (CState, u16) {
    let p = const_pos(s.consts, c);
    if p < s.consts.len() {
        (s, p as u16)
    } else {
        (CState { consts: s.consts.push(c), ..s }, s.consts.len() as u16)
    }
}

/// Bind `name` to `loc` in the innermost scope.
pub open spec fn set_current(s: CState, name: Seq<char>, loc: Loc) -> CState {
    CState { scopes: s.scopes.update(s.scopes.len() - 1, assoc_insert(s.scopes.last(), name, loc)), ..s }
}

/// A new local variable slot, recorded in the chunk's local count.
pub open spec fn new_local(s: CState) -> Out<u8> {
    if s.locals == 255 {
        (s, Err(Stop::Abort))
    } else {
        (CState { locals: (s.locals + 1) as u8, chunk_locals: (s.locals + 1) as u8, ..s }, Ok(s.locals))
    }
}

/// A name resolved in the scopes, innermost first.
pub open spec fn resolve_scopes(scopes: Seq<Seq<(Seq<char>, Loc)>>, name: Seq<char>) -> Option<Loc>
    decreases scopes.len(),
{
    if scopes.len() == 0 {
        None
    } else {
        match lookup(scopes.last(), name) {
            Some(l) => Some(l),
            None => resolve_scopes(scopes.drop_last(), name),
        }
    }
}

/// A name resolved in the scopes, then among compiled functions.
pub open spec fn resolve(s: CState, name: Seq<char>) -> Result<Loc, Stop> {
    match resolve_scopes(s.scopes, name) {
        Some(l) => Ok(l),
        None => match lookup(s.functions, name) {
            Some(o) => Ok(Loc::Function(o)),
            None => Err(Stop::Error(CompileErrorView::UndefinedVariable(name))),
        },
    }
}

/// Patch the jump at `at` to land on `target`; past `isize::MAX` the
/// compiler aborts.
pub open spec fn patch(s: CState, at: int, target: int) -> Option<CState> {
    if target > isize::MAX {
        None
    } else {
        Some(CState { code: s.code.update(at, with_jump_offset(s.code[at], (target - at - 1) as i16)), ..s })
    }
}

/// Patch each jump of `jumps` to land on `target`.
pub open spec fn patch_all(s: CState, jumps: Seq<usize>, target: int) -> Option<CState>
    decreases jumps.len(),
{
    if jumps.len() == 0 {
        Some(s)
    } else {
        match patch(s, jumps[0] as int, target) {
            None => None,
            Some(s1) => patch_all(s1, jumps.drop_first(), target),
        }
    }
}

/// A jump back to `start`, emitted at the end of the code.
pub open spec fn jump_back(s: CState, start: int) -> Option<CState> {
    if s.code.len() > isize::MAX {
        None
    } else {
        Some(emit(s, Instruction::Jump { offset: (start - s.code.len() - 1) as i16 }))
    }
}

/// The instruction of a binary operator.
pub open spec fn binary_instruction(op: BinaryOperator, dest: u8, left: u8, right: u8) -> Instruction {
    match op {
        BinaryOperator::Add => Instruction::AddNum { dest, left, right },
        BinaryOperator::Sub => Instruction::SubNum { dest, left, right },
        BinaryOperator::Mul => Instruction::MulNum { dest, left, right },
        BinaryOperator::Div => Instruction::DivNum { dest, left, right },
        BinaryOperator::Mod => Instruction::ModNum { dest, left, right },
        BinaryOperator::Equal => Instruction::Eq { dest, left, right },
        BinaryOperator::NotEqual => Instruction::Ne { dest, left, right },
        BinaryOperator::Greater => Instruction::Gt { dest, left, right },
        BinaryOperator::Less => Instruction::Lt { dest, left, right },
        BinaryOperator::GreaterEq => Instruction::Ge { dest, left, right },
        BinaryOperator::LessEq => Instruction::Le { dest, left, right },
        BinaryOperator::And => Instruction::And { dest, left, right },
        BinaryOperator::Or => Instruction::Or { dest, left, right },
    }
}

/// The instruction of a unary operator.
pub open spec fn unary_instruction(op: UnaryOperator, dest: u8, src: u8) -> Instruction {
    match op {
        UnaryOperator::Not => Instruction::Not { dest, src },
        UnaryOperator::Negate => Instruction::NegNum { dest, src },
    }
}

/// The instruction that tests for an outcome or maybe variant.
pub open spec fn variant_test(variant: Seq<char>, dest: u8, value: u8) -> Option<Instruction> {
    if variant == "Triumph"@ {
        Some(Instruction::IsTriumph { dest, value })
    } else if variant == "Mishap"@ {
        Some(Instruction::IsMishap { dest, value })
    } else if variant == "Present"@ {
        Some(Instruction::IsPresent { dest, value })
    } else if variant == "Absent"@ {
        Some(Instruction::IsAbsent { dest, value })
    } else {
        None
    }
}

/// Load a constant into a new register.
pub open spec fn load_const(s: CState, c: ConstView) -> Out<u8> {
    match take_reg(s) {
        (s1, Err(e)) => (s1, Err(e)),
        (s1, Ok(r)) => {
            let (s2, id) = add_const(s1, c);
            (emit(s2, Instruction::LoadConst { dest: r, constant_id: id }), Ok(r))
        },
    }
}

/// The one-operand constructions: a unary operator, or an outcome or
/// maybe value wrapping its operand.
#[derive(Clone, Copy)]
pub enum Wrapper {
    Unary(UnaryOperator),
    Triumph,
    Mishap,
    Present,
}

/// The instruction of a one-operand construction.
pub open spec fn wrapper_instruction(w: Wrapper, dest: u8, value: u8) -> Instruction {
    match w {
        Wrapper::Unary(op) => unary_instruction(op, dest, value),
        Wrapper::Triumph => Instruction::CreateTriumph { dest, value },
        Wrapper::Mishap => Instruction::CreateMishap { dest, value },
        Wrapper::Present => Instruction::CreatePresent { dest, value },
    }
}

/// A value computed from one operand into a new register, the operand's
/// register given back.
pub open spec fn wrap_code(s: CState, value: AstNode, w: Wrapper) -> Out<u8>
    decreases value, 3nat,
{
    match expr_code(s, value) {
        (s1, Err(e)) => (s1, Err(e)),
        (s1, Ok(v)) => match take_reg(s1) {
            (s2, Err(e)) => (s2, Err(e)),
            (s2, Ok(d)) => (free(emit(s2, wrapper_instruction(w, d, v))), Ok(d)),
        },
    }
}

/// Compiling an expression: the register that holds its value.
pub open spec fn expr_code(s: CState, n: AstNode) -> Out<u8>
    decreases n, 2nat,
{
    match n {
        AstNode::Number { value, .. } => load_const(s, ConstView::Number(value@)),
        AstNode::Text { value, .. } => load_const(s, ConstView::Text(value@)),
        AstNode::Truth { value, .. } => match take_reg(s) {
            (s1, Err(e)) => (s1, Err(e)),
            (s1, Ok(r)) => (emit(s1, Instruction::LoadTruth { dest: r, value }), Ok(r)),
        },
        AstNode::Nothing { .. } => match take_reg(s) {
            (s1, Err(e)) => (s1, Err(e)),
            (s1, Ok(r)) => (emit(s1, Instruction::LoadNothing { dest: r }), Ok(r)),
        },
        AstNode::Ident { name, .. } => match take_reg(s) {
            (s1, Err(e)) => (s1, Err(e)),
            (s1, Ok(r)) => match resolve(s1, name@) {
                Err(e) => (s1, Err(e)),
                Ok(Loc::Local(i)) => (emit(s1, Instruction::LoadLocal { dest: r, local_index: i }), Ok(r)),
                Ok(Loc::Global(_)) => {
                    let (s2, id) = add_const(s1, ConstView::Text(name@));
                    (emit(s2, Instruction::LoadGlobal { dest: r, name_id: id }), Ok(r))
                },
                Ok(Loc::Function(o)) => {
                    let (s2, id) = add_const(s1, ConstView::Number(spec_decimal(o as nat)));
                    (emit(s2, Instruction::LoadConst { dest: r, constant_id: id }), Ok(r))
                },
            },
        },
        AstNode::BinaryOp { left, op, right, .. } => match expr_code(s, *left) {
            (s1, Err(e)) => (s1, Err(e)),
            (s1, Ok(l)) => match expr_code(s1, *right) {
                (s2, Err(e)) => (s2, Err(e)),
                (s2, Ok(r)) => match take_reg(s2) {
                    (s3, Err(e)) => (s3, Err(e)),
                    (s3, Ok(d)) => (free(free(emit(s3, binary_instruction(op, d, l, r)))), Ok(d)),
                },
            },
        },
        AstNode::UnaryOp { op, operand, .. } => wrap_code(s, *operand, Wrapper::Unary(op)),
        AstNode::List { elements, .. } => match exprs_code(s, elements@, Seq::empty()) {
            (s1, Err(e)) => (s1, Err(e)),
            (s1, Ok(regs)) => match take_reg(s1) {
                (s2, Err(e)) => (s2, Err(e)),
                (s2, Ok(d)) => (
                    frees(emit(s2, Instruction::CreateList { dest: d, start: s.next_reg, count: regs.len() as u8 }), regs.len()),
                    Ok(d),
                ),
            },
        },
        AstNode::MapLiteral { entries, .. } => match take_reg(s) {
            (s1, Err(e)) => (s1, Err(e)),
            (s1, Ok(d)) => match map_fields_code(emit(s1, Instruction::CreateMap { dest: d }), d, entries@) {
                (s2, Err(e)) => (s2, Err(e)),
                (s2, Ok(())) => (s2, Ok(d)),
            },
        },
        AstNode::IndexAccess { object, index, .. } => match expr_code(s, *object) {
            (s1, Err(e)) => (s1, Err(e)),
            (s1, Ok(l)) => match expr_code(s1, *index) {
                (s2, Err(e)) => (s2, Err(e)),
                (s2, Ok(i)) => match take_reg(s2) {
                    (s3, Err(e)) => (s3, Err(e)),
                    (s3, Ok(d)) => (free(free(emit(s3, Instruction::GetIndex { dest: d, list: l, index: i }))), Ok(d)),
                },
            },
        },
        AstNode::FieldAccess { object, field, .. } => match expr_code(s, *object) {
            (s1, Err(e)) => (s1, Err(e)),
            (s1, Ok(m)) => {
                let (s2, id) = add_const(s1, ConstView::Text(field@));
                match take_reg(s2) {
                    (s3, Err(e)) => (s3, Err(e)),
                    (s3, Ok(d)) => (free(emit(s3, Instruction::GetField { dest: d, map: m, field_id: id })), Ok(d)),
                }
            },
        },
        AstNode::Call { callee, args, .. } => match expr_code(s, *callee) {
            (s1, Err(e)) => (s1, Err(e)),
            (s1, Ok(f)) => match exprs_code(s1, args@, Seq::empty()) {
                (s2, Err(e)) => (s2, Err(e)),
                (s2, Ok(regs)) => match take_reg(s2) {
                    (s3, Err(e)) => (s3, Err(e)),
                    (s3, Ok(d)) => (
                        free(frees(emit(s3, Instruction::Call {
                            dest: d,
                            func: f,
                            arg_start: s1.next_reg,
                            arg_count: regs.len() as u8,
                        }), regs.len())),
                        Ok(d),
                    ),
                },
            },
        },
        AstNode::Triumph { value, .. } => wrap_code(s, *value, Wrapper::Triumph),
        AstNode::Mishap { value, .. } => wrap_code(s, *value, Wrapper::Mishap),
        AstNode::Present { value, .. } => wrap_code(s, *value, Wrapper::Present),
        AstNode::Absent { .. } => match take_reg(s) {
            (s1, Err(e)) => (s1, Err(e)),
            (s1, Ok(d)) => (emit(s1, Instruction::CreateAbsent { dest: d }), Ok(d)),
        },
        AstNode::StructLiteral { struct_name, fields, .. } => {
            let (s1, id) = add_const(s, ConstView::Text(struct_name@));
            match take_reg(s1) {
                (s2, Err(e)) => (s2, Err(e)),
                (s2, Ok(start)) => match values_code(s2, fields@, Seq::empty()) {
                    (s3, Err(e)) => (s3, Err(e)),
                    (s3, Ok(regs)) => match take_reg(s3) {
                        (s4, Err(e)) => (s4, Err(e)),
                        (s4, Ok(d)) => (
                            frees(emit(s4, Instruction::CreateStruct {
                                dest: d,
                                struct_def_id: id,
                                field_start: start,
                                field_count: fields@.len() as u8,
                            }), regs.len() + 1),
                            Ok(d),
                        ),
                    },
                },
            }
        },
        AstNode::ModuleAccess { module, member, .. } => match take_reg(s) {
            (s1, Err(e)) => (s1, Err(e)),
            (s1, Ok(d)) => {
                let (s2, id) = add_const(s1, ConstView::Text(module@ + "."@ + member@));
                (emit(s2, Instruction::LoadGlobal { dest: d, name_id: id }), Ok(d))
            },
        },
        _ => unsupported(s, node_text(n)),
    }
}

/// Compiling expressions in order; `regs` gathers their registers.
pub open spec fn exprs_code(s: CState, ns: Seq<AstNode>, regs: Seq<u8>) -> Out<Seq<u8>>
    decreases ns, 0nat,
{
    if ns.len() == 0 {
        (s, Ok(regs))
    } else {
        match expr_code(s, ns[0]) {
            (s1, Err(e)) => (s1, Err(e)),
            (s1, Ok(r)) => exprs_code(s1, ns.drop_first(), regs.push(r)),
        }
    }
}

/// Compiling the values of named fields in order; `regs` gathers their
/// registers.
pub open spec fn values_code(s: CState, fs: Seq<(String, AstNode)>, regs: Seq<u8>) -> Out<Seq<u8>>
    decreases fs, 0nat,
{
    if fs.len() == 0 {
        (s, Ok(regs))
    } else {
        match expr_code(s, fs[0].1) {
            (s1, Err(e)) => (s1, Err(e)),
            (s1, Ok(r)) => values_code(s1, fs.drop_first(), regs.push(r)),
        }
    }
}

/// Setting each entry of a map literal on the map in `map`.
pub open spec fn map_fields_code(s: CState, map: u8, fs: Seq<(String, AstNode)>) -> Out<()>
    decreases fs, 0nat,
{
    if fs.len() == 0 {
        (s, Ok(()))
    } else {
        match expr_code(s, fs[0].1) {
            (s1, Err(e)) => (s1, Err(e)),
            (s1, Ok(v)) => {
                let (s2, id) = add_const(s1, ConstView::Text(fs[0].0@));
                map_fields_code(free(emit(s2, Instruction::SetField { map, field_id: id, value: v })), map, fs.drop_first())
            },
        }
    }
}

/// Binding a variable: a global in the outermost scope, else a new local.
pub open spec fn bind_code(s: CState, name: Seq<char>, value: AstNode) -> Out<Option<u8>>
{
    match expr_code(s, value) {
        (s1, Err(e)) => (s1, Err(e)),
        (s1, Ok(v)) => if s1.scopes.len() == 1 {
            let (s2, id) = add_const(s1, ConstView::Text(name));
            let s3 = emit(s2, Instruction::DefineGlobal { name_id: id, src: v });
            (free(set_current(s3, name, Loc::Global(name))), Ok(None))
        } else {
            match new_local(s1) {
                (s2, Err(e)) => (s2, Err(e)),
                (s2, Ok(k)) => {
                    let s3 = emit(s2, Instruction::StoreLocal { local_index: k, src: v });
                    (free(set_current(s3, name, Loc::Local(k))), Ok(None))
                },
            }
        },
    }
}

/// Storing a value in a variable.
pub open spec fn assign_code(s: CState, target: AstNode, value: AstNode) -> Out<Option<u8>>
{
    match expr_code(s, value) {
        (s1, Err(e)) => (s1, Err(e)),
        (s1, Ok(v)) => match target {
            AstNode::Ident { name, .. } => match resolve(s1, name@) {
                Err(e) => (s1, Err(e)),
                Ok(Loc::Local(i)) => (free(emit(s1, Instruction::StoreLocal { local_index: i, src: v })), Ok(None)),
                Ok(Loc::Global(_)) => {
                    let (s2, id) = add_const(s1, ConstView::Text(name@));
                    (free(emit(s2, Instruction::StoreGlobal { name_id: id, src: v })), Ok(None))
                },
                Ok(Loc::Function(_)) => unsupported(s1, "Cannot assign to function '"@ + name@ + "'"@),
            },
            _ => unsupported(s1, "Assignment target not supported in bytecode compiler: "@ + node_text(target)),
        },
    }
}

/// Binding parameters to new locals in order.
pub open spec fn params_code(s: CState, ps: Seq<Parameter>) -> Out<()>
    decreases ps.len(),
{
    if ps.len() == 0 {
        (s, Ok(()))
    } else {
        match new_local(s) {
            (s1, Err(e)) => (s1, Err(e)),
            (s1, Ok(k)) => params_code(set_current(s1, ps[0].name@, Loc::Local(k)), ps.drop_first()),
        }
    }
}

/// Storing argument registers into the locals `i`, `i + 1`, ..., each
/// register given back after its store.
pub open spec fn store_args(s: CState, regs: Seq<u8>, i: int) -> CState
    decreases regs.len() - i,
{
    if i < 0 || i >= regs.len() {
        s
    } else {
        store_args(free(emit(s, Instruction::StoreLocal { local_index: i as u8, src: regs[i] })), regs, i + 1)
    }
}

/// Compiling statements in order: the result of the last, or `last` when
/// there are none.
pub open spec fn stmts_code(s: CState, ns: Seq<AstNode>, last: Option<u8>) -> Out<Option<u8>>
    decreases ns, 0nat,
{
    if ns.len() == 0 {
        (s, Ok(last))
    } else {
        match stmt_code(s, ns[0]) {
            (s1, Err(e)) => (s1, Err(e)),
            (s1, Ok(r)) => stmts_code(s1, ns.drop_first(), r),
        }
    }
}

/// Compiling a statement: the register of its value where it has one.
pub open spec fn stmt_code(s: CState, n: AstNode) -> Out<Option<u8>>
    decreases n, 4nat,
{
    match n {
        AstNode::BindStmt { name, value, .. } => bind_code(s, name@, *value),
        AstNode::WeaveStmt { name, value, .. } => bind_code(s, name@, *value),
        AstNode::SetStmt { target, value, .. } => assign_code(s, *target, *value),
        AstNode::IfStmt { condition, then_branch, else_branch, .. } => match expr_code(s, *condition) {
            (s1, Err(e)) => (s1, Err(e)),
            (s1, Ok(c)) => {
                let s2 = emit(s1, Instruction::JumpIfFalse { cond: c, offset: 0 });
                let to_else = s2.code.len() - 1;
                match stmts_code(free(s2), then_branch@, None) {
                    (s3, Err(e)) => (s3, Err(e)),
                    (s3, Ok(_)) => {
                        let s4 = emit(s3, Instruction::Jump { offset: 0 });
                        let over_else = s4.code.len() - 1;
                        match patch(s4, to_else, s4.code.len() as int) {
                            None => (s4, Err(Stop::Abort)),
                            Some(s5) => {
                                let done: Out<Option<u8>> = match else_branch {
                                    Some(b) => stmts_code(s5, b@, None),
                                    None => (s5, Ok(None)),
                                };
                                match done {
                                    (s6, Err(e)) => (s6, Err(e)),
                                    (s6, Ok(_)) => match patch(s6, over_else, s6.code.len() as int) {
                                        None => (s6, Err(Stop::Abort)),
                                        Some(s7) => (s7, Ok(None)),
                                    },
                                }
                            },
                        }
                    },
                }
            },
        },
        AstNode::WhileStmt { condition, body, .. } => match expr_code(s, *condition) {
            (s1, Err(e)) => (s1, Err(e)),
            (s1, Ok(c)) => {
                let s2 = emit(s1, Instruction::JumpIfFalse { cond: c, offset: 0 });
                let to_end = s2.code.len() - 1;
                match stmts_code(free(s2), body@, None) {
                    (s3, Err(e)) => (s3, Err(e)),
                    (s3, Ok(_)) => match jump_back(s3, s.code.len() as int) {
                        None => (s3, Err(Stop::Abort)),
                        Some(s4) => match patch(s4, to_end, s4.code.len() as int) {
                            None => (s4, Err(Stop::Abort)),
                            Some(s5) => (s5, Ok(None)),
                        },
                    },
                }
            },
        },
        AstNode::MatchStmt { value, arms, .. } => match expr_code(s, *value) {
            (s1, Err(e)) => (s1, Err(e)),
            (s1, Ok(v)) => match arms_code(s1, v, arms@, Seq::empty()) {
                (s2, Err(e)) => (s2, Err(e)),
                (s2, Ok(jumps)) => match patch_all(s2, jumps, s2.code.len() as int) {
                    None => (s2, Err(Stop::Abort)),
                    Some(s3) => (free(s3), Ok(None)),
                },
            },
        },
        AstNode::ChantDef { name, params, body, .. } => {
            let entry = s.code.len() as usize;
            let s1 = CState {
                current_function: Some(name@),
                function_entry: Some(entry),
                functions: assoc_insert(s.functions, name@, entry),
                scopes: s.scopes.push(Seq::empty()),
                ..s
            };
            match params_code(s1, params@) {
                (s2, Err(e)) => (s2, Err(e)),
                (s2, Ok(())) => match stmts_code(s2, body@, None) {
                    (s3, Err(e)) => (s3, Err(e)),
                    (s3, Ok(last)) => {
                        let ended: Out<()> = if last is None {
                            match take_reg(s3) {
                                (s4, Err(e)) => (s4, Err(e)),
                                (s4, Ok(r)) => (
                                    free(emit(emit(s4, Instruction::LoadNothing { dest: r }), Instruction::Return { value: r })),
                                    Ok(()),
                                ),
                            }
                        } else {
                            (s3, Ok(()))
                        };
                        match ended {
                            (s5, Err(e)) => (s5, Err(e)),
                            (s5, Ok(())) => (
                                CState {
                                    scopes: s5.scopes.drop_last(),
                                    current_function: s.current_function,
                                    function_entry: s.function_entry,
                                    ..s5
                                },
                                Ok(None),
                            ),
                        }
                    },
                },
            }
        },
        AstNode::FormDef { name, fields, .. } => {
            let (s1, def) = add_const(s, ConstView::StructDef { name: name@, fields: form_fields_view(fields@) });
            match take_reg(s1) {
                (s2, Err(e)) => (s2, Err(e)),
                (s2, Ok(d)) => {
                    let s3 = emit(s2, Instruction::LoadConst { dest: d, constant_id: def });
                    let (s4, id) = add_const(s3, ConstView::Text(name@));
                    (free(emit(s4, Instruction::StoreGlobal { name_id: id, src: d })), Ok(None))
                },
            }
        },
        AstNode::YieldStmt { value, .. } => yield_code(s, *value),
        AstNode::AttemptStmt { body, .. } => match stmts_code(emit(s, Instruction::SetupTry { handler_offset: 0 }), body@, None) {
            (s1, Err(e)) => (s1, Err(e)),
            (s1, Ok(_)) => (emit(emit(s1, Instruction::PopTry), Instruction::Jump { offset: 0 }), Err(Stop::Abort)),
        },
        AstNode::ExprStmt { expr, .. } => match expr_code(s, *expr) {
            (s1, Err(e)) => (s1, Err(e)),
            (s1, Ok(r)) => (s1, Ok(Some(r))),
        },
        AstNode::ModuleDecl { name, .. } => unsupported(
            s,
            "Module declarations not yet supported in bytecode compiler (multi-file compilation required). Module: "@
                + name@,
        ),
        AstNode::Import { module_name, path, .. } => unsupported(
            s,
            "Module imports not yet supported in bytecode compiler. Attempted to import "@ + module_name@ + " from "@
                + path@,
        ),
        AstNode::Export { items, .. } => unsupported(
            s,
            "Module exports not yet supported in bytecode compiler. Attempted to export: "@ + strs_text(items@),
        ),
        _ => match expr_code(s, n) {
            (s1, Err(e)) => (s1, Err(e)),
            (s1, Ok(r)) => (s1, Ok(Some(r))),
        },
    }
}

/// `yield value`: a call of the function being compiled becomes a jump
/// back to its entry with the arguments stored in its parameters; any
/// other value is returned.
pub open spec fn yield_code(s: CState, value: AstNode) -> Out<Option<u8>>
{
    let tail = match value {
        AstNode::Call { callee, .. } => match *callee {
            AstNode::Ident { name, .. } => s.current_function == Some(name@),
            _ => false,
        },
        _ => false,
    };
    if tail {
        match value {
            AstNode::Call { args, .. } => match exprs_code(s, args@, Seq::empty()) {
                (s1, Err(e)) => (s1, Err(e)),
                (s1, Ok(regs)) => {
                    let s2 = store_args(s1, regs, 0);
                    match s2.function_entry {
                        Some(entry) => match jump_back(s2, entry as int) {
                            None => (s2, Err(Stop::Abort)),
                            Some(s3) => (s3, Ok(None)),
                        },
                        None => (s2, Ok(None)),
                    }
                },
            },
            _ => (s, Ok(None)),
        }
    } else {
        match expr_code(s, value) {
            (s1, Err(e)) => (s1, Err(e)),
            (s1, Ok(r)) => (free(emit(s1, Instruction::Return { value: r })), Ok(None)),
        }
    }
}

/// The pattern test and bindings of one match arm, in its own scope.
pub open spec fn arm_test(s: CState, v: u8, p: Pattern) -> Out<Option<usize>>
{
    match p {
        Pattern::Literal(lit) => match expr_code(s, lit) {
            (s1, Err(e)) => (s1, Err(e)),
            (s1, Ok(l)) => match take_reg(s1) {
                (s2, Err(e)) => (s2, Err(e)),
                (s2, Ok(c)) => {
                    let s3 = emit(free(emit(s2, Instruction::Eq { dest: c, left: v, right: l })), Instruction::JumpIfFalse {
                        cond: c,
                        offset: 0,
                    });
                    (free(s3), Ok(Some((s3.code.len() - 1) as usize)))
                },
            },
        },
        Pattern::Ident(var) => match new_local(s) {
            (s1, Err(e)) => (s1, Err(e)),
            (s1, Ok(k)) => (
                set_current(emit(s1, Instruction::StoreLocal { local_index: k, src: v }), var@, Loc::Local(k)),
                Ok(None),
            ),
        },
        Pattern::Wildcard => (s, Ok(None)),
        Pattern::Enum { variant, inner } => match take_reg(s) {
            (s1, Err(e)) => (s1, Err(e)),
            (s1, Ok(c)) => match variant_test(variant@, c, v) {
                None => unsupported(s1, "Unknown enum variant: "@ + variant@),
                Some(test) => {
                    let s2 = emit(emit(s1, test), Instruction::JumpIfFalse { cond: c, offset: 0 });
                    let next = (s2.code.len() - 1) as usize;
                    let s3 = free(s2);
                    match inner {
                        Some(ip) => if variant@ != "Absent"@ {
                            match take_reg(s3) {
                                (s4, Err(e)) => (s4, Err(e)),
                                (s4, Ok(ir)) => {
                                    let s5 = emit(s4, Instruction::ExtractInner { dest: ir, value: v });
                                    match *ip {
                                        Pattern::Ident(var) => match new_local(s5) {
                                            (s6, Err(e)) => (s6, Err(e)),
                                            (s6, Ok(k)) => (
                                                free(set_current(
                                                    emit(s6, Instruction::StoreLocal { local_index: k, src: ir }),
                                                    var@,
                                                    Loc::Local(k),
                                                )),
                                                Ok(Some(next)),
                                            ),
                                        },
                                        Pattern::Wildcard => (free(s5), Ok(Some(next))),
                                        _ => unsupported(s5, "Complex nested enum patterns not yet supported"@),
                                    }
                                },
                            }
                        } else {
                            (s3, Ok(Some(next)))
                        },
                        None => (s3, Ok(Some(next))),
                    }
                },
            },
        },
    }
}

/// Compiling match arms on the value in `v`: each tests its pattern, runs
/// its body and jumps to the end; `jumps` gathers those jumps.
pub open spec fn arms_code(s: CState, v: u8, arms: Seq<MatchArm>, jumps: Seq<usize>) -> Out<Seq<usize>>
    decreases arms, 0nat,
{
    if arms.len() == 0 {
        (s, Ok(jumps))
    } else {
        let s0 = CState { scopes: s.scopes.push(Seq::empty()), ..s };
        match arm_test(s0, v, arms[0].pattern) {
            (s1, Err(e)) => (s1, Err(e)),
            (s1, Ok(next)) => match stmts_code(s1, arms[0].body@, None) {
                (s2, Err(e)) => (s2, Err(e)),
                (s2, Ok(_)) => {
                    let j = s2.code.len() as usize;
                    let s3 = emit(s2, Instruction::Jump { offset: 0 });
                    let patched = match next {
                        Some(at) => patch(s3, at as int, s3.code.len() as int),
                        None => Some(s3),
                    };
                    match patched {
                        None => (s3, Err(Stop::Abort)),
                        Some(s4) => arms_code(
                            CState { scopes: s4.scopes.drop_last(), locals: s.locals, ..s4 },
                            v,
                            arms.drop_first(),
                            jumps.push(j),
                        ),
                    }
                },
            },
        }
    }
}

/// Compiling a program: its statements, the last one's value moved to
/// register 0, then `Halt`.
pub open spec fn program_code(s: CState, nodes: Seq<AstNode>) -> Out<()> {
    match stmts_code(s, nodes, None) {
        (s1, Err(e)) => (s1, Err(e)),
        (s1, Ok(last)) => {
            let s2 = match last {
                Some(r) => if r != 0 { emit(s1, Instruction::Move { dest: 0, src: r }) } else { s1 },
                None => s1,
            };
            (emit(s2, Instruction::Halt), Ok(()))
        },
    }
}

/// A compiled program ends with `Halt`, after the code of its statements,
/// which stays as it was compiled.
pub proof fn program_ends_with_halt_law(s: CState, nodes: Seq<AstNode>)
    ensures
        program_code(s, nodes).1 is Ok ==> ({
            let out = program_code(s, nodes).0;
            let body = stmts_code(s, nodes, None).0;
            &&& out.code.len() > 0
            &&& out.code.last() == Instruction::Halt
            &&& out.code.subrange(0, body.code.len() as int) == body.code
        }),
{
    match stmts_code(s, nodes, None) {
        (s1, Err(_)) => {},
        (s1, Ok(last)) => {
            let s2 = match last {
                Some(r) => if r != 0 { emit(s1, Instruction::Move { dest: 0, src: r }) } else { s1 },
                None => s1,
            };
            let out = emit(s2, Instruction::Halt);
            assert(out.code.subrange(0, s1.code.len() as int) =~= s1.code);
        },
    }
}

/// The state of a new compiler: one (global) scope and nothing compiled.
pub open spec fn initial_state() -> CState {
    CState {
        code: Seq::empty(),
        lines: Seq::empty(),
        consts: Seq::empty(),
        chunk_locals: 0,
        next_reg: 0,
        max_reg: 0,
        scopes: seq![Seq::empty()],
        locals: 0,
        current_function: None,
        function_entry: None,
        functions: Seq::empty(),
    }
}

/// Code only grows, except where jumps emitted after `old` are patched.
pub open spec fn code_kept(old: Seq<Instruction>, new: Seq<Instruction>) -> bool {
    old.len() <= new.len() && forall|i: int| 0 <= i < old.len() ==> #[trigger] new[i] == old[i]
}

/// Keeping code is transitive.
pub broadcast proof fn lemma_code_kept_trans(a: Seq<Instruction>, b: Seq<Instruction>, c: Seq<Instruction>)
    requires
        #[trigger] code_kept(a, b),
        #[trigger] code_kept(b, c),
    ensures
        code_kept(a, c),
{
}

/// A jump that `patch_jump` accepts.
pub open spec fn is_jump(i: Instruction) -> bool {
    i is Jump || i is JumpIfTrue || i is JumpIfFalse
}


/// A binary operation's operands keep their source order: its code is
/// the code of the left operand, then the code of the right operand, then
/// one instruction that reads the left operand's register as its `left`
/// and the right operand's register as its `right`, and writes a new
/// register, which holds the value. The instruction is the operator's own:
/// `+` `AddNum`, `-` `SubNum`, `*` `MulNum`, `/` `DivNum`, `%` `ModNum`,
/// `is` `Eq`, `is not` `Ne`, `greater than` `Gt`, `less than` `Lt`,
/// `at least` `Ge`, `at most` `Le`, `and` `And`, `or` `Or`.
pub proof fn binary_operand_order_law(s: CState, left: AstNode, op: BinaryOperator, right: AstNode, span: SourceSpan)
    requires
        expr_code(s, left).1 is Ok,
        expr_code(expr_code(s, left).0, right).1 is Ok,
        expr_code(expr_code(s, left).0, right).0.next_reg != 255,
    ensures
        ({
            let (s1, l) = (expr_code(s, left).0, expr_code(s, left).1->Ok_0);
            let (s2, r) = (expr_code(s1, right).0, expr_code(s1, right).1->Ok_0);
            let d = s2.next_reg;
            let out = expr_code(s, AstNode::BinaryOp { left: Box::new(left), op, right: Box::new(right), span });
            let i = out.0.code.last();
            &&& out.1 == Ok::<u8, Stop>(d)
            &&& out.0.code == s2.code.push(i)
            &&& op is Add ==> i == Instruction::AddNum { dest: d, left: l, right: r }
            &&& op is Sub ==> i == Instruction::SubNum { dest: d, left: l, right: r }
            &&& op is Mul ==> i == Instruction::MulNum { dest: d, left: l, right: r }
            &&& op is Div ==> i == Instruction::DivNum { dest: d, left: l, right: r }
            &&& op is Mod ==> i == Instruction::ModNum { dest: d, left: l, right: r }
            &&& op is Equal ==> i == Instruction::Eq { dest: d, left: l, right: r }
            &&& op is NotEqual ==> i == Instruction::Ne { dest: d, left: l, right: r }
            &&& op is Greater ==> i == Instruction::Gt { dest: d, left: l, right: r }
            &&& op is Less ==> i == Instruction::Lt { dest: d, left: l, right: r }
            &&& op is GreaterEq ==> i == Instruction::Ge { dest: d, left: l, right: r }
            &&& op is LessEq ==> i == Instruction::Le { dest: d, left: l, right: r }
            &&& op is And ==> i == Instruction::And { dest: d, left: l, right: r }
            &&& op is Or ==> i == Instruction::Or { dest: d, left: l, right: r }
        }),
{
    let s1 = expr_code(s, left).0;
    let s2 = expr_code(s1, right).0;
    let s3 = take_reg(s2).0;
    let l = expr_code(s, left).1->Ok_0;
    let r = expr_code(s1, right).1->Ok_0;
    let e = emit(s3, binary_instruction(op, s2.next_reg, l, r));
    assert(free(free(e)).code == e.code);
    assert(e.code == s2.code.push(binary_instruction(op, s2.next_reg, l, r)));
}

/// A unary operation's code is its operand's code and then one
/// instruction that reads the operand's register and writes a new one:
/// `not` `Not`, `-` `NegNum`.
pub proof fn unary_operand_law(s: CState, op: UnaryOperator, operand: AstNode, span: SourceSpan)
    requires
        expr_code(s, operand).1 is Ok,
        expr_code(s, operand).0.next_reg != 255,
    ensures
        ({
            let (s1, v) = (expr_code(s, operand).0, expr_code(s, operand).1->Ok_0);
            let d = s1.next_reg;
            let out = expr_code(s, AstNode::UnaryOp { op, operand: Box::new(operand), span });
            let i = out.0.code.last();
            &&& out.1 == Ok::<u8, Stop>(d)
            &&& out.0.code == s1.code.push(i)
            &&& op is Not ==> i == Instruction::Not { dest: d, src: v }
            &&& op is Negate ==> i == Instruction::NegNum { dest: d, src: v }
        }),
{
    let s1 = expr_code(s, operand).0;
    let v = expr_code(s, operand).1->Ok_0;
    let e = emit(take_reg(s1).0, wrapper_instruction(Wrapper::Unary(op), s1.next_reg, v));
    assert(wrap_code(s, operand, Wrapper::Unary(op)) == (free(e), Ok::<u8, Stop>(s1.next_reg)));
    assert(free(e).code == e.code);
}

} // verus!
