//! What the native code generator emits for each construct, as functions on
//! a mathematical model of the generator's state.

use vstd::prelude::*;
use crate::ast::{AstNode, BinaryOperator, ErrorHandler, MatchArm, Parameter, Pattern, StructField, UnaryOperator};
use crate::codegen::{InstructionOf, InstructionView};
use crate::native_runtime::{field_load_code, field_store_code, string_alloc_code, struct_alloc_code};
use crate::debug_text::{node_text, strs_text};
use crate::text::{spec_decimal, spec_signed_decimal};
use vstd::utf8::encode_utf8;

verus! {

/// The generator's state: code emitted so far, labels handed out, the stack
/// frame, the variables in scope (most recent last), the function being
/// compiled with its entry label, the struct definitions seen (name and
/// field names) and the string literals collected (label and text).
pub struct GenState {
    pub code: Seq<InstructionView>,
    pub labels: int,
    pub stack: int,
    pub vars: Seq<(Seq<char>, int)>,
    pub func: Option<Seq<char>>,
    pub entry: Option<Seq<char>>,
    pub structs: Seq<(Seq<char>, Seq<Seq<char>>)>,
    pub literals: Seq<(Seq<char>, Seq<char>)>,
}

/// Why code generation stopped.
pub enum GenError {
    /// An error with this message.
    Message(Seq<char>),
}

/// The state reached and, when generation stopped early, why.
pub struct GenOut {
    pub st: GenState,
    pub err: Option<GenError>,
}

/// Whether an error message reports `e`.
pub open spec fn reports(msg: Seq<char>, e: GenError) -> bool {
    match e {
        GenError::Message(m) => msg == m,
    }
}

pub open spec fn ok(st: GenState) -> GenOut {
    GenOut { st, err: None }
}

pub open spec fn fail(st: GenState, msg: Seq<char>) -> GenOut {
    GenOut { st, err: Some(GenError::Message(msg)) }
}

pub open spec fn emit(st: GenState, i: InstructionView) -> GenState {
    GenState { code: st.code.push(i), ..st }
}

pub open spec fn emit_all(st: GenState, code: Seq<InstructionView>) -> GenState {
    GenState { code: st.code + code, ..st }
}

pub open spec fn rax() -> Seq<char> {
    "%rax"@
}

pub open spec fn rbx() -> Seq<char> {
    "%rbx"@
}

pub open spec fn rdx() -> Seq<char> {
    "%rdx"@
}

pub open spec fn rbp() -> Seq<char> {
    "%rbp"@
}

pub open spec fn rsp() -> Seq<char> {
    "%rsp"@
}

/// A stack slot `offset(%rbp)`.
pub open spec fn slot(off: int) -> Seq<char> {
    spec_signed_decimal(off) + "(%rbp)"@
}

/// An immediate operand `$n`.
pub open spec fn imm(n: int) -> Seq<char> {
    "$"@ + spec_signed_decimal(n)
}

/// A label made of a prefix and a number.
pub open spec fn numbered(prefix: Seq<char>, n: int) -> Seq<char> {
    prefix + spec_decimal(n as nat)
}

/// Registers that carry the first six call arguments.
pub open spec fn arg_reg(i: int) -> Seq<char> {
    if i == 0 {
        "%rdi"@
    } else if i == 1 {
        "%rsi"@
    } else if i == 2 {
        "%rdx"@
    } else if i == 3 {
        "%rcx"@
    } else if i == 4 {
        "%r8"@
    } else {
        "%r9"@
    }
}

/// How many arguments go to registers.
pub open spec fn reg_args(n: int) -> int {
    if n < 6 { n } else { 6 }
}

/// A new stack slot for `name`, 8 bytes below the previous one.
pub open spec fn alloc_slot(st: GenState, name: Seq<char>) -> GenState {
    GenState { stack: st.stack - 8, vars: st.vars.push((name, st.stack - 8)), ..st }
}

/// The slot of the most recent variable called `name`.
pub open spec fn find_var(vars: Seq<(Seq<char>, int)>, name: Seq<char>) -> Option<int>
    decreases vars.len(),
{
    if vars.len() == 0 {
        None
    } else if vars.last().0 == name {
        Some(vars.last().1)
    } else {
        find_var(vars.drop_last(), name)
    }
}

/// Position of the first `name` in `names`.
pub open spec fn index_of(names: Seq<Seq<char>>, name: Seq<char>) -> Option<nat>
    decreases names.len(),
{
    if names.len() == 0 {
        None
    } else if names[0] == name {
        Some(0)
    } else {
        match index_of(names.drop_first(), name) {
            Some(i) => Some(i + 1),
            None => None,
        }
    }
}

/// Field names of the first struct called `name`.
pub open spec fn find_struct(structs: Seq<(Seq<char>, Seq<Seq<char>>)>, name: Seq<char>) -> Option<Seq<Seq<char>>>
    decreases structs.len(),
{
    if structs.len() == 0 {
        None
    } else if structs[0].0 == name {
        Some(structs[0].1)
    } else {
        find_struct(structs.drop_first(), name)
    }
}

/// The first struct that has a field called `field`, with the field's position.
pub open spec fn field_owner(structs: Seq<(Seq<char>, Seq<Seq<char>>)>, field: Seq<char>) -> Option<(Seq<char>, nat)>
    decreases structs.len(),
{
    if structs.len() == 0 {
        None
    } else {
        match index_of(structs[0].1, field) {
            Some(i) => Some((structs[0].0, i)),
            None => field_owner(structs.drop_first(), field),
        }
    }
}

/// Field names of a struct definition.
pub open spec fn field_names(fields: Seq<StructField>) -> Seq<Seq<char>> {
    fields.map_values(|f: StructField| f.name@)
}

/// Number of bytes of a text in UTF-8 (`str::len`).
pub open spec fn byte_len(s: Seq<char>) -> usize {
    encode_utf8(s).len() as usize
}

/// Number of ASCII digits at the start of `s`.
pub open spec fn leading_digits(s: Seq<char>) -> nat
    decreases s.len(),
{
    if s.len() > 0 && '0' <= s[0] <= '9' {
        1 + leading_digits(s.drop_first())
    } else {
        0
    }
}

/// Value of a string of decimal digits.
pub open spec fn digits_value(d: Seq<char>) -> nat
    decreases d.len(),
{
    if d.len() == 0 {
        0
    } else {
        10 * digits_value(d.drop_last()) + ((d.last() as int) - ('0' as int)) as nat
    }
}

/// The integer a number literal stands for in generated code: its whole
/// part (the digits before any fraction), at most the largest `i64`.
pub open spec fn literal_int(text: Seq<char>) -> int {
    let v = digits_value(text.take(leading_digits(text) as int));
    if v > i64::MAX { i64::MAX as int } else { v as int }
}

/// The code after both operands of a binary operation are evaluated (left
/// in %rax, right in %rbx).
pub open spec fn binary_code(st: GenState, op: BinaryOperator) -> GenState {
    let setcc = |set: InstructionView|
        emit(emit(emit(st, InstructionOf::Cmp(rbx(), rax())), InstructionOf::Mov("$0"@, rax())), set);
    match op {
        BinaryOperator::Add => emit(st, InstructionOf::Add(rbx(), rax())),
        BinaryOperator::Sub => emit(st, InstructionOf::Sub(rbx(), rax())),
        BinaryOperator::Mul => emit(st, InstructionOf::IMul(rbx(), rax())),
        BinaryOperator::Div => emit(emit(st, InstructionOf::Xor(rdx(), rdx())), InstructionOf::IDiv(rbx())),
        BinaryOperator::Mod => emit(
            emit(emit(st, InstructionOf::Xor(rdx(), rdx())), InstructionOf::IDiv(rbx())),
            InstructionOf::Mov(rdx(), rax()),
        ),
        BinaryOperator::Equal => setcc(InstructionOf::Sete("%al"@)),
        BinaryOperator::NotEqual => setcc(InstructionOf::Setne("%al"@)),
        BinaryOperator::Greater => setcc(InstructionOf::Setg("%al"@)),
        BinaryOperator::Less => setcc(InstructionOf::Setl("%al"@)),
        BinaryOperator::GreaterEq => setcc(InstructionOf::Setge("%al"@)),
        BinaryOperator::LessEq => setcc(InstructionOf::Setle("%al"@)),
        BinaryOperator::And => {
            let n = st.labels;
            let f = numbered(".L_and_false_"@, n);
            let e = numbered(".L_and_end_"@, n);
            emit_all(
                GenState { labels: n + 1, ..emit(st, InstructionOf::Cmp("$0"@, rax())) },
                seq![
                    InstructionOf::Je(f),
                    InstructionOf::Cmp("$0"@, rbx()),
                    InstructionOf::Je(f),
                    InstructionOf::Mov("$1"@, rax()),
                    InstructionOf::Jmp(e),
                    InstructionOf::Label(f),
                    InstructionOf::Mov("$0"@, rax()),
                    InstructionOf::Label(e),
                ],
            )
        },
        BinaryOperator::Or => {
            let n = st.labels;
            let t = numbered(".L_or_true_"@, n);
            let e = numbered(".L_or_end_"@, n);
            emit_all(
                GenState { labels: n + 1, ..emit(st, InstructionOf::Cmp("$0"@, rax())) },
                seq![
                    InstructionOf::Jne(t),
                    InstructionOf::Cmp("$0"@, rbx()),
                    InstructionOf::Jne(t),
                    InstructionOf::Mov("$0"@, rax()),
                    InstructionOf::Jmp(e),
                    InstructionOf::Label(t),
                    InstructionOf::Mov("$1"@, rax()),
                    InstructionOf::Label(e),
                ],
            )
        },
    }
}

/// A two-word enum value (value, then tag) put in 16 fresh stack bytes;
/// its address is left in %rax. `value` names the register or immediate
/// stored as the value.
pub open spec fn enum_value_code(st: GenState, tag: Seq<char>, value: Seq<char>) -> GenState {
    let off = st.stack - 16;
    emit_all(
        GenState { stack: off, ..st },
        seq![
            InstructionOf::Mov(tag, slot(off + 8)),
            InstructionOf::Mov(value, slot(off)),
            InstructionOf::Mov(rbp(), rax()),
            InstructionOf::Add(imm(off), rax()),
        ],
    )
}

/// Evaluating an expression, leaving its value in %rax.
pub open spec fn expr_code(st: GenState, node: AstNode) -> GenOut
    decreases node, 2nat,
{
    match node {
        AstNode::Number { value, .. } => ok(emit(st, InstructionOf::Mov(imm(literal_int(value@)), rax()))),
        AstNode::Ident { name, .. } => match find_var(st.vars, name@) {
            Some(off) => ok(emit(st, InstructionOf::Mov(slot(off), rax()))),
            None => fail(st, "Undefined variable: "@ + name@),
        },
        AstNode::BinaryOp { left, op, right, .. } => {
            let o1 = expr_code(st, *left);
            if o1.err is Some {
                o1
            } else {
                let o2 = expr_code(emit(o1.st, InstructionOf::Push(rax())), *right);
                if o2.err is Some {
                    o2
                } else {
                    ok(binary_code(emit(emit(o2.st, InstructionOf::Mov(rax(), rbx())), InstructionOf::Pop(rax())), op))
                }
            }
        },
        AstNode::UnaryOp { op, operand, .. } => {
            let o = expr_code(st, *operand);
            if o.err is Some {
                o
            } else {
                match op {
                    UnaryOperator::Negate => ok(emit(o.st, InstructionOf::Neg(rax()))),
                    UnaryOperator::Not => ok(
                        emit(emit(o.st, InstructionOf::Cmp("$0"@, rax())), InstructionOf::Mov("$0"@, rax())),
                    ),
                }
            }
        },
        AstNode::Call { callee, args, .. } => {
            let o = args_code(st, args@, reg_args(args@.len() as int) as nat);
            if o.err is Some {
                o
            } else {
                match *callee {
                    AstNode::Ident { name, .. } => ok(emit(o.st, InstructionOf::Call(".L_func_"@ + name@))),
                    _ => fail(o.st, "Indirect calls not supported yet"@),
                }
            }
        },
        AstNode::Triumph { value, .. } => {
            let o = expr_code(emit(st, InstructionOf::Comment("Create Triumph variant"@)), *value);
            if o.err is Some {
                o
            } else {
                ok(enum_value_code(o.st, "$1"@, rax()))
            }
        },
        AstNode::Mishap { value, .. } => {
            let o = expr_code(emit(st, InstructionOf::Comment("Create Mishap variant"@)), *value);
            if o.err is Some {
                o
            } else {
                ok(enum_value_code(o.st, "$0"@, rax()))
            }
        },
        AstNode::Present { value, .. } => {
            let o = expr_code(emit(st, InstructionOf::Comment("Create Present variant"@)), *value);
            if o.err is Some {
                o
            } else {
                ok(enum_value_code(o.st, "$1"@, rax()))
            }
        },
        AstNode::Absent { .. } => ok(
            enum_value_code(
                emit(st, InstructionOf::Comment("Create Absent { span: SourceSpan::default() } variant"@)),
                "$0"@,
                "$0"@,
            ),
        ),
        AstNode::StructLiteral { struct_name, fields, .. } => {
            let s0 = emit(st, InstructionOf::Comment("Struct literal: "@ + struct_name@));
            match find_struct(s0.structs, struct_name@) {
                None => fail(s0, "Undefined struct: "@ + struct_name@),
                Some(sf) => {
                    let s1 = emit(emit_all(s0, struct_alloc_code(sf.len())), InstructionOf::Mov("%rax"@, "%rbx"@));
                    let o = fields_code(s1, fields@, sf, struct_name@);
                    if o.err is Some {
                        o
                    } else {
                        ok(emit(o.st, InstructionOf::Mov("%rbx"@, "%rax"@)))
                    }
                },
            }
        },
        AstNode::FieldAccess { object, field, .. } => {
            let o = expr_code(emit(st, InstructionOf::Comment("Field access: ."@ + field@)), *object);
            if o.err is Some {
                o
            } else {
                match field_owner(o.st.structs, field@) {
                    None => fail(o.st, "Field '"@ + field@ + "' not found in any struct definition"@),
                    Some((sname, idx)) => ok(
                        emit_all(
                            emit(
                                o.st,
                                InstructionOf::Comment(
                                    "Assuming struct type: "@ + sname + " (field index: "@ + spec_decimal(idx)
                                        + ")"@,
                                ),
                            ),
                            field_load_code(idx),
                        ),
                    ),
                }
            }
        },
        AstNode::Text { value, .. } => {
            let s1 = emit(st, InstructionOf::Comment("String literal: \""@ + value@ + "\""@));
            let label = numbered(".L_string_data_"@, s1.labels);
            let s2 = GenState { labels: s1.labels + 1, literals: s1.literals.push((label, value@)), ..s1 };
            let s3 = emit(s2, InstructionOf::Mov("$"@ + spec_decimal(byte_len(value@) as nat), "%r10"@));
            ok(emit_all(emit(s3, InstructionOf::Lea(label + "(%rip)"@, "%r11"@)), string_alloc_code()))
        },
        AstNode::ModuleAccess { module, member, .. } => fail(
            st,
            "Module-qualified access not supported in native codegen (requires runtime symbol resolution). Attempted to access "@
                + module@ + "."@ + member@ + ". Use interpreter or bytecode VM instead."@,
        ),
        _ => fail(st, "Expression codegen not implemented: "@ + node_text(node)),
    }
}

/// Evaluating the first `k` call arguments, each moved to its argument register.
pub open spec fn args_code(st: GenState, args: Seq<AstNode>, k: nat) -> GenOut
    decreases args, k,
{
    if k == 0 || k > args.len() {
        ok(st)
    } else {
        let o = args_code(st, args, (k - 1) as nat);
        if o.err is Some {
            o
        } else {
            let o2 = expr_code(o.st, args[k - 1]);
            if o2.err is Some {
                o2
            } else {
                ok(emit(o2.st, InstructionOf::Mov(rax(), arg_reg(k - 1))))
            }
        }
    }
}

/// Initialising the fields of a struct literal (struct pointer in %rbx).
pub open spec fn fields_code(
    st: GenState,
    fields: Seq<(String, AstNode)>,
    struct_fields: Seq<Seq<char>>,
    struct_name: Seq<char>,
) -> GenOut
    decreases fields, 0nat,
{
    if fields.len() == 0 {
        ok(st)
    } else {
        let o = fields_code(st, fields.drop_last(), struct_fields, struct_name);
        if o.err is Some {
            o
        } else {
            let o2 = expr_code(o.st, fields.last().1);
            if o2.err is Some {
                o2
            } else {
                match index_of(struct_fields, fields.last().0@) {
                    None => fail(
                        o2.st,
                        "Field "@ + fields.last().0@ + " not found in struct "@ + struct_name,
                    ),
                    Some(i) => ok(emit_all(o2.st, field_store_code(i))),
                }
            }
        }
    }
}

/// Leaving the current function: restore the caller's frame, then `last`.
pub open spec fn leave(st: GenState, last: InstructionView) -> GenState {
    emit(emit(emit(st, InstructionOf::Mov(rbp(), rsp())), InstructionOf::Pop(rbp())), last)
}

/// The arguments of a call to the function being compiled, when `value` is one.
pub open spec fn self_call_args(st: GenState, value: AstNode) -> Option<Seq<AstNode>> {
    match value {
        AstNode::Call { callee, args, .. } => match *callee {
            AstNode::Ident { name, .. } => if st.func == Some(name@) {
                Some(args@)
            } else {
                None
            },
            _ => None,
        },
        _ => None,
    }
}

/// Parameters stored from their argument registers into stack slots.
pub open spec fn store_params(st: GenState, params: Seq<Parameter>) -> GenState
    decreases params.len(),
{
    if params.len() == 0 {
        st
    } else {
        let s1 = alloc_slot(store_params(st, params.drop_last()), params.last().name@);
        emit(s1, InstructionOf::Mov(arg_reg(params.len() - 1), slot(s1.stack)))
    }
}

/// Label of the arm after arm `idx` of match number `id`.
pub open spec fn next_arm_label(id: int, idx: int) -> Seq<char> {
    numbered(".L_match_arm_"@, id) + "_"@ + spec_decimal((idx + 1) as nat)
}

/// The tag an enum variant is stored with.
pub open spec fn variant_tag(variant: Seq<char>) -> Option<int> {
    if variant == "Triumph"@ || variant == "Present"@ {
        Some(1)
    } else if variant == "Mishap"@ || variant == "Absent"@ {
        Some(0)
    } else {
        None
    }
}

/// The end of an arm: its body, the jump to the end of the match, and the
/// label of the next arm unless this is the last one.
pub open spec fn arm_end_code(st: GenState, body: Seq<AstNode>, idx: int, n: int, id: int) -> GenOut
    decreases body, 1nat,
{
    let o = stmts_code(st, body);
    if o.err is Some {
        o
    } else {
        let s = emit(o.st, InstructionOf::Jmp(numbered(".L_match_end_"@, id)));
        ok(if idx < n - 1 { emit(s, InstructionOf::Label(next_arm_label(id, idx))) } else { s })
    }
}

/// Code for an arm whose pattern is an enum variant: the tag test, then the
/// inner value bound to a variable, if the pattern names one.
pub open spec fn enum_arm_code(st: GenState, arm: MatchArm, idx: int, n: int, id: int, off: int) -> GenOut
    decreases arm, 1nat,
{
    let next = next_arm_label(id, idx);
    match arm.pattern {
        Pattern::Enum { variant, inner } => {
            let s1 = emit(emit(emit(st, InstructionOf::Comment("Match "@ + variant@ + " variant"@)), InstructionOf::Mov(slot(off), rax())), InstructionOf::Mov("8(%rax)"@, rbx()));
            match variant_tag(variant@) {
                None => fail(s1, "Unknown enum variant: "@ + variant@),
                Some(tag) => {
                    let s2 = emit(s1, InstructionOf::Cmp(imm(tag), rbx()));
                    let s3 = if idx < n - 1 { emit(s2, InstructionOf::Jne(next)) } else { s2 };
                    match inner {
                        None => arm_end_code(s3, arm.body@, idx, n, id),
                        Some(p) => match *p {
                            Pattern::Ident(v) => {
                                let s4 = alloc_slot(
                                    emit(emit(s3, InstructionOf::Mov(slot(off), rax())), InstructionOf::Mov("0(%rax)"@, rbx())),
                                    v@,
                                );
                                arm_end_code(emit(s4, InstructionOf::Mov(rbx(), slot(s4.stack))), arm.body@, idx, n, id)
                            },
                            Pattern::Wildcard => arm_end_code(s3, arm.body@, idx, n, id),
                            _ => fail(s3, "Complex nested enum patterns not yet supported in native codegen"@),
                        },
                    }
                },
            }
        },
        _ => ok(st),
    }
}

/// Code for arm `idx` of `n` of match number `id`; the matched value is in slot `off`.
pub open spec fn arm_code(st: GenState, arm: MatchArm, idx: int, n: int, id: int, off: int) -> GenOut
    decreases arm, 2nat,
{
    let next = next_arm_label(id, idx);
    match arm.pattern {
        Pattern::Literal(lit) => {
            let o = expr_code(st, lit);
            if o.err is Some {
                o
            } else {
                let s = emit(emit(emit(o.st, InstructionOf::Mov(rax(), rbx())), InstructionOf::Mov(slot(off), rax())), InstructionOf::Cmp(rbx(), rax()));
                let s2 = if idx < n - 1 { emit(s, InstructionOf::Jne(next)) } else { s };
                arm_end_code(s2, arm.body@, idx, n, id)
            }
        },
        Pattern::Ident(v) => {
            let s1 = alloc_slot(emit(st, InstructionOf::Mov(slot(off), rax())), v@);
            arm_end_code(emit(s1, InstructionOf::Mov(rax(), slot(s1.stack))), arm.body@, idx, n, id)
        },
        Pattern::Wildcard => arm_end_code(st, arm.body@, idx, n, id),
        Pattern::Enum { .. } => enum_arm_code(st, arm, idx, n, id, off),
    }
}

/// Code for the arms of match number `id`, which has `n` arms.
pub open spec fn arms_code(st: GenState, arms: Seq<MatchArm>, n: int, id: int, off: int) -> GenOut
    decreases arms, 3nat,
{
    if arms.len() == 0 {
        ok(st)
    } else {
        let o = arms_code(st, arms.drop_last(), n, id, off);
        if o.err is Some {
            o
        } else {
            arm_code(o.st, arms.last(), arms.len() - 1, n, id, off)
        }
    }
}

/// Code for handler `i` of `n` of attempt block number `id`.
pub open spec fn handler_code(st: GenState, h: ErrorHandler, i: int, n: int, id: int) -> GenOut
    decreases h, 2nat,
{
    let end = numbered(".L_attempt_end_"@, id);
    if h.error_type@ == "_"@ {
        let o = stmts_code(emit(st, InstructionOf::Comment("Wildcard handler"@)), h.body@);
        if o.err is Some {
            o
        } else {
            ok(emit(o.st, InstructionOf::Jmp(end)))
        }
    } else {
        let o = stmts_code(emit(st, InstructionOf::Comment("Handler for "@ + h.error_type@)), h.body@);
        if o.err is Some {
            o
        } else {
            let s = emit(o.st, InstructionOf::Jmp(end));
            ok(
                if i < n - 1 {
                    emit(
                        s,
                        InstructionOf::Label(
                            numbered(".L_attempt_handler_"@, id) + "_"@ + spec_decimal((i + 1) as nat),
                        ),
                    )
                } else {
                    s
                },
            )
        }
    }
}

/// Code for the handlers of attempt block number `id`, which has `n` of them.
pub open spec fn handlers_code(st: GenState, hs: Seq<ErrorHandler>, n: int, id: int) -> GenOut
    decreases hs, 3nat,
{
    if hs.len() == 0 {
        ok(st)
    } else {
        let o = handlers_code(st, hs.drop_last(), n, id);
        if o.err is Some {
            o
        } else {
            handler_code(o.st, hs.last(), hs.len() - 1, n, id)
        }
    }
}

/// Code for statements in order, stopping at the first error.
pub open spec fn stmts_code(st: GenState, nodes: Seq<AstNode>) -> GenOut
    decreases nodes, 0nat,
{
    if nodes.len() == 0 {
        ok(st)
    } else {
        let o = stmts_code(st, nodes.drop_last());
        if o.err is Some {
            o
        } else {
            stmt_code(o.st, nodes.last())
        }
    }
}

/// The message for an export, which native code cannot do; `items` is the
/// text of the exported names as a list.
pub open spec fn export_message(items: Seq<char>) -> Seq<char> {
    "Module exports not supported in native codegen (symbol export infrastructure required). Attempted to export: "@
        + items + ". Use interpreter or bytecode VM instead."@
}

/// An `if` statement: the condition, a jump past the branch taken when it is false, the branches.
pub open spec fn if_code(st: GenState, node: AstNode) -> GenOut
    decreases node, 3nat,
{
    match node {
        AstNode::IfStmt { condition, then_branch, else_branch, .. } => {
            let n = st.labels;
            let else_label = numbered(".L_else_"@, n);
            let end_label = numbered(".L_if_end_"@, n);
            let o = expr_code(GenState { labels: n + 1, ..st }, *condition);
            if o.err is Some {
                o
            } else {
                let s = emit(emit(o.st, InstructionOf::Cmp("$0"@, rax())), InstructionOf::Je(if else_branch is Some { else_label } else { end_label }));
                let o2 = stmts_code(s, then_branch@);
                if o2.err is Some {
                    o2
                } else {
                    match else_branch {
                        Some(eb) => {
                            let o3 = stmts_code(
                                emit(emit(o2.st, InstructionOf::Jmp(end_label)), InstructionOf::Label(else_label)),
                                eb@,
                            );
                            if o3.err is Some {
                                o3
                            } else {
                                ok(emit(o3.st, InstructionOf::Label(end_label)))
                            }
                        },
                        None => ok(emit(o2.st, InstructionOf::Label(end_label))),
                    }
                }
            }
        },
        _ => ok(st),
    }
}

/// A `while` loop: the condition at the top, the body, a jump back.
pub open spec fn while_code(st: GenState, node: AstNode) -> GenOut
    decreases node, 3nat,
{
    match node {
        AstNode::WhileStmt { condition, body, .. } => {
            let n = st.labels;
            let start = numbered(".L_while_start_"@, n);
            let end = numbered(".L_while_end_"@, n);
            let o = expr_code(emit(GenState { labels: n + 1, ..st }, InstructionOf::Label(start)), *condition);
            if o.err is Some {
                o
            } else {
                let o2 = stmts_code(
                    emit(emit(o.st, InstructionOf::Cmp("$0"@, rax())), InstructionOf::Je(end)),
                    body@,
                );
                if o2.err is Some {
                    o2
                } else {
                    ok(emit(emit(o2.st, InstructionOf::Jmp(start)), InstructionOf::Label(end)))
                }
            }
        },
        _ => ok(st),
    }
}

/// A `match`: the value saved to a stack slot, then each arm in order.
pub open spec fn match_code(st: GenState, node: AstNode) -> GenOut
    decreases node, 3nat,
{
    match node {
        AstNode::MatchStmt { value, arms, .. } => {
            let id = st.labels;
            let o = expr_code(GenState { labels: id + 1, ..st }, *value);
            if o.err is Some {
                o
            } else {
                let s = alloc_slot(o.st, numbered("__match_tmp_"@, id));
                let off = s.stack;
                let o2 = arms_code(emit(s, InstructionOf::Mov(rax(), slot(off))), arms@, arms@.len() as int, id, off);
                if o2.err is Some {
                    o2
                } else {
                    ok(emit(o2.st, InstructionOf::Label(numbered(".L_match_end_"@, id))))
                }
            }
        },
        _ => ok(st),
    }
}

/// A function: label, prologue, parameters, body and default return; the caller's function, variables and frame are restored.
pub open spec fn chant_code(st: GenState, node: AstNode) -> GenOut
    decreases node, 3nat,
{
    match node {
        AstNode::ChantDef { name, params, body, .. } => {
            let label = ".L_func_"@ + name@;
            let s1 = emit(emit(emit(GenState { func: Some(name@), entry: Some(label), ..st }, InstructionOf::Label(label)), InstructionOf::Push(rbp())), InstructionOf::Mov(rsp(), rbp()));
            let s2 = store_params(s1, params@.take(reg_args(params@.len() as int)));
            let o = stmts_code(s2, body@);
            if o.err is Some {
                o
            } else {
                let s3 = emit(emit(emit(emit(o.st, InstructionOf::Mov("$0"@, rax())), InstructionOf::Mov(rbp(), rsp())), InstructionOf::Pop(rbp())), InstructionOf::Ret);
                ok(GenState { func: st.func, entry: st.entry, vars: st.vars, stack: st.stack, ..s3 })
            }
        },
        _ => ok(st),
    }
}

/// A `yield`: a jump back to the entry for a call of the function being compiled, else a return of the value.
pub open spec fn yield_code(st: GenState, node: AstNode) -> GenOut
    decreases node, 3nat,
{
    match node {
        AstNode::YieldStmt { value, .. } => match self_call_args(st, *value) {
            Some(args) => {
                let o = args_code(st, args, reg_args(args.len() as int) as nat);
                if o.err is Some {
                    o
                } else {
                    ok(
                        match o.st.entry {
                            Some(l) => leave(o.st, InstructionOf::Jmp(l)),
                            None => o.st,
                        },
                    )
                }
            },
            None => {
                let o = expr_code(st, *value);
                if o.err is Some {
                    o
                } else {
                    ok(leave(o.st, InstructionOf::Ret))
                }
            },
        },
        _ => ok(st),
    }
}

/// An `attempt` block: the body, then the handlers.
pub open spec fn attempt_code(st: GenState, node: AstNode) -> GenOut
    decreases node, 3nat,
{
    match node {
        AstNode::AttemptStmt { body, handlers, .. } => {
            let id = st.labels;
            let end = numbered(".L_attempt_end_"@, id);
            let o = stmts_code(
                emit(GenState { labels: id + 1, ..st }, InstructionOf::Comment(numbered("Attempt block "@, id))),
                body@,
            );
            if o.err is Some {
                o
            } else {
                let s = emit(emit(emit(o.st, InstructionOf::Jmp(end)), InstructionOf::Label(numbered(".L_attempt_handler_"@, id))), InstructionOf::Comment("Exception handlers"@));
                let o2 = handlers_code(s, handlers@, handlers@.len() as int, id);
                if o2.err is Some {
                    o2
                } else {
                    ok(emit(emit(o2.st, InstructionOf::Label(end)), InstructionOf::Comment("End of attempt block"@)))
                }
            }
        },
        _ => ok(st),
    }
}

/// Code for one statement.
pub open spec fn stmt_code(st: GenState, node: AstNode) -> GenOut
    decreases node, 4nat,
{
    match node {
        AstNode::BindStmt { name, value, .. } => {
            let o = expr_code(st, *value);
            if o.err is Some {
                o
            } else {
                let s = alloc_slot(o.st, name@);
                ok(emit(s, InstructionOf::Mov(rax(), slot(s.stack))))
            }
        },
        AstNode::WeaveStmt { name, value, .. } => {
            let o = expr_code(st, *value);
            if o.err is Some {
                o
            } else {
                let s = alloc_slot(o.st, name@);
                ok(emit(s, InstructionOf::Mov(rax(), slot(s.stack))))
            }
        },
        AstNode::SetStmt { target, value, .. } => match *target {
            AstNode::Ident { name, .. } => {
                let o = expr_code(st, *value);
                if o.err is Some {
                    o
                } else {
                    match find_var(o.st.vars, name@) {
                        None => fail(o.st, "Undefined variable: "@ + name@),
                        Some(off) => ok(emit(o.st, InstructionOf::Mov(rax(), slot(off)))),
                    }
                }
            },
            _ => fail(
                st,
                "Index and field assignment not supported in native codegen (requires heap allocation runtime). Use interpreter or bytecode VM instead."@,
            ),
        },
        AstNode::IfStmt { .. } => if_code(st, node),
        AstNode::WhileStmt { .. } => while_code(st, node),
        AstNode::MatchStmt { .. } => match_code(st, node),
        AstNode::ChantDef { .. } => chant_code(st, node),
        AstNode::FormDef { name, fields, .. } => {
            let s = emit(st, InstructionOf::Comment("Struct definition: "@ + name@));
            ok(GenState { structs: s.structs.push((name@, field_names(fields@))), ..s })
        },
        AstNode::YieldStmt { .. } => yield_code(st, node),
        AstNode::AttemptStmt { .. } => attempt_code(st, node),
        AstNode::ModuleDecl { name, .. } => fail(
            st,
            "Module declarations not supported in native codegen (multi-file compilation required). Module: "@
                + name@ + ". Use interpreter or bytecode VM instead."@,
        ),
        AstNode::Import { module_name, path, .. } => fail(
            st,
            "Module imports not supported in native codegen (runtime module resolution required). Attempted to import "@
                + module_name@ + " from "@ + path@ + ". Use interpreter or bytecode VM instead."@,
        ),
        AstNode::Export { items, .. } => fail(st, export_message(strs_text(items@))),
        AstNode::RequestStmt { .. } => fail(
            st,
            "Capability requests are not supported in native codegen. Use interpreter or bytecode VM instead. (Requires runtime object creation which is not yet implemented)"@,
        ),
        AstNode::ExprStmt { expr, .. } => expr_code(st, *expr),
        _ => expr_code(st, node),
    }
}

/// The state of a new generator.
pub open spec fn empty_state() -> GenState {
    GenState {
        code: Seq::empty(),
        labels: 0,
        stack: 0,
        vars: Seq::empty(),
        func: None,
        entry: None,
        structs: Seq::empty(),
        literals: Seq::empty(),
    }
}

/// A whole program: `main`'s prologue, the statements, then the epilogue.
pub open spec fn program_code(st: GenState, nodes: Seq<AstNode>) -> GenOut {
    let s = emit(emit(emit(st, InstructionOf::Label("main"@)), InstructionOf::Push(rbp())), InstructionOf::Mov(rsp(), rbp()));
    let o = stmts_code(s, nodes);
    if o.err is Some {
        o
    } else {
        ok(leave(o.st, InstructionOf::Ret))
    }
}

/// A bound on what generating code for `node` uses: at most this many
/// labels, and at most 64 bytes of stack frame per unit.
pub open spec fn node_size(node: AstNode) -> nat
    decreases node, 1nat,
{
    match node {
        AstNode::BindStmt { value, .. } => 1 + node_size(*value),
        AstNode::WeaveStmt { value, .. } => 1 + node_size(*value),
        AstNode::SetStmt { value, .. } => 1 + node_size(*value),
        AstNode::IfStmt { condition, then_branch, else_branch, .. } => 1 + node_size(*condition) + nodes_size(
            then_branch@,
        ) + match else_branch {
            Some(eb) => nodes_size(eb@),
            None => 0,
        },
        AstNode::WhileStmt { condition, body, .. } => 1 + node_size(*condition) + nodes_size(body@),
        AstNode::MatchStmt { value, arms, .. } => 1 + node_size(*value) + arms_size(arms@),
        AstNode::ChantDef { body, .. } => 1 + nodes_size(body@),
        AstNode::FormDef { fields, .. } => 1 + fields@.len(),
        AstNode::YieldStmt { value, .. } => 1 + node_size(*value),
        AstNode::AttemptStmt { body, handlers, .. } => 1 + nodes_size(body@) + handlers_size(handlers@),
        AstNode::ExprStmt { expr, .. } => 1 + node_size(*expr),
        AstNode::BinaryOp { left, right, .. } => 1 + node_size(*left) + node_size(*right),
        AstNode::UnaryOp { operand, .. } => 1 + node_size(*operand),
        AstNode::Call { callee, args, .. } => 1 + node_size(*callee) + nodes_size(args@),
        AstNode::Triumph { value, .. } => 1 + node_size(*value),
        AstNode::Mishap { value, .. } => 1 + node_size(*value),
        AstNode::Present { value, .. } => 1 + node_size(*value),
        AstNode::StructLiteral { fields, .. } => 1 + fields_size(fields@),
        AstNode::FieldAccess { object, .. } => 1 + node_size(*object),
        _ => 1,
    }
}

/// Size bound of a list of nodes.
pub open spec fn nodes_size(nodes: Seq<AstNode>) -> nat
    decreases nodes, 0nat,
{
    if nodes.len() == 0 {
        0
    } else {
        nodes_size(nodes.drop_last()) + node_size(nodes.last())
    }
}

/// Size bound of match arms.
pub open spec fn arms_size(arms: Seq<MatchArm>) -> nat
    decreases arms, 0nat,
{
    if arms.len() == 0 {
        0
    } else {
        arms_size(arms.drop_last()) + 1 + match arms.last().pattern {
            Pattern::Literal(lit) => node_size(lit),
            _ => 0,
        } + nodes_size(arms.last().body@)
    }
}

/// Size bound of one match arm.
pub open spec fn arm_size(arm: MatchArm) -> nat {
    1 + match arm.pattern {
        Pattern::Literal(lit) => node_size(lit),
        _ => 0,
    } + nodes_size(arm.body@)
}

/// Size bound of error handlers.
pub open spec fn handlers_size(hs: Seq<ErrorHandler>) -> nat
    decreases hs, 0nat,
{
    if hs.len() == 0 {
        0
    } else {
        handlers_size(hs.drop_last()) + 1 + nodes_size(hs.last().body@)
    }
}

/// Size bound of struct literal fields.
pub open spec fn fields_size(fs: Seq<(String, AstNode)>) -> nat
    decreases fs, 0nat,
{
    if fs.len() == 0 {
        0
    } else {
        fields_size(fs.drop_last()) + 1 + node_size(fs.last().1)
    }
}

/// Size bound of a program.
pub open spec fn program_size(nodes: Seq<AstNode>) -> nat {
    nodes_size(nodes)
}

/// The digits at the start of `s` end where the first non-digit is.
#[verifier::spinoff_prover]
pub proof fn lemma_leading_digits(s: Seq<char>, i: int)
    requires
        0 <= i <= s.len(),
        forall|j: int| 0 <= j < i ==> '0' <= #[trigger] s[j] <= '9',
        i < s.len() ==> !('0' <= s[i] <= '9'),
    ensures
        leading_digits(s) == i,
    decreases i,
{
    if i > 0 {
        let d = s.drop_first();
        assert forall|j: int| 0 <= j < i - 1 implies '0' <= #[trigger] d[j] <= '9' by {
            assert(d[j] == s[j + 1]);
        }
        lemma_leading_digits(d, i - 1);
    }
}

/// `index_of` finds the first occurrence.
#[verifier::spinoff_prover]
pub proof fn lemma_index_of_first(names: Seq<Seq<char>>, name: Seq<char>, i: int)
    requires
        0 <= i <= names.len(),
        forall|j: int| 0 <= j < i ==> #[trigger] names[j] != name,
        i < names.len() ==> names[i] == name,
    ensures
        index_of(names, name) == (if i < names.len() { Some(i as nat) } else { None::<nat> }),
    decreases i,
{
    if i > 0 {
        let d = names.drop_first();
        assert forall|j: int| 0 <= j < i - 1 implies #[trigger] d[j] != name by {
            assert(d[j] == names[j + 1]);
        }
        lemma_index_of_first(d, name, i - 1);
    }
}

/// `find_struct` finds the first struct of that name.
#[verifier::spinoff_prover]
pub proof fn lemma_find_struct_first(structs: Seq<(Seq<char>, Seq<Seq<char>>)>, name: Seq<char>, i: int)
    requires
        0 <= i <= structs.len(),
        forall|j: int| 0 <= j < i ==> #[trigger] structs[j].0 != name,
        i < structs.len() ==> structs[i].0 == name,
    ensures
        find_struct(structs, name) == (if i < structs.len() { Some(structs[i].1) } else { None }),
    decreases i,
{
    if i > 0 {
        let d = structs.drop_first();
        assert forall|j: int| 0 <= j < i - 1 implies #[trigger] d[j].0 != name by {
            assert(d[j] == structs[j + 1]);
        }
        lemma_find_struct_first(d, name, i - 1);
    }
}

/// `field_owner` finds the first struct with that field.
#[verifier::spinoff_prover]
pub proof fn lemma_field_owner_first(structs: Seq<(Seq<char>, Seq<Seq<char>>)>, field: Seq<char>, i: int)
    requires
        0 <= i <= structs.len(),
        forall|j: int| 0 <= j < i ==> #[trigger] index_of(structs[j].1, field) is None,
        i < structs.len() ==> index_of(structs[i].1, field) is Some,
    ensures
        field_owner(structs, field) == (if i < structs.len() {
            Some((structs[i].0, index_of(structs[i].1, field)->Some_0))
        } else {
            None
        }),
    decreases i,
{
    if i > 0 {
        let d = structs.drop_first();
        assert(index_of(structs[0].1, field) is None);
        assert forall|j: int| 0 <= j < i - 1 implies #[trigger] index_of(d[j].1, field) is None by {
            assert(d[j] == structs[j + 1]);
        }
        lemma_field_owner_first(d, field, i - 1);
    }
}

/// The size bound of a list's prefix grows by each item's bound and stays
/// within the whole list's.
#[verifier::spinoff_prover]
pub proof fn lemma_nodes_size_prefix(nodes: Seq<AstNode>, i: int)
    requires
        0 <= i <= nodes.len(),
    ensures
        nodes_size(nodes.take(i)) <= nodes_size(nodes),
        i < nodes.len() ==> nodes_size(nodes.take(i + 1)) == nodes_size(nodes.take(i)) + node_size(nodes[i]),
    decreases nodes.len(),
{
    if i < nodes.len() {
        assert(nodes.take(i + 1).drop_last() =~= nodes.take(i));
        lemma_nodes_size_prefix(nodes.drop_last(), i);
        assert(nodes.drop_last().take(i) =~= nodes.take(i));
    } else {
        assert(nodes.take(i) =~= nodes);
    }
}

#[verifier::spinoff_prover]
pub proof fn lemma_arms_size_prefix(arms: Seq<MatchArm>, i: int)
    requires
        0 <= i <= arms.len(),
    ensures
        arms_size(arms.take(i)) <= arms_size(arms),
        i < arms.len() ==> arms_size(arms.take(i + 1)) == arms_size(arms.take(i)) + arm_size(arms[i]),
    decreases arms.len(),
{
    if i < arms.len() {
        assert(arms.take(i + 1).drop_last() =~= arms.take(i));
        lemma_arms_size_prefix(arms.drop_last(), i);
        assert(arms.drop_last().take(i) =~= arms.take(i));
    } else {
        assert(arms.take(i) =~= arms);
    }
}

#[verifier::spinoff_prover]
pub proof fn lemma_handlers_size_prefix(hs: Seq<ErrorHandler>, i: int)
    requires
        0 <= i <= hs.len(),
    ensures
        handlers_size(hs.take(i)) <= handlers_size(hs),
        i < hs.len() ==> handlers_size(hs.take(i + 1)) == handlers_size(hs.take(i)) + 1 + nodes_size(hs[i].body@),
    decreases hs.len(),
{
    if i < hs.len() {
        assert(hs.take(i + 1).drop_last() =~= hs.take(i));
        lemma_handlers_size_prefix(hs.drop_last(), i);
        assert(hs.drop_last().take(i) =~= hs.take(i));
    } else {
        assert(hs.take(i) =~= hs);
    }
}

#[verifier::spinoff_prover]
pub proof fn lemma_fields_size_prefix(fs: Seq<(String, AstNode)>, i: int)
    requires
        0 <= i <= fs.len(),
    ensures
        fields_size(fs.take(i)) <= fields_size(fs),
        i < fs.len() ==> fields_size(fs.take(i + 1)) == fields_size(fs.take(i)) + 1 + node_size(fs[i].1),
    decreases fs.len(),
{
    if i < fs.len() {
        assert(fs.take(i + 1).drop_last() =~= fs.take(i));
        lemma_fields_size_prefix(fs.drop_last(), i);
        assert(fs.drop_last().take(i) =~= fs.take(i));
    } else {
        assert(fs.take(i) =~= fs);
    }
}

/// Once a prefix of a statement list fails, the whole list fails the same way.
#[verifier::spinoff_prover]
pub proof fn lemma_stmts_stop(st: GenState, nodes: Seq<AstNode>, k: int)
    requires
        0 <= k <= nodes.len(),
        stmts_code(st, nodes.take(k)).err is Some,
    ensures
        stmts_code(st, nodes) == stmts_code(st, nodes.take(k)),
    decreases nodes.len(),
{
    if k < nodes.len() {
        assert(nodes.drop_last().take(k) =~= nodes.take(k));
        lemma_stmts_stop(st, nodes.drop_last(), k);
    } else {
        assert(nodes.take(k) =~= nodes);
    }
}

/// Once some arguments fail, evaluating more of them fails the same way.
#[verifier::spinoff_prover]
pub proof fn lemma_args_stop(st: GenState, args: Seq<AstNode>, k: nat, m: nat)
    requires
        k <= m <= args.len(),
        args_code(st, args, k).err is Some,
    ensures
        args_code(st, args, m) == args_code(st, args, k),
    decreases m,
{
    if k < m {
        lemma_args_stop(st, args, k, (m - 1) as nat);
    }
}

#[verifier::spinoff_prover]
pub proof fn lemma_fields_stop(st: GenState, fs: Seq<(String, AstNode)>, sf: Seq<Seq<char>>, sn: Seq<char>, k: int)
    requires
        0 <= k <= fs.len(),
        fields_code(st, fs.take(k), sf, sn).err is Some,
    ensures
        fields_code(st, fs, sf, sn) == fields_code(st, fs.take(k), sf, sn),
    decreases fs.len(),
{
    if k < fs.len() {
        assert(fs.drop_last().take(k) =~= fs.take(k));
        lemma_fields_stop(st, fs.drop_last(), sf, sn, k);
    } else {
        assert(fs.take(k) =~= fs);
    }
}

#[verifier::spinoff_prover]
pub proof fn lemma_arms_stop(st: GenState, arms: Seq<MatchArm>, n: int, id: int, off: int, k: int)
    requires
        0 <= k <= arms.len(),
        arms_code(st, arms.take(k), n, id, off).err is Some,
    ensures
        arms_code(st, arms, n, id, off) == arms_code(st, arms.take(k), n, id, off),
    decreases arms.len(),
{
    if k < arms.len() {
        assert(arms.drop_last().take(k) =~= arms.take(k));
        lemma_arms_stop(st, arms.drop_last(), n, id, off, k);
    } else {
        assert(arms.take(k) =~= arms);
    }
}

#[verifier::spinoff_prover]
pub proof fn lemma_handlers_stop(st: GenState, hs: Seq<ErrorHandler>, n: int, id: int, k: int)
    requires
        0 <= k <= hs.len(),
        handlers_code(st, hs.take(k), n, id).err is Some,
    ensures
        handlers_code(st, hs, n, id) == handlers_code(st, hs.take(k), n, id),
    decreases hs.len(),
{
    if k < hs.len() {
        assert(hs.drop_last().take(k) =~= hs.take(k));
        lemma_handlers_stop(st, hs.drop_last(), n, id, k);
    } else {
        assert(hs.take(k) =~= hs);
    }
}


/// Whether a syntax tree holds no text literal anywhere.
pub open spec fn no_text(n: AstNode) -> bool
    decreases n, 1nat,
{
    match n {
        AstNode::Text { .. } => false,
        AstNode::BindStmt { value, .. } => no_text(*value),
        AstNode::WeaveStmt { value, .. } => no_text(*value),
        AstNode::SetStmt { target, value, .. } => no_text(*target) && no_text(*value),
        AstNode::IfStmt { condition, then_branch, else_branch, .. } => no_text(*condition) && all_no_text(
            then_branch@,
        ) && match else_branch {
            Some(b) => all_no_text(b@),
            None => true,
        },
        AstNode::ForStmt { iterable, body, .. } => no_text(*iterable) && all_no_text(body@),
        AstNode::WhileStmt { condition, body, .. } => no_text(*condition) && all_no_text(body@),
        AstNode::ChantDef { body, .. } => all_no_text(body@),
        AstNode::EmbodyStmt { methods, .. } => all_no_text(methods@),
        AstNode::YieldStmt { value, .. } => no_text(*value),
        AstNode::MatchStmt { value, arms, .. } => no_text(*value) && arms_no_text(arms@),
        AstNode::AttemptStmt { body, handlers, .. } => all_no_text(body@) && handlers_no_text(handlers@),
        AstNode::RequestStmt { capability, .. } => no_text(*capability),
        AstNode::ModuleDecl { body, .. } => all_no_text(body@),
        AstNode::Triumph { value, .. } => no_text(*value),
        AstNode::Mishap { value, .. } => no_text(*value),
        AstNode::Present { value, .. } => no_text(*value),
        AstNode::List { elements, .. } => all_no_text(elements@),
        AstNode::MapLiteral { entries, .. } => pairs_no_text(entries@),
        AstNode::StructLiteral { fields, .. } => pairs_no_text(fields@),
        AstNode::BinaryOp { left, right, .. } => no_text(*left) && no_text(*right),
        AstNode::UnaryOp { operand, .. } => no_text(*operand),
        AstNode::BorrowExpr { value, .. } => no_text(*value),
        AstNode::Call { callee, args, .. } => no_text(*callee) && all_no_text(args@),
        AstNode::FieldAccess { object, .. } => no_text(*object),
        AstNode::IndexAccess { object, index, .. } => no_text(*object) && no_text(*index),
        AstNode::Range { start, end, .. } => no_text(*start) && no_text(*end),
        AstNode::Pipeline { stages, .. } => all_no_text(stages@),
        AstNode::SeekExpr { conditions, .. } => conditions_no_text(conditions@),
        AstNode::ExprStmt { expr, .. } => no_text(*expr),
        AstNode::Block { statements, .. } => all_no_text(statements@),
        AstNode::Try { expr, .. } => no_text(*expr),
        _ => true,
    }
}

/// Whether no node of a list holds a text literal.
pub open spec fn all_no_text(ns: Seq<AstNode>) -> bool
    decreases ns, 0nat,
{
    if ns.len() == 0 {
        true
    } else {
        all_no_text(ns.drop_last()) && no_text(ns.last())
    }
}

/// Whether no named node of a list holds a text literal.
pub open spec fn pairs_no_text(ps: Seq<(String, AstNode)>) -> bool
    decreases ps, 0nat,
{
    if ps.len() == 0 {
        true
    } else {
        pairs_no_text(ps.drop_last()) && no_text(ps.last().1)
    }
}

/// Whether no query condition holds a text literal.
pub open spec fn conditions_no_text(cs: Seq<crate::ast::QueryCondition>) -> bool
    decreases cs, 0nat,
{
    if cs.len() == 0 {
        true
    } else {
        conditions_no_text(cs.drop_last()) && no_text(*cs.last().value)
    }
}

/// Whether a pattern holds no text literal.
pub open spec fn pattern_no_text(p: Pattern) -> bool
    decreases p, 1nat,
{
    match p {
        Pattern::Literal(n) => no_text(n),
        Pattern::Enum { inner: Some(i), .. } => pattern_no_text(*i),
        _ => true,
    }
}

/// Whether no match arm holds a text literal, in its pattern or its body.
pub open spec fn arms_no_text(arms: Seq<MatchArm>) -> bool
    decreases arms, 0nat,
{
    if arms.len() == 0 {
        true
    } else {
        arms_no_text(arms.drop_last()) && pattern_no_text(arms.last().pattern) && all_no_text(arms.last().body@)
    }
}

/// Whether no error handler's body holds a text literal.
pub open spec fn handlers_no_text(hs: Seq<ErrorHandler>) -> bool
    decreases hs, 0nat,
{
    if hs.len() == 0 {
        true
    } else {
        handlers_no_text(hs.drop_last()) && all_no_text(hs.last().body@)
    }
}

proof fn lemma_all_no_text_index(ns: Seq<AstNode>, i: int)
    requires
        all_no_text(ns),
        0 <= i < ns.len(),
    ensures
        no_text(ns[i]),
    decreases ns.len(),
{
    if i < ns.len() - 1 {
        lemma_all_no_text_index(ns.drop_last(), i);
    }
}

proof fn lemma_store_params_literals(st: GenState, params: Seq<Parameter>)
    ensures
        store_params(st, params).literals == st.literals,
    decreases params.len(),
{
    if params.len() > 0 {
        lemma_store_params_literals(st, params.drop_last());
    }
}

/// An expression without text literals collects none.
proof fn lemma_expr_literals(st: GenState, node: AstNode)
    requires
        no_text(node),
    ensures
        expr_code(st, node).st.literals == st.literals,
    decreases node, 2nat,
{
    match node {
        AstNode::BinaryOp { left, right, .. } => {
            lemma_expr_literals(st, *left);
            lemma_expr_literals(emit(expr_code(st, *left).st, InstructionOf::Push(rax())), *right);
        },
        AstNode::UnaryOp { operand, .. } => lemma_expr_literals(st, *operand),
        AstNode::Call { args, .. } => lemma_args_literals(st, args@, reg_args(args@.len() as int) as nat),
        AstNode::Triumph { value, .. } => lemma_expr_literals(
            emit(st, InstructionOf::Comment("Create Triumph variant"@)),
            *value,
        ),
        AstNode::Mishap { value, .. } => lemma_expr_literals(
            emit(st, InstructionOf::Comment("Create Mishap variant"@)),
            *value,
        ),
        AstNode::Present { value, .. } => lemma_expr_literals(
            emit(st, InstructionOf::Comment("Create Present variant"@)),
            *value,
        ),
        AstNode::StructLiteral { struct_name, fields, .. } => {
            let s0 = emit(st, InstructionOf::Comment("Struct literal: "@ + struct_name@));
            match find_struct(s0.structs, struct_name@) {
                None => {},
                Some(sf) => {
                    let s1 = emit(emit_all(s0, struct_alloc_code(sf.len())), InstructionOf::Mov("%rax"@, "%rbx"@));
                    lemma_fields_literals(s1, fields@, sf, struct_name@);
                },
            }
        },
        AstNode::FieldAccess { object, field, .. } => lemma_expr_literals(
            emit(st, InstructionOf::Comment("Field access: ."@ + field@)),
            *object,
        ),
        _ => {},
    }
}

/// Call arguments without text literals collect none.
proof fn lemma_args_literals(st: GenState, args: Seq<AstNode>, k: nat)
    requires
        all_no_text(args),
    ensures
        args_code(st, args, k).st.literals == st.literals,
    decreases args, k,
{
    if !(k == 0 || k > args.len()) {
        lemma_args_literals(st, args, (k - 1) as nat);
        lemma_all_no_text_index(args, k - 1);
        lemma_expr_literals(args_code(st, args, (k - 1) as nat).st, args[k - 1]);
    }
}

/// Struct literal fields without text literals collect none.
proof fn lemma_fields_literals(st: GenState, fields: Seq<(String, AstNode)>, sf: Seq<Seq<char>>, sn: Seq<char>)
    requires
        pairs_no_text(fields),
    ensures
        fields_code(st, fields, sf, sn).st.literals == st.literals,
    decreases fields, 0nat,
{
    if fields.len() > 0 {
        lemma_fields_literals(st, fields.drop_last(), sf, sn);
        lemma_expr_literals(fields_code(st, fields.drop_last(), sf, sn).st, fields.last().1);
    }
}

/// Statements without text literals collect none.
proof fn lemma_stmts_literals(st: GenState, nodes: Seq<AstNode>)
    requires
        all_no_text(nodes),
    ensures
        stmts_code(st, nodes).st.literals == st.literals,
    decreases nodes, 0nat,
{
    if nodes.len() > 0 {
        lemma_stmts_literals(st, nodes.drop_last());
        lemma_stmt_literals(stmts_code(st, nodes.drop_last()).st, nodes.last());
    }
}

proof fn lemma_arm_end_literals(st: GenState, body: Seq<AstNode>, idx: int, n: int, id: int)
    requires
        all_no_text(body),
    ensures
        arm_end_code(st, body, idx, n, id).st.literals == st.literals,
    decreases body, 1nat,
{
    lemma_stmts_literals(st, body);
}

proof fn lemma_enum_arm_literals(st: GenState, arm: MatchArm, idx: int, n: int, id: int, off: int)
    requires
        all_no_text(arm.body@),
    ensures
        enum_arm_code(st, arm, idx, n, id, off).st.literals == st.literals,
    decreases arm, 1nat,
{
    let next = next_arm_label(id, idx);
    match arm.pattern {
        Pattern::Enum { variant, inner } => {
            let s1 = emit(emit(emit(st, InstructionOf::Comment("Match "@ + variant@ + " variant"@)), InstructionOf::Mov(slot(off), rax())), InstructionOf::Mov("8(%rax)"@, rbx()));
            match variant_tag(variant@) {
                None => {},
                Some(tag) => {
                    let s2 = emit(s1, InstructionOf::Cmp(imm(tag), rbx()));
                    let s3 = if idx < n - 1 { emit(s2, InstructionOf::Jne(next)) } else { s2 };
                    match inner {
                        None => lemma_arm_end_literals(s3, arm.body@, idx, n, id),
                        Some(p) => match *p {
                            Pattern::Ident(v) => {
                                let s4 = alloc_slot(
                                    emit(emit(s3, InstructionOf::Mov(slot(off), rax())), InstructionOf::Mov("0(%rax)"@, rbx())),
                                    v@,
                                );
                                lemma_arm_end_literals(emit(s4, InstructionOf::Mov(rbx(), slot(s4.stack))), arm.body@, idx, n, id);
                            },
                            Pattern::Wildcard => lemma_arm_end_literals(s3, arm.body@, idx, n, id),
                            _ => {},
                        },
                    }
                },
            }
        },
        _ => {},
    }
}

proof fn lemma_arm_literals(st: GenState, arm: MatchArm, idx: int, n: int, id: int, off: int)
    requires
        pattern_no_text(arm.pattern),
        all_no_text(arm.body@),
    ensures
        arm_code(st, arm, idx, n, id, off).st.literals == st.literals,
    decreases arm, 2nat,
{
    let next = next_arm_label(id, idx);
    match arm.pattern {
        Pattern::Literal(lit) => {
            lemma_expr_literals(st, lit);
            let o = expr_code(st, lit);
            let s = emit(emit(emit(o.st, InstructionOf::Mov(rax(), rbx())), InstructionOf::Mov(slot(off), rax())), InstructionOf::Cmp(rbx(), rax()));
            let s2 = if idx < n - 1 { emit(s, InstructionOf::Jne(next)) } else { s };
            lemma_arm_end_literals(s2, arm.body@, idx, n, id);
        },
        Pattern::Ident(v) => {
            let s1 = alloc_slot(emit(st, InstructionOf::Mov(slot(off), rax())), v@);
            lemma_arm_end_literals(emit(s1, InstructionOf::Mov(rax(), slot(s1.stack))), arm.body@, idx, n, id);
        },
        Pattern::Wildcard => lemma_arm_end_literals(st, arm.body@, idx, n, id),
        Pattern::Enum { .. } => lemma_enum_arm_literals(st, arm, idx, n, id, off),
    }
}

proof fn lemma_arms_literals(st: GenState, arms: Seq<MatchArm>, n: int, id: int, off: int)
    requires
        arms_no_text(arms),
    ensures
        arms_code(st, arms, n, id, off).st.literals == st.literals,
    decreases arms, 3nat,
{
    if arms.len() > 0 {
        lemma_arms_literals(st, arms.drop_last(), n, id, off);
        lemma_arm_literals(arms_code(st, arms.drop_last(), n, id, off).st, arms.last(), arms.len() - 1, n, id, off);
    }
}

proof fn lemma_handler_literals(st: GenState, h: ErrorHandler, i: int, n: int, id: int)
    requires
        all_no_text(h.body@),
    ensures
        handler_code(st, h, i, n, id).st.literals == st.literals,
    decreases h, 2nat,
{
    if h.error_type@ == "_"@ {
        lemma_stmts_literals(emit(st, InstructionOf::Comment("Wildcard handler"@)), h.body@);
    } else {
        lemma_stmts_literals(emit(st, InstructionOf::Comment("Handler for "@ + h.error_type@)), h.body@);
    }
}

proof fn lemma_handlers_literals(st: GenState, hs: Seq<ErrorHandler>, n: int, id: int)
    requires
        handlers_no_text(hs),
    ensures
        handlers_code(st, hs, n, id).st.literals == st.literals,
    decreases hs, 3nat,
{
    if hs.len() > 0 {
        lemma_handlers_literals(st, hs.drop_last(), n, id);
        lemma_handler_literals(handlers_code(st, hs.drop_last(), n, id).st, hs.last(), hs.len() - 1, n, id);
    }
}

proof fn lemma_if_literals(st: GenState, node: AstNode)
    requires
        no_text(node),
    ensures
        if_code(st, node).st.literals == st.literals,
    decreases node, 3nat,
{
    match node {
        AstNode::IfStmt { condition, then_branch, else_branch, .. } => {
            let n = st.labels;
            let else_label = numbered(".L_else_"@, n);
            let end_label = numbered(".L_if_end_"@, n);
            let s0 = GenState { labels: n + 1, ..st };
            lemma_expr_literals(s0, *condition);
            let o = expr_code(s0, *condition);
            let s = emit(emit(o.st, InstructionOf::Cmp("$0"@, rax())), InstructionOf::Je(if else_branch is Some { else_label } else { end_label }));
            lemma_stmts_literals(s, then_branch@);
            let o2 = stmts_code(s, then_branch@);
            match else_branch {
                Some(eb) => lemma_stmts_literals(
                    emit(emit(o2.st, InstructionOf::Jmp(end_label)), InstructionOf::Label(else_label)),
                    eb@,
                ),
                None => {},
            }
        },
        _ => {},
    }
}

proof fn lemma_while_literals(st: GenState, node: AstNode)
    requires
        no_text(node),
    ensures
        while_code(st, node).st.literals == st.literals,
    decreases node, 3nat,
{
    match node {
        AstNode::WhileStmt { condition, body, .. } => {
            let n = st.labels;
            let start = numbered(".L_while_start_"@, n);
            let end = numbered(".L_while_end_"@, n);
            let s0 = emit(GenState { labels: n + 1, ..st }, InstructionOf::Label(start));
            lemma_expr_literals(s0, *condition);
            let o = expr_code(s0, *condition);
            lemma_stmts_literals(emit(emit(o.st, InstructionOf::Cmp("$0"@, rax())), InstructionOf::Je(end)), body@);
        },
        _ => {},
    }
}

proof fn lemma_match_literals(st: GenState, node: AstNode)
    requires
        no_text(node),
    ensures
        match_code(st, node).st.literals == st.literals,
    decreases node, 3nat,
{
    match node {
        AstNode::MatchStmt { value, arms, .. } => {
            let id = st.labels;
            let s0 = GenState { labels: id + 1, ..st };
            lemma_expr_literals(s0, *value);
            let o = expr_code(s0, *value);
            let s = alloc_slot(o.st, numbered("__match_tmp_"@, id));
            let off = s.stack;
            lemma_arms_literals(emit(s, InstructionOf::Mov(rax(), slot(off))), arms@, arms@.len() as int, id, off);
        },
        _ => {},
    }
}

proof fn lemma_chant_literals(st: GenState, node: AstNode)
    requires
        no_text(node),
    ensures
        chant_code(st, node).st.literals == st.literals,
    decreases node, 3nat,
{
    match node {
        AstNode::ChantDef { name, params, body, .. } => {
            let label = ".L_func_"@ + name@;
            let s1 = emit(emit(emit(GenState { func: Some(name@), entry: Some(label), ..st }, InstructionOf::Label(label)), InstructionOf::Push(rbp())), InstructionOf::Mov(rsp(), rbp()));
            let s2 = store_params(s1, params@.take(reg_args(params@.len() as int)));
            lemma_store_params_literals(s1, params@.take(reg_args(params@.len() as int)));
            lemma_stmts_literals(s2, body@);
        },
        _ => {},
    }
}

proof fn lemma_yield_literals(st: GenState, node: AstNode)
    requires
        no_text(node),
    ensures
        yield_code(st, node).st.literals == st.literals,
    decreases node, 3nat,
{
    match node {
        AstNode::YieldStmt { value, .. } => match self_call_args(st, *value) {
            Some(args) => {
                match *value {
                    AstNode::Call { callee: c, type_args: t, args: a, span: sp } => {
                        assert(no_text(*value));
                        assert(no_text(AstNode::Call { callee: c, type_args: t, args: a, span: sp }));
                        assert(all_no_text(a@));
                        assert(args == a@);
                        lemma_args_literals(st, args, reg_args(args.len() as int) as nat);
                    },
                    _ => {},
                }
            },
            None => lemma_expr_literals(st, *value),
        },
        _ => {},
    }
}

proof fn lemma_attempt_literals(st: GenState, node: AstNode)
    requires
        no_text(node),
    ensures
        attempt_code(st, node).st.literals == st.literals,
    decreases node, 3nat,
{
    match node {
        AstNode::AttemptStmt { body, handlers, .. } => {
            let id = st.labels;
            let end = numbered(".L_attempt_end_"@, id);
            let s0 = emit(GenState { labels: id + 1, ..st }, InstructionOf::Comment(numbered("Attempt block "@, id)));
            lemma_stmts_literals(s0, body@);
            let o = stmts_code(s0, body@);
            let s = emit(emit(emit(o.st, InstructionOf::Jmp(end)), InstructionOf::Label(numbered(".L_attempt_handler_"@, id))), InstructionOf::Comment("Exception handlers"@));
            lemma_handlers_literals(s, handlers@, handlers@.len() as int, id);
        },
        _ => {},
    }
}

/// A statement without text literals collects none.
proof fn lemma_stmt_literals(st: GenState, node: AstNode)
    requires
        no_text(node),
    ensures
        stmt_code(st, node).st.literals == st.literals,
    decreases node, 4nat,
{
    match node {
        AstNode::BindStmt { value, .. } => lemma_expr_literals(st, *value),
        AstNode::WeaveStmt { value, .. } => lemma_expr_literals(st, *value),
        AstNode::SetStmt { value, .. } => lemma_expr_literals(st, *value),
        AstNode::IfStmt { .. } => lemma_if_literals(st, node),
        AstNode::WhileStmt { .. } => lemma_while_literals(st, node),
        AstNode::MatchStmt { .. } => lemma_match_literals(st, node),
        AstNode::ChantDef { .. } => lemma_chant_literals(st, node),
        AstNode::YieldStmt { .. } => lemma_yield_literals(st, node),
        AstNode::AttemptStmt { .. } => lemma_attempt_literals(st, node),
        AstNode::ExprStmt { expr, .. } => lemma_expr_literals(st, *expr),
        _ => lemma_expr_literals(st, node),
    }
}

/// A program without text literals collects none: generation leaves the
/// literal list as it was (empty for a new generator).
pub proof fn program_without_text_law(st: GenState, nodes: Seq<AstNode>)
    requires
        all_no_text(nodes),
    ensures
        program_code(st, nodes).st.literals == st.literals,
{
    let s = emit(emit(emit(st, InstructionOf::Label("main"@)), InstructionOf::Push(rbp())), InstructionOf::Mov(rsp(), rbp()));
    lemma_stmts_literals(s, nodes);
}

/// What an x86-64 `setCC %al` leaves in %al after `cmpq %rbx, %rax`, with
/// the signed values `a` in %rax and `b` in %rbx: whether its condition
/// holds (`sete` a = b, `setne` a != b, `setg` a > b, `setl` a < b,
/// `setge` a >= b, `setle` a <= b). `None` for any other instruction.
pub open spec fn set_after_compare(set: InstructionView, a: int, b: int) -> Option<bool> {
    match set {
        InstructionOf::Sete(r) => if r == "%al"@ { Some(a == b) } else { None },
        InstructionOf::Setne(r) => if r == "%al"@ { Some(a != b) } else { None },
        InstructionOf::Setg(r) => if r == "%al"@ { Some(a > b) } else { None },
        InstructionOf::Setl(r) => if r == "%al"@ { Some(a < b) } else { None },
        InstructionOf::Setge(r) => if r == "%al"@ { Some(a >= b) } else { None },
        InstructionOf::Setle(r) => if r == "%al"@ { Some(a <= b) } else { None },
        _ => None,
    }
}

/// The code of a comparison, with the left operand's value `a` in %rax and
/// the right operand's `b` in %rbx, leaves in %rax exactly the truth of the
/// comparison: it compares the two, clears %rax, and sets %al by the
/// condition of the operator, which holds for `is` when a = b, for
/// `is not` when a != b, for `greater than` when a > b, for `less than`
/// when a < b, for `at least` when a >= b and for `at most` when a <= b.
pub proof fn comparison_code_law(st: GenState, op: BinaryOperator, a: int, b: int)
    requires
        op is Equal || op is NotEqual || op is Greater || op is Less || op is GreaterEq || op is LessEq,
    ensures
        ({
            let code = binary_code(st, op).code;
            let set = code.last();
            &&& code == st.code + seq![InstructionOf::Cmp(rbx(), rax()), InstructionOf::Mov("$0"@, rax()), set]
            &&& op is Equal ==> set_after_compare(set, a, b) == Some(a == b)
            &&& op is NotEqual ==> set_after_compare(set, a, b) == Some(a != b)
            &&& op is Greater ==> set_after_compare(set, a, b) == Some(a > b)
            &&& op is Less ==> set_after_compare(set, a, b) == Some(a < b)
            &&& op is GreaterEq ==> set_after_compare(set, a, b) == Some(a >= b)
            &&& op is LessEq ==> set_after_compare(set, a, b) == Some(a <= b)
        }),
{
    let code = binary_code(st, op).code;
    assert(code =~= st.code + seq![InstructionOf::Cmp(rbx(), rax()), InstructionOf::Mov("$0"@, rax()), code.last()]);
}

/// What an x86-64 two-register arithmetic instruction in AT&T order
/// (source, then destination) leaves in %rax when it is the destination,
/// %rbx the source, %rax holding `a` and %rbx `b`: `addq` a + b, `subq`
/// a - b, `imulq` a * b (as mathematical integers). `None` for any other
/// instruction.
pub open spec fn rax_after_arith(i: InstructionView, a: int, b: int) -> Option<int> {
    match i {
        InstructionOf::Add(src, dst) => if src == rbx() && dst == rax() { Some(a + b) } else { None },
        InstructionOf::Sub(src, dst) => if src == rbx() && dst == rax() { Some(a - b) } else { None },
        InstructionOf::IMul(src, dst) => if src == rbx() && dst == rax() { Some(a * b) } else { None },
        _ => None,
    }
}

/// The code of an arithmetic operation, with the left operand's value `a`
/// in %rax and the right operand's `b` in %rbx: `+`, `-` and `*` are one
/// instruction that leaves a + b, a - b or a * b in %rax (left operand
/// first); `/` clears %rdx and divides by %rbx, leaving the quotient in
/// %rax; `%` does the same and then moves the remainder from %rdx to %rax.
pub proof fn arithmetic_code_law(st: GenState, op: BinaryOperator, a: int, b: int)
    requires
        op is Add || op is Sub || op is Mul || op is Div || op is Mod,
    ensures
        ({
            let code = binary_code(st, op).code;
            &&& (op is Add || op is Sub || op is Mul) ==> code == st.code.push(code.last())
            &&& op is Add ==> rax_after_arith(code.last(), a, b) == Some(a + b)
            &&& op is Sub ==> rax_after_arith(code.last(), a, b) == Some(a - b)
            &&& op is Mul ==> rax_after_arith(code.last(), a, b) == Some(a * b)
            &&& op is Div ==> code == st.code + seq![InstructionOf::Xor(rdx(), rdx()), InstructionOf::IDiv(rbx())]
            &&& op is Mod ==> code == st.code + seq![
                InstructionOf::Xor(rdx(), rdx()),
                InstructionOf::IDiv(rbx()),
                InstructionOf::Mov(rdx(), rax()),
            ]
        }),
{
    let code = binary_code(st, op).code;
    if op is Div {
        assert(code =~= st.code + seq![InstructionOf::Xor(rdx(), rdx()), InstructionOf::IDiv(rbx())]);
    }
    if op is Mod {
        assert(code =~= st.code + seq![
            InstructionOf::Xor(rdx(), rdx()),
            InstructionOf::IDiv(rbx()),
            InstructionOf::Mov(rdx(), rax()),
        ]);
    }
}

} // verus!
