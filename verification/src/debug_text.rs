//! The `{:?}` text of syntax trees, as std's derived `Debug` writes it:
//! `Name { field: value, .. }` for records, `Name(value)` for tuple
//! variants, `[a, b]` for lists, `Some(x)`/`None` for options, strings
//! quoted and escaped.
//!
//! Renamed variants are shown under the language's own names (`Map`), and a
//! number literal is shown as its source digits.

use vstd::prelude::*;
use crate::ast::{
    AstNode, BinaryOperator, BorrowMode, ErrorHandler, Lifetime, MatchArm, Parameter, Pattern, QueryCondition,
    QueryOperator, StructField, TraitMethod, TypeAnnotation, UnaryOperator, VariantCase,
};
use crate::source_location::{SourceLocation, SourceSpan};
use crate::text::{push_str, spec_decimal, usize_to_string};
use vstd::seq_lib::lemma_concat_associative;

verus! {

/// The `{:?}` text of a string (quoted, with std's `Debug` escapes).
pub uninterp spec fn str_debug_text(s: Seq<char>) -> Seq<char>;

/// `format!("{:?}", s)` for a string (std's `Debug` for `str`); its result
/// is named by `str_debug_text`.
#[verifier::external_body]
pub(crate) fn debug_str(s: &String) -> (r: String)
    ensures
        r@ == str_debug_text(s@),
{
    format!("{:?}", s)
}

fn write_str_debug(out: &mut String, s: &String)
    ensures
        final(out)@ == old(out)@ + str_debug_text(s@),
{
    let d = debug_str(s);
    push_str(out, d.as_str());
}

/// `true` or `false`.
pub open spec fn bool_text(b: bool) -> Seq<char> {
    if b {
        "true"@
    } else {
        "false"@
    }
}

/// The `{:?}` text of a source location.
pub open spec fn location_text(l: SourceLocation) -> Seq<char> {
    "SourceLocation { line: "@ + spec_decimal(l.line as nat) + ", column: "@ + spec_decimal(l.column as nat) + " }"@
}

/// The `{:?}` text of a source span.
pub open spec fn span_text(s: SourceSpan) -> Seq<char> {
    "SourceSpan { start: "@ + location_text(s.start) + ", end: "@ + location_text(s.end) + " }"@
}

fn write_location(out: &mut String, l: &SourceLocation)
    ensures
        final(out)@ == old(out)@ + location_text(*l),
{
    let ghost start = out@;
    push_str(out, "SourceLocation { line: ");
    push_str(out, usize_to_string(l.line).as_str());
    push_str(out, ", column: ");
    push_str(out, usize_to_string(l.column).as_str());
    push_str(out, " }");
    assert(out@ =~= start + location_text(*l));
}

fn write_span(out: &mut String, s: &SourceSpan)
    ensures
        final(out)@ == old(out)@ + span_text(*s),
{
    let ghost start = out@;
    push_str(out, "SourceSpan { start: ");
    write_location(out, &s.start);
    push_str(out, ", end: ");
    write_location(out, &s.end);
    push_str(out, " }");
    assert(out@ =~= start + span_text(*s));
}

/// The `{:?}` text of a binary operator.
pub open spec fn binop_text(op: BinaryOperator) -> Seq<char> {
    match op {
        BinaryOperator::Add => "Add"@,
        BinaryOperator::Sub => "Sub"@,
        BinaryOperator::Mul => "Mul"@,
        BinaryOperator::Div => "Div"@,
        BinaryOperator::Mod => "Mod"@,
        BinaryOperator::Equal => "Equal"@,
        BinaryOperator::NotEqual => "NotEqual"@,
        BinaryOperator::Greater => "Greater"@,
        BinaryOperator::Less => "Less"@,
        BinaryOperator::GreaterEq => "GreaterEq"@,
        BinaryOperator::LessEq => "LessEq"@,
        BinaryOperator::And => "And"@,
        BinaryOperator::Or => "Or"@,
    }
}

fn binop_name(op: &BinaryOperator) -> (r: &'static str)
    ensures
        r@ == binop_text(*op),
{
    match op {
        BinaryOperator::Add => "Add",
        BinaryOperator::Sub => "Sub",
        BinaryOperator::Mul => "Mul",
        BinaryOperator::Div => "Div",
        BinaryOperator::Mod => "Mod",
        BinaryOperator::Equal => "Equal",
        BinaryOperator::NotEqual => "NotEqual",
        BinaryOperator::Greater => "Greater",
        BinaryOperator::Less => "Less",
        BinaryOperator::GreaterEq => "GreaterEq",
        BinaryOperator::LessEq => "LessEq",
        BinaryOperator::And => "And",
        BinaryOperator::Or => "Or",
    }
}

/// The `{:?}` text of a unary operator.
pub open spec fn unop_text(op: UnaryOperator) -> Seq<char> {
    match op {
        UnaryOperator::Not => "Not"@,
        UnaryOperator::Negate => "Negate"@,
    }
}

fn unop_name(op: &UnaryOperator) -> (r: &'static str)
    ensures
        r@ == unop_text(*op),
{
    match op {
        UnaryOperator::Not => "Not",
        UnaryOperator::Negate => "Negate",
    }
}

/// The `{:?}` text of a borrow mode.
pub open spec fn borrow_mode_text(m: BorrowMode) -> Seq<char> {
    match m {
        BorrowMode::Owned => "Owned"@,
        BorrowMode::Borrowed => "Borrowed"@,
        BorrowMode::BorrowedMut => "BorrowedMut"@,
    }
}

fn borrow_mode_name(m: &BorrowMode) -> (r: &'static str)
    ensures
        r@ == borrow_mode_text(*m),
{
    match m {
        BorrowMode::Owned => "Owned",
        BorrowMode::Borrowed => "Borrowed",
        BorrowMode::BorrowedMut => "BorrowedMut",
    }
}

/// The `{:?}` text of a query operator.
pub open spec fn query_op_text(op: QueryOperator) -> Seq<char> {
    match op {
        QueryOperator::Is => "Is"@,
        QueryOperator::IsNot => "IsNot"@,
        QueryOperator::Greater => "Greater"@,
        QueryOperator::Less => "Less"@,
        QueryOperator::GreaterEq => "GreaterEq"@,
        QueryOperator::LessEq => "LessEq"@,
        QueryOperator::After => "After"@,
        QueryOperator::Before => "Before"@,
    }
}

fn query_op_name(op: &QueryOperator) -> (r: &'static str)
    ensures
        r@ == query_op_text(*op),
{
    match op {
        QueryOperator::Is => "Is",
        QueryOperator::IsNot => "IsNot",
        QueryOperator::Greater => "Greater",
        QueryOperator::Less => "Less",
        QueryOperator::GreaterEq => "GreaterEq",
        QueryOperator::LessEq => "LessEq",
        QueryOperator::After => "After",
        QueryOperator::Before => "Before",
    }
}

/// The `{:?}` text of an optional string.
pub open spec fn opt_str_text(o: Option<String>) -> Seq<char> {
    match o {
        Some(s) => "Some("@ + str_debug_text(s@) + ")"@,
        None => "None"@,
    }
}

fn write_opt_str(out: &mut String, o: &Option<String>)
    ensures
        final(out)@ == old(out)@ + opt_str_text(*o),
{
    let ghost start = out@;
    match o {
        Some(s) => {
            push_str(out, "Some(");
            write_str_debug(out, s);
            push_str(out, ")");
        },
        None => push_str(out, "None"),
    }
    assert(out@ =~= start + opt_str_text(*o));
}

/// The `{:?}` text of an optional list of strings.
pub open spec fn opt_strs_text(o: Option<Vec<String>>) -> Seq<char> {
    match o {
        Some(v) => "Some("@ + strs_text(v@) + ")"@,
        None => "None"@,
    }
}

fn write_opt_strs(out: &mut String, o: &Option<Vec<String>>)
    ensures
        final(out)@ == old(out)@ + opt_strs_text(*o),
{
    let ghost start = out@;
    match o {
        Some(v) => {
            push_str(out, "Some(");
            write_strs(out, v);
            push_str(out, ")");
        },
        None => push_str(out, "None"),
    }
    assert(out@ =~= start + opt_strs_text(*o));
}

/// The `{:?}` text of an optional lifetime.
pub open spec fn opt_lifetime_text(o: Option<Lifetime>) -> Seq<char> {
    match o {
        Some(l) => "Some("@ + lifetime_text(l) + ")"@,
        None => "None"@,
    }
}

fn write_opt_lifetime(out: &mut String, o: &Option<Lifetime>)
    ensures
        final(out)@ == old(out)@ + opt_lifetime_text(*o),
{
    let ghost start = out@;
    match o {
        Some(l) => {
            push_str(out, "Some(");
            write_lifetime(out, l);
            push_str(out, ")");
        },
        None => push_str(out, "None"),
    }
    assert(out@ =~= start + opt_lifetime_text(*o));
}

/// The `{:?}` text of a type annotation.
pub open spec fn type_text(t: TypeAnnotation) -> Seq<char>
    decreases t, 2nat,
{
    match t {
        TypeAnnotation::Named(n) => "Named("@ + str_debug_text(n@) + ")"@,
        TypeAnnotation::Generic(n) => "Generic("@ + str_debug_text(n@) + ")"@,
        TypeAnnotation::Parametrized { name, type_args } => "Parametrized { name: "@ + str_debug_text(name@)
            + ", type_args: "@ + types_text(type_args@) + " }"@,
        TypeAnnotation::List(inner) => "List("@ + type_text(*inner) + ")"@,
        TypeAnnotation::MapType => "Map"@,
        TypeAnnotation::Function { param_types, return_type } => "Function { param_types: "@ + types_text(
            param_types@,
        ) + ", return_type: "@ + type_text(*return_type) + " }"@,
        TypeAnnotation::Optional(inner) => "Optional("@ + type_text(*inner) + ")"@,
        TypeAnnotation::Borrowed { lifetime, inner, mutable } => "Borrowed { lifetime: "@ + opt_lifetime_text(
            lifetime,
        ) + ", inner: "@ + type_text(*inner) + ", mutable: "@ + bool_text(mutable) + " }"@,
    }
}

fn write_type(out: &mut String, t: &TypeAnnotation)
    ensures
        final(out)@ == old(out)@ + type_text(*t),
    decreases t,
{
    let ghost start = out@;
    match t {
        TypeAnnotation::Named(n) => {
            push_str(out, "Named(");
            write_str_debug(out, n);
            push_str(out, ")");
        },
        TypeAnnotation::Generic(n) => {
            push_str(out, "Generic(");
            write_str_debug(out, n);
            push_str(out, ")");
        },
        TypeAnnotation::Parametrized { name, type_args } => {
            push_str(out, "Parametrized { name: ");
            write_str_debug(out, name);
            push_str(out, ", type_args: ");
            write_types(out, type_args);
            push_str(out, " }");
        },
        TypeAnnotation::List(inner) => {
            push_str(out, "List(");
            write_type(out, &**inner);
            push_str(out, ")");
        },
        TypeAnnotation::MapType => push_str(out, "Map"),
        TypeAnnotation::Function { param_types, return_type } => {
            push_str(out, "Function { param_types: ");
            write_types(out, param_types);
            push_str(out, ", return_type: ");
            write_type(out, &**return_type);
            push_str(out, " }");
        },
        TypeAnnotation::Optional(inner) => {
            push_str(out, "Optional(");
            write_type(out, &**inner);
            push_str(out, ")");
        },
        TypeAnnotation::Borrowed { lifetime, inner, mutable } => {
            push_str(out, "Borrowed { lifetime: ");
            write_opt_lifetime(out, lifetime);
            push_str(out, ", inner: ");
            write_type(out, &**inner);
            push_str(out, ", mutable: ");
            push_str(out, if *mutable { "true" } else { "false" });
            push_str(out, " }");
        },
    }
    assert(out@ =~= start + type_text(*t));
}

/// The `{:?}` text of an optional type annotation.
pub open spec fn opt_type_text(o: Option<TypeAnnotation>) -> Seq<char> {
    match o {
        Some(t) => "Some("@ + type_text(t) + ")"@,
        None => "None"@,
    }
}

fn write_opt_type(out: &mut String, o: &Option<TypeAnnotation>)
    ensures
        final(out)@ == old(out)@ + opt_type_text(*o),
{
    let ghost start = out@;
    match o {
        Some(t) => {
            push_str(out, "Some(");
            write_type(out, t);
            push_str(out, ")");
        },
        None => push_str(out, "None"),
    }
    assert(out@ =~= start + opt_type_text(*o));
}

/// The `{:?}` text of a pattern.
pub open spec fn pattern_text(p: Pattern) -> Seq<char>
    decreases p, 2nat,
{
    match p {
        Pattern::Literal(n) => "Literal("@ + node_text(n) + ")"@,
        Pattern::Ident(s) => "Ident("@ + str_debug_text(s@) + ")"@,
        Pattern::Wildcard => "Wildcard"@,
        Pattern::Enum { variant, inner } => "Enum { variant: "@ + str_debug_text(variant@) + ", inner: "@
            + match inner {
            Some(b) => "Some("@ + pattern_text(*b) + ")"@,
            None => "None"@,
        } + " }"@,
    }
}

fn write_pattern(out: &mut String, p: &Pattern)
    ensures
        final(out)@ == old(out)@ + pattern_text(*p),
    decreases p, 1nat,
{
    let ghost start = out@;
    match p {
        Pattern::Literal(n) => {
            push_str(out, "Literal(");
            write_node(out, n);
            push_str(out, ")");
        },
        Pattern::Ident(s) => {
            push_str(out, "Ident(");
            write_str_debug(out, s);
            push_str(out, ")");
        },
        Pattern::Wildcard => push_str(out, "Wildcard"),
        Pattern::Enum { variant, inner } => {
            push_str(out, "Enum { variant: ");
            write_str_debug(out, variant);
            push_str(out, ", inner: ");
            match inner {
                Some(b) => {
                    push_str(out, "Some(");
                    write_pattern(out, &**b);
                    push_str(out, ")");
                },
                None => push_str(out, "None"),
            }
            push_str(out, " }");
        },
    }
    assert(out@ =~= start + pattern_text(*p));
}

/// The `{:?}` text of a named node: `("name", node)`.
pub open spec fn pair_text(p: (String, AstNode)) -> Seq<char>
    decreases p, 2nat,
{
    "("@ + str_debug_text(p.0@) + ", "@ + node_text(p.1) + ")"@
}

fn write_pair(out: &mut String, p: &(String, AstNode))
    ensures
        final(out)@ == old(out)@ + pair_text(*p),
    decreases p, 1nat,
{
    let ghost start = out@;
    push_str(out, "(");
    write_str_debug(out, &p.0);
    push_str(out, ", ");
    write_node(out, &p.1);
    push_str(out, ")");
    assert(out@ =~= start + pair_text(*p));
}

/// The `{:?}` text of an optional list of nodes.
pub open spec fn opt_nodes_text(o: Option<Vec<AstNode>>) -> Seq<char>
    decreases o, 2nat,
{
    match o {
        Some(v) => "Some("@ + nodes_text(v@) + ")"@,
        None => "None"@,
    }
}

fn write_opt_nodes(out: &mut String, o: &Option<Vec<AstNode>>)
    ensures
        final(out)@ == old(out)@ + opt_nodes_text(*o),
    decreases o, 1nat,
{
    let ghost start = out@;
    match o {
        Some(v) => {
            push_str(out, "Some(");
            write_nodes(out, v);
            push_str(out, ")");
        },
        None => push_str(out, "None"),
    }
    assert(out@ =~= start + opt_nodes_text(*o));
}

/// The `{:?}` text of a node, as a new string.
pub fn node_debug_text(n: &AstNode) -> (r: String)
    ensures
        r@ == node_text(*n),
{
    let mut out = String::new();
    write_node(&mut out, n);
    assert(out@ =~= node_text(*n));
    out
}

/// The `{:?}` text of a list of strings, as a new string.
pub fn texts_debug_text(v: &Vec<String>) -> (r: String)
    ensures
        r@ == strs_text(v@),
{
    let mut out = String::new();
    write_strs(&mut out, v);
    assert(out@ =~= strs_text(v@));
    out
}

/// The `{:?}` text of a node.
pub open spec fn node_text(n: AstNode) -> Seq<char>
    decreases n, 2nat,
{
    match n {
        AstNode::BindStmt { name, typ, value, span } => "BindStmt { name: "@ + str_debug_text(name@) + ", typ: "@ + opt_type_text(typ) + ", value: "@ + node_text(*value) + ", span: "@ + span_text(span) + " }"@,
        AstNode::WeaveStmt { name, typ, value, span } => "WeaveStmt { name: "@ + str_debug_text(name@) + ", typ: "@ + opt_type_text(typ) + ", value: "@ + node_text(*value) + ", span: "@ + span_text(span) + " }"@,
        AstNode::SetStmt { target, value, span } => "SetStmt { target: "@ + node_text(*target) + ", value: "@ + node_text(*value) + ", span: "@ + span_text(span) + " }"@,
        AstNode::IfStmt { condition, then_branch, else_branch, span } => "IfStmt { condition: "@ + node_text(*condition) + ", then_branch: "@ + nodes_text(then_branch@) + ", else_branch: "@ + opt_nodes_text(else_branch) + ", span: "@ + span_text(span) + " }"@,
        AstNode::ForStmt { variable, iterable, body, span } => "ForStmt { variable: "@ + str_debug_text(variable@) + ", iterable: "@ + node_text(*iterable) + ", body: "@ + nodes_text(body@) + ", span: "@ + span_text(span) + " }"@,
        AstNode::WhileStmt { condition, body, span } => "WhileStmt { condition: "@ + node_text(*condition) + ", body: "@ + nodes_text(body@) + ", span: "@ + span_text(span) + " }"@,
        AstNode::ChantDef { name, type_params, lifetime_params, params, return_type, body, span } => "ChantDef { name: "@ + str_debug_text(name@) + ", type_params: "@ + strs_text(type_params@) + ", lifetime_params: "@ + lifetimes_text(lifetime_params@) + ", params: "@ + params_text(params@) + ", return_type: "@ + opt_type_text(return_type) + ", body: "@ + nodes_text(body@) + ", span: "@ + span_text(span) + " }"@,
        AstNode::FormDef { name, type_params, fields, span } => "FormDef { name: "@ + str_debug_text(name@) + ", type_params: "@ + strs_text(type_params@) + ", fields: "@ + struct_fields_text(fields@) + ", span: "@ + span_text(span) + " }"@,
        AstNode::VariantDef { name, type_params, variants, span } => "VariantDef { name: "@ + str_debug_text(name@) + ", type_params: "@ + strs_text(type_params@) + ", variants: "@ + variant_cases_text(variants@) + ", span: "@ + span_text(span) + " }"@,
        AstNode::AspectDef { name, type_params, methods, span } => "AspectDef { name: "@ + str_debug_text(name@) + ", type_params: "@ + strs_text(type_params@) + ", methods: "@ + trait_methods_text(methods@) + ", span: "@ + span_text(span) + " }"@,
        AstNode::EmbodyStmt { aspect_name, type_args, target_type, methods, span } => "EmbodyStmt { aspect_name: "@ + str_debug_text(aspect_name@) + ", type_args: "@ + types_text(type_args@) + ", target_type: "@ + type_text(target_type) + ", methods: "@ + nodes_text(methods@) + ", span: "@ + span_text(span) + " }"@,
        AstNode::YieldStmt { value, span } => "YieldStmt { value: "@ + node_text(*value) + ", span: "@ + span_text(span) + " }"@,
        AstNode::MatchStmt { value, arms, span } => "MatchStmt { value: "@ + node_text(*value) + ", arms: "@ + arms_text(arms@) + ", span: "@ + span_text(span) + " }"@,
        AstNode::AttemptStmt { body, handlers, span } => "AttemptStmt { body: "@ + nodes_text(body@) + ", handlers: "@ + handlers_text(handlers@) + ", span: "@ + span_text(span) + " }"@,
        AstNode::RequestStmt { capability, justification, span } => "RequestStmt { capability: "@ + node_text(*capability) + ", justification: "@ + str_debug_text(justification@) + ", span: "@ + span_text(span) + " }"@,
        AstNode::ModuleDecl { name, body, exports, span } => "ModuleDecl { name: "@ + str_debug_text(name@) + ", body: "@ + nodes_text(body@) + ", exports: "@ + strs_text(exports@) + ", span: "@ + span_text(span) + " }"@,
        AstNode::Import { module_name, path, items, alias, span } => "Import { module_name: "@ + str_debug_text(module_name@) + ", path: "@ + str_debug_text(path@) + ", items: "@ + opt_strs_text(items) + ", alias: "@ + opt_str_text(alias) + ", span: "@ + span_text(span) + " }"@,
        AstNode::Export { items, span } => "Export { items: "@ + strs_text(items@) + ", span: "@ + span_text(span) + " }"@,
        AstNode::Number { value, span } => "Number { value: "@ + value@ + ", span: "@ + span_text(span) + " }"@,
        AstNode::Text { value, span } => "Text { value: "@ + str_debug_text(value@) + ", span: "@ + span_text(span) + " }"@,
        AstNode::Truth { value, span } => "Truth { value: "@ + bool_text(value) + ", span: "@ + span_text(span) + " }"@,
        AstNode::Nothing { span } => "Nothing { span: "@ + span_text(span) + " }"@,
        AstNode::Ident { name, span } => "Ident { name: "@ + str_debug_text(name@) + ", span: "@ + span_text(span) + " }"@,
        AstNode::Triumph { value, span } => "Triumph { value: "@ + node_text(*value) + ", span: "@ + span_text(span) + " }"@,
        AstNode::Mishap { value, span } => "Mishap { value: "@ + node_text(*value) + ", span: "@ + span_text(span) + " }"@,
        AstNode::Present { value, span } => "Present { value: "@ + node_text(*value) + ", span: "@ + span_text(span) + " }"@,
        AstNode::Absent { span } => "Absent { span: "@ + span_text(span) + " }"@,
        AstNode::List { elements, span } => "List { elements: "@ + nodes_text(elements@) + ", span: "@ + span_text(span) + " }"@,
        AstNode::MapLiteral { entries, span } => "Map { entries: "@ + pairs_text(entries@) + ", span: "@ + span_text(span) + " }"@,
        AstNode::StructLiteral { struct_name, type_args, fields, span } => "StructLiteral { struct_name: "@ + str_debug_text(struct_name@) + ", type_args: "@ + types_text(type_args@) + ", fields: "@ + pairs_text(fields@) + ", span: "@ + span_text(span) + " }"@,
        AstNode::BinaryOp { left, op, right, span } => "BinaryOp { left: "@ + node_text(*left) + ", op: "@ + binop_text(op) + ", right: "@ + node_text(*right) + ", span: "@ + span_text(span) + " }"@,
        AstNode::UnaryOp { op, operand, span } => "UnaryOp { op: "@ + unop_text(op) + ", operand: "@ + node_text(*operand) + ", span: "@ + span_text(span) + " }"@,
        AstNode::BorrowExpr { value, mutable, span } => "BorrowExpr { value: "@ + node_text(*value) + ", mutable: "@ + bool_text(mutable) + ", span: "@ + span_text(span) + " }"@,
        AstNode::Call { callee, type_args, args, span } => "Call { callee: "@ + node_text(*callee) + ", type_args: "@ + types_text(type_args@) + ", args: "@ + nodes_text(args@) + ", span: "@ + span_text(span) + " }"@,
        AstNode::FieldAccess { object, field, span } => "FieldAccess { object: "@ + node_text(*object) + ", field: "@ + str_debug_text(field@) + ", span: "@ + span_text(span) + " }"@,
        AstNode::ModuleAccess { module, member, span } => "ModuleAccess { module: "@ + str_debug_text(module@) + ", member: "@ + str_debug_text(member@) + ", span: "@ + span_text(span) + " }"@,
        AstNode::IndexAccess { object, index, span } => "IndexAccess { object: "@ + node_text(*object) + ", index: "@ + node_text(*index) + ", span: "@ + span_text(span) + " }"@,
        AstNode::Range { start, end, span } => "Range { start: "@ + node_text(*start) + ", end: "@ + node_text(*end) + ", span: "@ + span_text(span) + " }"@,
        AstNode::Pipeline { stages, span } => "Pipeline { stages: "@ + nodes_text(stages@) + ", span: "@ + span_text(span) + " }"@,
        AstNode::SeekExpr { conditions, span } => "SeekExpr { conditions: "@ + conditions_text(conditions@) + ", span: "@ + span_text(span) + " }"@,
        AstNode::ExprStmt { expr, span } => "ExprStmt { expr: "@ + node_text(*expr) + ", span: "@ + span_text(span) + " }"@,
        AstNode::Block { statements, span } => "Block { statements: "@ + nodes_text(statements@) + ", span: "@ + span_text(span) + " }"@,
        AstNode::Break { span } => "Break { span: "@ + span_text(span) + " }"@,
        AstNode::Continue { span } => "Continue { span: "@ + span_text(span) + " }"@,
        AstNode::Try { expr, span } => "Try { expr: "@ + node_text(*expr) + ", span: "@ + span_text(span) + " }"@,
    }
}

/// The `{:?}` text of a parameter.
pub open spec fn param_text(x: Parameter) -> Seq<char>
    decreases x, 2nat,
{
    "Parameter { name: "@ + str_debug_text(x.name@) + ", typ: "@ + opt_type_text(x.typ) + ", is_variadic: "@ + bool_text(x.is_variadic) + ", borrow_mode: "@ + borrow_mode_text(x.borrow_mode) + ", lifetime: "@ + opt_lifetime_text(x.lifetime) + " }"@
}

/// The `{:?}` text of a struct field.
pub open spec fn struct_field_text(x: StructField) -> Seq<char>
    decreases x, 2nat,
{
    "StructField { name: "@ + str_debug_text(x.name@) + ", typ: "@ + type_text(x.typ) + " }"@
}

/// The `{:?}` text of an enum variant case.
pub open spec fn variant_case_text(x: VariantCase) -> Seq<char>
    decreases x, 2nat,
{
    "VariantCase { name: "@ + str_debug_text(x.name@) + ", fields: "@ + params_text(x.fields@) + " }"@
}

/// The `{:?}` text of a trait method.
pub open spec fn trait_method_text(x: TraitMethod) -> Seq<char>
    decreases x, 2nat,
{
    "TraitMethod { name: "@ + str_debug_text(x.name@) + ", params: "@ + params_text(x.params@) + ", return_type: "@ + opt_type_text(x.return_type) + " }"@
}

/// The `{:?}` text of a match arm.
pub open spec fn arm_text(x: MatchArm) -> Seq<char>
    decreases x, 2nat,
{
    "MatchArm { pattern: "@ + pattern_text(x.pattern) + ", body: "@ + nodes_text(x.body@) + " }"@
}

/// The `{:?}` text of an error handler.
pub open spec fn handler_text(x: ErrorHandler) -> Seq<char>
    decreases x, 2nat,
{
    "ErrorHandler { error_type: "@ + str_debug_text(x.error_type@) + ", body: "@ + nodes_text(x.body@) + " }"@
}

/// The `{:?}` text of a query condition.
pub open spec fn condition_text(x: QueryCondition) -> Seq<char>
    decreases x, 2nat,
{
    "QueryCondition { field: "@ + str_debug_text(x.field@) + ", operator: "@ + query_op_text(x.operator) + ", value: "@ + node_text(*x.value) + " }"@
}

/// The `{:?}` text of a lifetime.
pub open spec fn lifetime_text(x: Lifetime) -> Seq<char>
    decreases x, 2nat,
{
    "Lifetime { name: "@ + str_debug_text(x.name@) + " }"@
}

/// The `{:?}` texts of nodes, separated by `, `.
pub open spec fn nodes_join(s: Seq<AstNode>) -> Seq<char>
    decreases s, 0nat,
{
    if s.len() == 0 {
        Seq::empty()
    } else if s.len() == 1 {
        node_text(s[0])
    } else {
        nodes_join(s.drop_last()) + ", "@ + node_text(s.last())
    }
}

/// The `{:?}` text of a list of nodes.
pub open spec fn nodes_text(s: Seq<AstNode>) -> Seq<char>
    decreases s, 1nat,
{
    "["@ + nodes_join(s) + "]"@
}

/// The `{:?}` texts of texts, separated by `, `.
pub open spec fn strs_join(s: Seq<String>) -> Seq<char>
    decreases s, 0nat,
{
    if s.len() == 0 {
        Seq::empty()
    } else if s.len() == 1 {
        str_debug_text(s[0]@)
    } else {
        strs_join(s.drop_last()) + ", "@ + str_debug_text(s.last()@)
    }
}

/// The `{:?}` text of a list of texts.
pub open spec fn strs_text(s: Seq<String>) -> Seq<char>
    decreases s, 1nat,
{
    "["@ + strs_join(s) + "]"@
}

/// The `{:?}` texts of type annotations, separated by `, `.
pub open spec fn types_join(s: Seq<TypeAnnotation>) -> Seq<char>
    decreases s, 0nat,
{
    if s.len() == 0 {
        Seq::empty()
    } else if s.len() == 1 {
        type_text(s[0])
    } else {
        types_join(s.drop_last()) + ", "@ + type_text(s.last())
    }
}

/// The `{:?}` text of a list of type annotations.
pub open spec fn types_text(s: Seq<TypeAnnotation>) -> Seq<char>
    decreases s, 1nat,
{
    "["@ + types_join(s) + "]"@
}

/// The `{:?}` texts of lifetimes, separated by `, `.
pub open spec fn lifetimes_join(s: Seq<Lifetime>) -> Seq<char>
    decreases s, 0nat,
{
    if s.len() == 0 {
        Seq::empty()
    } else if s.len() == 1 {
        lifetime_text(s[0])
    } else {
        lifetimes_join(s.drop_last()) + ", "@ + lifetime_text(s.last())
    }
}

/// The `{:?}` text of a list of lifetimes.
pub open spec fn lifetimes_text(s: Seq<Lifetime>) -> Seq<char>
    decreases s, 1nat,
{
    "["@ + lifetimes_join(s) + "]"@
}

/// The `{:?}` texts of parameters, separated by `, `.
pub open spec fn params_join(s: Seq<Parameter>) -> Seq<char>
    decreases s, 0nat,
{
    if s.len() == 0 {
        Seq::empty()
    } else if s.len() == 1 {
        param_text(s[0])
    } else {
        params_join(s.drop_last()) + ", "@ + param_text(s.last())
    }
}

/// The `{:?}` text of a list of parameters.
pub open spec fn params_text(s: Seq<Parameter>) -> Seq<char>
    decreases s, 1nat,
{
    "["@ + params_join(s) + "]"@
}

/// The `{:?}` texts of struct fields, separated by `, `.
pub open spec fn struct_fields_join(s: Seq<StructField>) -> Seq<char>
    decreases s, 0nat,
{
    if s.len() == 0 {
        Seq::empty()
    } else if s.len() == 1 {
        struct_field_text(s[0])
    } else {
        struct_fields_join(s.drop_last()) + ", "@ + struct_field_text(s.last())
    }
}

/// The `{:?}` text of a list of struct fields.
pub open spec fn struct_fields_text(s: Seq<StructField>) -> Seq<char>
    decreases s, 1nat,
{
    "["@ + struct_fields_join(s) + "]"@
}

/// The `{:?}` texts of enum variant cases, separated by `, `.
pub open spec fn variant_cases_join(s: Seq<VariantCase>) -> Seq<char>
    decreases s, 0nat,
{
    if s.len() == 0 {
        Seq::empty()
    } else if s.len() == 1 {
        variant_case_text(s[0])
    } else {
        variant_cases_join(s.drop_last()) + ", "@ + variant_case_text(s.last())
    }
}

/// The `{:?}` text of a list of enum variant cases.
pub open spec fn variant_cases_text(s: Seq<VariantCase>) -> Seq<char>
    decreases s, 1nat,
{
    "["@ + variant_cases_join(s) + "]"@
}

/// The `{:?}` texts of trait methods, separated by `, `.
pub open spec fn trait_methods_join(s: Seq<TraitMethod>) -> Seq<char>
    decreases s, 0nat,
{
    if s.len() == 0 {
        Seq::empty()
    } else if s.len() == 1 {
        trait_method_text(s[0])
    } else {
        trait_methods_join(s.drop_last()) + ", "@ + trait_method_text(s.last())
    }
}

/// The `{:?}` text of a list of trait methods.
pub open spec fn trait_methods_text(s: Seq<TraitMethod>) -> Seq<char>
    decreases s, 1nat,
{
    "["@ + trait_methods_join(s) + "]"@
}

/// The `{:?}` texts of match arms, separated by `, `.
pub open spec fn arms_join(s: Seq<MatchArm>) -> Seq<char>
    decreases s, 0nat,
{
    if s.len() == 0 {
        Seq::empty()
    } else if s.len() == 1 {
        arm_text(s[0])
    } else {
        arms_join(s.drop_last()) + ", "@ + arm_text(s.last())
    }
}

/// The `{:?}` text of a list of match arms.
pub open spec fn arms_text(s: Seq<MatchArm>) -> Seq<char>
    decreases s, 1nat,
{
    "["@ + arms_join(s) + "]"@
}

/// The `{:?}` texts of error handlers, separated by `, `.
pub open spec fn handlers_join(s: Seq<ErrorHandler>) -> Seq<char>
    decreases s, 0nat,
{
    if s.len() == 0 {
        Seq::empty()
    } else if s.len() == 1 {
        handler_text(s[0])
    } else {
        handlers_join(s.drop_last()) + ", "@ + handler_text(s.last())
    }
}

/// The `{:?}` text of a list of error handlers.
pub open spec fn handlers_text(s: Seq<ErrorHandler>) -> Seq<char>
    decreases s, 1nat,
{
    "["@ + handlers_join(s) + "]"@
}

/// The `{:?}` texts of named nodes, separated by `, `.
pub open spec fn pairs_join(s: Seq<(String, AstNode)>) -> Seq<char>
    decreases s, 0nat,
{
    if s.len() == 0 {
        Seq::empty()
    } else if s.len() == 1 {
        pair_text(s[0])
    } else {
        pairs_join(s.drop_last()) + ", "@ + pair_text(s.last())
    }
}

/// The `{:?}` text of a list of named nodes.
pub open spec fn pairs_text(s: Seq<(String, AstNode)>) -> Seq<char>
    decreases s, 1nat,
{
    "["@ + pairs_join(s) + "]"@
}

/// The `{:?}` texts of query conditions, separated by `, `.
pub open spec fn conditions_join(s: Seq<QueryCondition>) -> Seq<char>
    decreases s, 0nat,
{
    if s.len() == 0 {
        Seq::empty()
    } else if s.len() == 1 {
        condition_text(s[0])
    } else {
        conditions_join(s.drop_last()) + ", "@ + condition_text(s.last())
    }
}

/// The `{:?}` text of a list of query conditions.
pub open spec fn conditions_text(s: Seq<QueryCondition>) -> Seq<char>
    decreases s, 1nat,
{
    "["@ + conditions_join(s) + "]"@
}

/// Write the `{:?}` text of a node (see `node_text`).
pub fn write_node(out: &mut String, n: &AstNode)
    ensures
        final(out)@ == old(out)@ + node_text(*n),
    decreases n, 1nat,
{
    match n {
        AstNode::BindStmt { .. } | AstNode::WeaveStmt { .. } | AstNode::SetStmt { .. } | AstNode::IfStmt { .. } | AstNode::ForStmt { .. } => write_node_0(out, n),
        AstNode::WhileStmt { .. } | AstNode::ChantDef { .. } | AstNode::FormDef { .. } | AstNode::VariantDef { .. } | AstNode::AspectDef { .. } => write_node_1(out, n),
        AstNode::EmbodyStmt { .. } | AstNode::YieldStmt { .. } | AstNode::MatchStmt { .. } | AstNode::AttemptStmt { .. } | AstNode::RequestStmt { .. } => write_node_2(out, n),
        AstNode::ModuleDecl { .. } | AstNode::Import { .. } | AstNode::Export { .. } | AstNode::Number { .. } | AstNode::Text { .. } => write_node_3(out, n),
        AstNode::Truth { .. } | AstNode::Nothing { .. } | AstNode::Ident { .. } | AstNode::Triumph { .. } | AstNode::Mishap { .. } => write_node_4(out, n),
        AstNode::Present { .. } | AstNode::Absent { .. } | AstNode::List { .. } | AstNode::MapLiteral { .. } | AstNode::StructLiteral { .. } => write_node_5(out, n),
        AstNode::BinaryOp { .. } | AstNode::UnaryOp { .. } | AstNode::BorrowExpr { .. } | AstNode::Call { .. } | AstNode::FieldAccess { .. } => write_node_6(out, n),
        AstNode::ModuleAccess { .. } | AstNode::IndexAccess { .. } | AstNode::Range { .. } | AstNode::Pipeline { .. } | AstNode::SeekExpr { .. } => write_node_7(out, n),
        AstNode::ExprStmt { .. } | AstNode::Block { .. } | AstNode::Break { .. } | AstNode::Continue { .. } | AstNode::Try { .. } => write_node_8(out, n),
    }
}

fn write_node_0(out: &mut String, n: &AstNode)
    requires
        n is BindStmt || n is WeaveStmt || n is SetStmt || n is IfStmt || n is ForStmt,
    ensures
        final(out)@ == old(out)@ + node_text(*n),
    decreases n, 0nat,
{
    let ghost prefix = out@;
    match n {
        AstNode::BindStmt { name, typ, value, span } => {
            push_str(out, "BindStmt { name: ");
            let ghost mut acc: Seq<char> = "BindStmt { name: "@;
            write_str_debug(out, name);
            proof {
                lemma_concat_associative(prefix, acc, str_debug_text(name@));
                acc = acc + str_debug_text(name@);
            }
            push_str(out, ", typ: ");
            proof {
                lemma_concat_associative(prefix, acc, ", typ: "@);
                acc = acc + ", typ: "@;
            }
            write_opt_type(out, typ);
            proof {
                lemma_concat_associative(prefix, acc, opt_type_text(*typ));
                acc = acc + opt_type_text(*typ);
            }
            push_str(out, ", value: ");
            proof {
                lemma_concat_associative(prefix, acc, ", value: "@);
                acc = acc + ", value: "@;
            }
            write_node(out, &**value);
            proof {
                lemma_concat_associative(prefix, acc, node_text(**value));
                acc = acc + node_text(**value);
            }
            push_str(out, ", span: ");
            proof {
                lemma_concat_associative(prefix, acc, ", span: "@);
                acc = acc + ", span: "@;
            }
            write_span(out, span);
            proof {
                lemma_concat_associative(prefix, acc, span_text(*span));
                acc = acc + span_text(*span);
            }
            push_str(out, " }");
            proof {
                lemma_concat_associative(prefix, acc, " }"@);
                acc = acc + " }"@;
            }
            assert(acc == node_text(*n));
        },
        AstNode::WeaveStmt { name, typ, value, span } => {
            push_str(out, "WeaveStmt { name: ");
            let ghost mut acc: Seq<char> = "WeaveStmt { name: "@;
            write_str_debug(out, name);
            proof {
                lemma_concat_associative(prefix, acc, str_debug_text(name@));
                acc = acc + str_debug_text(name@);
            }
            push_str(out, ", typ: ");
            proof {
                lemma_concat_associative(prefix, acc, ", typ: "@);
                acc = acc + ", typ: "@;
            }
            write_opt_type(out, typ);
            proof {
                lemma_concat_associative(prefix, acc, opt_type_text(*typ));
                acc = acc + opt_type_text(*typ);
            }
            push_str(out, ", value: ");
            proof {
                lemma_concat_associative(prefix, acc, ", value: "@);
                acc = acc + ", value: "@;
            }
            write_node(out, &**value);
            proof {
                lemma_concat_associative(prefix, acc, node_text(**value));
                acc = acc + node_text(**value);
            }
            push_str(out, ", span: ");
            proof {
                lemma_concat_associative(prefix, acc, ", span: "@);
                acc = acc + ", span: "@;
            }
            write_span(out, span);
            proof {
                lemma_concat_associative(prefix, acc, span_text(*span));
                acc = acc + span_text(*span);
            }
            push_str(out, " }");
            proof {
                lemma_concat_associative(prefix, acc, " }"@);
                acc = acc + " }"@;
            }
            assert(acc == node_text(*n));
        },
        AstNode::SetStmt { target, value, span } => {
            push_str(out, "SetStmt { target: ");
            let ghost mut acc: Seq<char> = "SetStmt { target: "@;
            write_node(out, &**target);
            proof {
                lemma_concat_associative(prefix, acc, node_text(**target));
                acc = acc + node_text(**target);
            }
            push_str(out, ", value: ");
            proof {
                lemma_concat_associative(prefix, acc, ", value: "@);
                acc = acc + ", value: "@;
            }
            write_node(out, &**value);
            proof {
                lemma_concat_associative(prefix, acc, node_text(**value));
                acc = acc + node_text(**value);
            }
            push_str(out, ", span: ");
            proof {
                lemma_concat_associative(prefix, acc, ", span: "@);
                acc = acc + ", span: "@;
            }
            write_span(out, span);
            proof {
                lemma_concat_associative(prefix, acc, span_text(*span));
                acc = acc + span_text(*span);
            }
            push_str(out, " }");
            proof {
                lemma_concat_associative(prefix, acc, " }"@);
                acc = acc + " }"@;
            }
            assert(acc == node_text(*n));
        },
        AstNode::IfStmt { condition, then_branch, else_branch, span } => {
            push_str(out, "IfStmt { condition: ");
            let ghost mut acc: Seq<char> = "IfStmt { condition: "@;
            write_node(out, &**condition);
            proof {
                lemma_concat_associative(prefix, acc, node_text(**condition));
                acc = acc + node_text(**condition);
            }
            push_str(out, ", then_branch: ");
            proof {
                lemma_concat_associative(prefix, acc, ", then_branch: "@);
                acc = acc + ", then_branch: "@;
            }
            write_nodes(out, then_branch);
            proof {
                lemma_concat_associative(prefix, acc, nodes_text(then_branch@));
                acc = acc + nodes_text(then_branch@);
            }
            push_str(out, ", else_branch: ");
            proof {
                lemma_concat_associative(prefix, acc, ", else_branch: "@);
                acc = acc + ", else_branch: "@;
            }
            write_opt_nodes(out, else_branch);
            proof {
                lemma_concat_associative(prefix, acc, opt_nodes_text(*else_branch));
                acc = acc + opt_nodes_text(*else_branch);
            }
            push_str(out, ", span: ");
            proof {
                lemma_concat_associative(prefix, acc, ", span: "@);
                acc = acc + ", span: "@;
            }
            write_span(out, span);
            proof {
                lemma_concat_associative(prefix, acc, span_text(*span));
                acc = acc + span_text(*span);
            }
            push_str(out, " }");
            proof {
                lemma_concat_associative(prefix, acc, " }"@);
                acc = acc + " }"@;
            }
            assert(acc == node_text(*n));
        },
        AstNode::ForStmt { variable, iterable, body, span } => {
            push_str(out, "ForStmt { variable: ");
            let ghost mut acc: Seq<char> = "ForStmt { variable: "@;
            write_str_debug(out, variable);
            proof {
                lemma_concat_associative(prefix, acc, str_debug_text(variable@));
                acc = acc + str_debug_text(variable@);
            }
            push_str(out, ", iterable: ");
            proof {
                lemma_concat_associative(prefix, acc, ", iterable: "@);
                acc = acc + ", iterable: "@;
            }
            write_node(out, &**iterable);
            proof {
                lemma_concat_associative(prefix, acc, node_text(**iterable));
                acc = acc + node_text(**iterable);
            }
            push_str(out, ", body: ");
            proof {
                lemma_concat_associative(prefix, acc, ", body: "@);
                acc = acc + ", body: "@;
            }
            write_nodes(out, body);
            proof {
                lemma_concat_associative(prefix, acc, nodes_text(body@));
                acc = acc + nodes_text(body@);
            }
            push_str(out, ", span: ");
            proof {
                lemma_concat_associative(prefix, acc, ", span: "@);
                acc = acc + ", span: "@;
            }
            write_span(out, span);
            proof {
                lemma_concat_associative(prefix, acc, span_text(*span));
                acc = acc + span_text(*span);
            }
            push_str(out, " }");
            proof {
                lemma_concat_associative(prefix, acc, " }"@);
                acc = acc + " }"@;
            }
            assert(acc == node_text(*n));
        },
        _ => {},
    }
}

fn write_node_1(out: &mut String, n: &AstNode)
    requires
        n is WhileStmt || n is ChantDef || n is FormDef || n is VariantDef || n is AspectDef,
    ensures
        final(out)@ == old(out)@ + node_text(*n),
    decreases n, 0nat,
{
    let ghost prefix = out@;
    match n {
        AstNode::WhileStmt { condition, body, span } => {
            push_str(out, "WhileStmt { condition: ");
            let ghost mut acc: Seq<char> = "WhileStmt { condition: "@;
            write_node(out, &**condition);
            proof {
                lemma_concat_associative(prefix, acc, node_text(**condition));
                acc = acc + node_text(**condition);
            }
            push_str(out, ", body: ");
            proof {
                lemma_concat_associative(prefix, acc, ", body: "@);
                acc = acc + ", body: "@;
            }
            write_nodes(out, body);
            proof {
                lemma_concat_associative(prefix, acc, nodes_text(body@));
                acc = acc + nodes_text(body@);
            }
            push_str(out, ", span: ");
            proof {
                lemma_concat_associative(prefix, acc, ", span: "@);
                acc = acc + ", span: "@;
            }
            write_span(out, span);
            proof {
                lemma_concat_associative(prefix, acc, span_text(*span));
                acc = acc + span_text(*span);
            }
            push_str(out, " }");
            proof {
                lemma_concat_associative(prefix, acc, " }"@);
                acc = acc + " }"@;
            }
            assert(acc == node_text(*n));
        },
        AstNode::ChantDef { name, type_params, lifetime_params, params, return_type, body, span } => {
            push_str(out, "ChantDef { name: ");
            let ghost mut acc: Seq<char> = "ChantDef { name: "@;
            write_str_debug(out, name);
            proof {
                lemma_concat_associative(prefix, acc, str_debug_text(name@));
                acc = acc + str_debug_text(name@);
            }
            push_str(out, ", type_params: ");
            proof {
                lemma_concat_associative(prefix, acc, ", type_params: "@);
                acc = acc + ", type_params: "@;
            }
            write_strs(out, type_params);
            proof {
                lemma_concat_associative(prefix, acc, strs_text(type_params@));
                acc = acc + strs_text(type_params@);
            }
            push_str(out, ", lifetime_params: ");
            proof {
                lemma_concat_associative(prefix, acc, ", lifetime_params: "@);
                acc = acc + ", lifetime_params: "@;
            }
            write_lifetimes(out, lifetime_params);
            proof {
                lemma_concat_associative(prefix, acc, lifetimes_text(lifetime_params@));
                acc = acc + lifetimes_text(lifetime_params@);
            }
            push_str(out, ", params: ");
            proof {
                lemma_concat_associative(prefix, acc, ", params: "@);
                acc = acc + ", params: "@;
            }
            write_params(out, params);
            proof {
                lemma_concat_associative(prefix, acc, params_text(params@));
                acc = acc + params_text(params@);
            }
            push_str(out, ", return_type: ");
            proof {
                lemma_concat_associative(prefix, acc, ", return_type: "@);
                acc = acc + ", return_type: "@;
            }
            write_opt_type(out, return_type);
            proof {
                lemma_concat_associative(prefix, acc, opt_type_text(*return_type));
                acc = acc + opt_type_text(*return_type);
            }
            push_str(out, ", body: ");
            proof {
                lemma_concat_associative(prefix, acc, ", body: "@);
                acc = acc + ", body: "@;
            }
            write_nodes(out, body);
            proof {
                lemma_concat_associative(prefix, acc, nodes_text(body@));
                acc = acc + nodes_text(body@);
            }
            push_str(out, ", span: ");
            proof {
                lemma_concat_associative(prefix, acc, ", span: "@);
                acc = acc + ", span: "@;
            }
            write_span(out, span);
            proof {
                lemma_concat_associative(prefix, acc, span_text(*span));
                acc = acc + span_text(*span);
            }
            push_str(out, " }");
            proof {
                lemma_concat_associative(prefix, acc, " }"@);
                acc = acc + " }"@;
            }
            assert(acc == node_text(*n));
        },
        AstNode::FormDef { name, type_params, fields, span } => {
            push_str(out, "FormDef { name: ");
            let ghost mut acc: Seq<char> = "FormDef { name: "@;
            write_str_debug(out, name);
            proof {
                lemma_concat_associative(prefix, acc, str_debug_text(name@));
                acc = acc + str_debug_text(name@);
            }
            push_str(out, ", type_params: ");
            proof {
                lemma_concat_associative(prefix, acc, ", type_params: "@);
                acc = acc + ", type_params: "@;
            }
            write_strs(out, type_params);
            proof {
                lemma_concat_associative(prefix, acc, strs_text(type_params@));
                acc = acc + strs_text(type_params@);
            }
            push_str(out, ", fields: ");
            proof {
                lemma_concat_associative(prefix, acc, ", fields: "@);
                acc = acc + ", fields: "@;
            }
            write_struct_fields(out, fields);
            proof {
                lemma_concat_associative(prefix, acc, struct_fields_text(fields@));
                acc = acc + struct_fields_text(fields@);
            }
            push_str(out, ", span: ");
            proof {
                lemma_concat_associative(prefix, acc, ", span: "@);
                acc = acc + ", span: "@;
            }
            write_span(out, span);
            proof {
                lemma_concat_associative(prefix, acc, span_text(*span));
                acc = acc + span_text(*span);
            }
            push_str(out, " }");
            proof {
                lemma_concat_associative(prefix, acc, " }"@);
                acc = acc + " }"@;
            }
            assert(acc == node_text(*n));
        },
        AstNode::VariantDef { name, type_params, variants, span } => {
            push_str(out, "VariantDef { name: ");
            let ghost mut acc: Seq<char> = "VariantDef { name: "@;
            write_str_debug(out, name);
            proof {
                lemma_concat_associative(prefix, acc, str_debug_text(name@));
                acc = acc + str_debug_text(name@);
            }
            push_str(out, ", type_params: ");
            proof {
                lemma_concat_associative(prefix, acc, ", type_params: "@);
                acc = acc + ", type_params: "@;
            }
            write_strs(out, type_params);
            proof {
                lemma_concat_associative(prefix, acc, strs_text(type_params@));
                acc = acc + strs_text(type_params@);
            }
            push_str(out, ", variants: ");
            proof {
                lemma_concat_associative(prefix, acc, ", variants: "@);
                acc = acc + ", variants: "@;
            }
            write_variant_cases(out, variants);
            proof {
                lemma_concat_associative(prefix, acc, variant_cases_text(variants@));
                acc = acc + variant_cases_text(variants@);
            }
            push_str(out, ", span: ");
            proof {
                lemma_concat_associative(prefix, acc, ", span: "@);
                acc = acc + ", span: "@;
            }
            write_span(out, span);
            proof {
                lemma_concat_associative(prefix, acc, span_text(*span));
                acc = acc + span_text(*span);
            }
            push_str(out, " }");
            proof {
                lemma_concat_associative(prefix, acc, " }"@);
                acc = acc + " }"@;
            }
            assert(acc == node_text(*n));
        },
        AstNode::AspectDef { name, type_params, methods, span } => {
            push_str(out, "AspectDef { name: ");
            let ghost mut acc: Seq<char> = "AspectDef { name: "@;
            write_str_debug(out, name);
            proof {
                lemma_concat_associative(prefix, acc, str_debug_text(name@));
                acc = acc + str_debug_text(name@);
            }
            push_str(out, ", type_params: ");
            proof {
                lemma_concat_associative(prefix, acc, ", type_params: "@);
                acc = acc + ", type_params: "@;
            }
            write_strs(out, type_params);
            proof {
                lemma_concat_associative(prefix, acc, strs_text(type_params@));
                acc = acc + strs_text(type_params@);
            }
            push_str(out, ", methods: ");
            proof {
                lemma_concat_associative(prefix, acc, ", methods: "@);
                acc = acc + ", methods: "@;
            }
            write_trait_methods(out, methods);
            proof {
                lemma_concat_associative(prefix, acc, trait_methods_text(methods@));
                acc = acc + trait_methods_text(methods@);
            }
            push_str(out, ", span: ");
            proof {
                lemma_concat_associative(prefix, acc, ", span: "@);
                acc = acc + ", span: "@;
            }
            write_span(out, span);
            proof {
                lemma_concat_associative(prefix, acc, span_text(*span));
                acc = acc + span_text(*span);
            }
            push_str(out, " }");
            proof {
                lemma_concat_associative(prefix, acc, " }"@);
                acc = acc + " }"@;
            }
            assert(acc == node_text(*n));
        },
        _ => {},
    }
}

fn write_node_2(out: &mut String, n: &AstNode)
    requires
        n is EmbodyStmt || n is YieldStmt || n is MatchStmt || n is AttemptStmt || n is RequestStmt,
    ensures
        final(out)@ == old(out)@ + node_text(*n),
    decreases n, 0nat,
{
    let ghost prefix = out@;
    match n {
        AstNode::EmbodyStmt { aspect_name, type_args, target_type, methods, span } => {
            push_str(out, "EmbodyStmt { aspect_name: ");
            let ghost mut acc: Seq<char> = "EmbodyStmt { aspect_name: "@;
            write_str_debug(out, aspect_name);
            proof {
                lemma_concat_associative(prefix, acc, str_debug_text(aspect_name@));
                acc = acc + str_debug_text(aspect_name@);
            }
            push_str(out, ", type_args: ");
            proof {
                lemma_concat_associative(prefix, acc, ", type_args: "@);
                acc = acc + ", type_args: "@;
            }
            write_types(out, type_args);
            proof {
                lemma_concat_associative(prefix, acc, types_text(type_args@));
                acc = acc + types_text(type_args@);
            }
            push_str(out, ", target_type: ");
            proof {
                lemma_concat_associative(prefix, acc, ", target_type: "@);
                acc = acc + ", target_type: "@;
            }
            write_type(out, target_type);
            proof {
                lemma_concat_associative(prefix, acc, type_text(*target_type));
                acc = acc + type_text(*target_type);
            }
            push_str(out, ", methods: ");
            proof {
                lemma_concat_associative(prefix, acc, ", methods: "@);
                acc = acc + ", methods: "@;
            }
            write_nodes(out, methods);
            proof {
                lemma_concat_associative(prefix, acc, nodes_text(methods@));
                acc = acc + nodes_text(methods@);
            }
            push_str(out, ", span: ");
            proof {
                lemma_concat_associative(prefix, acc, ", span: "@);
                acc = acc + ", span: "@;
            }
            write_span(out, span);
            proof {
                lemma_concat_associative(prefix, acc, span_text(*span));
                acc = acc + span_text(*span);
            }
            push_str(out, " }");
            proof {
                lemma_concat_associative(prefix, acc, " }"@);
                acc = acc + " }"@;
            }
            assert(acc == node_text(*n));
        },
        AstNode::YieldStmt { value, span } => {
            push_str(out, "YieldStmt { value: ");
            let ghost mut acc: Seq<char> = "YieldStmt { value: "@;
            write_node(out, &**value);
            proof {
                lemma_concat_associative(prefix, acc, node_text(**value));
                acc = acc + node_text(**value);
            }
            push_str(out, ", span: ");
            proof {
                lemma_concat_associative(prefix, acc, ", span: "@);
                acc = acc + ", span: "@;
            }
            write_span(out, span);
            proof {
                lemma_concat_associative(prefix, acc, span_text(*span));
                acc = acc + span_text(*span);
            }
            push_str(out, " }");
            proof {
                lemma_concat_associative(prefix, acc, " }"@);
                acc = acc + " }"@;
            }
            assert(acc == node_text(*n));
        },
        AstNode::MatchStmt { value, arms, span } => {
            push_str(out, "MatchStmt { value: ");
            let ghost mut acc: Seq<char> = "MatchStmt { value: "@;
            write_node(out, &**value);
            proof {
                lemma_concat_associative(prefix, acc, node_text(**value));
                acc = acc + node_text(**value);
            }
            push_str(out, ", arms: ");
            proof {
                lemma_concat_associative(prefix, acc, ", arms: "@);
                acc = acc + ", arms: "@;
            }
            write_arms(out, arms);
            proof {
                lemma_concat_associative(prefix, acc, arms_text(arms@));
                acc = acc + arms_text(arms@);
            }
            push_str(out, ", span: ");
            proof {
                lemma_concat_associative(prefix, acc, ", span: "@);
                acc = acc + ", span: "@;
            }
            write_span(out, span);
            proof {
                lemma_concat_associative(prefix, acc, span_text(*span));
                acc = acc + span_text(*span);
            }
            push_str(out, " }");
            proof {
                lemma_concat_associative(prefix, acc, " }"@);
                acc = acc + " }"@;
            }
            assert(acc == node_text(*n));
        },
        AstNode::AttemptStmt { body, handlers, span } => {
            push_str(out, "AttemptStmt { body: ");
            let ghost mut acc: Seq<char> = "AttemptStmt { body: "@;
            write_nodes(out, body);
            proof {
                lemma_concat_associative(prefix, acc, nodes_text(body@));
                acc = acc + nodes_text(body@);
            }
            push_str(out, ", handlers: ");
            proof {
                lemma_concat_associative(prefix, acc, ", handlers: "@);
                acc = acc + ", handlers: "@;
            }
            write_handlers(out, handlers);
            proof {
                lemma_concat_associative(prefix, acc, handlers_text(handlers@));
                acc = acc + handlers_text(handlers@);
            }
            push_str(out, ", span: ");
            proof {
                lemma_concat_associative(prefix, acc, ", span: "@);
                acc = acc + ", span: "@;
            }
            write_span(out, span);
            proof {
                lemma_concat_associative(prefix, acc, span_text(*span));
                acc = acc + span_text(*span);
            }
            push_str(out, " }");
            proof {
                lemma_concat_associative(prefix, acc, " }"@);
                acc = acc + " }"@;
            }
            assert(acc == node_text(*n));
        },
        AstNode::RequestStmt { capability, justification, span } => {
            push_str(out, "RequestStmt { capability: ");
            let ghost mut acc: Seq<char> = "RequestStmt { capability: "@;
            write_node(out, &**capability);
            proof {
                lemma_concat_associative(prefix, acc, node_text(**capability));
                acc = acc + node_text(**capability);
            }
            push_str(out, ", justification: ");
            proof {
                lemma_concat_associative(prefix, acc, ", justification: "@);
                acc = acc + ", justification: "@;
            }
            write_str_debug(out, justification);
            proof {
                lemma_concat_associative(prefix, acc, str_debug_text(justification@));
                acc = acc + str_debug_text(justification@);
            }
            push_str(out, ", span: ");
            proof {
                lemma_concat_associative(prefix, acc, ", span: "@);
                acc = acc + ", span: "@;
            }
            write_span(out, span);
            proof {
                lemma_concat_associative(prefix, acc, span_text(*span));
                acc = acc + span_text(*span);
            }
            push_str(out, " }");
            proof {
                lemma_concat_associative(prefix, acc, " }"@);
                acc = acc + " }"@;
            }
            assert(acc == node_text(*n));
        },
        _ => {},
    }
}

fn write_node_3(out: &mut String, n: &AstNode)
    requires
        n is ModuleDecl || n is Import || n is Export || n is Number || n is Text,
    ensures
        final(out)@ == old(out)@ + node_text(*n),
    decreases n, 0nat,
{
    let ghost prefix = out@;
    match n {
        AstNode::ModuleDecl { name, body, exports, span } => {
            push_str(out, "ModuleDecl { name: ");
            let ghost mut acc: Seq<char> = "ModuleDecl { name: "@;
            write_str_debug(out, name);
            proof {
                lemma_concat_associative(prefix, acc, str_debug_text(name@));
                acc = acc + str_debug_text(name@);
            }
            push_str(out, ", body: ");
            proof {
                lemma_concat_associative(prefix, acc, ", body: "@);
                acc = acc + ", body: "@;
            }
            write_nodes(out, body);
            proof {
                lemma_concat_associative(prefix, acc, nodes_text(body@));
                acc = acc + nodes_text(body@);
            }
            push_str(out, ", exports: ");
            proof {
                lemma_concat_associative(prefix, acc, ", exports: "@);
                acc = acc + ", exports: "@;
            }
            write_strs(out, exports);
            proof {
                lemma_concat_associative(prefix, acc, strs_text(exports@));
                acc = acc + strs_text(exports@);
            }
            push_str(out, ", span: ");
            proof {
                lemma_concat_associative(prefix, acc, ", span: "@);
                acc = acc + ", span: "@;
            }
            write_span(out, span);
            proof {
                lemma_concat_associative(prefix, acc, span_text(*span));
                acc = acc + span_text(*span);
            }
            push_str(out, " }");
            proof {
                lemma_concat_associative(prefix, acc, " }"@);
                acc = acc + " }"@;
            }
            assert(acc == node_text(*n));
        },
        AstNode::Import { module_name, path, items, alias, span } => {
            push_str(out, "Import { module_name: ");
            let ghost mut acc: Seq<char> = "Import { module_name: "@;
            write_str_debug(out, module_name);
            proof {
                lemma_concat_associative(prefix, acc, str_debug_text(module_name@));
                acc = acc + str_debug_text(module_name@);
            }
            push_str(out, ", path: ");
            proof {
                lemma_concat_associative(prefix, acc, ", path: "@);
                acc = acc + ", path: "@;
            }
            write_str_debug(out, path);
            proof {
                lemma_concat_associative(prefix, acc, str_debug_text(path@));
                acc = acc + str_debug_text(path@);
            }
            push_str(out, ", items: ");
            proof {
                lemma_concat_associative(prefix, acc, ", items: "@);
                acc = acc + ", items: "@;
            }
            write_opt_strs(out, items);
            proof {
                lemma_concat_associative(prefix, acc, opt_strs_text(*items));
                acc = acc + opt_strs_text(*items);
            }
            push_str(out, ", alias: ");
            proof {
                lemma_concat_associative(prefix, acc, ", alias: "@);
                acc = acc + ", alias: "@;
            }
            write_opt_str(out, alias);
            proof {
                lemma_concat_associative(prefix, acc, opt_str_text(*alias));
                acc = acc + opt_str_text(*alias);
            }
            push_str(out, ", span: ");
            proof {
                lemma_concat_associative(prefix, acc, ", span: "@);
                acc = acc + ", span: "@;
            }
            write_span(out, span);
            proof {
                lemma_concat_associative(prefix, acc, span_text(*span));
                acc = acc + span_text(*span);
            }
            push_str(out, " }");
            proof {
                lemma_concat_associative(prefix, acc, " }"@);
                acc = acc + " }"@;
            }
            assert(acc == node_text(*n));
        },
        AstNode::Export { items, span } => {
            push_str(out, "Export { items: ");
            let ghost mut acc: Seq<char> = "Export { items: "@;
            write_strs(out, items);
            proof {
                lemma_concat_associative(prefix, acc, strs_text(items@));
                acc = acc + strs_text(items@);
            }
            push_str(out, ", span: ");
            proof {
                lemma_concat_associative(prefix, acc, ", span: "@);
                acc = acc + ", span: "@;
            }
            write_span(out, span);
            proof {
                lemma_concat_associative(prefix, acc, span_text(*span));
                acc = acc + span_text(*span);
            }
            push_str(out, " }");
            proof {
                lemma_concat_associative(prefix, acc, " }"@);
                acc = acc + " }"@;
            }
            assert(acc == node_text(*n));
        },
        AstNode::Number { value, span } => {
            push_str(out, "Number { value: ");
            let ghost mut acc: Seq<char> = "Number { value: "@;
            push_str(out, value.as_str());
            proof {
                lemma_concat_associative(prefix, acc, value@);
                acc = acc + value@;
            }
            push_str(out, ", span: ");
            proof {
                lemma_concat_associative(prefix, acc, ", span: "@);
                acc = acc + ", span: "@;
            }
            write_span(out, span);
            proof {
                lemma_concat_associative(prefix, acc, span_text(*span));
                acc = acc + span_text(*span);
            }
            push_str(out, " }");
            proof {
                lemma_concat_associative(prefix, acc, " }"@);
                acc = acc + " }"@;
            }
            assert(acc == node_text(*n));
        },
        AstNode::Text { value, span } => {
            push_str(out, "Text { value: ");
            let ghost mut acc: Seq<char> = "Text { value: "@;
            write_str_debug(out, value);
            proof {
                lemma_concat_associative(prefix, acc, str_debug_text(value@));
                acc = acc + str_debug_text(value@);
            }
            push_str(out, ", span: ");
            proof {
                lemma_concat_associative(prefix, acc, ", span: "@);
                acc = acc + ", span: "@;
            }
            write_span(out, span);
            proof {
                lemma_concat_associative(prefix, acc, span_text(*span));
                acc = acc + span_text(*span);
            }
            push_str(out, " }");
            proof {
                lemma_concat_associative(prefix, acc, " }"@);
                acc = acc + " }"@;
            }
            assert(acc == node_text(*n));
        },
        _ => {},
    }
}

fn write_node_4(out: &mut String, n: &AstNode)
    requires
        n is Truth || n is Nothing || n is Ident || n is Triumph || n is Mishap,
    ensures
        final(out)@ == old(out)@ + node_text(*n),
    decreases n, 0nat,
{
    let ghost prefix = out@;
    match n {
        AstNode::Truth { value, span } => {
            push_str(out, "Truth { value: ");
            let ghost mut acc: Seq<char> = "Truth { value: "@;
            push_str(out, if *value { "true" } else { "false" });
            proof {
                lemma_concat_associative(prefix, acc, bool_text(*value));
                acc = acc + bool_text(*value);
            }
            push_str(out, ", span: ");
            proof {
                lemma_concat_associative(prefix, acc, ", span: "@);
                acc = acc + ", span: "@;
            }
            write_span(out, span);
            proof {
                lemma_concat_associative(prefix, acc, span_text(*span));
                acc = acc + span_text(*span);
            }
            push_str(out, " }");
            proof {
                lemma_concat_associative(prefix, acc, " }"@);
                acc = acc + " }"@;
            }
            assert(acc == node_text(*n));
        },
        AstNode::Nothing { span } => {
            push_str(out, "Nothing { span: ");
            let ghost mut acc: Seq<char> = "Nothing { span: "@;
            write_span(out, span);
            proof {
                lemma_concat_associative(prefix, acc, span_text(*span));
                acc = acc + span_text(*span);
            }
            push_str(out, " }");
            proof {
                lemma_concat_associative(prefix, acc, " }"@);
                acc = acc + " }"@;
            }
            assert(acc == node_text(*n));
        },
        AstNode::Ident { name, span } => {
            push_str(out, "Ident { name: ");
            let ghost mut acc: Seq<char> = "Ident { name: "@;
            write_str_debug(out, name);
            proof {
                lemma_concat_associative(prefix, acc, str_debug_text(name@));
                acc = acc + str_debug_text(name@);
            }
            push_str(out, ", span: ");
            proof {
                lemma_concat_associative(prefix, acc, ", span: "@);
                acc = acc + ", span: "@;
            }
            write_span(out, span);
            proof {
                lemma_concat_associative(prefix, acc, span_text(*span));
                acc = acc + span_text(*span);
            }
            push_str(out, " }");
            proof {
                lemma_concat_associative(prefix, acc, " }"@);
                acc = acc + " }"@;
            }
            assert(acc == node_text(*n));
        },
        AstNode::Triumph { value, span } => {
            push_str(out, "Triumph { value: ");
            let ghost mut acc: Seq<char> = "Triumph { value: "@;
            write_node(out, &**value);
            proof {
                lemma_concat_associative(prefix, acc, node_text(**value));
                acc = acc + node_text(**value);
            }
            push_str(out, ", span: ");
            proof {
                lemma_concat_associative(prefix, acc, ", span: "@);
                acc = acc + ", span: "@;
            }
            write_span(out, span);
            proof {
                lemma_concat_associative(prefix, acc, span_text(*span));
                acc = acc + span_text(*span);
            }
            push_str(out, " }");
            proof {
                lemma_concat_associative(prefix, acc, " }"@);
                acc = acc + " }"@;
            }
            assert(acc == node_text(*n));
        },
        AstNode::Mishap { value, span } => {
            push_str(out, "Mishap { value: ");
            let ghost mut acc: Seq<char> = "Mishap { value: "@;
            write_node(out, &**value);
            proof {
                lemma_concat_associative(prefix, acc, node_text(**value));
                acc = acc + node_text(**value);
            }
            push_str(out, ", span: ");
            proof {
                lemma_concat_associative(prefix, acc, ", span: "@);
                acc = acc + ", span: "@;
            }
            write_span(out, span);
            proof {
                lemma_concat_associative(prefix, acc, span_text(*span));
                acc = acc + span_text(*span);
            }
            push_str(out, " }");
            proof {
                lemma_concat_associative(prefix, acc, " }"@);
                acc = acc + " }"@;
            }
            assert(acc == node_text(*n));
        },
        _ => {},
    }
}

fn write_node_5(out: &mut String, n: &AstNode)
    requires
        n is Present || n is Absent || n is List || n is MapLiteral || n is StructLiteral,
    ensures
        final(out)@ == old(out)@ + node_text(*n),
    decreases n, 0nat,
{
    let ghost prefix = out@;
    match n {
        AstNode::Present { value, span } => {
            push_str(out, "Present { value: ");
            let ghost mut acc: Seq<char> = "Present { value: "@;
            write_node(out, &**value);
            proof {
                lemma_concat_associative(prefix, acc, node_text(**value));
                acc = acc + node_text(**value);
            }
            push_str(out, ", span: ");
            proof {
                lemma_concat_associative(prefix, acc, ", span: "@);
                acc = acc + ", span: "@;
            }
            write_span(out, span);
            proof {
                lemma_concat_associative(prefix, acc, span_text(*span));
                acc = acc + span_text(*span);
            }
            push_str(out, " }");
            proof {
                lemma_concat_associative(prefix, acc, " }"@);
                acc = acc + " }"@;
            }
            assert(acc == node_text(*n));
        },
        AstNode::Absent { span } => {
            push_str(out, "Absent { span: ");
            let ghost mut acc: Seq<char> = "Absent { span: "@;
            write_span(out, span);
            proof {
                lemma_concat_associative(prefix, acc, span_text(*span));
                acc = acc + span_text(*span);
            }
            push_str(out, " }");
            proof {
                lemma_concat_associative(prefix, acc, " }"@);
                acc = acc + " }"@;
            }
            assert(acc == node_text(*n));
        },
        AstNode::List { elements, span } => {
            push_str(out, "List { elements: ");
            let ghost mut acc: Seq<char> = "List { elements: "@;
            write_nodes(out, elements);
            proof {
                lemma_concat_associative(prefix, acc, nodes_text(elements@));
                acc = acc + nodes_text(elements@);
            }
            push_str(out, ", span: ");
            proof {
                lemma_concat_associative(prefix, acc, ", span: "@);
                acc = acc + ", span: "@;
            }
            write_span(out, span);
            proof {
                lemma_concat_associative(prefix, acc, span_text(*span));
                acc = acc + span_text(*span);
            }
            push_str(out, " }");
            proof {
                lemma_concat_associative(prefix, acc, " }"@);
                acc = acc + " }"@;
            }
            assert(acc == node_text(*n));
        },
        AstNode::MapLiteral { entries, span } => {
            push_str(out, "Map { entries: ");
            let ghost mut acc: Seq<char> = "Map { entries: "@;
            write_pairs(out, entries);
            proof {
                lemma_concat_associative(prefix, acc, pairs_text(entries@));
                acc = acc + pairs_text(entries@);
            }
            push_str(out, ", span: ");
            proof {
                lemma_concat_associative(prefix, acc, ", span: "@);
                acc = acc + ", span: "@;
            }
            write_span(out, span);
            proof {
                lemma_concat_associative(prefix, acc, span_text(*span));
                acc = acc + span_text(*span);
            }
            push_str(out, " }");
            proof {
                lemma_concat_associative(prefix, acc, " }"@);
                acc = acc + " }"@;
            }
            assert(acc == node_text(*n));
        },
        AstNode::StructLiteral { struct_name, type_args, fields, span } => {
            push_str(out, "StructLiteral { struct_name: ");
            let ghost mut acc: Seq<char> = "StructLiteral { struct_name: "@;
            write_str_debug(out, struct_name);
            proof {
                lemma_concat_associative(prefix, acc, str_debug_text(struct_name@));
                acc = acc + str_debug_text(struct_name@);
            }
            push_str(out, ", type_args: ");
            proof {
                lemma_concat_associative(prefix, acc, ", type_args: "@);
                acc = acc + ", type_args: "@;
            }
            write_types(out, type_args);
            proof {
                lemma_concat_associative(prefix, acc, types_text(type_args@));
                acc = acc + types_text(type_args@);
            }
            push_str(out, ", fields: ");
            proof {
                lemma_concat_associative(prefix, acc, ", fields: "@);
                acc = acc + ", fields: "@;
            }
            write_pairs(out, fields);
            proof {
                lemma_concat_associative(prefix, acc, pairs_text(fields@));
                acc = acc + pairs_text(fields@);
            }
            push_str(out, ", span: ");
            proof {
                lemma_concat_associative(prefix, acc, ", span: "@);
                acc = acc + ", span: "@;
            }
            write_span(out, span);
            proof {
                lemma_concat_associative(prefix, acc, span_text(*span));
                acc = acc + span_text(*span);
            }
            push_str(out, " }");
            proof {
                lemma_concat_associative(prefix, acc, " }"@);
                acc = acc + " }"@;
            }
            assert(acc == node_text(*n));
        },
        _ => {},
    }
}

fn write_node_6(out: &mut String, n: &AstNode)
    requires
        n is BinaryOp || n is UnaryOp || n is BorrowExpr || n is Call || n is FieldAccess,
    ensures
        final(out)@ == old(out)@ + node_text(*n),
    decreases n, 0nat,
{
    let ghost prefix = out@;
    match n {
        AstNode::BinaryOp { left, op, right, span } => {
            push_str(out, "BinaryOp { left: ");
            let ghost mut acc: Seq<char> = "BinaryOp { left: "@;
            write_node(out, &**left);
            proof {
                lemma_concat_associative(prefix, acc, node_text(**left));
                acc = acc + node_text(**left);
            }
            push_str(out, ", op: ");
            proof {
                lemma_concat_associative(prefix, acc, ", op: "@);
                acc = acc + ", op: "@;
            }
            push_str(out, binop_name(op));
            proof {
                lemma_concat_associative(prefix, acc, binop_text(*op));
                acc = acc + binop_text(*op);
            }
            push_str(out, ", right: ");
            proof {
                lemma_concat_associative(prefix, acc, ", right: "@);
                acc = acc + ", right: "@;
            }
            write_node(out, &**right);
            proof {
                lemma_concat_associative(prefix, acc, node_text(**right));
                acc = acc + node_text(**right);
            }
            push_str(out, ", span: ");
            proof {
                lemma_concat_associative(prefix, acc, ", span: "@);
                acc = acc + ", span: "@;
            }
            write_span(out, span);
            proof {
                lemma_concat_associative(prefix, acc, span_text(*span));
                acc = acc + span_text(*span);
            }
            push_str(out, " }");
            proof {
                lemma_concat_associative(prefix, acc, " }"@);
                acc = acc + " }"@;
            }
            assert(acc == node_text(*n));
        },
        AstNode::UnaryOp { op, operand, span } => {
            push_str(out, "UnaryOp { op: ");
            let ghost mut acc: Seq<char> = "UnaryOp { op: "@;
            push_str(out, unop_name(op));
            proof {
                lemma_concat_associative(prefix, acc, unop_text(*op));
                acc = acc + unop_text(*op);
            }
            push_str(out, ", operand: ");
            proof {
                lemma_concat_associative(prefix, acc, ", operand: "@);
                acc = acc + ", operand: "@;
            }
            write_node(out, &**operand);
            proof {
                lemma_concat_associative(prefix, acc, node_text(**operand));
                acc = acc + node_text(**operand);
            }
            push_str(out, ", span: ");
            proof {
                lemma_concat_associative(prefix, acc, ", span: "@);
                acc = acc + ", span: "@;
            }
            write_span(out, span);
            proof {
                lemma_concat_associative(prefix, acc, span_text(*span));
                acc = acc + span_text(*span);
            }
            push_str(out, " }");
            proof {
                lemma_concat_associative(prefix, acc, " }"@);
                acc = acc + " }"@;
            }
            assert(acc == node_text(*n));
        },
        AstNode::BorrowExpr { value, mutable, span } => {
            push_str(out, "BorrowExpr { value: ");
            let ghost mut acc: Seq<char> = "BorrowExpr { value: "@;
            write_node(out, &**value);
            proof {
                lemma_concat_associative(prefix, acc, node_text(**value));
                acc = acc + node_text(**value);
            }
            push_str(out, ", mutable: ");
            proof {
                lemma_concat_associative(prefix, acc, ", mutable: "@);
                acc = acc + ", mutable: "@;
            }
            push_str(out, if *mutable { "true" } else { "false" });
            proof {
                lemma_concat_associative(prefix, acc, bool_text(*mutable));
                acc = acc + bool_text(*mutable);
            }
            push_str(out, ", span: ");
            proof {
                lemma_concat_associative(prefix, acc, ", span: "@);
                acc = acc + ", span: "@;
            }
            write_span(out, span);
            proof {
                lemma_concat_associative(prefix, acc, span_text(*span));
                acc = acc + span_text(*span);
            }
            push_str(out, " }");
            proof {
                lemma_concat_associative(prefix, acc, " }"@);
                acc = acc + " }"@;
            }
            assert(acc == node_text(*n));
        },
        AstNode::Call { callee, type_args, args, span } => {
            push_str(out, "Call { callee: ");
            let ghost mut acc: Seq<char> = "Call { callee: "@;
            write_node(out, &**callee);
            proof {
                lemma_concat_associative(prefix, acc, node_text(**callee));
                acc = acc + node_text(**callee);
            }
            push_str(out, ", type_args: ");
            proof {
                lemma_concat_associative(prefix, acc, ", type_args: "@);
                acc = acc + ", type_args: "@;
            }
            write_types(out, type_args);
            proof {
                lemma_concat_associative(prefix, acc, types_text(type_args@));
                acc = acc + types_text(type_args@);
            }
            push_str(out, ", args: ");
            proof {
                lemma_concat_associative(prefix, acc, ", args: "@);
                acc = acc + ", args: "@;
            }
            write_nodes(out, args);
            proof {
                lemma_concat_associative(prefix, acc, nodes_text(args@));
                acc = acc + nodes_text(args@);
            }
            push_str(out, ", span: ");
            proof {
                lemma_concat_associative(prefix, acc, ", span: "@);
                acc = acc + ", span: "@;
            }
            write_span(out, span);
            proof {
                lemma_concat_associative(prefix, acc, span_text(*span));
                acc = acc + span_text(*span);
            }
            push_str(out, " }");
            proof {
                lemma_concat_associative(prefix, acc, " }"@);
                acc = acc + " }"@;
            }
            assert(acc == node_text(*n));
        },
        AstNode::FieldAccess { object, field, span } => {
            push_str(out, "FieldAccess { object: ");
            let ghost mut acc: Seq<char> = "FieldAccess { object: "@;
            write_node(out, &**object);
            proof {
                lemma_concat_associative(prefix, acc, node_text(**object));
                acc = acc + node_text(**object);
            }
            push_str(out, ", field: ");
            proof {
                lemma_concat_associative(prefix, acc, ", field: "@);
                acc = acc + ", field: "@;
            }
            write_str_debug(out, field);
            proof {
                lemma_concat_associative(prefix, acc, str_debug_text(field@));
                acc = acc + str_debug_text(field@);
            }
            push_str(out, ", span: ");
            proof {
                lemma_concat_associative(prefix, acc, ", span: "@);
                acc = acc + ", span: "@;
            }
            write_span(out, span);
            proof {
                lemma_concat_associative(prefix, acc, span_text(*span));
                acc = acc + span_text(*span);
            }
            push_str(out, " }");
            proof {
                lemma_concat_associative(prefix, acc, " }"@);
                acc = acc + " }"@;
            }
            assert(acc == node_text(*n));
        },
        _ => {},
    }
}

fn write_node_7(out: &mut String, n: &AstNode)
    requires
        n is ModuleAccess || n is IndexAccess || n is Range || n is Pipeline || n is SeekExpr,
    ensures
        final(out)@ == old(out)@ + node_text(*n),
    decreases n, 0nat,
{
    let ghost prefix = out@;
    match n {
        AstNode::ModuleAccess { module, member, span } => {
            push_str(out, "ModuleAccess { module: ");
            let ghost mut acc: Seq<char> = "ModuleAccess { module: "@;
            write_str_debug(out, module);
            proof {
                lemma_concat_associative(prefix, acc, str_debug_text(module@));
                acc = acc + str_debug_text(module@);
            }
            push_str(out, ", member: ");
            proof {
                lemma_concat_associative(prefix, acc, ", member: "@);
                acc = acc + ", member: "@;
            }
            write_str_debug(out, member);
            proof {
                lemma_concat_associative(prefix, acc, str_debug_text(member@));
                acc = acc + str_debug_text(member@);
            }
            push_str(out, ", span: ");
            proof {
                lemma_concat_associative(prefix, acc, ", span: "@);
                acc = acc + ", span: "@;
            }
            write_span(out, span);
            proof {
                lemma_concat_associative(prefix, acc, span_text(*span));
                acc = acc + span_text(*span);
            }
            push_str(out, " }");
            proof {
                lemma_concat_associative(prefix, acc, " }"@);
                acc = acc + " }"@;
            }
            assert(acc == node_text(*n));
        },
        AstNode::IndexAccess { object, index, span } => {
            push_str(out, "IndexAccess { object: ");
            let ghost mut acc: Seq<char> = "IndexAccess { object: "@;
            write_node(out, &**object);
            proof {
                lemma_concat_associative(prefix, acc, node_text(**object));
                acc = acc + node_text(**object);
            }
            push_str(out, ", index: ");
            proof {
                lemma_concat_associative(prefix, acc, ", index: "@);
                acc = acc + ", index: "@;
            }
            write_node(out, &**index);
            proof {
                lemma_concat_associative(prefix, acc, node_text(**index));
                acc = acc + node_text(**index);
            }
            push_str(out, ", span: ");
            proof {
                lemma_concat_associative(prefix, acc, ", span: "@);
                acc = acc + ", span: "@;
            }
            write_span(out, span);
            proof {
                lemma_concat_associative(prefix, acc, span_text(*span));
                acc = acc + span_text(*span);
            }
            push_str(out, " }");
            proof {
                lemma_concat_associative(prefix, acc, " }"@);
                acc = acc + " }"@;
            }
            assert(acc == node_text(*n));
        },
        AstNode::Range { start, end, span } => {
            push_str(out, "Range { start: ");
            let ghost mut acc: Seq<char> = "Range { start: "@;
            write_node(out, &**start);
            proof {
                lemma_concat_associative(prefix, acc, node_text(**start));
                acc = acc + node_text(**start);
            }
            push_str(out, ", end: ");
            proof {
                lemma_concat_associative(prefix, acc, ", end: "@);
                acc = acc + ", end: "@;
            }
            write_node(out, &**end);
            proof {
                lemma_concat_associative(prefix, acc, node_text(**end));
                acc = acc + node_text(**end);
            }
            push_str(out, ", span: ");
            proof {
                lemma_concat_associative(prefix, acc, ", span: "@);
                acc = acc + ", span: "@;
            }
            write_span(out, span);
            proof {
                lemma_concat_associative(prefix, acc, span_text(*span));
                acc = acc + span_text(*span);
            }
            push_str(out, " }");
            proof {
                lemma_concat_associative(prefix, acc, " }"@);
                acc = acc + " }"@;
            }
            assert(acc == node_text(*n));
        },
        AstNode::Pipeline { stages, span } => {
            push_str(out, "Pipeline { stages: ");
            let ghost mut acc: Seq<char> = "Pipeline { stages: "@;
            write_nodes(out, stages);
            proof {
                lemma_concat_associative(prefix, acc, nodes_text(stages@));
                acc = acc + nodes_text(stages@);
            }
            push_str(out, ", span: ");
            proof {
                lemma_concat_associative(prefix, acc, ", span: "@);
                acc = acc + ", span: "@;
            }
            write_span(out, span);
            proof {
                lemma_concat_associative(prefix, acc, span_text(*span));
                acc = acc + span_text(*span);
            }
            push_str(out, " }");
            proof {
                lemma_concat_associative(prefix, acc, " }"@);
                acc = acc + " }"@;
            }
            assert(acc == node_text(*n));
        },
        AstNode::SeekExpr { conditions, span } => {
            push_str(out, "SeekExpr { conditions: ");
            let ghost mut acc: Seq<char> = "SeekExpr { conditions: "@;
            write_conditions(out, conditions);
            proof {
                lemma_concat_associative(prefix, acc, conditions_text(conditions@));
                acc = acc + conditions_text(conditions@);
            }
            push_str(out, ", span: ");
            proof {
                lemma_concat_associative(prefix, acc, ", span: "@);
                acc = acc + ", span: "@;
            }
            write_span(out, span);
            proof {
                lemma_concat_associative(prefix, acc, span_text(*span));
                acc = acc + span_text(*span);
            }
            push_str(out, " }");
            proof {
                lemma_concat_associative(prefix, acc, " }"@);
                acc = acc + " }"@;
            }
            assert(acc == node_text(*n));
        },
        _ => {},
    }
}

fn write_node_8(out: &mut String, n: &AstNode)
    requires
        n is ExprStmt || n is Block || n is Break || n is Continue || n is Try,
    ensures
        final(out)@ == old(out)@ + node_text(*n),
    decreases n, 0nat,
{
    let ghost prefix = out@;
    match n {
        AstNode::ExprStmt { expr, span } => {
            push_str(out, "ExprStmt { expr: ");
            let ghost mut acc: Seq<char> = "ExprStmt { expr: "@;
            write_node(out, &**expr);
            proof {
                lemma_concat_associative(prefix, acc, node_text(**expr));
                acc = acc + node_text(**expr);
            }
            push_str(out, ", span: ");
            proof {
                lemma_concat_associative(prefix, acc, ", span: "@);
                acc = acc + ", span: "@;
            }
            write_span(out, span);
            proof {
                lemma_concat_associative(prefix, acc, span_text(*span));
                acc = acc + span_text(*span);
            }
            push_str(out, " }");
            proof {
                lemma_concat_associative(prefix, acc, " }"@);
                acc = acc + " }"@;
            }
            assert(acc == node_text(*n));
        },
        AstNode::Block { statements, span } => {
            push_str(out, "Block { statements: ");
            let ghost mut acc: Seq<char> = "Block { statements: "@;
            write_nodes(out, statements);
            proof {
                lemma_concat_associative(prefix, acc, nodes_text(statements@));
                acc = acc + nodes_text(statements@);
            }
            push_str(out, ", span: ");
            proof {
                lemma_concat_associative(prefix, acc, ", span: "@);
                acc = acc + ", span: "@;
            }
            write_span(out, span);
            proof {
                lemma_concat_associative(prefix, acc, span_text(*span));
                acc = acc + span_text(*span);
            }
            push_str(out, " }");
            proof {
                lemma_concat_associative(prefix, acc, " }"@);
                acc = acc + " }"@;
            }
            assert(acc == node_text(*n));
        },
        AstNode::Break { span } => {
            push_str(out, "Break { span: ");
            let ghost mut acc: Seq<char> = "Break { span: "@;
            write_span(out, span);
            proof {
                lemma_concat_associative(prefix, acc, span_text(*span));
                acc = acc + span_text(*span);
            }
            push_str(out, " }");
            proof {
                lemma_concat_associative(prefix, acc, " }"@);
                acc = acc + " }"@;
            }
            assert(acc == node_text(*n));
        },
        AstNode::Continue { span } => {
            push_str(out, "Continue { span: ");
            let ghost mut acc: Seq<char> = "Continue { span: "@;
            write_span(out, span);
            proof {
                lemma_concat_associative(prefix, acc, span_text(*span));
                acc = acc + span_text(*span);
            }
            push_str(out, " }");
            proof {
                lemma_concat_associative(prefix, acc, " }"@);
                acc = acc + " }"@;
            }
            assert(acc == node_text(*n));
        },
        AstNode::Try { expr, span } => {
            push_str(out, "Try { expr: ");
            let ghost mut acc: Seq<char> = "Try { expr: "@;
            write_node(out, &**expr);
            proof {
                lemma_concat_associative(prefix, acc, node_text(**expr));
                acc = acc + node_text(**expr);
            }
            push_str(out, ", span: ");
            proof {
                lemma_concat_associative(prefix, acc, ", span: "@);
                acc = acc + ", span: "@;
            }
            write_span(out, span);
            proof {
                lemma_concat_associative(prefix, acc, span_text(*span));
                acc = acc + span_text(*span);
            }
            push_str(out, " }");
            proof {
                lemma_concat_associative(prefix, acc, " }"@);
                acc = acc + " }"@;
            }
            assert(acc == node_text(*n));
        },
        _ => {},
    }
}

/// Write the `{:?}` text of a parameter (see `param_text`).
fn write_param(out: &mut String, x: &Parameter)
    ensures
        final(out)@ == old(out)@ + param_text(*x),
    decreases x,
{
    let ghost prefix = out@;
    push_str(out, "Parameter { name: ");
    let ghost mut acc: Seq<char> = "Parameter { name: "@;
    write_str_debug(out, &x.name);
    proof {
        lemma_concat_associative(prefix, acc, str_debug_text(x.name@));
        acc = acc + str_debug_text(x.name@);
    }
    push_str(out, ", typ: ");
    proof {
        lemma_concat_associative(prefix, acc, ", typ: "@);
        acc = acc + ", typ: "@;
    }
    write_opt_type(out, &x.typ);
    proof {
        lemma_concat_associative(prefix, acc, opt_type_text(x.typ));
        acc = acc + opt_type_text(x.typ);
    }
    push_str(out, ", is_variadic: ");
    proof {
        lemma_concat_associative(prefix, acc, ", is_variadic: "@);
        acc = acc + ", is_variadic: "@;
    }
    push_str(out, if *&x.is_variadic { "true" } else { "false" });
    proof {
        lemma_concat_associative(prefix, acc, bool_text(x.is_variadic));
        acc = acc + bool_text(x.is_variadic);
    }
    push_str(out, ", borrow_mode: ");
    proof {
        lemma_concat_associative(prefix, acc, ", borrow_mode: "@);
        acc = acc + ", borrow_mode: "@;
    }
    push_str(out, borrow_mode_name(&x.borrow_mode));
    proof {
        lemma_concat_associative(prefix, acc, borrow_mode_text(x.borrow_mode));
        acc = acc + borrow_mode_text(x.borrow_mode);
    }
    push_str(out, ", lifetime: ");
    proof {
        lemma_concat_associative(prefix, acc, ", lifetime: "@);
        acc = acc + ", lifetime: "@;
    }
    write_opt_lifetime(out, &x.lifetime);
    proof {
        lemma_concat_associative(prefix, acc, opt_lifetime_text(x.lifetime));
        acc = acc + opt_lifetime_text(x.lifetime);
    }
    push_str(out, " }");
    proof {
        lemma_concat_associative(prefix, acc, " }"@);
        acc = acc + " }"@;
    }
    assert(acc == param_text(*x));
}

/// Write the `{:?}` text of a struct field (see `struct_field_text`).
fn write_struct_field(out: &mut String, x: &StructField)
    ensures
        final(out)@ == old(out)@ + struct_field_text(*x),
    decreases x,
{
    let ghost prefix = out@;
    push_str(out, "StructField { name: ");
    let ghost mut acc: Seq<char> = "StructField { name: "@;
    write_str_debug(out, &x.name);
    proof {
        lemma_concat_associative(prefix, acc, str_debug_text(x.name@));
        acc = acc + str_debug_text(x.name@);
    }
    push_str(out, ", typ: ");
    proof {
        lemma_concat_associative(prefix, acc, ", typ: "@);
        acc = acc + ", typ: "@;
    }
    write_type(out, &x.typ);
    proof {
        lemma_concat_associative(prefix, acc, type_text(x.typ));
        acc = acc + type_text(x.typ);
    }
    push_str(out, " }");
    proof {
        lemma_concat_associative(prefix, acc, " }"@);
        acc = acc + " }"@;
    }
    assert(acc == struct_field_text(*x));
}

/// Write the `{:?}` text of an enum variant case (see `variant_case_text`).
fn write_variant_case(out: &mut String, x: &VariantCase)
    ensures
        final(out)@ == old(out)@ + variant_case_text(*x),
    decreases x,
{
    let ghost prefix = out@;
    push_str(out, "VariantCase { name: ");
    let ghost mut acc: Seq<char> = "VariantCase { name: "@;
    write_str_debug(out, &x.name);
    proof {
        lemma_concat_associative(prefix, acc, str_debug_text(x.name@));
        acc = acc + str_debug_text(x.name@);
    }
    push_str(out, ", fields: ");
    proof {
        lemma_concat_associative(prefix, acc, ", fields: "@);
        acc = acc + ", fields: "@;
    }
    write_params(out, &x.fields);
    proof {
        lemma_concat_associative(prefix, acc, params_text(x.fields@));
        acc = acc + params_text(x.fields@);
    }
    push_str(out, " }");
    proof {
        lemma_concat_associative(prefix, acc, " }"@);
        acc = acc + " }"@;
    }
    assert(acc == variant_case_text(*x));
}

/// Write the `{:?}` text of a trait method (see `trait_method_text`).
fn write_trait_method(out: &mut String, x: &TraitMethod)
    ensures
        final(out)@ == old(out)@ + trait_method_text(*x),
    decreases x,
{
    let ghost prefix = out@;
    push_str(out, "TraitMethod { name: ");
    let ghost mut acc: Seq<char> = "TraitMethod { name: "@;
    write_str_debug(out, &x.name);
    proof {
        lemma_concat_associative(prefix, acc, str_debug_text(x.name@));
        acc = acc + str_debug_text(x.name@);
    }
    push_str(out, ", params: ");
    proof {
        lemma_concat_associative(prefix, acc, ", params: "@);
        acc = acc + ", params: "@;
    }
    write_params(out, &x.params);
    proof {
        lemma_concat_associative(prefix, acc, params_text(x.params@));
        acc = acc + params_text(x.params@);
    }
    push_str(out, ", return_type: ");
    proof {
        lemma_concat_associative(prefix, acc, ", return_type: "@);
        acc = acc + ", return_type: "@;
    }
    write_opt_type(out, &x.return_type);
    proof {
        lemma_concat_associative(prefix, acc, opt_type_text(x.return_type));
        acc = acc + opt_type_text(x.return_type);
    }
    push_str(out, " }");
    proof {
        lemma_concat_associative(prefix, acc, " }"@);
        acc = acc + " }"@;
    }
    assert(acc == trait_method_text(*x));
}

/// Write the `{:?}` text of a match arm (see `arm_text`).
fn write_arm(out: &mut String, x: &MatchArm)
    ensures
        final(out)@ == old(out)@ + arm_text(*x),
    decreases x, 1nat,
{
    let ghost prefix = out@;
    push_str(out, "MatchArm { pattern: ");
    let ghost mut acc: Seq<char> = "MatchArm { pattern: "@;
    write_pattern(out, &x.pattern);
    proof {
        lemma_concat_associative(prefix, acc, pattern_text(x.pattern));
        acc = acc + pattern_text(x.pattern);
    }
    push_str(out, ", body: ");
    proof {
        lemma_concat_associative(prefix, acc, ", body: "@);
        acc = acc + ", body: "@;
    }
    write_nodes(out, &x.body);
    proof {
        lemma_concat_associative(prefix, acc, nodes_text(x.body@));
        acc = acc + nodes_text(x.body@);
    }
    push_str(out, " }");
    proof {
        lemma_concat_associative(prefix, acc, " }"@);
        acc = acc + " }"@;
    }
    assert(acc == arm_text(*x));
}

/// Write the `{:?}` text of an error handler (see `handler_text`).
fn write_handler(out: &mut String, x: &ErrorHandler)
    ensures
        final(out)@ == old(out)@ + handler_text(*x),
    decreases x, 1nat,
{
    let ghost prefix = out@;
    push_str(out, "ErrorHandler { error_type: ");
    let ghost mut acc: Seq<char> = "ErrorHandler { error_type: "@;
    write_str_debug(out, &x.error_type);
    proof {
        lemma_concat_associative(prefix, acc, str_debug_text(x.error_type@));
        acc = acc + str_debug_text(x.error_type@);
    }
    push_str(out, ", body: ");
    proof {
        lemma_concat_associative(prefix, acc, ", body: "@);
        acc = acc + ", body: "@;
    }
    write_nodes(out, &x.body);
    proof {
        lemma_concat_associative(prefix, acc, nodes_text(x.body@));
        acc = acc + nodes_text(x.body@);
    }
    push_str(out, " }");
    proof {
        lemma_concat_associative(prefix, acc, " }"@);
        acc = acc + " }"@;
    }
    assert(acc == handler_text(*x));
}

/// Write the `{:?}` text of a query condition (see `condition_text`).
fn write_condition(out: &mut String, x: &QueryCondition)
    ensures
        final(out)@ == old(out)@ + condition_text(*x),
    decreases x, 1nat,
{
    let ghost prefix = out@;
    push_str(out, "QueryCondition { field: ");
    let ghost mut acc: Seq<char> = "QueryCondition { field: "@;
    write_str_debug(out, &x.field);
    proof {
        lemma_concat_associative(prefix, acc, str_debug_text(x.field@));
        acc = acc + str_debug_text(x.field@);
    }
    push_str(out, ", operator: ");
    proof {
        lemma_concat_associative(prefix, acc, ", operator: "@);
        acc = acc + ", operator: "@;
    }
    push_str(out, query_op_name(&x.operator));
    proof {
        lemma_concat_associative(prefix, acc, query_op_text(x.operator));
        acc = acc + query_op_text(x.operator);
    }
    push_str(out, ", value: ");
    proof {
        lemma_concat_associative(prefix, acc, ", value: "@);
        acc = acc + ", value: "@;
    }
    write_node(out, &**&x.value);
    proof {
        lemma_concat_associative(prefix, acc, node_text(*x.value));
        acc = acc + node_text(*x.value);
    }
    push_str(out, " }");
    proof {
        lemma_concat_associative(prefix, acc, " }"@);
        acc = acc + " }"@;
    }
    assert(acc == condition_text(*x));
}

/// Write the `{:?}` text of a lifetime (see `lifetime_text`).
fn write_lifetime(out: &mut String, x: &Lifetime)
    ensures
        final(out)@ == old(out)@ + lifetime_text(*x),
    decreases x,
{
    let ghost prefix = out@;
    push_str(out, "Lifetime { name: ");
    let ghost mut acc: Seq<char> = "Lifetime { name: "@;
    write_str_debug(out, &x.name);
    proof {
        lemma_concat_associative(prefix, acc, str_debug_text(x.name@));
        acc = acc + str_debug_text(x.name@);
    }
    push_str(out, " }");
    proof {
        lemma_concat_associative(prefix, acc, " }"@);
        acc = acc + " }"@;
    }
    assert(acc == lifetime_text(*x));
}

/// Write the `{:?}` text of a list of nodes (see `nodes_text`).
fn write_nodes(out: &mut String, v: &Vec<AstNode>)
    ensures
        final(out)@ == old(out)@ + nodes_text(v@),
    decreases v, 1nat,
{
    let ghost start = out@;
    push_str(out, "[");
    let mut i: usize = 0;
    while i < v.len()
        invariant
            i <= v@.len(),
            out@ == start + "["@ + nodes_join(v@.take(i as int)),
        decreases v@.len() - i,
    {
        let ghost before = out@;
        if i > 0 {
            push_str(out, ", ");
        }
        write_node(out, &v[i]);
        proof {
            assert(v@.take(i + 1).drop_last() =~= v@.take(i as int));
            assert(v@.take(i + 1).last() == v@[i as int]);
            if i == 0 {
                assert(v@.take(1)[0] == v@[0]);
            }
        }
        i += 1;
        assert(out@ =~= start + "["@ + nodes_join(v@.take(i as int)));
    }
    push_str(out, "]");
    assert(v@.take(v@.len() as int) =~= v@);
    assert(out@ =~= start + nodes_text(v@));
}

/// Write the `{:?}` text of a list of texts (see `strs_text`).
fn write_strs(out: &mut String, v: &Vec<String>)
    ensures
        final(out)@ == old(out)@ + strs_text(v@),
    decreases v,
{
    let ghost start = out@;
    push_str(out, "[");
    let mut i: usize = 0;
    while i < v.len()
        invariant
            i <= v@.len(),
            out@ == start + "["@ + strs_join(v@.take(i as int)),
        decreases v@.len() - i,
    {
        let ghost before = out@;
        if i > 0 {
            push_str(out, ", ");
        }
        write_str_debug(out, &v[i]);
        proof {
            assert(v@.take(i + 1).drop_last() =~= v@.take(i as int));
            assert(v@.take(i + 1).last() == v@[i as int]);
            if i == 0 {
                assert(v@.take(1)[0] == v@[0]);
            }
        }
        i += 1;
        assert(out@ =~= start + "["@ + strs_join(v@.take(i as int)));
    }
    push_str(out, "]");
    assert(v@.take(v@.len() as int) =~= v@);
    assert(out@ =~= start + strs_text(v@));
}

/// Write the `{:?}` text of a list of type annotations (see `types_text`).
fn write_types(out: &mut String, v: &Vec<TypeAnnotation>)
    ensures
        final(out)@ == old(out)@ + types_text(v@),
    decreases v,
{
    let ghost start = out@;
    push_str(out, "[");
    let mut i: usize = 0;
    while i < v.len()
        invariant
            i <= v@.len(),
            out@ == start + "["@ + types_join(v@.take(i as int)),
        decreases v@.len() - i,
    {
        let ghost before = out@;
        if i > 0 {
            push_str(out, ", ");
        }
        write_type(out, &v[i]);
        proof {
            assert(v@.take(i + 1).drop_last() =~= v@.take(i as int));
            assert(v@.take(i + 1).last() == v@[i as int]);
            if i == 0 {
                assert(v@.take(1)[0] == v@[0]);
            }
        }
        i += 1;
        assert(out@ =~= start + "["@ + types_join(v@.take(i as int)));
    }
    push_str(out, "]");
    assert(v@.take(v@.len() as int) =~= v@);
    assert(out@ =~= start + types_text(v@));
}

/// Write the `{:?}` text of a list of lifetimes (see `lifetimes_text`).
fn write_lifetimes(out: &mut String, v: &Vec<Lifetime>)
    ensures
        final(out)@ == old(out)@ + lifetimes_text(v@),
    decreases v,
{
    let ghost start = out@;
    push_str(out, "[");
    let mut i: usize = 0;
    while i < v.len()
        invariant
            i <= v@.len(),
            out@ == start + "["@ + lifetimes_join(v@.take(i as int)),
        decreases v@.len() - i,
    {
        let ghost before = out@;
        if i > 0 {
            push_str(out, ", ");
        }
        write_lifetime(out, &v[i]);
        proof {
            assert(v@.take(i + 1).drop_last() =~= v@.take(i as int));
            assert(v@.take(i + 1).last() == v@[i as int]);
            if i == 0 {
                assert(v@.take(1)[0] == v@[0]);
            }
        }
        i += 1;
        assert(out@ =~= start + "["@ + lifetimes_join(v@.take(i as int)));
    }
    push_str(out, "]");
    assert(v@.take(v@.len() as int) =~= v@);
    assert(out@ =~= start + lifetimes_text(v@));
}

/// Write the `{:?}` text of a list of parameters (see `params_text`).
fn write_params(out: &mut String, v: &Vec<Parameter>)
    ensures
        final(out)@ == old(out)@ + params_text(v@),
    decreases v,
{
    let ghost start = out@;
    push_str(out, "[");
    let mut i: usize = 0;
    while i < v.len()
        invariant
            i <= v@.len(),
            out@ == start + "["@ + params_join(v@.take(i as int)),
        decreases v@.len() - i,
    {
        let ghost before = out@;
        if i > 0 {
            push_str(out, ", ");
        }
        write_param(out, &v[i]);
        proof {
            assert(v@.take(i + 1).drop_last() =~= v@.take(i as int));
            assert(v@.take(i + 1).last() == v@[i as int]);
            if i == 0 {
                assert(v@.take(1)[0] == v@[0]);
            }
        }
        i += 1;
        assert(out@ =~= start + "["@ + params_join(v@.take(i as int)));
    }
    push_str(out, "]");
    assert(v@.take(v@.len() as int) =~= v@);
    assert(out@ =~= start + params_text(v@));
}

/// Write the `{:?}` text of a list of struct fields (see `struct_fields_text`).
fn write_struct_fields(out: &mut String, v: &Vec<StructField>)
    ensures
        final(out)@ == old(out)@ + struct_fields_text(v@),
    decreases v,
{
    let ghost start = out@;
    push_str(out, "[");
    let mut i: usize = 0;
    while i < v.len()
        invariant
            i <= v@.len(),
            out@ == start + "["@ + struct_fields_join(v@.take(i as int)),
        decreases v@.len() - i,
    {
        let ghost before = out@;
        if i > 0 {
            push_str(out, ", ");
        }
        write_struct_field(out, &v[i]);
        proof {
            assert(v@.take(i + 1).drop_last() =~= v@.take(i as int));
            assert(v@.take(i + 1).last() == v@[i as int]);
            if i == 0 {
                assert(v@.take(1)[0] == v@[0]);
            }
        }
        i += 1;
        assert(out@ =~= start + "["@ + struct_fields_join(v@.take(i as int)));
    }
    push_str(out, "]");
    assert(v@.take(v@.len() as int) =~= v@);
    assert(out@ =~= start + struct_fields_text(v@));
}

/// Write the `{:?}` text of a list of enum variant cases (see `variant_cases_text`).
fn write_variant_cases(out: &mut String, v: &Vec<VariantCase>)
    ensures
        final(out)@ == old(out)@ + variant_cases_text(v@),
    decreases v,
{
    let ghost start = out@;
    push_str(out, "[");
    let mut i: usize = 0;
    while i < v.len()
        invariant
            i <= v@.len(),
            out@ == start + "["@ + variant_cases_join(v@.take(i as int)),
        decreases v@.len() - i,
    {
        let ghost before = out@;
        if i > 0 {
            push_str(out, ", ");
        }
        write_variant_case(out, &v[i]);
        proof {
            assert(v@.take(i + 1).drop_last() =~= v@.take(i as int));
            assert(v@.take(i + 1).last() == v@[i as int]);
            if i == 0 {
                assert(v@.take(1)[0] == v@[0]);
            }
        }
        i += 1;
        assert(out@ =~= start + "["@ + variant_cases_join(v@.take(i as int)));
    }
    push_str(out, "]");
    assert(v@.take(v@.len() as int) =~= v@);
    assert(out@ =~= start + variant_cases_text(v@));
}

/// Write the `{:?}` text of a list of trait methods (see `trait_methods_text`).
fn write_trait_methods(out: &mut String, v: &Vec<TraitMethod>)
    ensures
        final(out)@ == old(out)@ + trait_methods_text(v@),
    decreases v,
{
    let ghost start = out@;
    push_str(out, "[");
    let mut i: usize = 0;
    while i < v.len()
        invariant
            i <= v@.len(),
            out@ == start + "["@ + trait_methods_join(v@.take(i as int)),
        decreases v@.len() - i,
    {
        let ghost before = out@;
        if i > 0 {
            push_str(out, ", ");
        }
        write_trait_method(out, &v[i]);
        proof {
            assert(v@.take(i + 1).drop_last() =~= v@.take(i as int));
            assert(v@.take(i + 1).last() == v@[i as int]);
            if i == 0 {
                assert(v@.take(1)[0] == v@[0]);
            }
        }
        i += 1;
        assert(out@ =~= start + "["@ + trait_methods_join(v@.take(i as int)));
    }
    push_str(out, "]");
    assert(v@.take(v@.len() as int) =~= v@);
    assert(out@ =~= start + trait_methods_text(v@));
}

/// Write the `{:?}` text of a list of match arms (see `arms_text`).
fn write_arms(out: &mut String, v: &Vec<MatchArm>)
    ensures
        final(out)@ == old(out)@ + arms_text(v@),
    decreases v, 1nat,
{
    let ghost start = out@;
    push_str(out, "[");
    let mut i: usize = 0;
    while i < v.len()
        invariant
            i <= v@.len(),
            out@ == start + "["@ + arms_join(v@.take(i as int)),
        decreases v@.len() - i,
    {
        let ghost before = out@;
        if i > 0 {
            push_str(out, ", ");
        }
        write_arm(out, &v[i]);
        proof {
            assert(v@.take(i + 1).drop_last() =~= v@.take(i as int));
            assert(v@.take(i + 1).last() == v@[i as int]);
            if i == 0 {
                assert(v@.take(1)[0] == v@[0]);
            }
        }
        i += 1;
        assert(out@ =~= start + "["@ + arms_join(v@.take(i as int)));
    }
    push_str(out, "]");
    assert(v@.take(v@.len() as int) =~= v@);
    assert(out@ =~= start + arms_text(v@));
}

/// Write the `{:?}` text of a list of error handlers (see `handlers_text`).
fn write_handlers(out: &mut String, v: &Vec<ErrorHandler>)
    ensures
        final(out)@ == old(out)@ + handlers_text(v@),
    decreases v, 1nat,
{
    let ghost start = out@;
    push_str(out, "[");
    let mut i: usize = 0;
    while i < v.len()
        invariant
            i <= v@.len(),
            out@ == start + "["@ + handlers_join(v@.take(i as int)),
        decreases v@.len() - i,
    {
        let ghost before = out@;
        if i > 0 {
            push_str(out, ", ");
        }
        write_handler(out, &v[i]);
        proof {
            assert(v@.take(i + 1).drop_last() =~= v@.take(i as int));
            assert(v@.take(i + 1).last() == v@[i as int]);
            if i == 0 {
                assert(v@.take(1)[0] == v@[0]);
            }
        }
        i += 1;
        assert(out@ =~= start + "["@ + handlers_join(v@.take(i as int)));
    }
    push_str(out, "]");
    assert(v@.take(v@.len() as int) =~= v@);
    assert(out@ =~= start + handlers_text(v@));
}

/// Write the `{:?}` text of a list of named nodes (see `pairs_text`).
fn write_pairs(out: &mut String, v: &Vec<(String, AstNode)>)
    ensures
        final(out)@ == old(out)@ + pairs_text(v@),
    decreases v, 1nat,
{
    let ghost start = out@;
    push_str(out, "[");
    let mut i: usize = 0;
    while i < v.len()
        invariant
            i <= v@.len(),
            out@ == start + "["@ + pairs_join(v@.take(i as int)),
        decreases v@.len() - i,
    {
        let ghost before = out@;
        if i > 0 {
            push_str(out, ", ");
        }
        write_pair(out, &v[i]);
        proof {
            assert(v@.take(i + 1).drop_last() =~= v@.take(i as int));
            assert(v@.take(i + 1).last() == v@[i as int]);
            if i == 0 {
                assert(v@.take(1)[0] == v@[0]);
            }
        }
        i += 1;
        assert(out@ =~= start + "["@ + pairs_join(v@.take(i as int)));
    }
    push_str(out, "]");
    assert(v@.take(v@.len() as int) =~= v@);
    assert(out@ =~= start + pairs_text(v@));
}

/// Write the `{:?}` text of a list of query conditions (see `conditions_text`).
fn write_conditions(out: &mut String, v: &Vec<QueryCondition>)
    ensures
        final(out)@ == old(out)@ + conditions_text(v@),
    decreases v, 1nat,
{
    let ghost start = out@;
    push_str(out, "[");
    let mut i: usize = 0;
    while i < v.len()
        invariant
            i <= v@.len(),
            out@ == start + "["@ + conditions_join(v@.take(i as int)),
        decreases v@.len() - i,
    {
        let ghost before = out@;
        if i > 0 {
            push_str(out, ", ");
        }
        write_condition(out, &v[i]);
        proof {
            assert(v@.take(i + 1).drop_last() =~= v@.take(i as int));
            assert(v@.take(i + 1).last() == v@[i as int]);
            if i == 0 {
                assert(v@.take(1)[0] == v@[0]);
            }
        }
        i += 1;
        assert(out@ =~= start + "["@ + conditions_join(v@.take(i as int)));
    }
    push_str(out, "]");
    assert(v@.take(v@.len() as int) =~= v@);
    assert(out@ =~= start + conditions_text(v@));
}

} // verus!
