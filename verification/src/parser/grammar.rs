//! The expression grammar: what parsing an expression at a position gives,
//! as spec functions over the tokens and their spans.
//!
//! Precedence, loosest first: `|` pipelines; `or`; `and`; comparisons
//! (`is`, `is not`, `greater than`, `less than`, `at least`, `at most`);
//! `+ -`; `* / %`; prefix `not` and `-`; postfix forms. Binary operators
//! associate to the left.

use vstd::prelude::*;
use crate::ast::{
    AstNode, BinaryOperator, BorrowMode, ErrorHandler, Lifetime, MatchArm, Parameter, Pattern, QueryCondition,
    QueryOperator, StructField, TraitMethod, TypeAnnotation, UnaryOperator, VariantCase,
};
use crate::source_location::SourceSpan;
use crate::token::{Span, TokenOf, TokenView};
use super::{
    expected_message, lemma_skip_nl_bounds, skip_nl, span_at, token_at, token_text, type_args_spec, type_view,
    types_view, Parsed, TypeView,
};

verus! {

/// A syntax node as a mathematical value. `Other` is the value of no node:
/// the grammar's specs use it where no statement can be read.
pub enum NodeView {
    BindStmt { name: Seq<char>, typ: Option<TypeView>, value: Box<NodeView>, span: SourceSpan },
    WeaveStmt { name: Seq<char>, typ: Option<TypeView>, value: Box<NodeView>, span: SourceSpan },
    SetStmt { target: Box<NodeView>, value: Box<NodeView>, span: SourceSpan },
    IfStmt {
        condition: Box<NodeView>,
        then_branch: Seq<NodeView>,
        else_branch: Option<Seq<NodeView>>,
        span: SourceSpan,
    },
    ForStmt { variable: Seq<char>, iterable: Box<NodeView>, body: Seq<NodeView>, span: SourceSpan },
    WhileStmt { condition: Box<NodeView>, body: Seq<NodeView>, span: SourceSpan },
    ChantDef {
        name: Seq<char>,
        type_params: Seq<Seq<char>>,
        lifetime_params: Seq<Seq<char>>,
        params: Seq<ParamView>,
        return_type: Option<TypeView>,
        body: Seq<NodeView>,
        span: SourceSpan,
    },
    FormDef { name: Seq<char>, type_params: Seq<Seq<char>>, fields: Seq<(Seq<char>, TypeView)>, span: SourceSpan },
    VariantDef {
        name: Seq<char>,
        type_params: Seq<Seq<char>>,
        variants: Seq<(Seq<char>, Seq<ParamView>)>,
        span: SourceSpan,
    },
    YieldStmt { value: Box<NodeView>, span: SourceSpan },
    MatchStmt { value: Box<NodeView>, arms: Seq<(PatternView, Seq<NodeView>)>, span: SourceSpan },
    AttemptStmt { body: Seq<NodeView>, handlers: Seq<(Seq<char>, Seq<NodeView>)>, span: SourceSpan },
    ExprStmt { expr: Box<NodeView>, span: SourceSpan },
    Break { span: SourceSpan },
    Continue { span: SourceSpan },
    Number { value: Seq<char>, span: SourceSpan },
    Text { value: Seq<char>, span: SourceSpan },
    Truth { value: bool, span: SourceSpan },
    Nothing { span: SourceSpan },
    Ident { name: Seq<char>, span: SourceSpan },
    Triumph { value: Box<NodeView>, span: SourceSpan },
    Mishap { value: Box<NodeView>, span: SourceSpan },
    Present { value: Box<NodeView>, span: SourceSpan },
    Absent { span: SourceSpan },
    List { elements: Seq<NodeView>, span: SourceSpan },
    MapLiteral { entries: Seq<(Seq<char>, NodeView)>, span: SourceSpan },
    StructLiteral {
        struct_name: Seq<char>,
        type_args: Seq<TypeView>,
        fields: Seq<(Seq<char>, NodeView)>,
        span: SourceSpan,
    },
    BinaryOp { left: Box<NodeView>, op: BinaryOperator, right: Box<NodeView>, span: SourceSpan },
    UnaryOp { op: UnaryOperator, operand: Box<NodeView>, span: SourceSpan },
    Call { callee: Box<NodeView>, type_args: Seq<TypeView>, args: Seq<NodeView>, span: SourceSpan },
    FieldAccess { object: Box<NodeView>, field: Seq<char>, span: SourceSpan },
    IndexAccess { object: Box<NodeView>, index: Box<NodeView>, span: SourceSpan },
    Range { start: Box<NodeView>, end: Box<NodeView>, span: SourceSpan },
    Pipeline { stages: Seq<NodeView>, span: SourceSpan },
    SeekExpr { conditions: Seq<(Seq<char>, QueryOperator, NodeView)>, span: SourceSpan },
    RequestStmt { capability: Box<NodeView>, justification: Seq<char>, span: SourceSpan },
    Try { expr: Box<NodeView>, span: SourceSpan },
    AspectDef {
        name: Seq<char>,
        type_params: Seq<Seq<char>>,
        methods: Seq<(Seq<char>, Seq<ParamView>, Option<TypeView>)>,
        span: SourceSpan,
    },
    EmbodyStmt {
        aspect_name: Seq<char>,
        type_args: Seq<TypeView>,
        target_type: TypeView,
        methods: Seq<NodeView>,
        span: SourceSpan,
    },
    ModuleDecl { name: Seq<char>, body: Seq<NodeView>, exports: Seq<Seq<char>>, span: SourceSpan },
    Import {
        module_name: Seq<char>,
        path: Seq<char>,
        items: Option<Seq<Seq<char>>>,
        alias: Option<Seq<char>>,
        span: SourceSpan,
    },
    Export { items: Seq<Seq<char>>, span: SourceSpan },
    BorrowExpr { value: Box<NodeView>, mutable: bool, span: SourceSpan },
    ModuleAccess { module: Seq<char>, member: Seq<char>, span: SourceSpan },
    Block { statements: Seq<NodeView>, span: SourceSpan },
    Other,
}

/// The mathematical value of a node.
pub open spec fn node_view(n: AstNode) -> NodeView
    decreases n, 1nat,
{
    match n {
        AstNode::Number { value, span } => NodeView::Number { value: value@, span },
        AstNode::Text { value, span } => NodeView::Text { value: value@, span },
        AstNode::Truth { value, span } => NodeView::Truth { value, span },
        AstNode::Nothing { span } => NodeView::Nothing { span },
        AstNode::Ident { name, span } => NodeView::Ident { name: name@, span },
        AstNode::Triumph { value, span } => NodeView::Triumph { value: Box::new(node_view(*value)), span },
        AstNode::Mishap { value, span } => NodeView::Mishap { value: Box::new(node_view(*value)), span },
        AstNode::Present { value, span } => NodeView::Present { value: Box::new(node_view(*value)), span },
        AstNode::Absent { span } => NodeView::Absent { span },
        AstNode::List { elements, span } => NodeView::List { elements: nodes_view(elements@), span },
        AstNode::MapLiteral { entries, span } => NodeView::MapLiteral { entries: pairs_view(entries@), span },
        AstNode::StructLiteral { struct_name, type_args, fields, span } => NodeView::StructLiteral {
            struct_name: struct_name@,
            type_args: types_view(type_args@),
            fields: pairs_view(fields@),
            span,
        },
        AstNode::BinaryOp { left, op, right, span } => NodeView::BinaryOp {
            left: Box::new(node_view(*left)),
            op,
            right: Box::new(node_view(*right)),
            span,
        },
        AstNode::UnaryOp { op, operand, span } => NodeView::UnaryOp {
            op,
            operand: Box::new(node_view(*operand)),
            span,
        },
        AstNode::Call { callee, type_args, args, span } => NodeView::Call {
            callee: Box::new(node_view(*callee)),
            type_args: types_view(type_args@),
            args: nodes_view(args@),
            span,
        },
        AstNode::FieldAccess { object, field, span } => NodeView::FieldAccess {
            object: Box::new(node_view(*object)),
            field: field@,
            span,
        },
        AstNode::IndexAccess { object, index, span } => NodeView::IndexAccess {
            object: Box::new(node_view(*object)),
            index: Box::new(node_view(*index)),
            span,
        },
        AstNode::Range { start, end, span } => NodeView::Range {
            start: Box::new(node_view(*start)),
            end: Box::new(node_view(*end)),
            span,
        },
        AstNode::Pipeline { stages, span } => NodeView::Pipeline { stages: nodes_view(stages@), span },
        AstNode::SeekExpr { conditions, span } => NodeView::SeekExpr {
            conditions: conditions_view(conditions@),
            span,
        },
        AstNode::RequestStmt { capability, justification, span } => NodeView::RequestStmt {
            capability: Box::new(node_view(*capability)),
            justification: justification@,
            span,
        },
        AstNode::Try { expr, span } => NodeView::Try { expr: Box::new(node_view(*expr)), span },
        AstNode::BindStmt { name, typ, value, span } => NodeView::BindStmt {
            name: name@,
            typ: opt_type_view(typ),
            value: Box::new(node_view(*value)),
            span,
        },
        AstNode::WeaveStmt { name, typ, value, span } => NodeView::WeaveStmt {
            name: name@,
            typ: opt_type_view(typ),
            value: Box::new(node_view(*value)),
            span,
        },
        AstNode::SetStmt { target, value, span } => NodeView::SetStmt {
            target: Box::new(node_view(*target)),
            value: Box::new(node_view(*value)),
            span,
        },
        AstNode::IfStmt { condition, then_branch, else_branch, span } => NodeView::IfStmt {
            condition: Box::new(node_view(*condition)),
            then_branch: nodes_view(then_branch@),
            else_branch: match else_branch {
                Some(b) => Some(nodes_view(b@)),
                None => None,
            },
            span,
        },
        AstNode::ForStmt { variable, iterable, body, span } => NodeView::ForStmt {
            variable: variable@,
            iterable: Box::new(node_view(*iterable)),
            body: nodes_view(body@),
            span,
        },
        AstNode::WhileStmt { condition, body, span } => NodeView::WhileStmt {
            condition: Box::new(node_view(*condition)),
            body: nodes_view(body@),
            span,
        },
        AstNode::ChantDef { name, type_params, lifetime_params, params, return_type, body, span } => NodeView::ChantDef {
            name: name@,
            type_params: names_view(type_params@),
            lifetime_params: lifetimes_view(lifetime_params@),
            params: params_view(params@),
            return_type: opt_type_view(return_type),
            body: nodes_view(body@),
            span,
        },
        AstNode::FormDef { name, type_params, fields, span } => NodeView::FormDef {
            name: name@,
            type_params: names_view(type_params@),
            fields: form_fields_view(fields@),
            span,
        },
        AstNode::VariantDef { name, type_params, variants, span } => NodeView::VariantDef {
            name: name@,
            type_params: names_view(type_params@),
            variants: cases_view(variants@),
            span,
        },
        AstNode::YieldStmt { value, span } => NodeView::YieldStmt { value: Box::new(node_view(*value)), span },
        AstNode::MatchStmt { value, arms, span } => NodeView::MatchStmt {
            value: Box::new(node_view(*value)),
            arms: arms_view(arms@),
            span,
        },
        AstNode::AttemptStmt { body, handlers, span } => NodeView::AttemptStmt {
            body: nodes_view(body@),
            handlers: handlers_view(handlers@),
            span,
        },
        AstNode::ExprStmt { expr, span } => NodeView::ExprStmt { expr: Box::new(node_view(*expr)), span },
        AstNode::Break { span } => NodeView::Break { span },
        AstNode::Continue { span } => NodeView::Continue { span },
        AstNode::AspectDef { name, type_params, methods, span } => NodeView::AspectDef {
            name: name@,
            type_params: names_view(type_params@),
            methods: methods_view(methods@),
            span,
        },
        AstNode::EmbodyStmt { aspect_name, type_args, target_type, methods, span } => NodeView::EmbodyStmt {
            aspect_name: aspect_name@,
            type_args: types_view(type_args@),
            target_type: type_view(target_type),
            methods: nodes_view(methods@),
            span,
        },
        AstNode::ModuleDecl { name, body, exports, span } => NodeView::ModuleDecl {
            name: name@,
            body: nodes_view(body@),
            exports: names_view(exports@),
            span,
        },
        AstNode::Import { module_name, path, items, alias, span } => NodeView::Import {
            module_name: module_name@,
            path: path@,
            items: match items {
                Some(v) => Some(names_view(v@)),
                None => None,
            },
            alias: match alias {
                Some(a) => Some(a@),
                None => None,
            },
            span,
        },
        AstNode::Export { items, span } => NodeView::Export { items: names_view(items@), span },
        AstNode::BorrowExpr { value, mutable, span } => NodeView::BorrowExpr {
            value: Box::new(node_view(*value)),
            mutable,
            span,
        },
        AstNode::ModuleAccess { module, member, span } => NodeView::ModuleAccess {
            module: module@,
            member: member@,
            span,
        },
        AstNode::Block { statements, span } => NodeView::Block { statements: nodes_view(statements@), span },
    }
}

/// The mathematical values of trait method signatures: each name with its
/// parameters and return type.
pub open spec fn methods_view(ms: Seq<TraitMethod>) -> Seq<(Seq<char>, Seq<ParamView>, Option<TypeView>)> {
    ms.map_values(|m: TraitMethod| (m.name@, params_view(m.params@), opt_type_view(m.return_type)))
}

/// A match pattern as a mathematical value.
pub enum PatternView {
    Literal(Box<NodeView>),
    Ident(Seq<char>),
    Wildcard,
    Enum { variant: Seq<char>, inner: Option<Box<PatternView>> },
}

/// A parameter as a mathematical value.
pub struct ParamView {
    pub name: Seq<char>,
    pub typ: Option<TypeView>,
    pub is_variadic: bool,
    pub borrow_mode: BorrowMode,
    pub lifetime: Option<Seq<char>>,
}

/// The mathematical value of a pattern.
pub open spec fn pattern_view(p: Pattern) -> PatternView
    decreases p, 1nat,
{
    match p {
        Pattern::Literal(n) => PatternView::Literal(Box::new(node_view(n))),
        Pattern::Ident(name) => PatternView::Ident(name@),
        Pattern::Wildcard => PatternView::Wildcard,
        Pattern::Enum { variant, inner } => PatternView::Enum {
            variant: variant@,
            inner: match inner {
                Some(i) => Some(Box::new(pattern_view(*i))),
                None => None,
            },
        },
    }
}

/// The mathematical values of match arms: each pattern with its body.
pub open spec fn arms_view(arms: Seq<MatchArm>) -> Seq<(PatternView, Seq<NodeView>)>
    decreases arms, 0nat,
{
    if arms.len() == 0 {
        Seq::empty()
    } else {
        arms_view(arms.drop_last()).push((pattern_view(arms.last().pattern), nodes_view(arms.last().body@)))
    }
}

/// The mathematical values of error handlers: each error type with its body.
pub open spec fn handlers_view(hs: Seq<ErrorHandler>) -> Seq<(Seq<char>, Seq<NodeView>)>
    decreases hs, 0nat,
{
    if hs.len() == 0 {
        Seq::empty()
    } else {
        handlers_view(hs.drop_last()).push((hs.last().error_type@, nodes_view(hs.last().body@)))
    }
}

/// The mathematical value of an optional type annotation.
pub open spec fn opt_type_view(t: Option<TypeAnnotation>) -> Option<TypeView> {
    match t {
        Some(t) => Some(type_view(t)),
        None => None,
    }
}

/// The names of lifetimes.
pub open spec fn lifetimes_view(ls: Seq<Lifetime>) -> Seq<Seq<char>> {
    ls.map_values(|l: Lifetime| l.name@)
}

/// The texts of names.
pub open spec fn names_view(ns: Seq<String>) -> Seq<Seq<char>> {
    ns.map_values(|n: String| n@)
}

/// The mathematical value of a parameter.
pub open spec fn param_view(p: Parameter) -> ParamView {
    ParamView {
        name: p.name@,
        typ: opt_type_view(p.typ),
        is_variadic: p.is_variadic,
        borrow_mode: p.borrow_mode,
        lifetime: match p.lifetime {
            Some(l) => Some(l.name@),
            None => None,
        },
    }
}

/// The mathematical values of parameters.
pub open spec fn params_view(ps: Seq<Parameter>) -> Seq<ParamView> {
    ps.map_values(|p: Parameter| param_view(p))
}

/// The mathematical values of struct fields: each name with its type.
pub open spec fn form_fields_view(fs: Seq<StructField>) -> Seq<(Seq<char>, TypeView)> {
    fs.map_values(|f: StructField| (f.name@, type_view(f.typ)))
}

/// The mathematical values of enum cases: each name with its fields.
pub open spec fn cases_view(cs: Seq<VariantCase>) -> Seq<(Seq<char>, Seq<ParamView>)> {
    cs.map_values(|c: VariantCase| (c.name@, params_view(c.fields@)))
}

/// The mathematical values of nodes.
pub open spec fn nodes_view(ns: Seq<AstNode>) -> Seq<NodeView>
    decreases ns, 0nat,
{
    if ns.len() == 0 {
        Seq::empty()
    } else {
        nodes_view(ns.drop_last()).push(node_view(ns.last()))
    }
}

/// The mathematical values of named nodes.
pub open spec fn pairs_view(ps: Seq<(String, AstNode)>) -> Seq<(Seq<char>, NodeView)>
    decreases ps, 0nat,
{
    if ps.len() == 0 {
        Seq::empty()
    } else {
        pairs_view(ps.drop_last()).push((ps.last().0@, node_view(ps.last().1)))
    }
}

/// The mathematical values of query conditions.
pub open spec fn conditions_view(cs: Seq<QueryCondition>) -> Seq<(Seq<char>, QueryOperator, NodeView)>
    decreases cs, 0nat,
{
    if cs.len() == 0 {
        Seq::empty()
    } else {
        conditions_view(cs.drop_last()).push((cs.last().field@, cs.last().operator, node_view(*cs.last().value)))
    }
}

/// `q` lies after `pos` and within the tokens.
pub open spec fn fwd(toks: Seq<TokenView>, pos: int, q: int) -> bool {
    pos < q <= toks.len()
}

/// The error of an unmet expectation of `expected` at `pos`.
pub open spec fn expect_err<T>(toks: Seq<TokenView>, expected: TokenView, pos: int) -> Parsed<T> {
    Err((expected_message(expected, token_at(toks, pos)), pos))
}

/// The operator of a comparison token.
pub open spec fn comparison_op(t: TokenView) -> Option<BinaryOperator> {
    match t {
        TokenOf::Is => Some(BinaryOperator::Equal),
        TokenOf::IsNot => Some(BinaryOperator::NotEqual),
        TokenOf::GreaterThan => Some(BinaryOperator::Greater),
        TokenOf::LessThan => Some(BinaryOperator::Less),
        TokenOf::AtLeast => Some(BinaryOperator::GreaterEq),
        TokenOf::AtMost => Some(BinaryOperator::LessEq),
        _ => None,
    }
}

/// The operator of an additive token.
pub open spec fn additive_op(t: TokenView) -> Option<BinaryOperator> {
    match t {
        TokenOf::Plus => Some(BinaryOperator::Add),
        TokenOf::Minus => Some(BinaryOperator::Sub),
        _ => None,
    }
}

/// The operator of a multiplicative token.
pub open spec fn multiplicative_op(t: TokenView) -> Option<BinaryOperator> {
    match t {
        TokenOf::Star => Some(BinaryOperator::Mul),
        TokenOf::Slash => Some(BinaryOperator::Div),
        TokenOf::Percent => Some(BinaryOperator::Mod),
        _ => None,
    }
}

/// The operator of a query condition token.
pub open spec fn query_op(t: TokenView) -> Option<QueryOperator> {
    match t {
        TokenOf::Is => Some(QueryOperator::Is),
        TokenOf::IsNot => Some(QueryOperator::IsNot),
        TokenOf::GreaterThan => Some(QueryOperator::Greater),
        TokenOf::LessThan => Some(QueryOperator::Less),
        TokenOf::AtLeast => Some(QueryOperator::GreaterEq),
        TokenOf::AtMost => Some(QueryOperator::LessEq),
        TokenOf::After => Some(QueryOperator::After),
        TokenOf::Before => Some(QueryOperator::Before),
        _ => None,
    }
}

/// An expression: a pipeline.
pub closed spec fn expr_spec(toks: Seq<TokenView>, spans: Seq<Span>, pos: int) -> Parsed<NodeView>
    decreases toks.len() - pos, 40nat,
{
    pipeline_spec(toks, spans, pos)
}

/// `a | b | c`: with at least one `|`, the stages in order, with the span of
/// the first `|`.
pub closed spec fn pipeline_spec(toks: Seq<TokenView>, spans: Seq<Span>, pos: int) -> Parsed<NodeView>
    decreases toks.len() - pos, 39nat,
{
    match or_spec(toks, spans, pos) {
        Err(e) => Err(e),
        Ok((e, p)) => if token_at(toks, p) is Pipe && pos <= p <= toks.len() {
            pipeline_rest(toks, spans, seq![e], span_at(spans, p), p)
        } else {
            Ok((e, p))
        },
    }
}

/// The remaining `| stage` parts of a pipeline.
pub closed spec fn pipeline_rest(
    toks: Seq<TokenView>,
    spans: Seq<Span>,
    stages: Seq<NodeView>,
    span: SourceSpan,
    pos: int,
) -> Parsed<NodeView>
    decreases toks.len() - pos, 38nat,
{
    if token_at(toks, pos) is Pipe {
        match or_spec(toks, spans, pos + 1) {
            Err(e) => Err(e),
            Ok((s, q)) => if fwd(toks, pos, q) {
                pipeline_rest(toks, spans, stages.push(s), span, q)
            } else {
                Ok((NodeView::Other, q))
            },
        }
    } else {
        Ok((NodeView::Pipeline { stages, span }, pos))
    }
}

/// `a or b or c`, to the left.
pub closed spec fn or_spec(toks: Seq<TokenView>, spans: Seq<Span>, pos: int) -> Parsed<NodeView>
    decreases toks.len() - pos, 37nat,
{
    match and_spec(toks, spans, pos) {
        Err(e) => Err(e),
        Ok((l, p)) => if pos <= p <= toks.len() {
            or_rest(toks, spans, l, p)
        } else {
            Ok((l, p))
        },
    }
}

/// The remaining `or` operands after `left`; each operation has the span
/// of the token after its `or`.
pub closed spec fn or_rest(toks: Seq<TokenView>, spans: Seq<Span>, left: NodeView, pos: int) -> Parsed<NodeView>
    decreases toks.len() - pos, 36nat,
{
    if token_at(toks, pos) is Or {
        match and_spec(toks, spans, pos + 1) {
            Err(e) => Err(e),
            Ok((r, q)) => {
                let n = NodeView::BinaryOp {
                    left: Box::new(left),
                    op: BinaryOperator::Or,
                    right: Box::new(r),
                    span: span_at(spans, pos + 1),
                };
                if fwd(toks, pos, q) {
                    or_rest(toks, spans, n, q)
                } else {
                    Ok((n, q))
                }
            },
        }
    } else {
        Ok((left, pos))
    }
}

/// `a and b and c`, to the left.
pub closed spec fn and_spec(toks: Seq<TokenView>, spans: Seq<Span>, pos: int) -> Parsed<NodeView>
    decreases toks.len() - pos, 35nat,
{
    match comparison_spec(toks, spans, pos) {
        Err(e) => Err(e),
        Ok((l, p)) => if pos <= p <= toks.len() {
            and_rest(toks, spans, l, p)
        } else {
            Ok((l, p))
        },
    }
}

/// The remaining `and` operands after `left`; each operation has the span
/// of the token after its `and`.
pub closed spec fn and_rest(toks: Seq<TokenView>, spans: Seq<Span>, left: NodeView, pos: int) -> Parsed<NodeView>
    decreases toks.len() - pos, 34nat,
{
    if token_at(toks, pos) is And {
        match comparison_spec(toks, spans, pos + 1) {
            Err(e) => Err(e),
            Ok((r, q)) => {
                let n = NodeView::BinaryOp {
                    left: Box::new(left),
                    op: BinaryOperator::And,
                    right: Box::new(r),
                    span: span_at(spans, pos + 1),
                };
                if fwd(toks, pos, q) {
                    and_rest(toks, spans, n, q)
                } else {
                    Ok((n, q))
                }
            },
        }
    } else {
        Ok((left, pos))
    }
}

/// Comparisons, to the left.
pub closed spec fn comparison_spec(toks: Seq<TokenView>, spans: Seq<Span>, pos: int) -> Parsed<NodeView>
    decreases toks.len() - pos, 33nat,
{
    match additive_spec(toks, spans, pos) {
        Err(e) => Err(e),
        Ok((l, p)) => if pos <= p <= toks.len() {
            comparison_rest(toks, spans, l, p)
        } else {
            Ok((l, p))
        },
    }
}

/// The remaining comparisons after `left`; each has the span of its
/// operator.
pub closed spec fn comparison_rest(
    toks: Seq<TokenView>,
    spans: Seq<Span>,
    left: NodeView,
    pos: int,
) -> Parsed<NodeView>
    decreases toks.len() - pos, 32nat,
{
    match comparison_op(token_at(toks, pos)) {
        None => Ok((left, pos)),
        Some(op) => match additive_spec(toks, spans, pos + 1) {
            Err(e) => Err(e),
            Ok((r, q)) => {
                let n = NodeView::BinaryOp {
                    left: Box::new(left),
                    op,
                    right: Box::new(r),
                    span: span_at(spans, pos),
                };
                if fwd(toks, pos, q) {
                    comparison_rest(toks, spans, n, q)
                } else {
                    Ok((n, q))
                }
            },
        },
    }
}

/// Sums and differences, to the left.
pub closed spec fn additive_spec(toks: Seq<TokenView>, spans: Seq<Span>, pos: int) -> Parsed<NodeView>
    decreases toks.len() - pos, 31nat,
{
    match multiplicative_spec(toks, spans, pos) {
        Err(e) => Err(e),
        Ok((l, p)) => if pos <= p <= toks.len() {
            additive_rest(toks, spans, l, p)
        } else {
            Ok((l, p))
        },
    }
}

/// The remaining `+`/`-` operands after `left`; each operation has the
/// span of its operator.
pub closed spec fn additive_rest(toks: Seq<TokenView>, spans: Seq<Span>, left: NodeView, pos: int) -> Parsed<NodeView>
    decreases toks.len() - pos, 30nat,
{
    match additive_op(token_at(toks, pos)) {
        None => Ok((left, pos)),
        Some(op) => match multiplicative_spec(toks, spans, pos + 1) {
            Err(e) => Err(e),
            Ok((r, q)) => {
                let n = NodeView::BinaryOp {
                    left: Box::new(left),
                    op,
                    right: Box::new(r),
                    span: span_at(spans, pos),
                };
                if fwd(toks, pos, q) {
                    additive_rest(toks, spans, n, q)
                } else {
                    Ok((n, q))
                }
            },
        },
    }
}

/// Products, quotients and remainders, to the left.
pub closed spec fn multiplicative_spec(toks: Seq<TokenView>, spans: Seq<Span>, pos: int) -> Parsed<NodeView>
    decreases toks.len() - pos, 29nat,
{
    match unary_spec(toks, spans, pos) {
        Err(e) => Err(e),
        Ok((l, p)) => if pos <= p <= toks.len() {
            multiplicative_rest(toks, spans, l, p)
        } else {
            Ok((l, p))
        },
    }
}

/// The remaining `*`/`/`/`%` operands after `left`; each operation has the
/// span of its operator.
pub closed spec fn multiplicative_rest(
    toks: Seq<TokenView>,
    spans: Seq<Span>,
    left: NodeView,
    pos: int,
) -> Parsed<NodeView>
    decreases toks.len() - pos, 28nat,
{
    match multiplicative_op(token_at(toks, pos)) {
        None => Ok((left, pos)),
        Some(op) => match unary_spec(toks, spans, pos + 1) {
            Err(e) => Err(e),
            Ok((r, q)) => {
                let n = NodeView::BinaryOp {
                    left: Box::new(left),
                    op,
                    right: Box::new(r),
                    span: span_at(spans, pos),
                };
                if fwd(toks, pos, q) {
                    multiplicative_rest(toks, spans, n, q)
                } else {
                    Ok((n, q))
                }
            },
        },
    }
}

/// Prefix `not` and `-`, each with the span of its operator.
pub closed spec fn unary_spec(toks: Seq<TokenView>, spans: Seq<Span>, pos: int) -> Parsed<NodeView>
    decreases toks.len() - pos, 27nat,
{
    match token_at(toks, pos) {
        TokenOf::Not => match unary_spec(toks, spans, pos + 1) {
            Err(e) => Err(e),
            Ok((o, q)) => Ok(
                (NodeView::UnaryOp { op: UnaryOperator::Not, operand: Box::new(o), span: span_at(spans, pos) }, q),
            ),
        },
        TokenOf::Minus => match unary_spec(toks, spans, pos + 1) {
            Err(e) => Err(e),
            Ok((o, q)) => Ok(
                (NodeView::UnaryOp { op: UnaryOperator::Negate, operand: Box::new(o), span: span_at(spans, pos) }, q),
            ),
        },
        _ => postfix_spec(toks, spans, pos),
    }
}

/// A primary expression followed by postfix forms.
pub closed spec fn postfix_spec(toks: Seq<TokenView>, spans: Seq<Span>, pos: int) -> Parsed<NodeView>
    decreases toks.len() - pos, 26nat,
{
    match primary_spec(toks, spans, pos) {
        Err(e) => Err(e),
        Ok((e, p)) => if pos <= p <= toks.len() {
            postfix_rest(toks, spans, e, p)
        } else {
            Ok((e, p))
        },
    }
}

/// The postfix forms after `e`: `.field`, `<types>(args)`,
/// `<types> { fields }` (after a name), `(args)`, `[index]`,
/// `{ fields }` (after a name; otherwise the expression ends), `?`.
pub closed spec fn postfix_rest(toks: Seq<TokenView>, spans: Seq<Span>, e: NodeView, pos: int) -> Parsed<NodeView>
    decreases toks.len() - pos, 25nat,
{
    match token_at(toks, pos) {
        TokenOf::Dot => match token_at(toks, pos + 1) {
            TokenOf::Ident(f) => postfix_rest(
                toks,
                spans,
                NodeView::FieldAccess { object: Box::new(e), field: f, span: span_at(spans, pos) },
                pos + 2,
            ),
            _ => Err(("Expected field name after '.'"@, pos + 1)),
        },
        TokenOf::LeftAngle => match type_args_spec(toks, pos + 1) {
            Err(err) => Err(err),
            Ok((targs, p2)) => if token_at(toks, p2) is RightAngle && fwd(toks, pos, p2) {
                let p3 = p2 + 1;
                match token_at(toks, p3) {
                    TokenOf::LeftParen => match call_args_spec(toks, spans, p3 + 1) {
                        Err(err) => Err(err),
                        Ok((args, p4)) => if token_at(toks, p4) is RightParen && fwd(toks, pos, p4) {
                            let n = NodeView::Call {
                                callee: Box::new(e),
                                type_args: targs,
                                args,
                                span: span_at(spans, p4 + 1),
                            };
                            postfix_rest(toks, spans, n, p4 + 1)
                        } else {
                            expect_err(toks, TokenOf::RightParen, p4)
                        },
                    },
                    TokenOf::LeftBrace => match e {
                        NodeView::Ident { name, .. } => {
                            proof {
                                lemma_skip_nl_bounds(toks, p3 + 1);
                            }
                            match fields_spec(
                            toks,
                            spans,
                            skip_nl(toks, p3 + 1),
                            "Expected field name in struct literal"@,
                        ) {
                            Err(err) => Err(err),
                            Ok((fields, p5)) => if token_at(toks, skip_nl(toks, p5)) is RightBrace && fwd(
                                toks,
                                pos,
                                skip_nl(toks, p5),
                            ) {
                                let n = NodeView::StructLiteral {
                                    struct_name: name,
                                    type_args: targs,
                                    fields,
                                    span: span_at(spans, p3),
                                };
                                postfix_rest(toks, spans, n, skip_nl(toks, p5) + 1)
                            } else {
                                expect_err(toks, TokenOf::RightBrace, skip_nl(toks, p5))
                            },
                        }
                        },
                        _ => Err(("Type arguments can only be used with identifiers"@, p3)),
                    },
                    _ => Err(("Expected '(' or '{' after type arguments"@, p3)),
                }
            } else {
                expect_err(toks, TokenOf::RightAngle, p2)
            },
        },
        TokenOf::LeftParen => match call_args_spec(toks, spans, pos + 1) {
            Err(err) => Err(err),
            Ok((args, p2)) => if token_at(toks, p2) is RightParen && fwd(toks, pos, p2) {
                let n = NodeView::Call { callee: Box::new(e), type_args: Seq::empty(), args, span: span_at(spans, pos) };
                postfix_rest(toks, spans, n, p2 + 1)
            } else {
                expect_err(toks, TokenOf::RightParen, p2)
            },
        },
        TokenOf::LeftBracket => match expr_spec(toks, spans, pos + 1) {
            Err(err) => Err(err),
            Ok((index, p2)) => if token_at(toks, p2) is RightBracket && fwd(toks, pos, p2) {
                let n = NodeView::IndexAccess {
                    object: Box::new(e),
                    index: Box::new(index),
                    span: span_at(spans, pos),
                };
                postfix_rest(toks, spans, n, p2 + 1)
            } else {
                expect_err(toks, TokenOf::RightBracket, p2)
            },
        },
        TokenOf::LeftBrace => match e {
            NodeView::Ident { name, .. } => {
                proof {
                    lemma_skip_nl_bounds(toks, pos + 1);
                }
                match fields_spec(
                toks,
                spans,
                skip_nl(toks, pos + 1),
                "Expected field name in struct literal"@,
            ) {
                Err(err) => Err(err),
                Ok((fields, p2)) => if token_at(toks, skip_nl(toks, p2)) is RightBrace && fwd(
                    toks,
                    pos,
                    skip_nl(toks, p2),
                ) {
                    let n = NodeView::StructLiteral {
                        struct_name: name,
                        type_args: Seq::empty(),
                        fields,
                        span: span_at(spans, pos),
                    };
                    postfix_rest(toks, spans, n, skip_nl(toks, p2) + 1)
                } else {
                    expect_err(toks, TokenOf::RightBrace, skip_nl(toks, p2))
                },
            }
            },
            _ => Ok((e, pos)),
        },
        TokenOf::Question => postfix_rest(
            toks,
            spans,
            NodeView::Try { expr: Box::new(e), span: span_at(spans, pos) },
            pos + 1,
        ),
        _ => Ok((e, pos)),
    }
}

/// Call arguments: none before `)`, else expressions separated by commas.
pub closed spec fn call_args_spec(toks: Seq<TokenView>, spans: Seq<Span>, pos: int) -> Parsed<Seq<NodeView>>
    decreases toks.len() - pos, 52nat,
{
    if token_at(toks, pos) is RightParen {
        Ok((Seq::empty(), pos))
    } else {
        args_list(toks, spans, pos)
    }
}

/// Expressions separated by commas.
pub closed spec fn args_list(toks: Seq<TokenView>, spans: Seq<Span>, pos: int) -> Parsed<Seq<NodeView>>
    decreases toks.len() - pos, 51nat,
{
    match expr_spec(toks, spans, pos) {
        Err(err) => Err(err),
        Ok((a, q)) => if token_at(toks, q) is Comma && fwd(toks, pos, q) {
            match args_list(toks, spans, q + 1) {
                Err(err) => Err(err),
                Ok((rest, r)) => Ok((seq![a] + rest, r)),
            }
        } else {
            Ok((seq![a], q))
        },
    }
}

/// `name: value` pairs inside braces: none before `}`, else pairs separated
/// by commas, with newlines allowed after each comma; `msg` is the error
/// for a missing name.
pub closed spec fn fields_spec(
    toks: Seq<TokenView>,
    spans: Seq<Span>,
    pos: int,
    msg: Seq<char>,
) -> Parsed<Seq<(Seq<char>, NodeView)>>
    decreases toks.len() - pos, 52nat,
{
    if token_at(toks, pos) is RightBrace {
        Ok((Seq::empty(), pos))
    } else {
        pairs_list(toks, spans, pos, msg)
    }
}

/// `name: value` pairs separated by commas and newlines.
pub closed spec fn pairs_list(
    toks: Seq<TokenView>,
    spans: Seq<Span>,
    pos: int,
    msg: Seq<char>,
) -> Parsed<Seq<(Seq<char>, NodeView)>>
    decreases toks.len() - pos, 51nat,
{
    match token_at(toks, pos) {
        TokenOf::Ident(name) => if token_at(toks, pos + 1) is Colon {
            match expr_spec(toks, spans, pos + 2) {
                Err(err) => Err(err),
                Ok((v, q)) => if token_at(toks, q) is Comma && fwd(toks, pos, q) && fwd(
                    toks,
                    pos,
                    skip_nl(toks, q + 1),
                ) {
                    match pairs_list(toks, spans, skip_nl(toks, q + 1), msg) {
                        Err(err) => Err(err),
                        Ok((rest, r)) => Ok((seq![(name, v)] + rest, r)),
                    }
                } else {
                    Ok((seq![(name, v)], q))
                },
            }
        } else {
            expect_err(toks, TokenOf::Colon, pos + 1)
        },
        _ => Err((msg, pos)),
    }
}

/// `( e )`: the expression and the position after `)`.
pub closed spec fn wrapped_spec(toks: Seq<TokenView>, spans: Seq<Span>, pos: int) -> Parsed<NodeView>
    decreases toks.len() - pos, 20nat,
{
    if token_at(toks, pos) is LeftParen {
        match expr_spec(toks, spans, pos + 1) {
            Err(err) => Err(err),
            Ok((v, q)) => if token_at(toks, q) is RightParen {
                Ok((v, q + 1))
            } else {
                expect_err(toks, TokenOf::RightParen, q)
            },
        }
    } else {
        expect_err(toks, TokenOf::LeftParen, pos)
    }
}

/// Literals, names, parenthesised expressions, lists, maps, queries,
/// ranges, outcome and maybe constructors, and capability requests; each
/// with the span of its first token.
pub closed spec fn primary_spec(toks: Seq<TokenView>, spans: Seq<Span>, pos: int) -> Parsed<NodeView>
    decreases toks.len() - pos, 19nat,
{
    let span = span_at(spans, pos);
    match token_at(toks, pos) {
        TokenOf::Number(n) => Ok((NodeView::Number { value: n, span }, pos + 1)),
        TokenOf::Text(s) => Ok((NodeView::Text { value: s, span }, pos + 1)),
        TokenOf::Truth(b) => Ok((NodeView::Truth { value: b, span }, pos + 1)),
        TokenOf::Nothing => Ok((NodeView::Nothing { span }, pos + 1)),
        TokenOf::Ident(name) => Ok((NodeView::Ident { name, span }, pos + 1)),
        TokenOf::LeftParen => match expr_spec(toks, spans, pos + 1) {
            Err(err) => Err(err),
            Ok((e, q)) => if token_at(toks, q) is RightParen {
                Ok((e, q + 1))
            } else {
                expect_err(toks, TokenOf::RightParen, q)
            },
        },
        TokenOf::LeftBracket => list_spec(toks, spans, pos),
        TokenOf::LeftBrace => map_spec(toks, spans, pos),
        TokenOf::Seek => seek_spec(toks, spans, pos),
        TokenOf::Range => range_spec(toks, spans, pos),
        TokenOf::Triumph => match wrapped_spec(toks, spans, pos + 1) {
            Err(err) => Err(err),
            Ok((v, q)) => Ok((NodeView::Triumph { value: Box::new(v), span }, q)),
        },
        TokenOf::Mishap => match wrapped_spec(toks, spans, pos + 1) {
            Err(err) => Err(err),
            Ok((v, q)) => Ok((NodeView::Mishap { value: Box::new(v), span }, q)),
        },
        TokenOf::Present => match wrapped_spec(toks, spans, pos + 1) {
            Err(err) => Err(err),
            Ok((v, q)) => Ok((NodeView::Present { value: Box::new(v), span }, q)),
        },
        TokenOf::Absent => Ok((NodeView::Absent { span }, pos + 1)),
        TokenOf::Request => request_spec(toks, spans, pos),
        t => Err(("Unexpected token: "@ + token_text(t), pos)),
    }
}

/// `[ e, e, ... ]`, with newlines allowed after `[`, after each comma and
/// before `]`.
pub closed spec fn list_spec(toks: Seq<TokenView>, spans: Seq<Span>, pos: int) -> Parsed<NodeView>
    decreases toks.len() - pos, 18nat,
{
    if token_at(toks, pos) is LeftBracket {
        let p1 = skip_nl(toks, pos + 1);
        let elems: Parsed<Seq<NodeView>> = if token_at(toks, p1) is RightBracket {
            Ok((Seq::empty(), p1))
        } else if fwd(toks, pos, p1) {
            elements_list(toks, spans, p1)
        } else {
            Ok((Seq::empty(), p1))
        };
        match elems {
            Err(err) => Err(err),
            Ok((elements, p2)) => if token_at(toks, skip_nl(toks, p2)) is RightBracket {
                Ok((NodeView::List { elements, span: span_at(spans, pos) }, skip_nl(toks, p2) + 1))
            } else {
                expect_err(toks, TokenOf::RightBracket, skip_nl(toks, p2))
            },
        }
    } else {
        expect_err(toks, TokenOf::LeftBracket, pos)
    }
}

/// Expressions separated by commas and newlines.
pub closed spec fn elements_list(toks: Seq<TokenView>, spans: Seq<Span>, pos: int) -> Parsed<Seq<NodeView>>
    decreases toks.len() - pos, 51nat,
{
    match expr_spec(toks, spans, pos) {
        Err(err) => Err(err),
        Ok((a, q)) => if token_at(toks, q) is Comma && fwd(toks, pos, q) && fwd(toks, pos, skip_nl(toks, q + 1)) {
            match elements_list(toks, spans, skip_nl(toks, q + 1)) {
                Err(err) => Err(err),
                Ok((rest, r)) => Ok((seq![a] + rest, r)),
            }
        } else {
            Ok((seq![a], q))
        },
    }
}

/// `{ key: value, ... }`, with newlines allowed after `{`, after each comma
/// and before `}`.
pub closed spec fn map_spec(toks: Seq<TokenView>, spans: Seq<Span>, pos: int) -> Parsed<NodeView>
    decreases toks.len() - pos, 16nat,
{
    if token_at(toks, pos) is LeftBrace {
        let p1 = skip_nl(toks, pos + 1);
        let entries: Parsed<Seq<(Seq<char>, NodeView)>> = if fwd(toks, pos, p1) {
            fields_spec(toks, spans, p1, "Expected identifier as map key"@)
        } else {
            Ok((Seq::empty(), p1))
        };
        match entries {
            Err(err) => Err(err),
            Ok((entries, p2)) => if token_at(toks, skip_nl(toks, p2)) is RightBrace {
                Ok((NodeView::MapLiteral { entries, span: span_at(spans, pos) }, skip_nl(toks, p2) + 1))
            } else {
                expect_err(toks, TokenOf::RightBrace, skip_nl(toks, p2))
            },
        }
    } else {
        expect_err(toks, TokenOf::LeftBrace, pos)
    }
}

/// `seek where field op value and ...`.
pub closed spec fn seek_spec(toks: Seq<TokenView>, spans: Seq<Span>, pos: int) -> Parsed<NodeView>
    decreases toks.len() - pos, 15nat,
{
    if !(token_at(toks, pos) is Seek) {
        expect_err(toks, TokenOf::Seek, pos)
    } else if !(token_at(toks, pos + 1) is Where) {
        expect_err(toks, TokenOf::Where, pos + 1)
    } else {
        match conditions_spec(toks, spans, pos + 2) {
            Err(err) => Err(err),
            Ok((conditions, q)) => Ok((NodeView::SeekExpr { conditions, span: span_at(spans, pos) }, q)),
        }
    }
}

/// Query conditions, each a field name, an operator and an additive
/// expression, joined by `and`; they end at a token that is not a name.
pub closed spec fn conditions_spec(toks: Seq<TokenView>, spans: Seq<Span>, pos: int) -> Parsed<
    Seq<(Seq<char>, QueryOperator, NodeView)>,
>
    decreases toks.len() - pos, 14nat,
{
    match token_at(toks, pos) {
        TokenOf::Ident(field) => match query_op(token_at(toks, pos + 1)) {
            None => Err(("Expected comparison operator"@, pos + 1)),
            Some(op) => match additive_spec(toks, spans, pos + 2) {
                Err(err) => Err(err),
                Ok((v, q)) => if token_at(toks, q) is And && fwd(toks, pos, q) {
                    match conditions_spec(toks, spans, q + 1) {
                        Err(err) => Err(err),
                        Ok((rest, r)) => Ok((seq![(field, op, v)] + rest, r)),
                    }
                } else {
                    Ok((seq![(field, op, v)], q))
                },
            },
        },
        _ => Ok((Seq::empty(), pos)),
    }
}

/// `range(start, end)`.
pub closed spec fn range_spec(toks: Seq<TokenView>, spans: Seq<Span>, pos: int) -> Parsed<NodeView>
    decreases toks.len() - pos, 13nat,
{
    if !(token_at(toks, pos) is Range) {
        expect_err(toks, TokenOf::Range, pos)
    } else if !(token_at(toks, pos + 1) is LeftParen) {
        expect_err(toks, TokenOf::LeftParen, pos + 1)
    } else {
        match expr_spec(toks, spans, pos + 2) {
            Err(err) => Err(err),
            Ok((s, q)) => if !(token_at(toks, q) is Comma) {
                expect_err(toks, TokenOf::Comma, q)
            } else if !fwd(toks, pos, q) {
                Ok((NodeView::Other, q))
            } else {
                match expr_spec(toks, spans, q + 1) {
                    Err(err) => Err(err),
                    Ok((e, r)) => if token_at(toks, r) is RightParen {
                        Ok((
                            NodeView::Range { start: Box::new(s), end: Box::new(e), span: span_at(spans, pos) },
                            r + 1,
                        ))
                    } else {
                        expect_err(toks, TokenOf::RightParen, r)
                    },
                }
            },
        }
    }
}

/// `request capability with justification "text"`.
pub closed spec fn request_spec(toks: Seq<TokenView>, spans: Seq<Span>, pos: int) -> Parsed<NodeView>
    decreases toks.len() - pos, 12nat,
{
    if !(token_at(toks, pos) is Request) {
        expect_err(toks, TokenOf::Request, pos)
    } else {
        match expr_spec(toks, spans, pos + 1) {
            Err(err) => Err(err),
            Ok((c, q)) => if !(token_at(toks, q) is With) {
                expect_err(toks, TokenOf::With, q)
            } else if !(token_at(toks, q + 1) is Justification) {
                expect_err(toks, TokenOf::Justification, q + 1)
            } else {
                match token_at(toks, q + 2) {
                    TokenOf::Text(j) => Ok(
                        (NodeView::RequestStmt { capability: Box::new(c), justification: j, span: span_at(spans, pos) }, q + 3),
                    ),
                    _ => Err(("Expected string after 'justification'"@, q + 2)),
                }
            },
        }
    }
}

/// One step of `expr_spec`.
pub proof fn unfold_expr_spec(toks: Seq<TokenView>, spans: Seq<Span>, pos: int)
    ensures
        expr_spec(toks, spans, pos) == ({
            pipeline_spec(toks, spans, pos)
        }),
{
}

/// One step of `pipeline_spec`.
pub proof fn unfold_pipeline_spec(toks: Seq<TokenView>, spans: Seq<Span>, pos: int)
    ensures
        pipeline_spec(toks, spans, pos) == ({
            match or_spec(toks, spans, pos) {
                Err(e) => Err(e),
                Ok((e, p)) => if token_at(toks, p) is Pipe && pos <= p <= toks.len() {
                    pipeline_rest(toks, spans, seq![e], span_at(spans, p), p)
                } else {
                    Ok((e, p))
                },
            }
        }),
{
}

/// One step of `pipeline_rest`.
pub proof fn unfold_pipeline_rest(toks: Seq<TokenView>, spans: Seq<Span>, stages: Seq<NodeView>, span: SourceSpan, pos: int)
    ensures
        pipeline_rest(toks, spans, stages, span, pos) == ({
            if token_at(toks, pos) is Pipe {
                match or_spec(toks, spans, pos + 1) {
                    Err(e) => Err(e),
                    Ok((s, q)) => if fwd(toks, pos, q) {
                        pipeline_rest(toks, spans, stages.push(s), span, q)
                    } else {
                        Ok((NodeView::Other, q))
                    },
                }
            } else {
                Ok((NodeView::Pipeline { stages, span }, pos))
            }
        }),
{
}

/// One step of `or_spec`.
pub proof fn unfold_or_spec(toks: Seq<TokenView>, spans: Seq<Span>, pos: int)
    ensures
        or_spec(toks, spans, pos) == ({
            match and_spec(toks, spans, pos) {
                Err(e) => Err(e),
                Ok((l, p)) => if pos <= p <= toks.len() {
                    or_rest(toks, spans, l, p)
                } else {
                    Ok((l, p))
                },
            }
        }),
{
}

/// One step of `or_rest`.
pub proof fn unfold_or_rest(toks: Seq<TokenView>, spans: Seq<Span>, left: NodeView, pos: int)
    ensures
        or_rest(toks, spans, left, pos) == ({
            if token_at(toks, pos) is Or {
                match and_spec(toks, spans, pos + 1) {
                    Err(e) => Err(e),
                    Ok((r, q)) => {
                        let n = NodeView::BinaryOp {
                            left: Box::new(left),
                            op: BinaryOperator::Or,
                            right: Box::new(r),
                            span: span_at(spans, pos + 1),
                        };
                        if fwd(toks, pos, q) {
                            or_rest(toks, spans, n, q)
                        } else {
                            Ok((n, q))
                        }
                    },
                }
            } else {
                Ok((left, pos))
            }
        }),
{
}

/// One step of `and_spec`.
pub proof fn unfold_and_spec(toks: Seq<TokenView>, spans: Seq<Span>, pos: int)
    ensures
        and_spec(toks, spans, pos) == ({
            match comparison_spec(toks, spans, pos) {
                Err(e) => Err(e),
                Ok((l, p)) => if pos <= p <= toks.len() {
                    and_rest(toks, spans, l, p)
                } else {
                    Ok((l, p))
                },
            }
        }),
{
}

/// One step of `and_rest`.
pub proof fn unfold_and_rest(toks: Seq<TokenView>, spans: Seq<Span>, left: NodeView, pos: int)
    ensures
        and_rest(toks, spans, left, pos) == ({
            if token_at(toks, pos) is And {
                match comparison_spec(toks, spans, pos + 1) {
                    Err(e) => Err(e),
                    Ok((r, q)) => {
                        let n = NodeView::BinaryOp {
                            left: Box::new(left),
                            op: BinaryOperator::And,
                            right: Box::new(r),
                            span: span_at(spans, pos + 1),
                        };
                        if fwd(toks, pos, q) {
                            and_rest(toks, spans, n, q)
                        } else {
                            Ok((n, q))
                        }
                    },
                }
            } else {
                Ok((left, pos))
            }
        }),
{
}

/// One step of `comparison_spec`.
pub proof fn unfold_comparison_spec(toks: Seq<TokenView>, spans: Seq<Span>, pos: int)
    ensures
        comparison_spec(toks, spans, pos) == ({
            match additive_spec(toks, spans, pos) {
                Err(e) => Err(e),
                Ok((l, p)) => if pos <= p <= toks.len() {
                    comparison_rest(toks, spans, l, p)
                } else {
                    Ok((l, p))
                },
            }
        }),
{
}

/// One step of `comparison_rest`.
pub proof fn unfold_comparison_rest(toks: Seq<TokenView>, spans: Seq<Span>, left: NodeView, pos: int)
    ensures
        comparison_rest(toks, spans, left, pos) == ({
            match comparison_op(token_at(toks, pos)) {
                None => Ok((left, pos)),
                Some(op) => match additive_spec(toks, spans, pos + 1) {
                    Err(e) => Err(e),
                    Ok((r, q)) => {
                        let n = NodeView::BinaryOp {
                            left: Box::new(left),
                            op,
                            right: Box::new(r),
                            span: span_at(spans, pos),
                        };
                        if fwd(toks, pos, q) {
                            comparison_rest(toks, spans, n, q)
                        } else {
                            Ok((n, q))
                        }
                    },
                },
            }
        }),
{
}

/// One step of `additive_spec`.
pub proof fn unfold_additive_spec(toks: Seq<TokenView>, spans: Seq<Span>, pos: int)
    ensures
        additive_spec(toks, spans, pos) == ({
            match multiplicative_spec(toks, spans, pos) {
                Err(e) => Err(e),
                Ok((l, p)) => if pos <= p <= toks.len() {
                    additive_rest(toks, spans, l, p)
                } else {
                    Ok((l, p))
                },
            }
        }),
{
}

/// One step of `additive_rest`.
pub proof fn unfold_additive_rest(toks: Seq<TokenView>, spans: Seq<Span>, left: NodeView, pos: int)
    ensures
        additive_rest(toks, spans, left, pos) == ({
            match additive_op(token_at(toks, pos)) {
                None => Ok((left, pos)),
                Some(op) => match multiplicative_spec(toks, spans, pos + 1) {
                    Err(e) => Err(e),
                    Ok((r, q)) => {
                        let n = NodeView::BinaryOp {
                            left: Box::new(left),
                            op,
                            right: Box::new(r),
                            span: span_at(spans, pos),
                        };
                        if fwd(toks, pos, q) {
                            additive_rest(toks, spans, n, q)
                        } else {
                            Ok((n, q))
                        }
                    },
                },
            }
        }),
{
}

/// One step of `multiplicative_spec`.
pub proof fn unfold_multiplicative_spec(toks: Seq<TokenView>, spans: Seq<Span>, pos: int)
    ensures
        multiplicative_spec(toks, spans, pos) == ({
            match unary_spec(toks, spans, pos) {
                Err(e) => Err(e),
                Ok((l, p)) => if pos <= p <= toks.len() {
                    multiplicative_rest(toks, spans, l, p)
                } else {
                    Ok((l, p))
                },
            }
        }),
{
}

/// One step of `multiplicative_rest`.
pub proof fn unfold_multiplicative_rest(toks: Seq<TokenView>, spans: Seq<Span>, left: NodeView, pos: int)
    ensures
        multiplicative_rest(toks, spans, left, pos) == ({
            match multiplicative_op(token_at(toks, pos)) {
                None => Ok((left, pos)),
                Some(op) => match unary_spec(toks, spans, pos + 1) {
                    Err(e) => Err(e),
                    Ok((r, q)) => {
                        let n = NodeView::BinaryOp {
                            left: Box::new(left),
                            op,
                            right: Box::new(r),
                            span: span_at(spans, pos),
                        };
                        if fwd(toks, pos, q) {
                            multiplicative_rest(toks, spans, n, q)
                        } else {
                            Ok((n, q))
                        }
                    },
                },
            }
        }),
{
}

/// One step of `unary_spec`.
pub proof fn unfold_unary_spec(toks: Seq<TokenView>, spans: Seq<Span>, pos: int)
    ensures
        unary_spec(toks, spans, pos) == ({
            match token_at(toks, pos) {
                TokenOf::Not => match unary_spec(toks, spans, pos + 1) {
                    Err(e) => Err(e),
                    Ok((o, q)) => Ok(
                        (NodeView::UnaryOp { op: UnaryOperator::Not, operand: Box::new(o), span: span_at(spans, pos) }, q),
                    ),
                },
                TokenOf::Minus => match unary_spec(toks, spans, pos + 1) {
                    Err(e) => Err(e),
                    Ok((o, q)) => Ok(
                        (NodeView::UnaryOp { op: UnaryOperator::Negate, operand: Box::new(o), span: span_at(spans, pos) }, q),
                    ),
                },
                _ => postfix_spec(toks, spans, pos),
            }
        }),
{
}

/// One step of `postfix_spec`.
pub proof fn unfold_postfix_spec(toks: Seq<TokenView>, spans: Seq<Span>, pos: int)
    ensures
        postfix_spec(toks, spans, pos) == ({
            match primary_spec(toks, spans, pos) {
                Err(e) => Err(e),
                Ok((e, p)) => if pos <= p <= toks.len() {
                    postfix_rest(toks, spans, e, p)
                } else {
                    Ok((e, p))
                },
            }
        }),
{
}

/// One step of `postfix_rest`.
pub proof fn unfold_postfix_rest(toks: Seq<TokenView>, spans: Seq<Span>, e: NodeView, pos: int)
    ensures
        postfix_rest(toks, spans, e, pos) == ({
            match token_at(toks, pos) {
                TokenOf::Dot => match token_at(toks, pos + 1) {
                    TokenOf::Ident(f) => postfix_rest(
                        toks,
                        spans,
                        NodeView::FieldAccess { object: Box::new(e), field: f, span: span_at(spans, pos) },
                        pos + 2,
                    ),
                    _ => Err(("Expected field name after '.'"@, pos + 1)),
                },
                TokenOf::LeftAngle => match type_args_spec(toks, pos + 1) {
                    Err(err) => Err(err),
                    Ok((targs, p2)) => if token_at(toks, p2) is RightAngle && fwd(toks, pos, p2) {
                        let p3 = p2 + 1;
                        match token_at(toks, p3) {
                            TokenOf::LeftParen => match call_args_spec(toks, spans, p3 + 1) {
                                Err(err) => Err(err),
                                Ok((args, p4)) => if token_at(toks, p4) is RightParen && fwd(toks, pos, p4) {
                                    let n = NodeView::Call {
                                        callee: Box::new(e),
                                        type_args: targs,
                                        args,
                                        span: span_at(spans, p4 + 1),
                                    };
                                    postfix_rest(toks, spans, n, p4 + 1)
                                } else {
                                    expect_err(toks, TokenOf::RightParen, p4)
                                },
                            },
                            TokenOf::LeftBrace => match e {
                                NodeView::Ident { name, .. } => {
                                    match fields_spec(
                                    toks,
                                    spans,
                                    skip_nl(toks, p3 + 1),
                                    "Expected field name in struct literal"@,
                                ) {
                                    Err(err) => Err(err),
                                    Ok((fields, p5)) => if token_at(toks, skip_nl(toks, p5)) is RightBrace && fwd(
                                        toks,
                                        pos,
                                        skip_nl(toks, p5),
                                    ) {
                                        let n = NodeView::StructLiteral {
                                            struct_name: name,
                                            type_args: targs,
                                            fields,
                                            span: span_at(spans, p3),
                                        };
                                        postfix_rest(toks, spans, n, skip_nl(toks, p5) + 1)
                                    } else {
                                        expect_err(toks, TokenOf::RightBrace, skip_nl(toks, p5))
                                    },
                                }
                                },
                                _ => Err(("Type arguments can only be used with identifiers"@, p3)),
                            },
                            _ => Err(("Expected '(' or '{' after type arguments"@, p3)),
                        }
                    } else {
                        expect_err(toks, TokenOf::RightAngle, p2)
                    },
                },
                TokenOf::LeftParen => match call_args_spec(toks, spans, pos + 1) {
                    Err(err) => Err(err),
                    Ok((args, p2)) => if token_at(toks, p2) is RightParen && fwd(toks, pos, p2) {
                        let n = NodeView::Call { callee: Box::new(e), type_args: Seq::empty(), args, span: span_at(spans, pos) };
                        postfix_rest(toks, spans, n, p2 + 1)
                    } else {
                        expect_err(toks, TokenOf::RightParen, p2)
                    },
                },
                TokenOf::LeftBracket => match expr_spec(toks, spans, pos + 1) {
                    Err(err) => Err(err),
                    Ok((index, p2)) => if token_at(toks, p2) is RightBracket && fwd(toks, pos, p2) {
                        let n = NodeView::IndexAccess {
                            object: Box::new(e),
                            index: Box::new(index),
                            span: span_at(spans, pos),
                        };
                        postfix_rest(toks, spans, n, p2 + 1)
                    } else {
                        expect_err(toks, TokenOf::RightBracket, p2)
                    },
                },
                TokenOf::LeftBrace => match e {
                    NodeView::Ident { name, .. } => {
                        match fields_spec(
                        toks,
                        spans,
                        skip_nl(toks, pos + 1),
                        "Expected field name in struct literal"@,
                    ) {
                        Err(err) => Err(err),
                        Ok((fields, p2)) => if token_at(toks, skip_nl(toks, p2)) is RightBrace && fwd(
                            toks,
                            pos,
                            skip_nl(toks, p2),
                        ) {
                            let n = NodeView::StructLiteral {
                                struct_name: name,
                                type_args: Seq::empty(),
                                fields,
                                span: span_at(spans, pos),
                            };
                            postfix_rest(toks, spans, n, skip_nl(toks, p2) + 1)
                        } else {
                            expect_err(toks, TokenOf::RightBrace, skip_nl(toks, p2))
                        },
                    }
                    },
                    _ => Ok((e, pos)),
                },
                TokenOf::Question => postfix_rest(
                    toks,
                    spans,
                    NodeView::Try { expr: Box::new(e), span: span_at(spans, pos) },
                    pos + 1,
                ),
                _ => Ok((e, pos)),
            }
        }),
{
}

/// One step of `call_args_spec`.
pub proof fn unfold_call_args_spec(toks: Seq<TokenView>, spans: Seq<Span>, pos: int)
    ensures
        call_args_spec(toks, spans, pos) == ({
            if token_at(toks, pos) is RightParen {
                Ok((Seq::empty(), pos))
            } else {
                args_list(toks, spans, pos)
            }
        }),
{
}

/// One step of `args_list`.
pub proof fn unfold_args_list(toks: Seq<TokenView>, spans: Seq<Span>, pos: int)
    ensures
        args_list(toks, spans, pos) == ({
            match expr_spec(toks, spans, pos) {
                Err(err) => Err(err),
                Ok((a, q)) => if token_at(toks, q) is Comma && fwd(toks, pos, q) {
                    match args_list(toks, spans, q + 1) {
                        Err(err) => Err(err),
                        Ok((rest, r)) => Ok((seq![a] + rest, r)),
                    }
                } else {
                    Ok((seq![a], q))
                },
            }
        }),
{
}

/// One step of `fields_spec`.
pub proof fn unfold_fields_spec(toks: Seq<TokenView>, spans: Seq<Span>, pos: int, msg: Seq<char>)
    ensures
        fields_spec(toks, spans, pos, msg) == ({
            if token_at(toks, pos) is RightBrace {
                Ok((Seq::empty(), pos))
            } else {
                pairs_list(toks, spans, pos, msg)
            }
        }),
{
}

/// One step of `pairs_list`.
pub proof fn unfold_pairs_list(toks: Seq<TokenView>, spans: Seq<Span>, pos: int, msg: Seq<char>)
    ensures
        pairs_list(toks, spans, pos, msg) == ({
            match token_at(toks, pos) {
                TokenOf::Ident(name) => if token_at(toks, pos + 1) is Colon {
                    match expr_spec(toks, spans, pos + 2) {
                        Err(err) => Err(err),
                        Ok((v, q)) => if token_at(toks, q) is Comma && fwd(toks, pos, q) && fwd(
                            toks,
                            pos,
                            skip_nl(toks, q + 1),
                        ) {
                            match pairs_list(toks, spans, skip_nl(toks, q + 1), msg) {
                                Err(err) => Err(err),
                                Ok((rest, r)) => Ok((seq![(name, v)] + rest, r)),
                            }
                        } else {
                            Ok((seq![(name, v)], q))
                        },
                    }
                } else {
                    expect_err(toks, TokenOf::Colon, pos + 1)
                },
                _ => Err((msg, pos)),
            }
        }),
{
}

/// One step of `wrapped_spec`.
pub proof fn unfold_wrapped_spec(toks: Seq<TokenView>, spans: Seq<Span>, pos: int)
    ensures
        wrapped_spec(toks, spans, pos) == ({
            if token_at(toks, pos) is LeftParen {
                match expr_spec(toks, spans, pos + 1) {
                    Err(err) => Err(err),
                    Ok((v, q)) => if token_at(toks, q) is RightParen {
                        Ok((v, q + 1))
                    } else {
                        expect_err(toks, TokenOf::RightParen, q)
                    },
                }
            } else {
                expect_err(toks, TokenOf::LeftParen, pos)
            }
        }),
{
}

/// One step of `primary_spec`.
pub proof fn unfold_primary_spec(toks: Seq<TokenView>, spans: Seq<Span>, pos: int)
    ensures
        primary_spec(toks, spans, pos) == ({
            let span = span_at(spans, pos);
            match token_at(toks, pos) {
                TokenOf::Number(n) => Ok((NodeView::Number { value: n, span }, pos + 1)),
                TokenOf::Text(s) => Ok((NodeView::Text { value: s, span }, pos + 1)),
                TokenOf::Truth(b) => Ok((NodeView::Truth { value: b, span }, pos + 1)),
                TokenOf::Nothing => Ok((NodeView::Nothing { span }, pos + 1)),
                TokenOf::Ident(name) => Ok((NodeView::Ident { name, span }, pos + 1)),
                TokenOf::LeftParen => match expr_spec(toks, spans, pos + 1) {
                    Err(err) => Err(err),
                    Ok((e, q)) => if token_at(toks, q) is RightParen {
                        Ok((e, q + 1))
                    } else {
                        expect_err(toks, TokenOf::RightParen, q)
                    },
                },
                TokenOf::LeftBracket => list_spec(toks, spans, pos),
                TokenOf::LeftBrace => map_spec(toks, spans, pos),
                TokenOf::Seek => seek_spec(toks, spans, pos),
                TokenOf::Range => range_spec(toks, spans, pos),
                TokenOf::Triumph => match wrapped_spec(toks, spans, pos + 1) {
                    Err(err) => Err(err),
                    Ok((v, q)) => Ok((NodeView::Triumph { value: Box::new(v), span }, q)),
                },
                TokenOf::Mishap => match wrapped_spec(toks, spans, pos + 1) {
                    Err(err) => Err(err),
                    Ok((v, q)) => Ok((NodeView::Mishap { value: Box::new(v), span }, q)),
                },
                TokenOf::Present => match wrapped_spec(toks, spans, pos + 1) {
                    Err(err) => Err(err),
                    Ok((v, q)) => Ok((NodeView::Present { value: Box::new(v), span }, q)),
                },
                TokenOf::Absent => Ok((NodeView::Absent { span }, pos + 1)),
                TokenOf::Request => request_spec(toks, spans, pos),
                t => Err(("Unexpected token: "@ + token_text(t), pos)),
            }
        }),
{
}

/// One step of `list_spec`.
pub proof fn unfold_list_spec(toks: Seq<TokenView>, spans: Seq<Span>, pos: int)
    ensures
        list_spec(toks, spans, pos) == ({
            if token_at(toks, pos) is LeftBracket {
                let p1 = skip_nl(toks, pos + 1);
                let elems: Parsed<Seq<NodeView>> = if token_at(toks, p1) is RightBracket {
                    Ok((Seq::empty(), p1))
                } else if fwd(toks, pos, p1) {
                    elements_list(toks, spans, p1)
                } else {
                    Ok((Seq::empty(), p1))
                };
                match elems {
                    Err(err) => Err(err),
                    Ok((elements, p2)) => if token_at(toks, skip_nl(toks, p2)) is RightBracket {
                        Ok((NodeView::List { elements, span: span_at(spans, pos) }, skip_nl(toks, p2) + 1))
                    } else {
                        expect_err(toks, TokenOf::RightBracket, skip_nl(toks, p2))
                    },
                }
            } else {
                expect_err(toks, TokenOf::LeftBracket, pos)
            }
        }),
{
}

/// One step of `elements_list`.
pub proof fn unfold_elements_list(toks: Seq<TokenView>, spans: Seq<Span>, pos: int)
    ensures
        elements_list(toks, spans, pos) == ({
            match expr_spec(toks, spans, pos) {
                Err(err) => Err(err),
                Ok((a, q)) => if token_at(toks, q) is Comma && fwd(toks, pos, q) && fwd(toks, pos, skip_nl(toks, q + 1)) {
                    match elements_list(toks, spans, skip_nl(toks, q + 1)) {
                        Err(err) => Err(err),
                        Ok((rest, r)) => Ok((seq![a] + rest, r)),
                    }
                } else {
                    Ok((seq![a], q))
                },
            }
        }),
{
}

/// One step of `map_spec`.
pub proof fn unfold_map_spec(toks: Seq<TokenView>, spans: Seq<Span>, pos: int)
    ensures
        map_spec(toks, spans, pos) == ({
            if token_at(toks, pos) is LeftBrace {
                let p1 = skip_nl(toks, pos + 1);
                let entries: Parsed<Seq<(Seq<char>, NodeView)>> = if fwd(toks, pos, p1) {
                    fields_spec(toks, spans, p1, "Expected identifier as map key"@)
                } else {
                    Ok((Seq::empty(), p1))
                };
                match entries {
                    Err(err) => Err(err),
                    Ok((entries, p2)) => if token_at(toks, skip_nl(toks, p2)) is RightBrace {
                        Ok((NodeView::MapLiteral { entries, span: span_at(spans, pos) }, skip_nl(toks, p2) + 1))
                    } else {
                        expect_err(toks, TokenOf::RightBrace, skip_nl(toks, p2))
                    },
                }
            } else {
                expect_err(toks, TokenOf::LeftBrace, pos)
            }
        }),
{
}

/// One step of `seek_spec`.
pub proof fn unfold_seek_spec(toks: Seq<TokenView>, spans: Seq<Span>, pos: int)
    ensures
        seek_spec(toks, spans, pos) == ({
            if !(token_at(toks, pos) is Seek) {
                expect_err(toks, TokenOf::Seek, pos)
            } else if !(token_at(toks, pos + 1) is Where) {
                expect_err(toks, TokenOf::Where, pos + 1)
            } else {
                match conditions_spec(toks, spans, pos + 2) {
                    Err(err) => Err(err),
                    Ok((conditions, q)) => Ok((NodeView::SeekExpr { conditions, span: span_at(spans, pos) }, q)),
                }
            }
        }),
{
}

/// One step of `conditions_spec`.
pub proof fn unfold_conditions_spec(toks: Seq<TokenView>, spans: Seq<Span>, pos: int)
    ensures
        conditions_spec(toks, spans, pos) == ({
            match token_at(toks, pos) {
                TokenOf::Ident(field) => match query_op(token_at(toks, pos + 1)) {
                    None => Err(("Expected comparison operator"@, pos + 1)),
                    Some(op) => match additive_spec(toks, spans, pos + 2) {
                        Err(err) => Err(err),
                        Ok((v, q)) => if token_at(toks, q) is And && fwd(toks, pos, q) {
                            match conditions_spec(toks, spans, q + 1) {
                                Err(err) => Err(err),
                                Ok((rest, r)) => Ok((seq![(field, op, v)] + rest, r)),
                            }
                        } else {
                            Ok((seq![(field, op, v)], q))
                        },
                    },
                },
                _ => Ok((Seq::empty(), pos)),
            }
        }),
{
}

/// One step of `range_spec`.
pub proof fn unfold_range_spec(toks: Seq<TokenView>, spans: Seq<Span>, pos: int)
    ensures
        range_spec(toks, spans, pos) == ({
            if !(token_at(toks, pos) is Range) {
                expect_err(toks, TokenOf::Range, pos)
            } else if !(token_at(toks, pos + 1) is LeftParen) {
                expect_err(toks, TokenOf::LeftParen, pos + 1)
            } else {
                match expr_spec(toks, spans, pos + 2) {
                    Err(err) => Err(err),
                    Ok((s, q)) => if !(token_at(toks, q) is Comma) {
                        expect_err(toks, TokenOf::Comma, q)
                    } else if !fwd(toks, pos, q) {
                        Ok((NodeView::Other, q))
                    } else {
                        match expr_spec(toks, spans, q + 1) {
                            Err(err) => Err(err),
                            Ok((e, r)) => if token_at(toks, r) is RightParen {
                                Ok((
                                    NodeView::Range { start: Box::new(s), end: Box::new(e), span: span_at(spans, pos) },
                                    r + 1,
                                ))
                            } else {
                                expect_err(toks, TokenOf::RightParen, r)
                            },
                        }
                    },
                }
            }
        }),
{
}

/// One step of `request_spec`.
pub proof fn unfold_request_spec(toks: Seq<TokenView>, spans: Seq<Span>, pos: int)
    ensures
        request_spec(toks, spans, pos) == ({
            if !(token_at(toks, pos) is Request) {
                expect_err(toks, TokenOf::Request, pos)
            } else {
                match expr_spec(toks, spans, pos + 1) {
                    Err(err) => Err(err),
                    Ok((c, q)) => if !(token_at(toks, q) is With) {
                        expect_err(toks, TokenOf::With, q)
                    } else if !(token_at(toks, q + 1) is Justification) {
                        expect_err(toks, TokenOf::Justification, q + 1)
                    } else {
                        match token_at(toks, q + 2) {
                            TokenOf::Text(j) => Ok(
                                (NodeView::RequestStmt { capability: Box::new(c), justification: j, span: span_at(spans, pos) }, q + 3),
                            ),
                            _ => Err(("Expected string after 'justification'"@, q + 2)),
                        }
                    },
                }
            }
        }),
{
}

/// A name followed by a token that continues no postfix, product or sum
/// form parses, at every level from sums down, to that name alone.
proof fn lemma_name_operand(toks: Seq<TokenView>, spans: Seq<Span>, pos: int, name: Seq<char>)
    requires
        0 <= pos,
        pos + 1 < toks.len(),
        toks[pos] == TokenOf::Ident(name),
        token_at(toks, pos + 1) is Is || token_at(toks, pos + 1) is IsNot || token_at(toks, pos + 1) is GreaterThan
            || token_at(toks, pos + 1) is LessThan || token_at(toks, pos + 1) is AtLeast
            || token_at(toks, pos + 1) is AtMost || token_at(toks, pos + 1) is Eof,
    ensures
        additive_spec(toks, spans, pos) == Ok::<(NodeView, int), (Seq<char>, int)>(
            (NodeView::Ident { name, span: span_at(spans, pos) }, pos + 1),
        ),
{
    let e = NodeView::Ident { name, span: span_at(spans, pos) };
    unfold_primary_spec(toks, spans, pos);
    unfold_postfix_rest(toks, spans, e, pos + 1);
    unfold_postfix_spec(toks, spans, pos);
    unfold_unary_spec(toks, spans, pos);
    unfold_multiplicative_rest(toks, spans, e, pos + 1);
    unfold_multiplicative_spec(toks, spans, pos);
    unfold_additive_rest(toks, spans, e, pos + 1);
    unfold_additive_spec(toks, spans, pos);
}

/// The comparison `a T b` of two names, with the operator `op`, as the
/// tokens `a`, `T`, `b` spell it.
pub open spec fn name_comparison(a: Seq<char>, op: BinaryOperator, b: Seq<char>, spans: Seq<Span>) -> NodeView {
    NodeView::BinaryOp {
        left: Box::new(NodeView::Ident { name: a, span: span_at(spans, 0) }),
        op,
        right: Box::new(NodeView::Ident { name: b, span: span_at(spans, 2) }),
        span: span_at(spans, 1),
    }
}

/// Each comparison word parses to its own operator: for any names `a` and
/// `b`, the expression `a is b` is an `Equal` comparison, `a is not b`
/// `NotEqual`, `a greater than b` `Greater`, `a less than b` `Less`,
/// `a at least b` `GreaterEq` and `a at most b` `LessEq`; the name before
/// the word is the left operand and the name after it the right one.
#[verifier::spinoff_prover]
pub proof fn comparison_operator_law(a: Seq<char>, t: TokenView, b: Seq<char>, spans: Seq<Span>)
    requires
        t is Is || t is IsNot || t is GreaterThan || t is LessThan || t is AtLeast || t is AtMost,
    ensures
        ({
            let toks = seq![TokenOf::Ident(a), t, TokenOf::Ident(b), TokenOf::Eof];
            let parsed = expr_spec(toks, spans, 0);
            &&& t is Is ==> parsed == Ok::<(NodeView, int), (Seq<char>, int)>(
                (name_comparison(a, BinaryOperator::Equal, b, spans), 3),
            )
            &&& t is IsNot ==> parsed == Ok::<(NodeView, int), (Seq<char>, int)>(
                (name_comparison(a, BinaryOperator::NotEqual, b, spans), 3),
            )
            &&& t is GreaterThan ==> parsed == Ok::<(NodeView, int), (Seq<char>, int)>(
                (name_comparison(a, BinaryOperator::Greater, b, spans), 3),
            )
            &&& t is LessThan ==> parsed == Ok::<(NodeView, int), (Seq<char>, int)>(
                (name_comparison(a, BinaryOperator::Less, b, spans), 3),
            )
            &&& t is AtLeast ==> parsed == Ok::<(NodeView, int), (Seq<char>, int)>(
                (name_comparison(a, BinaryOperator::GreaterEq, b, spans), 3),
            )
            &&& t is AtMost ==> parsed == Ok::<(NodeView, int), (Seq<char>, int)>(
                (name_comparison(a, BinaryOperator::LessEq, b, spans), 3),
            )
        }),
{
    let toks = seq![TokenOf::Ident(a), t, TokenOf::Ident(b), TokenOf::Eof];
    let l = NodeView::Ident { name: a, span: span_at(spans, 0) };
    lemma_name_operand(toks, spans, 0, a);
    lemma_name_operand(toks, spans, 2, b);
    let op = comparison_op(t).unwrap();
    let n = name_comparison(a, op, b, spans);
    comparison_operand_order_law(toks, spans, l, 1);
    assert(comparison_rest(toks, spans, l, 1) == Ok::<(NodeView, int), (Seq<char>, int)>((n, 3)));
    unfold_comparison_spec(toks, spans, 0);
    unfold_and_rest(toks, spans, n, 3);
    unfold_and_spec(toks, spans, 0);
    unfold_or_rest(toks, spans, n, 3);
    unfold_or_spec(toks, spans, 0);
    unfold_pipeline_spec(toks, spans, 0);
    unfold_expr_spec(toks, spans, 0);
    assert(expr_spec(toks, spans, 0) == Ok::<(NodeView, int), (Seq<char>, int)>((n, 3)));
}

/// The general form of the same law: wherever a comparison word follows an
/// operand `left` and a sum `right` follows the word, with no further
/// comparison after it, the comparison read is `left op right`, `op` being
/// the word's own operator, and it has the span of the word.
#[verifier::spinoff_prover]
pub proof fn comparison_operand_order_law(toks: Seq<TokenView>, spans: Seq<Span>, left: NodeView, pos: int)
    requires
        additive_spec(toks, spans, pos + 1) is Ok,
        fwd(toks, pos, additive_spec(toks, spans, pos + 1)->Ok_0.1),
        comparison_op(token_at(toks, additive_spec(toks, spans, pos + 1)->Ok_0.1)) is None,
    ensures
        ({
            let t = token_at(toks, pos);
            let (right, q) = additive_spec(toks, spans, pos + 1)->Ok_0;
            let read = |op: BinaryOperator|
                Ok::<(NodeView, int), (Seq<char>, int)>(
                    (
                        NodeView::BinaryOp {
                            left: Box::new(left),
                            op,
                            right: Box::new(right),
                            span: span_at(spans, pos),
                        },
                        q,
                    ),
                );
            let parsed = comparison_rest(toks, spans, left, pos);
            &&& t is Is ==> parsed == read(BinaryOperator::Equal)
            &&& t is IsNot ==> parsed == read(BinaryOperator::NotEqual)
            &&& t is GreaterThan ==> parsed == read(BinaryOperator::Greater)
            &&& t is LessThan ==> parsed == read(BinaryOperator::Less)
            &&& t is AtLeast ==> parsed == read(BinaryOperator::GreaterEq)
            &&& t is AtMost ==> parsed == read(BinaryOperator::LessEq)
        }),
{
    let (right, q) = additive_spec(toks, spans, pos + 1)->Ok_0;
    unfold_comparison_rest(toks, spans, left, pos);
    match comparison_op(token_at(toks, pos)) {
        Some(op) => {
            let n = NodeView::BinaryOp { left: Box::new(left), op, right: Box::new(right), span: span_at(spans, pos) };
            unfold_comparison_rest(toks, spans, n, q);
        },
        None => {},
    }
}

/// The node of a binary operation read with the span of token `at`.
pub open spec fn binary_node(left: NodeView, op: BinaryOperator, right: NodeView, spans: Seq<Span>, at: int) -> NodeView {
    NodeView::BinaryOp { left: Box::new(left), op, right: Box::new(right), span: span_at(spans, at) }
}

/// Sums and differences keep their operators and operand order: where `+`
/// or `-` follows an operand `left` and a product `right` follows it, with
/// no further `+` or `-` after it, what is read is `left + right`
/// (`Add`) or `left - right` (`Sub`), with the span of the operator.
#[verifier::spinoff_prover]
pub proof fn additive_operator_law(toks: Seq<TokenView>, spans: Seq<Span>, left: NodeView, pos: int)
    requires
        multiplicative_spec(toks, spans, pos + 1) is Ok,
        fwd(toks, pos, multiplicative_spec(toks, spans, pos + 1)->Ok_0.1),
        additive_op(token_at(toks, multiplicative_spec(toks, spans, pos + 1)->Ok_0.1)) is None,
    ensures
        ({
            let t = token_at(toks, pos);
            let (right, q) = multiplicative_spec(toks, spans, pos + 1)->Ok_0;
            let parsed = additive_rest(toks, spans, left, pos);
            &&& t is Plus ==> parsed == Ok::<(NodeView, int), (Seq<char>, int)>(
                (binary_node(left, BinaryOperator::Add, right, spans, pos), q),
            )
            &&& t is Minus ==> parsed == Ok::<(NodeView, int), (Seq<char>, int)>(
                (binary_node(left, BinaryOperator::Sub, right, spans, pos), q),
            )
        }),
{
    let (right, q) = multiplicative_spec(toks, spans, pos + 1)->Ok_0;
    unfold_additive_rest(toks, spans, left, pos);
    match additive_op(token_at(toks, pos)) {
        Some(op) => unfold_additive_rest(toks, spans, binary_node(left, op, right, spans, pos), q),
        None => {},
    }
}

/// Products, quotients and remainders keep their operators and operand
/// order: where `*`, `/` or `%` follows an operand `left` and a unary
/// expression `right` follows it, with no further such operator after it,
/// what is read is `left * right` (`Mul`), `left / right` (`Div`) or
/// `left % right` (`Mod`), with the span of the operator.
#[verifier::spinoff_prover]
pub proof fn multiplicative_operator_law(toks: Seq<TokenView>, spans: Seq<Span>, left: NodeView, pos: int)
    requires
        unary_spec(toks, spans, pos + 1) is Ok,
        fwd(toks, pos, unary_spec(toks, spans, pos + 1)->Ok_0.1),
        multiplicative_op(token_at(toks, unary_spec(toks, spans, pos + 1)->Ok_0.1)) is None,
    ensures
        ({
            let t = token_at(toks, pos);
            let (right, q) = unary_spec(toks, spans, pos + 1)->Ok_0;
            let parsed = multiplicative_rest(toks, spans, left, pos);
            &&& t is Star ==> parsed == Ok::<(NodeView, int), (Seq<char>, int)>(
                (binary_node(left, BinaryOperator::Mul, right, spans, pos), q),
            )
            &&& t is Slash ==> parsed == Ok::<(NodeView, int), (Seq<char>, int)>(
                (binary_node(left, BinaryOperator::Div, right, spans, pos), q),
            )
            &&& t is Percent ==> parsed == Ok::<(NodeView, int), (Seq<char>, int)>(
                (binary_node(left, BinaryOperator::Mod, right, spans, pos), q),
            )
        }),
{
    let (right, q) = unary_spec(toks, spans, pos + 1)->Ok_0;
    unfold_multiplicative_rest(toks, spans, left, pos);
    match multiplicative_op(token_at(toks, pos)) {
        Some(op) => unfold_multiplicative_rest(toks, spans, binary_node(left, op, right, spans, pos), q),
        None => {},
    }
}

/// `and` and `or` keep their operators and operand order: where `and`
/// follows an operand `left` and a comparison `right` follows it, with no
/// further `and`, what is read is `left and right` (`And`); likewise `or`
/// before a conjunction gives `left or right` (`Or`). Each has the span of
/// the token after the word.
#[verifier::spinoff_prover]
pub proof fn logical_operator_law(toks: Seq<TokenView>, spans: Seq<Span>, left: NodeView, pos: int)
    ensures
        ({
            let t = token_at(toks, pos);
            let c = comparison_spec(toks, spans, pos + 1);
            let a = and_spec(toks, spans, pos + 1);
            &&& t is And && c is Ok && fwd(toks, pos, c->Ok_0.1) && !(token_at(toks, c->Ok_0.1) is And)
                ==> and_rest(toks, spans, left, pos) == Ok::<(NodeView, int), (Seq<char>, int)>(
                (binary_node(left, BinaryOperator::And, c->Ok_0.0, spans, pos + 1), c->Ok_0.1),
            )
            &&& t is Or && a is Ok && fwd(toks, pos, a->Ok_0.1) && !(token_at(toks, a->Ok_0.1) is Or)
                ==> or_rest(toks, spans, left, pos) == Ok::<(NodeView, int), (Seq<char>, int)>(
                (binary_node(left, BinaryOperator::Or, a->Ok_0.0, spans, pos + 1), a->Ok_0.1),
            )
        }),
{
    let c = comparison_spec(toks, spans, pos + 1);
    let a = and_spec(toks, spans, pos + 1);
    unfold_and_rest(toks, spans, left, pos);
    unfold_or_rest(toks, spans, left, pos);
    if c is Ok {
        unfold_and_rest(toks, spans, binary_node(left, BinaryOperator::And, c->Ok_0.0, spans, pos + 1), c->Ok_0.1);
    }
    if a is Ok {
        unfold_or_rest(toks, spans, binary_node(left, BinaryOperator::Or, a->Ok_0.0, spans, pos + 1), a->Ok_0.1);
    }
}

/// Prefix operators keep their meaning: `not e` reads as `Not` applied to
/// what follows and `-e` as `Negate`, each with the span of its operator
/// and ending where its operand ends.
pub proof fn prefix_operator_law(toks: Seq<TokenView>, spans: Seq<Span>, pos: int)
    ensures
        ({
            let t = token_at(toks, pos);
            let o = unary_spec(toks, spans, pos + 1);
            let parsed = unary_spec(toks, spans, pos);
            &&& t is Not && o is Ok ==> parsed == Ok::<(NodeView, int), (Seq<char>, int)>(
                (
                    NodeView::UnaryOp { op: UnaryOperator::Not, operand: Box::new(o->Ok_0.0), span: span_at(spans, pos) },
                    o->Ok_0.1,
                ),
            )
            &&& t is Minus && o is Ok ==> parsed == Ok::<(NodeView, int), (Seq<char>, int)>(
                (
                    NodeView::UnaryOp {
                        op: UnaryOperator::Negate,
                        operand: Box::new(o->Ok_0.0),
                        span: span_at(spans, pos),
                    },
                    o->Ok_0.1,
                ),
            )
        }),
{
    unfold_unary_spec(toks, spans, pos);
}

/// A query condition keeps its operator: `field T value`, the value a sum
/// not followed by `and`, is the single condition on `field` with `is`
/// `Is`, `is not` `IsNot`, `greater than` `Greater`, `less than` `Less`,
/// `at least` `GreaterEq`, `at most` `LessEq`, `after` `After` and
/// `before` `Before`.
#[verifier::spinoff_prover]
pub proof fn query_condition_law(toks: Seq<TokenView>, spans: Seq<Span>, pos: int, field: Seq<char>)
    requires
        token_at(toks, pos) == TokenOf::Ident(field),
        additive_spec(toks, spans, pos + 2) is Ok,
        !(token_at(toks, additive_spec(toks, spans, pos + 2)->Ok_0.1) is And),
    ensures
        ({
            let t = token_at(toks, pos + 1);
            let (v, q) = additive_spec(toks, spans, pos + 2)->Ok_0;
            let read = |op: QueryOperator|
                Ok::<(Seq<(Seq<char>, QueryOperator, NodeView)>, int), (Seq<char>, int)>((seq![(field, op, v)], q));
            let parsed = conditions_spec(toks, spans, pos);
            &&& t is Is ==> parsed == read(QueryOperator::Is)
            &&& t is IsNot ==> parsed == read(QueryOperator::IsNot)
            &&& t is GreaterThan ==> parsed == read(QueryOperator::Greater)
            &&& t is LessThan ==> parsed == read(QueryOperator::Less)
            &&& t is AtLeast ==> parsed == read(QueryOperator::GreaterEq)
            &&& t is AtMost ==> parsed == read(QueryOperator::LessEq)
            &&& t is After ==> parsed == read(QueryOperator::After)
            &&& t is Before ==> parsed == read(QueryOperator::Before)
        }),
{
    unfold_conditions_spec(toks, spans, pos);
}

} // verus!
