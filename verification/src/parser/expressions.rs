//! Expression parsing: precedence climbing from pipelines down to primary
//! expressions, with postfix calls, field and index access, struct
//! literals and the `?` operator; each parser is proved to follow the
//! grammar of `grammar`.

use vstd::prelude::*;
use crate::ast::{AstNode, BinaryOperator, QueryCondition, QueryOperator, TypeAnnotation, UnaryOperator};
use crate::text::push_str;
use crate::token::{Token, TokenOf};
use super::{
    lemma_skip_nl_bounds, lemma_types_view, skip_nl, span_at, token_at, types_view, ParseError, Parsed, Parser, TypeView,
};
use super::grammar::{
    NodeView, node_view, nodes_view, pairs_view, conditions_view, comparison_op, additive_op,
    multiplicative_op, query_op, expr_spec, pipeline_spec, pipeline_rest, or_spec, or_rest, and_spec, and_rest,
    comparison_spec, comparison_rest, additive_spec, additive_rest, multiplicative_spec, multiplicative_rest,
    unary_spec, postfix_spec, postfix_rest, call_args_spec, args_list, fields_spec, pairs_list, wrapped_spec,
    primary_spec, list_spec, elements_list, map_spec, seek_spec, conditions_spec, range_spec, request_spec,
    unfold_expr_spec, unfold_pipeline_spec, unfold_pipeline_rest, unfold_or_spec, unfold_or_rest,
    unfold_and_spec, unfold_and_rest, unfold_comparison_spec, unfold_comparison_rest, unfold_additive_spec,
    unfold_additive_rest, unfold_multiplicative_spec, unfold_multiplicative_rest, unfold_unary_spec,
    unfold_postfix_spec, unfold_postfix_rest, unfold_call_args_spec, unfold_args_list, unfold_fields_spec,
    unfold_pairs_list, unfold_wrapped_spec, unfold_primary_spec, unfold_list_spec, unfold_elements_list,
    unfold_map_spec, unfold_seek_spec, unfold_conditions_spec, unfold_range_spec, unfold_request_spec,
};

verus! {

/// The parser moved forward within the same tokens; at least one token
/// was taken when `ok`.
pub open spec fn advanced(before: Parser, after: Parser, ok: bool) -> bool {
    &&& after.wf()
    &&& after.tokens() == before.tokens()
    &&& after.spans() == before.spans()
    &&& before.pos() <= after.pos()
    &&& ok ==> before.pos() < after.pos()
}

/// A parse result agrees with its specification: the node's view and the
/// position after it, or the error's message and position.
pub open spec fn node_outcome(after: Parser, r: Result<AstNode, ParseError>, s: Parsed<NodeView>) -> bool {
    match r {
        Ok(n) => s == Ok::<(NodeView, int), (Seq<char>, int)>((node_view(n), after.pos())),
        Err(e) => s == Err::<(NodeView, int), (Seq<char>, int)>((e.message@, e.position as int)),
    }
}

/// As `node_outcome`, for a list of nodes.
pub open spec fn nodes_outcome(after: Parser, r: Result<Vec<AstNode>, ParseError>, s: Parsed<Seq<NodeView>>) -> bool {
    match r {
        Ok(ns) => s == Ok::<(Seq<NodeView>, int), (Seq<char>, int)>((nodes_view(ns@), after.pos())),
        Err(e) => s == Err::<(Seq<NodeView>, int), (Seq<char>, int)>((e.message@, e.position as int)),
    }
}

/// As `node_outcome`, for a list of named nodes.
pub open spec fn pairs_outcome(
    after: Parser,
    r: Result<Vec<(String, AstNode)>, ParseError>,
    s: Parsed<Seq<(Seq<char>, NodeView)>>,
) -> bool {
    match r {
        Ok(ps) => s == Ok::<(Seq<(Seq<char>, NodeView)>, int), (Seq<char>, int)>((pairs_view(ps@), after.pos())),
        Err(e) => s == Err::<(Seq<(Seq<char>, NodeView)>, int), (Seq<char>, int)>((e.message@, e.position as int)),
    }
}

/// A list result with `pre` in front of what it holds.
pub open spec fn prefixed<T>(pre: Seq<T>, r: Parsed<Seq<T>>) -> Parsed<Seq<T>> {
    match r {
        Ok((rest, q)) => Ok((pre + rest, q)),
        Err(e) => Err(e),
    }
}

/// Putting `pre` in front of a one-item list gives `pre` with the item pushed.
pub proof fn lemma_prefixed_single<T>(pre: Seq<T>, x: T, q: int)
    ensures
        prefixed(pre, Ok((seq![x], q))) == Ok::<(Seq<T>, int), (Seq<char>, int)>((pre.push(x), q)),
{
    assert(pre + seq![x] =~= pre.push(x));
}

/// Putting `pre` in front of a list that starts with `x` is putting `pre` with `x` pushed in front of the rest.
pub proof fn lemma_prefixed_push<T>(pre: Seq<T>, x: T, r: Parsed<Seq<T>>)
    ensures
        prefixed(pre, prefixed(seq![x], r)) == prefixed(pre.push(x), r),
{
    match r {
        Ok((rest, q)) => {
            assert(pre + (seq![x] + rest) =~= pre.push(x) + rest);
        },
        Err(_) => {},
    }
}

/// The view of nodes with one pushed is their view with its view pushed.
pub proof fn lemma_nodes_view_push(ns: Seq<AstNode>, n: AstNode)
    ensures
        nodes_view(ns.push(n)) == nodes_view(ns).push(node_view(n)),
{
    assert(ns.push(n).drop_last() =~= ns);
}

proof fn lemma_pairs_view_push(ps: Seq<(String, AstNode)>, p: (String, AstNode))
    ensures
        pairs_view(ps.push(p)) == pairs_view(ps).push((p.0@, node_view(p.1))),
{
    assert(ps.push(p).drop_last() =~= ps);
}

proof fn lemma_conditions_view_push(cs: Seq<QueryCondition>, c: QueryCondition)
    ensures
        conditions_view(cs.push(c)) == conditions_view(cs).push((c.field@, c.operator, node_view(*c.value))),
{
    assert(cs.push(c).drop_last() =~= cs);
}

fn comparison_operator(t: &Token) -> (r: Option<BinaryOperator>)
    ensures
        r == comparison_op(t@),
{
    match t {
        TokenOf::Is => Some(BinaryOperator::Equal),
        TokenOf::IsNot => Some(BinaryOperator::NotEqual),
        TokenOf::GreaterThan => Some(BinaryOperator::Greater),
        TokenOf::LessThan => Some(BinaryOperator::Less),
        TokenOf::AtLeast => Some(BinaryOperator::GreaterEq),
        TokenOf::AtMost => Some(BinaryOperator::LessEq),
        _ => None,
    }
}

fn additive_operator(t: &Token) -> (r: Option<BinaryOperator>)
    ensures
        r == additive_op(t@),
{
    match t {
        TokenOf::Plus => Some(BinaryOperator::Add),
        TokenOf::Minus => Some(BinaryOperator::Sub),
        _ => None,
    }
}

fn multiplicative_operator(t: &Token) -> (r: Option<BinaryOperator>)
    ensures
        r == multiplicative_op(t@),
{
    match t {
        TokenOf::Star => Some(BinaryOperator::Mul),
        TokenOf::Slash => Some(BinaryOperator::Div),
        TokenOf::Percent => Some(BinaryOperator::Mod),
        _ => None,
    }
}

fn query_operator(t: &Token) -> (r: Option<QueryOperator>)
    ensures
        r == query_op(t@),
{
    match t {
        TokenOf::Is => Some(QueryOperator::Is),
        TokenOf::IsNot => Some(QueryOperator::IsNot),
        TokenOf::GreaterThan => Some(QueryOperator::Greater),
        TokenOf::LessThan => Some(QueryOperator::Less),
        TokenOf::AtLeast => Some(QueryOperator::GreaterEq),
        TokenOf::AtMost => Some(QueryOperator::LessEq),
        TokenOf::After => Some(QueryOperator::After),
        TokenOf::Before => Some(QueryOperator::Before),
        _ => None,
    }
}

impl Parser {
    /// Parse an expression (see `expr_spec`).
    pub fn parse_expression(&mut self) -> (r: Result<AstNode, ParseError>)
        requires
            old(self).wf(),
        ensures
            advanced(*old(self), *final(self), r is Ok),
            node_outcome(*final(self), r, expr_spec(old(self).tokens(), old(self).spans(), old(self).pos())),
        decreases old(self).tokens().len() - old(self).pos(), 40nat,
    {
        proof {
            unfold_expr_spec(old(self).tokens(), old(self).spans(), old(self).pos());
        }
        self.parse_pipeline()
    }

    /// Parse a pipeline: `x | f | g` (see `pipeline_spec`).
    fn parse_pipeline(&mut self) -> (r: Result<AstNode, ParseError>)
        requires
            old(self).wf(),
        ensures
            advanced(*old(self), *final(self), r is Ok),
            node_outcome(*final(self), r, pipeline_spec(old(self).tokens(), old(self).spans(), old(self).pos())),
        decreases old(self).tokens().len() - old(self).pos(), 39nat,
    {
        let ghost toks = self.tokens();
        let ghost spans = self.spans();
        let ghost pos = self.pos();
        proof {
            unfold_pipeline_spec(toks, spans, pos);
        }
        let expr = match self.parse_logical_or() {
            Err(e) => return Err(e),
            Ok(x) => x,
        };
        if !self.check(&TokenOf::Pipe) {
            return Ok(expr);
        }
        let span = self.current_span();
        let mut stages: Vec<AstNode> = Vec::new();
        stages.push(expr);
        proof {
            lemma_nodes_view_push(Seq::empty(), expr);
            assert(Seq::<AstNode>::empty().push(expr) =~= stages@);
            assert(nodes_view(Seq::<AstNode>::empty()) =~= Seq::<NodeView>::empty());
        }
        while self.check(&TokenOf::Pipe)
            invariant
                self.wf(),
                self.tokens() == toks,
                self.spans() == spans,
                toks == old(self).tokens(),
                spans == old(self).spans(),
                pos < self.pos(),
                pos == old(self).pos(),
                pipeline_spec(toks, spans, pos) == pipeline_rest(toks, spans, nodes_view(stages@), span, self.pos()),
            decreases self.tokens@.len() - self.position,
        {
            let ghost p = self.pos();
            proof {
                unfold_pipeline_rest(toks, spans, nodes_view(stages@), span, p);
            }
            self.advance();
            let stage = match self.parse_logical_or() {
                Err(e) => return Err(e),
                Ok(x) => x,
            };
            proof {
                lemma_nodes_view_push(stages@, stage);
            }
            stages.push(stage);
        }
        proof {
            unfold_pipeline_rest(toks, spans, nodes_view(stages@), span, self.pos());
        }
        Ok(AstNode::Pipeline { stages, span })
    }

    /// Parse `a or b` (see `or_spec`).
    fn parse_logical_or(&mut self) -> (r: Result<AstNode, ParseError>)
        requires
            old(self).wf(),
        ensures
            advanced(*old(self), *final(self), r is Ok),
            node_outcome(*final(self), r, or_spec(old(self).tokens(), old(self).spans(), old(self).pos())),
        decreases old(self).tokens().len() - old(self).pos(), 37nat,
    {
        let ghost toks = self.tokens();
        let ghost spans = self.spans();
        let ghost pos = self.pos();
        proof {
            unfold_or_spec(toks, spans, pos);
        }
        let mut left = match self.parse_logical_and() {
            Err(e) => return Err(e),
            Ok(x) => x,
        };
        while self.check(&TokenOf::Or)
            invariant
                self.wf(),
                self.tokens() == toks,
                self.spans() == spans,
                toks == old(self).tokens(),
                spans == old(self).spans(),
                pos < self.pos(),
                pos == old(self).pos(),
                or_spec(toks, spans, pos) == or_rest(toks, spans, node_view(left), self.pos()),
            decreases self.tokens@.len() - self.position,
        {
            proof {
                unfold_or_rest(toks, spans, node_view(left), self.pos());
            }
            self.advance();
            let span = self.current_span();
            let right = match self.parse_logical_and() {
                Err(e) => return Err(e),
                Ok(x) => x,
            };
            left = AstNode::BinaryOp { left: Box::new(left), op: BinaryOperator::Or, right: Box::new(right), span };
        }
        proof {
            unfold_or_rest(toks, spans, node_view(left), self.pos());
        }
        Ok(left)
    }

    /// Parse `a and b` (see `and_spec`).
    fn parse_logical_and(&mut self) -> (r: Result<AstNode, ParseError>)
        requires
            old(self).wf(),
        ensures
            advanced(*old(self), *final(self), r is Ok),
            node_outcome(*final(self), r, and_spec(old(self).tokens(), old(self).spans(), old(self).pos())),
        decreases old(self).tokens().len() - old(self).pos(), 35nat,
    {
        let ghost toks = self.tokens();
        let ghost spans = self.spans();
        let ghost pos = self.pos();
        proof {
            unfold_and_spec(toks, spans, pos);
        }
        let mut left = match self.parse_comparison() {
            Err(e) => return Err(e),
            Ok(x) => x,
        };
        while self.check(&TokenOf::And)
            invariant
                self.wf(),
                self.tokens() == toks,
                self.spans() == spans,
                toks == old(self).tokens(),
                spans == old(self).spans(),
                pos < self.pos(),
                pos == old(self).pos(),
                and_spec(toks, spans, pos) == and_rest(toks, spans, node_view(left), self.pos()),
            decreases self.tokens@.len() - self.position,
        {
            proof {
                unfold_and_rest(toks, spans, node_view(left), self.pos());
            }
            self.advance();
            let span = self.current_span();
            let right = match self.parse_comparison() {
                Err(e) => return Err(e),
                Ok(x) => x,
            };
            left = AstNode::BinaryOp { left: Box::new(left), op: BinaryOperator::And, right: Box::new(right), span };
        }
        proof {
            unfold_and_rest(toks, spans, node_view(left), self.pos());
        }
        Ok(left)
    }

    /// Parse comparisons (see `comparison_spec`).
    fn parse_comparison(&mut self) -> (r: Result<AstNode, ParseError>)
        requires
            old(self).wf(),
        ensures
            advanced(*old(self), *final(self), r is Ok),
            node_outcome(*final(self), r, comparison_spec(old(self).tokens(), old(self).spans(), old(self).pos())),
        decreases old(self).tokens().len() - old(self).pos(), 33nat,
    {
        let ghost toks = self.tokens();
        let ghost spans = self.spans();
        let ghost pos = self.pos();
        proof {
            unfold_comparison_spec(toks, spans, pos);
        }
        let mut left = match self.parse_additive() {
            Err(e) => return Err(e),
            Ok(x) => x,
        };
        let mut next = comparison_operator(self.current());
        while next.is_some()
            invariant
                self.wf(),
                self.tokens() == toks,
                self.spans() == spans,
                toks == old(self).tokens(),
                spans == old(self).spans(),
                pos < self.pos(),
                pos == old(self).pos(),
                next == comparison_op(token_at(toks, self.pos())),
                comparison_spec(toks, spans, pos) == comparison_rest(toks, spans, node_view(left), self.pos()),
            decreases self.tokens@.len() - self.position,
        {
            proof {
                unfold_comparison_rest(toks, spans, node_view(left), self.pos());
            }
            let op = next.unwrap();
            let span = self.current_span();
            self.advance();
            let right = match self.parse_additive() {
                Err(e) => return Err(e),
                Ok(x) => x,
            };
            left = AstNode::BinaryOp { left: Box::new(left), op, right: Box::new(right), span };
            next = comparison_operator(self.current());
        }
        proof {
            unfold_comparison_rest(toks, spans, node_view(left), self.pos());
        }
        Ok(left)
    }

    /// Parse sums and differences (see `additive_spec`).
    fn parse_additive(&mut self) -> (r: Result<AstNode, ParseError>)
        requires
            old(self).wf(),
        ensures
            advanced(*old(self), *final(self), r is Ok),
            node_outcome(*final(self), r, additive_spec(old(self).tokens(), old(self).spans(), old(self).pos())),
        decreases old(self).tokens().len() - old(self).pos(), 31nat,
    {
        let ghost toks = self.tokens();
        let ghost spans = self.spans();
        let ghost pos = self.pos();
        proof {
            unfold_additive_spec(toks, spans, pos);
        }
        let mut left = match self.parse_multiplicative() {
            Err(e) => return Err(e),
            Ok(x) => x,
        };
        let mut next = additive_operator(self.current());
        while next.is_some()
            invariant
                self.wf(),
                self.tokens() == toks,
                self.spans() == spans,
                toks == old(self).tokens(),
                spans == old(self).spans(),
                pos < self.pos(),
                pos == old(self).pos(),
                next == additive_op(token_at(toks, self.pos())),
                additive_spec(toks, spans, pos) == additive_rest(toks, spans, node_view(left), self.pos()),
            decreases self.tokens@.len() - self.position,
        {
            proof {
                unfold_additive_rest(toks, spans, node_view(left), self.pos());
            }
            let op = next.unwrap();
            let span = self.current_span();
            self.advance();
            let right = match self.parse_multiplicative() {
                Err(e) => return Err(e),
                Ok(x) => x,
            };
            left = AstNode::BinaryOp { left: Box::new(left), op, right: Box::new(right), span };
            next = additive_operator(self.current());
        }
        proof {
            unfold_additive_rest(toks, spans, node_view(left), self.pos());
        }
        Ok(left)
    }

    /// Parse products, quotients and remainders (see `multiplicative_spec`).
    fn parse_multiplicative(&mut self) -> (r: Result<AstNode, ParseError>)
        requires
            old(self).wf(),
        ensures
            advanced(*old(self), *final(self), r is Ok),
            node_outcome(*final(self), r, multiplicative_spec(old(self).tokens(), old(self).spans(), old(self).pos())),
        decreases old(self).tokens().len() - old(self).pos(), 29nat,
    {
        let ghost toks = self.tokens();
        let ghost spans = self.spans();
        let ghost pos = self.pos();
        proof {
            unfold_multiplicative_spec(toks, spans, pos);
        }
        let mut left = match self.parse_unary() {
            Err(e) => return Err(e),
            Ok(x) => x,
        };
        let mut next = multiplicative_operator(self.current());
        while next.is_some()
            invariant
                self.wf(),
                self.tokens() == toks,
                self.spans() == spans,
                toks == old(self).tokens(),
                spans == old(self).spans(),
                pos < self.pos(),
                pos == old(self).pos(),
                next == multiplicative_op(token_at(toks, self.pos())),
                multiplicative_spec(toks, spans, pos) == multiplicative_rest(toks, spans, node_view(left), self.pos()),
            decreases self.tokens@.len() - self.position,
        {
            proof {
                unfold_multiplicative_rest(toks, spans, node_view(left), self.pos());
            }
            let op = next.unwrap();
            let span = self.current_span();
            self.advance();
            let right = match self.parse_unary() {
                Err(e) => return Err(e),
                Ok(x) => x,
            };
            left = AstNode::BinaryOp { left: Box::new(left), op, right: Box::new(right), span };
            next = multiplicative_operator(self.current());
        }
        proof {
            unfold_multiplicative_rest(toks, spans, node_view(left), self.pos());
        }
        Ok(left)
    }

    /// Parse `not x` and `-x` (see `unary_spec`).
    fn parse_unary(&mut self) -> (r: Result<AstNode, ParseError>)
        requires
            old(self).wf(),
        ensures
            advanced(*old(self), *final(self), r is Ok),
            node_outcome(*final(self), r, unary_spec(old(self).tokens(), old(self).spans(), old(self).pos())),
        decreases old(self).tokens().len() - old(self).pos(), 27nat,
    {
        proof {
            unfold_unary_spec(old(self).tokens(), old(self).spans(), old(self).pos());
        }
        let op = match self.current() {
            TokenOf::Not => UnaryOperator::Not,
            TokenOf::Minus => UnaryOperator::Negate,
            _ => return self.parse_postfix(),
        };
        let span = self.current_span();
        self.advance();
        let operand = match self.parse_unary() {
            Err(e) => return Err(e),
            Ok(x) => x,
        };
        Ok(AstNode::UnaryOp { op, operand: Box::new(operand), span })
    }

    /// Parse a primary expression and its postfix forms (see `postfix_spec`).
    #[verifier::spinoff_prover]
    #[verifier::rlimit(40)]
    pub(crate) fn parse_postfix(&mut self) -> (r: Result<AstNode, ParseError>)
        requires
            old(self).wf(),
        ensures
            advanced(*old(self), *final(self), r is Ok),
            node_outcome(*final(self), r, postfix_spec(old(self).tokens(), old(self).spans(), old(self).pos())),
        decreases old(self).tokens().len() - old(self).pos(), 26nat,
    {
        let ghost toks = self.tokens();
        let ghost spans = self.spans();
        let ghost pos = self.pos();
        proof {
            unfold_postfix_spec(toks, spans, pos);
        }
        let mut expr = match self.parse_primary() {
            Err(e) => return Err(e),
            Ok(x) => x,
        };
        loop
            invariant
                self.wf(),
                self.tokens() == toks,
                self.spans() == spans,
                toks == old(self).tokens(),
                spans == old(self).spans(),
                pos < self.pos(),
                pos == old(self).pos(),
                postfix_spec(toks, spans, pos) == postfix_rest(toks, spans, node_view(expr), self.pos()),
            decreases self.tokens@.len() - self.position,
        {
            let ghost p = self.pos();
            proof {
                unfold_postfix_rest(toks, spans, node_view(expr), p);
            }
            match self.current() {
                TokenOf::Dot => {
                    let span = self.current_span();
                    self.advance();
                    let field = match self.current() {
                        TokenOf::Ident(f) => f.clone(),
                        _ => {
                            return Err(
                                ParseError {
                                    message: String::from_str("Expected field name after '.'"),
                                    position: self.position,
                                },
                            );
                        },
                    };
                    self.advance();
                    expr = AstNode::FieldAccess { object: Box::new(expr), field, span };
                },
                TokenOf::LeftAngle => {
                    self.advance();
                    proof {
                        super::lemma_type_progress(toks, p + 1);
                    }
                    let type_args = match self.parse_type_args() {
                        Err(e) => return Err(e),
                        Ok(t) => t,
                    };
                    match self.expect(TokenOf::RightAngle) {
                        Err(e) => return Err(e),
                        Ok(()) => {},
                    }
                    match self.current() {
                        TokenOf::LeftParen => {
                            self.advance();
                            let args = match self.parse_call_args() {
                                Err(e) => return Err(e),
                                Ok(a) => a,
                            };
                            match self.expect(TokenOf::RightParen) {
                                Err(e) => return Err(e),
                                Ok(()) => {},
                            }
                            let span = self.current_span();
                            expr = AstNode::Call { callee: Box::new(expr), type_args, args, span };
                        },
                        TokenOf::LeftBrace => {
                            match expr {
                                AstNode::Ident { name, .. } => {
                                    let span = self.current_span();
                                    self.advance();
                                    self.skip_newlines();
                                    let fields = match self.parse_fields("Expected field name in struct literal") {
                                        Err(e) => return Err(e),
                                        Ok(f) => f,
                                    };
                                    self.skip_newlines();
                                    match self.expect(TokenOf::RightBrace) {
                                        Err(e) => return Err(e),
                                        Ok(()) => {},
                                    }
                                    expr = AstNode::StructLiteral { struct_name: name, type_args, fields, span };
                                },
                                _ => {
                                    return Err(
                                        ParseError {
                                            message: String::from_str("Type arguments can only be used with identifiers"),
                                            position: self.position,
                                        },
                                    );
                                },
                            }
                        },
                        _ => {
                            return Err(
                                ParseError {
                                    message: String::from_str("Expected '(' or '{' after type arguments"),
                                    position: self.position,
                                },
                            );
                        },
                    }
                },
                TokenOf::LeftParen => {
                    let span = self.current_span();
                    self.advance();
                    let args = match self.parse_call_args() {
                        Err(e) => return Err(e),
                        Ok(a) => a,
                    };
                    match self.expect(TokenOf::RightParen) {
                        Err(e) => return Err(e),
                        Ok(()) => {},
                    }
                    expr = AstNode::Call { callee: Box::new(expr), type_args: Vec::new(), args, span };
                    proof {
                        lemma_types_view(Seq::<TypeAnnotation>::empty());
                        assert(types_view(Seq::<TypeAnnotation>::empty()) =~= Seq::<TypeView>::empty());
                    }
                },
                TokenOf::LeftBracket => {
                    let span = self.current_span();
                    self.advance();
                    let index = match self.parse_expression() {
                        Err(e) => return Err(e),
                        Ok(x) => x,
                    };
                    match self.expect(TokenOf::RightBracket) {
                        Err(e) => return Err(e),
                        Ok(()) => {},
                    }
                    expr = AstNode::IndexAccess { object: Box::new(expr), index: Box::new(index), span };
                },
                TokenOf::LeftBrace => {
                    match expr {
                        AstNode::Ident { name, .. } => {
                            let span = self.current_span();
                            self.advance();
                            self.skip_newlines();
                            let fields = match self.parse_fields("Expected field name in struct literal") {
                                Err(e) => return Err(e),
                                Ok(f) => f,
                            };
                            self.skip_newlines();
                            match self.expect(TokenOf::RightBrace) {
                                Err(e) => return Err(e),
                                Ok(()) => {},
                            }
                            expr = AstNode::StructLiteral { struct_name: name, type_args: Vec::new(), fields, span };
                            proof {
                                assert(types_view(Seq::<TypeAnnotation>::empty()) =~= Seq::<TypeView>::empty());
                            }
                        },
                        other => return Ok(other),
                    }
                },
                TokenOf::Question => {
                    let span = self.current_span();
                    self.advance();
                    expr = AstNode::Try { expr: Box::new(expr), span };
                },
                _ => return Ok(expr),
            }
        }
    }

    /// Parse call arguments up to `)` (see `call_args_spec`).
    fn parse_call_args(&mut self) -> (r: Result<Vec<AstNode>, ParseError>)
        requires
            old(self).wf(),
        ensures
            advanced(*old(self), *final(self), false),
            nodes_outcome(*final(self), r, call_args_spec(old(self).tokens(), old(self).spans(), old(self).pos())),
        decreases old(self).tokens().len() - old(self).pos(), 52nat,
    {
        let ghost toks = self.tokens();
        let ghost spans = self.spans();
        let ghost start = self.pos();
        let mut args: Vec<AstNode> = Vec::new();
        proof {
            assert(nodes_view(args@) =~= Seq::<NodeView>::empty());
        }
        proof {
            unfold_call_args_spec(toks, spans, start);
        }
        if self.check(&TokenOf::RightParen) {
            return Ok(args);
        }
        proof {
            lemma_prefixed_empty(args_list(toks, spans, start));
        }
        loop
            invariant
                self.wf(),
                self.tokens() == toks,
                self.spans() == spans,
                toks == old(self).tokens(),
                spans == old(self).spans(),
                start <= self.pos(),
                start == old(self).pos(),
                call_args_spec(toks, spans, start) == prefixed(nodes_view(args@), args_list(toks, spans, self.pos())),
            decreases self.tokens@.len() - self.position,
        {
            let ghost p = self.pos();
            proof {
                unfold_args_list(toks, spans, p);
            }
            let a = match self.parse_expression() {
                Err(e) => return Err(e),
                Ok(x) => x,
            };
            proof {
                lemma_nodes_view_push(args@, a);
                lemma_prefixed_push(nodes_view(args@), node_view(a), args_list(toks, spans, self.pos() + 1));
                lemma_prefixed_single(nodes_view(args@), node_view(a), self.pos());
            }
            args.push(a);
            if !self.check(&TokenOf::Comma) {
                return Ok(args);
            }
            self.advance();
        }
    }

    /// Parse `name: value` pairs up to `}` (see `fields_spec`); `msg` is the
    /// error for a missing name.
    fn parse_fields(&mut self, msg: &str) -> (r: Result<Vec<(String, AstNode)>, ParseError>)
        requires
            old(self).wf(),
        ensures
            advanced(*old(self), *final(self), false),
            pairs_outcome(*final(self), r, fields_spec(old(self).tokens(), old(self).spans(), old(self).pos(), msg@)),
        decreases old(self).tokens().len() - old(self).pos(), 52nat,
    {
        let ghost toks = self.tokens();
        let ghost spans = self.spans();
        let ghost start = self.pos();
        let mut fields: Vec<(String, AstNode)> = Vec::new();
        proof {
            assert(pairs_view(fields@) =~= Seq::<(Seq<char>, NodeView)>::empty());
        }
        proof {
            unfold_fields_spec(toks, spans, start, msg@);
        }
        if self.check(&TokenOf::RightBrace) {
            return Ok(fields);
        }
        proof {
            lemma_prefixed_empty(pairs_list(toks, spans, start, msg@));
        }
        loop
            invariant
                self.wf(),
                self.tokens() == toks,
                self.spans() == spans,
                toks == old(self).tokens(),
                spans == old(self).spans(),
                start <= self.pos(),
                start == old(self).pos(),
                fields_spec(toks, spans, start, msg@) == prefixed(
                    pairs_view(fields@),
                    pairs_list(toks, spans, self.pos(), msg@),
                ),
            decreases self.tokens@.len() - self.position,
        {
            let ghost p = self.pos();
            proof {
                unfold_pairs_list(toks, spans, p, msg@);
            }
            let name = match self.current() {
                TokenOf::Ident(n) => n.clone(),
                _ => return Err(ParseError { message: String::from_str(msg), position: self.position }),
            };
            self.advance();
            match self.expect(TokenOf::Colon) {
                Err(e) => return Err(e),
                Ok(()) => {},
            }
            let value = match self.parse_expression() {
                Err(e) => return Err(e),
                Ok(x) => x,
            };
            let ghost q = self.pos();
            proof {
                lemma_pairs_view_push(fields@, (name, value));
                super::lemma_skip_nl_bounds(toks, q + 1);
                lemma_prefixed_push(
                    pairs_view(fields@),
                    (name@, node_view(value)),
                    pairs_list(toks, spans, skip_nl(toks, q + 1), msg@),
                );
                lemma_prefixed_single(pairs_view(fields@), (name@, node_view(value)), q);
            }
            fields.push((name, value));
            if !self.check(&TokenOf::Comma) {
                return Ok(fields);
            }
            self.advance();
            self.skip_newlines();
        }
    }

    /// Parse `( e )` (see `wrapped_spec`).
    fn parse_wrapped(&mut self) -> (r: Result<AstNode, ParseError>)
        requires
            old(self).wf(),
        ensures
            advanced(*old(self), *final(self), r is Ok),
            node_outcome(*final(self), r, wrapped_spec(old(self).tokens(), old(self).spans(), old(self).pos())),
        decreases old(self).tokens().len() - old(self).pos(), 20nat,
    {
        proof {
            unfold_wrapped_spec(old(self).tokens(), old(self).spans(), old(self).pos());
        }
        match self.expect(TokenOf::LeftParen) {
            Err(e) => return Err(e),
            Ok(()) => {},
        }
        let value = match self.parse_expression() {
            Err(e) => return Err(e),
            Ok(x) => x,
        };
        match self.expect(TokenOf::RightParen) {
            Err(e) => return Err(e),
            Ok(()) => {},
        }
        Ok(value)
    }

    /// Parse a primary expression (see `primary_spec`).
    fn parse_primary(&mut self) -> (r: Result<AstNode, ParseError>)
        requires
            old(self).wf(),
        ensures
            advanced(*old(self), *final(self), r is Ok),
            node_outcome(*final(self), r, primary_spec(old(self).tokens(), old(self).spans(), old(self).pos())),
        decreases old(self).tokens().len() - old(self).pos(), 19nat,
    {
        proof {
            unfold_primary_spec(old(self).tokens(), old(self).spans(), old(self).pos());
        }
        let span = self.current_span();
        match self.current() {
            TokenOf::Number(n) => {
                let value = n.clone();
                self.advance();
                Ok(AstNode::Number { value, span })
            },
            TokenOf::Text(t) => {
                let value = t.clone();
                self.advance();
                Ok(AstNode::Text { value, span })
            },
            TokenOf::Truth(b) => {
                let value = *b;
                self.advance();
                Ok(AstNode::Truth { value, span })
            },
            TokenOf::Nothing => {
                self.advance();
                Ok(AstNode::Nothing { span })
            },
            TokenOf::Ident(n) => {
                let name = n.clone();
                self.advance();
                Ok(AstNode::Ident { name, span })
            },
            TokenOf::LeftParen => {
                self.advance();
                let e = match self.parse_expression() {
                    Err(e) => return Err(e),
                    Ok(x) => x,
                };
                match self.expect(TokenOf::RightParen) {
                    Err(e) => return Err(e),
                    Ok(()) => {},
                }
                Ok(e)
            },
            TokenOf::LeftBracket => self.parse_list(),
            TokenOf::LeftBrace => self.parse_map(),
            TokenOf::Seek => self.parse_seek(),
            TokenOf::Range => self.parse_range(),
            TokenOf::Triumph => {
                self.advance();
                let value = match self.parse_wrapped() {
                    Err(e) => return Err(e),
                    Ok(x) => x,
                };
                Ok(AstNode::Triumph { value: Box::new(value), span })
            },
            TokenOf::Mishap => {
                self.advance();
                let value = match self.parse_wrapped() {
                    Err(e) => return Err(e),
                    Ok(x) => x,
                };
                Ok(AstNode::Mishap { value: Box::new(value), span })
            },
            TokenOf::Present => {
                self.advance();
                let value = match self.parse_wrapped() {
                    Err(e) => return Err(e),
                    Ok(x) => x,
                };
                Ok(AstNode::Present { value: Box::new(value), span })
            },
            TokenOf::Absent => {
                self.advance();
                Ok(AstNode::Absent { span })
            },
            TokenOf::Request => self.parse_request(),
            t => {
                let mut message = String::from_str("Unexpected token: ");
                push_str(&mut message, super::show_token(t).as_str());
                Err(ParseError { message, position: self.position })
            },
        }
    }

    /// Parse a list literal (see `list_spec`).
    fn parse_list(&mut self) -> (r: Result<AstNode, ParseError>)
        requires
            old(self).wf(),
        ensures
            advanced(*old(self), *final(self), r is Ok),
            node_outcome(*final(self), r, list_spec(old(self).tokens(), old(self).spans(), old(self).pos())),
        decreases old(self).tokens().len() - old(self).pos(), 18nat,
    {
        proof {
            unfold_list_spec(old(self).tokens(), old(self).spans(), old(self).pos());
        }
        let span = self.current_span();
        match self.expect(TokenOf::LeftBracket) {
            Err(e) => return Err(e),
            Ok(()) => {},
        }
        self.skip_newlines();
        let mut elements: Vec<AstNode> = Vec::new();
        proof {
            assert(nodes_view(elements@) =~= Seq::<NodeView>::empty());
        }
        if !self.check(&TokenOf::RightBracket) {
            elements = match self.parse_elements() {
                Err(e) => return Err(e),
                Ok(x) => x,
            };
        }
        self.skip_newlines();
        match self.expect(TokenOf::RightBracket) {
            Err(e) => return Err(e),
            Ok(()) => {},
        }
        Ok(AstNode::List { elements, span })
    }

    /// Parse list elements (see `elements_list`).
    fn parse_elements(&mut self) -> (r: Result<Vec<AstNode>, ParseError>)
        requires
            old(self).wf(),
        ensures
            advanced(*old(self), *final(self), false),
            nodes_outcome(*final(self), r, elements_list(old(self).tokens(), old(self).spans(), old(self).pos())),
        decreases old(self).tokens().len() - old(self).pos(), 51nat,
    {
        let ghost toks = self.tokens();
        let ghost spans = self.spans();
        let ghost start = self.pos();
        let mut elements: Vec<AstNode> = Vec::new();
        proof {
            assert(nodes_view(elements@) =~= Seq::<NodeView>::empty());
            lemma_prefixed_empty(elements_list(toks, spans, start));
        }
        loop
            invariant
                self.wf(),
                self.tokens() == toks,
                self.spans() == spans,
                toks == old(self).tokens(),
                spans == old(self).spans(),
                start <= self.pos(),
                start == old(self).pos(),
                elements_list(toks, spans, start) == prefixed(nodes_view(elements@), elements_list(toks, spans, self.pos())),
            decreases self.tokens@.len() - self.position,
        {
            let ghost p = self.pos();
            proof {
                unfold_elements_list(toks, spans, p);
            }
            let a = match self.parse_expression() {
                Err(e) => return Err(e),
                Ok(x) => x,
            };
            let ghost q = self.pos();
            proof {
                lemma_nodes_view_push(elements@, a);
                super::lemma_skip_nl_bounds(toks, q + 1);
                lemma_prefixed_push(nodes_view(elements@), node_view(a), elements_list(toks, spans, skip_nl(toks, q + 1)));
                lemma_prefixed_single(nodes_view(elements@), node_view(a), q);
            }
            elements.push(a);
            if !self.check(&TokenOf::Comma) {
                return Ok(elements);
            }
            self.advance();
            self.skip_newlines();
        }
    }

    /// Parse a map literal (see `map_spec`).
    fn parse_map(&mut self) -> (r: Result<AstNode, ParseError>)
        requires
            old(self).wf(),
        ensures
            advanced(*old(self), *final(self), r is Ok),
            node_outcome(*final(self), r, map_spec(old(self).tokens(), old(self).spans(), old(self).pos())),
        decreases old(self).tokens().len() - old(self).pos(), 16nat,
    {
        proof {
            unfold_map_spec(old(self).tokens(), old(self).spans(), old(self).pos());
        }
        let span = self.current_span();
        match self.expect(TokenOf::LeftBrace) {
            Err(e) => return Err(e),
            Ok(()) => {},
        }
        self.skip_newlines();
        let entries = match self.parse_fields("Expected identifier as map key") {
            Err(e) => return Err(e),
            Ok(x) => x,
        };
        self.skip_newlines();
        match self.expect(TokenOf::RightBrace) {
            Err(e) => return Err(e),
            Ok(()) => {},
        }
        Ok(AstNode::MapLiteral { entries, span })
    }

    /// Parse a query (see `seek_spec`).
    fn parse_seek(&mut self) -> (r: Result<AstNode, ParseError>)
        requires
            old(self).wf(),
        ensures
            advanced(*old(self), *final(self), r is Ok),
            node_outcome(*final(self), r, seek_spec(old(self).tokens(), old(self).spans(), old(self).pos())),
        decreases old(self).tokens().len() - old(self).pos(), 15nat,
    {
        let ghost toks = self.tokens();
        let ghost spans = self.spans();
        let ghost pos = self.pos();
        proof {
            unfold_seek_spec(toks, spans, pos);
        }
        let span = self.current_span();
        match self.expect(TokenOf::Seek) {
            Err(e) => return Err(e),
            Ok(()) => {},
        }
        match self.expect(TokenOf::Where) {
            Err(e) => return Err(e),
            Ok(()) => {},
        }
        let ghost start = self.pos();
        let mut conditions: Vec<QueryCondition> = Vec::new();
        proof {
            assert(conditions_view(conditions@) =~= Seq::<(Seq<char>, QueryOperator, NodeView)>::empty());
            lemma_prefixed_empty(conditions_spec(toks, spans, start));
        }
        loop
            invariant
                self.wf(),
                self.tokens() == toks,
                self.spans() == spans,
                toks == old(self).tokens(),
                spans == old(self).spans(),
                pos < start <= self.pos(),
                pos == old(self).pos(),
                start == pos + 2,
                seek_spec(toks, spans, pos) == (match prefixed(
                    conditions_view(conditions@),
                    conditions_spec(toks, spans, self.pos()),
                ) {
                    Ok((cs, q)) => Ok((NodeView::SeekExpr { conditions: cs, span }, q)),
                    Err(e) => Err(e),
                }),
                span == span_at(spans, pos),
            decreases self.tokens@.len() - self.position,
        {
            let ghost p = self.pos();
            proof {
                unfold_conditions_spec(toks, spans, p);
            }
            let field = match self.current() {
                TokenOf::Ident(f) => f.clone(),
                _ => {
                    proof {
                        assert(conditions_view(conditions@) + Seq::empty() =~= conditions_view(conditions@));
                    }
                    return Ok(AstNode::SeekExpr { conditions, span });
                },
            };
            self.advance();
            let operator = match query_operator(self.current()) {
                Some(op) => op,
                None => {
                    return Err(
                        ParseError { message: String::from_str("Expected comparison operator"), position: self.position },
                    );
                },
            };
            self.advance();
            let value = match self.parse_additive() {
                Err(e) => return Err(e),
                Ok(x) => x,
            };
            let ghost q = self.pos();
            let c = QueryCondition { field, operator, value: Box::new(value) };
            proof {
                lemma_conditions_view_push(conditions@, c);
                lemma_prefixed_push(
                    conditions_view(conditions@),
                    (c.field@, c.operator, node_view(*c.value)),
                    conditions_spec(toks, spans, q + 1),
                );
                lemma_prefixed_single(conditions_view(conditions@), (c.field@, c.operator, node_view(*c.value)), q);
            }
            conditions.push(c);
            if !self.check(&TokenOf::And) {
                proof {
                    assert(conditions_view(conditions@) =~= conditions_view(conditions@.drop_last()) + seq![
                        (c.field@, c.operator, node_view(*c.value)),
                    ]);
                }
                return Ok(AstNode::SeekExpr { conditions, span });
            }
            self.advance();
        }
    }

    /// Parse `range(start, end)` (see `range_spec`).
    fn parse_range(&mut self) -> (r: Result<AstNode, ParseError>)
        requires
            old(self).wf(),
        ensures
            advanced(*old(self), *final(self), r is Ok),
            node_outcome(*final(self), r, range_spec(old(self).tokens(), old(self).spans(), old(self).pos())),
        decreases old(self).tokens().len() - old(self).pos(), 13nat,
    {
        proof {
            unfold_range_spec(old(self).tokens(), old(self).spans(), old(self).pos());
        }
        let span = self.current_span();
        match self.expect(TokenOf::Range) {
            Err(e) => return Err(e),
            Ok(()) => {},
        }
        match self.expect(TokenOf::LeftParen) {
            Err(e) => return Err(e),
            Ok(()) => {},
        }
        let start = match self.parse_expression() {
            Err(e) => return Err(e),
            Ok(x) => x,
        };
        match self.expect(TokenOf::Comma) {
            Err(e) => return Err(e),
            Ok(()) => {},
        }
        let end = match self.parse_expression() {
            Err(e) => return Err(e),
            Ok(x) => x,
        };
        match self.expect(TokenOf::RightParen) {
            Err(e) => return Err(e),
            Ok(()) => {},
        }
        Ok(AstNode::Range { start: Box::new(start), end: Box::new(end), span })
    }

    /// Parse a capability request (see `request_spec`).
    pub(crate) fn parse_request(&mut self) -> (r: Result<AstNode, ParseError>)
        requires
            old(self).wf(),
        ensures
            advanced(*old(self), *final(self), r is Ok),
            node_outcome(*final(self), r, request_spec(old(self).tokens(), old(self).spans(), old(self).pos())),
        decreases old(self).tokens().len() - old(self).pos(), 12nat,
    {
        proof {
            unfold_request_spec(old(self).tokens(), old(self).spans(), old(self).pos());
        }
        let span = self.current_span();
        match self.expect(TokenOf::Request) {
            Err(e) => return Err(e),
            Ok(()) => {},
        }
        let capability = match self.parse_expression() {
            Err(e) => return Err(e),
            Ok(x) => x,
        };
        match self.expect(TokenOf::With) {
            Err(e) => return Err(e),
            Ok(()) => {},
        }
        match self.expect(TokenOf::Justification) {
            Err(e) => return Err(e),
            Ok(()) => {},
        }
        let justification = match self.current() {
            TokenOf::Text(j) => j.clone(),
            _ => {
                return Err(
                    ParseError {
                        message: String::from_str("Expected string after 'justification'"),
                        position: self.position,
                    },
                );
            },
        };
        self.advance();
        Ok(AstNode::RequestStmt { capability: Box::new(capability), justification, span })
    }
}

/// Putting nothing in front of a list result leaves it as it is.
pub proof fn lemma_prefixed_empty<T>(r: Parsed<Seq<T>>)
    ensures
        prefixed(Seq::empty(), r) == r,
{
    match r {
        Ok((rest, q)) => {
            assert(Seq::<T>::empty() + rest =~= rest);
        },
        Err(_) => {},
    }
}

} // verus!
