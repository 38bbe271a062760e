//! Statement and program parsing: each parser is proved to follow the
//! statement grammar of `program`.

use vstd::prelude::*;
use crate::ast::{
    AstNode, BorrowMode, ErrorHandler, MatchArm, Parameter, Pattern, StructField, TraitMethod, TypeAnnotation, VariantCase,
};
use crate::source_location::SourceSpan;
use crate::token::{Token, TokenOf};
use super::{lemma_skip_nl_bounds, skip_nl, token_at, types_view, ParseError, Parsed, Parser, TypeView};
use super::grammar::{
    NodeView, ParamView, PatternView, arms_view, cases_view, form_fields_view, handlers_view, lifetimes_view,
    methods_view, names_view, node_view, nodes_view, opt_type_view, param_view, params_view, pattern_view,
};
use super::expressions::{
    advanced, lemma_nodes_view_push, lemma_prefixed_empty, lemma_prefixed_push, lemma_prefixed_single,
    node_outcome, nodes_outcome, prefixed,
};
use super::program::{
    BlockEnd, ends_block, enum_pattern, field_placeholder, placeholders, program_spec, block_spec, statement_spec, binding_spec,
    set_spec, yield_spec, if_spec, for_spec, while_spec, generics_spec, type_params_spec, params_spec, chant_spec,
    form_fields_spec, form_spec, case_fields_spec, cases_spec, variant_spec, pattern_spec, wrapped_pattern_spec,
    patterns_spec, match_spec, arms_spec, attempt_spec, handlers_spec, unfold_program_spec, unfold_block_spec,
    unfold_statement_spec, unfold_binding_spec, unfold_set_spec, unfold_yield_spec, unfold_if_spec,
    unfold_for_spec, unfold_while_spec, unfold_generics_spec, unfold_type_params_spec, unfold_params_spec,
    unfold_chant_spec, unfold_form_fields_spec, unfold_form_spec, unfold_case_fields_spec, unfold_cases_spec,
    unfold_variant_spec, unfold_pattern_spec, unfold_wrapped_pattern_spec, unfold_patterns_spec,
    unfold_match_spec, unfold_arms_spec, unfold_attempt_spec, unfold_handlers_spec, exports_of, export_spec,
    from_spec, import_spec, module_spec, name_list_spec, unfold_export_spec, unfold_import_spec, unfold_module_spec,
    unfold_name_list_spec, embody_spec, methods_spec, unfold_embody_spec, unfold_methods_spec, aspect_spec,
    self_param, sig_params_spec, sig_spec, sigs_spec, unfold_aspect_spec, unfold_sig_params_spec, unfold_sig_spec,
    unfold_sigs_spec,
};
use crate::module_resolver::{text_eq, ModuleResolver};
use crate::text::push_str;

verus! {

/// The mathematical values of patterns.
pub open spec fn patterns_view(ps: Seq<Pattern>) -> Seq<PatternView> {
    ps.map_values(|p: Pattern| pattern_view(p))
}

/// A list result agrees with its specification, each item taken by `view`.
pub open spec fn list_outcome<A, V>(
    after: Parser,
    r: Result<Vec<A>, ParseError>,
    view: spec_fn(Seq<A>) -> Seq<V>,
    s: Parsed<Seq<V>>,
) -> bool {
    match r {
        Ok(xs) => s == Ok::<(Seq<V>, int), (Seq<char>, int)>((view(xs@), after.pos())),
        Err(e) => s == Err::<(Seq<V>, int), (Seq<char>, int)>((e.message@, e.position as int)),
    }
}

/// A pattern result agrees with its specification.
pub open spec fn pattern_outcome(after: Parser, r: Result<Pattern, ParseError>, s: Parsed<PatternView>) -> bool {
    match r {
        Ok(p) => s == Ok::<(PatternView, int), (Seq<char>, int)>((pattern_view(p), after.pos())),
        Err(e) => s == Err::<(PatternView, int), (Seq<char>, int)>((e.message@, e.position as int)),
    }
}

proof fn lemma_prefixed_end<T>(pre: Seq<T>, q: int)
    ensures
        prefixed(pre, Ok((Seq::empty(), q))) == Ok::<(Seq<T>, int), (Seq<char>, int)>((pre, q)),
{
    assert(pre + Seq::<T>::empty() =~= pre);
}

proof fn lemma_names_push(ns: Seq<String>, n: String)
    ensures
        names_view(ns.push(n)) == names_view(ns).push(n@),
{
    assert(names_view(ns.push(n)) =~= names_view(ns).push(n@));
}

proof fn lemma_params_push(ps: Seq<Parameter>, p: Parameter)
    ensures
        params_view(ps.push(p)) == params_view(ps).push(param_view(p)),
{
    assert(params_view(ps.push(p)) =~= params_view(ps).push(param_view(p)));
}

proof fn lemma_form_fields_push(fs: Seq<StructField>, f: StructField)
    ensures
        form_fields_view(fs.push(f)) == form_fields_view(fs).push((f.name@, super::type_view(f.typ))),
{
    assert(form_fields_view(fs.push(f)) =~= form_fields_view(fs).push((f.name@, super::type_view(f.typ))));
}

proof fn lemma_cases_push(cs: Seq<VariantCase>, c: VariantCase)
    ensures
        cases_view(cs.push(c)) == cases_view(cs).push((c.name@, params_view(c.fields@))),
{
    assert(cases_view(cs.push(c)) =~= cases_view(cs).push((c.name@, params_view(c.fields@))));
}

proof fn lemma_patterns_push(ps: Seq<Pattern>, p: Pattern)
    ensures
        patterns_view(ps.push(p)) == patterns_view(ps).push(pattern_view(p)),
{
    assert(patterns_view(ps.push(p)) =~= patterns_view(ps).push(pattern_view(p)));
}

proof fn lemma_arms_push(arms: Seq<MatchArm>, a: MatchArm)
    ensures
        arms_view(arms.push(a)) == arms_view(arms).push((pattern_view(a.pattern), nodes_view(a.body@))),
{
    assert(arms.push(a).drop_last() =~= arms);
}

proof fn lemma_handlers_push(hs: Seq<ErrorHandler>, h: ErrorHandler)
    ensures
        handlers_view(hs.push(h)) == handlers_view(hs).push((h.error_type@, nodes_view(h.body@))),
{
    assert(hs.push(h).drop_last() =~= hs);
}

/// Whether `t` closes a block of kind `stop`.
fn block_ends(stop: BlockEnd, t: &Token) -> (r: bool)
    ensures
        r == ends_block(stop, t@),
{
    match stop {
        BlockEnd::Eof => match t {
            TokenOf::Eof => true,
            _ => false,
        },
        BlockEnd::End => match t {
            TokenOf::End | TokenOf::Eof => true,
            _ => false,
        },
        BlockEnd::Otherwise => match t {
            TokenOf::Otherwise | TokenOf::End | TokenOf::Eof => true,
            _ => false,
        },
        BlockEnd::Arm => match t {
            TokenOf::When | TokenOf::Otherwise | TokenOf::End | TokenOf::Eof => true,
            _ => false,
        },
        BlockEnd::Handler => match t {
            TokenOf::Harmonize | TokenOf::End | TokenOf::Eof => true,
            _ => false,
        },
    }
}

impl Parser {
    /// Parse a complete program (see `program_spec`).
    pub fn parse(&mut self) -> (r: Result<Vec<AstNode>, ParseError>)
        requires
            old(self).wf(),
        ensures
            advanced(*old(self), *final(self), false),
            nodes_outcome(*final(self), r, program_spec(old(self).tokens(), old(self).spans(), old(self).pos())),
    {
        proof {
            unfold_program_spec(old(self).tokens(), old(self).spans(), old(self).pos());
        }
        self.skip_newlines();
        self.parse_block(BlockEnd::Eof)
    }

    /// Parse statements up to the token that closes the block (see
    /// `block_spec`).
    fn parse_block(&mut self, stop: BlockEnd) -> (r: Result<Vec<AstNode>, ParseError>)
        requires
            old(self).wf(),
        ensures
            advanced(*old(self), *final(self), false),
            nodes_outcome(*final(self), r, block_spec(old(self).tokens(), old(self).spans(), stop, old(self).pos())),
        decreases old(self).tokens().len() - old(self).pos(), 2nat,
    {
        let ghost toks = self.tokens();
        let ghost spans = self.spans();
        let ghost start = self.pos();
        let mut stmts: Vec<AstNode> = Vec::new();
        proof {
            assert(nodes_view(stmts@) =~= Seq::<NodeView>::empty());
            lemma_prefixed_empty(block_spec(toks, spans, stop, start));
        }
        loop
            invariant
                self.wf(),
                self.tokens() == toks,
                self.spans() == spans,
                toks == old(self).tokens(),
                spans == old(self).spans(),
                start <= self.pos(),
                start == old(self).pos(),
                block_spec(toks, spans, stop, start) == prefixed(nodes_view(stmts@), block_spec(toks, spans, stop, self.pos())),
            decreases self.tokens@.len() - self.position,
        {
            let ghost p = self.pos();
            proof {
                unfold_block_spec(toks, spans, stop, p);
            }
            if block_ends(stop, self.current()) {
                proof {
                    lemma_prefixed_end(nodes_view(stmts@), p);
                }
                return Ok(stmts);
            }
            let s = match self.parse_statement() {
                Err(e) => return Err(e),
                Ok(x) => x,
            };
            let ghost q = self.pos();
            self.skip_newlines();
            proof {
                lemma_skip_nl_bounds(toks, q);
                lemma_nodes_view_push(stmts@, s);
                lemma_prefixed_push(nodes_view(stmts@), node_view(s), block_spec(toks, spans, stop, self.pos()));
            }
            stmts.push(s);
        }
    }

    /// Parse one statement (see `statement_spec`).
    fn parse_statement(&mut self) -> (r: Result<AstNode, ParseError>)
        requires
            old(self).wf(),
        ensures
            advanced(*old(self), *final(self), r is Ok),
            node_outcome(*final(self), r, statement_spec(old(self).tokens(), old(self).spans(), old(self).pos())),
        decreases old(self).tokens().len() - old(self).pos(), 1nat,
    {
        proof {
            unfold_statement_spec(old(self).tokens(), old(self).spans(), old(self).pos());
            lemma_skip_nl_bounds(old(self).tokens(), old(self).pos());
        }
        self.skip_newlines();
        match self.current() {
            TokenOf::Bind => self.parse_bind(),
            TokenOf::Weave => self.parse_weave(),
            TokenOf::SetKeyword => self.parse_set(),
            TokenOf::Should => self.parse_if(),
            TokenOf::For => self.parse_for(),
            TokenOf::Whilst => self.parse_while(),
            TokenOf::Chant => self.parse_chant_def(),
            TokenOf::Form => self.parse_form_def(),
            TokenOf::Variant => self.parse_variant_def(),
            TokenOf::Yield => self.parse_yield(),
            TokenOf::Break => self.parse_break(),
            TokenOf::Continue => self.parse_continue(),
            TokenOf::Match => self.parse_match(),
            TokenOf::Attempt => self.parse_attempt(),
            TokenOf::Request => self.parse_request(),
            TokenOf::Grove => self.parse_module_decl(),
            TokenOf::Summon => self.parse_import(),
            TokenOf::Gather => self.parse_import(),
            TokenOf::Offer => self.parse_export(),
            TokenOf::Embody => self.parse_embody_stmt(),
            TokenOf::Aspect => self.parse_aspect_def(),
            _ => {
                let expr = match self.parse_expression() {
                    Err(e) => return Err(e),
                    Ok(x) => x,
                };
                let span = self.current_span();
                Ok(AstNode::ExprStmt { expr: Box::new(expr), span })
            },
        }
    }

    /// Parse `bind name [: Type] to value`.
    fn parse_bind(&mut self) -> (r: Result<AstNode, ParseError>)
        requires
            old(self).wf(),
        ensures
            advanced(*old(self), *final(self), r is Ok),
            node_outcome(*final(self), r, binding_spec(old(self).tokens(), old(self).spans(), true, old(self).pos())),
    {
        self.parse_binding(true)
    }

    /// Parse `weave name [: Type] as value`.
    fn parse_weave(&mut self) -> (r: Result<AstNode, ParseError>)
        requires
            old(self).wf(),
        ensures
            advanced(*old(self), *final(self), r is Ok),
            node_outcome(*final(self), r, binding_spec(old(self).tokens(), old(self).spans(), false, old(self).pos())),
    {
        self.parse_binding(false)
    }

    /// Parse a `bind` (when `bind`) or `weave` statement (see
    /// `binding_spec`).
    fn parse_binding(&mut self, bind: bool) -> (r: Result<AstNode, ParseError>)
        requires
            old(self).wf(),
        ensures
            advanced(*old(self), *final(self), r is Ok),
            node_outcome(*final(self), r, binding_spec(old(self).tokens(), old(self).spans(), bind, old(self).pos())),
    {
        proof {
            unfold_binding_spec(old(self).tokens(), old(self).spans(), bind, old(self).pos());
        }
        let span = self.current_span();
        let keyword = if bind {
            self.expect(TokenOf::Bind)
        } else {
            self.expect(TokenOf::Weave)
        };
        match keyword {
            Err(e) => return Err(e),
            Ok(()) => {},
        }
        let name = match self.current() {
            TokenOf::Ident(n) => n.clone(),
            _ => {
                let message = if bind {
                    String::from_str("Expected identifier after 'bind'")
                } else {
                    String::from_str("Expected identifier after 'weave'")
                };
                return Err(ParseError { message, position: self.position });
            },
        };
        self.advance();
        let typ = if self.match_token(TokenOf::Colon) {
            match self.parse_type_annotation() {
                Err(e) => return Err(e),
                Ok(t) => Some(t),
            }
        } else {
            None
        };
        let separator = if bind {
            self.expect(TokenOf::To)
        } else {
            self.expect(TokenOf::As)
        };
        match separator {
            Err(e) => return Err(e),
            Ok(()) => {},
        }
        let value = match self.parse_expression() {
            Err(e) => return Err(e),
            Ok(x) => x,
        };
        if bind {
            Ok(AstNode::BindStmt { name, typ, value: Box::new(value), span })
        } else {
            Ok(AstNode::WeaveStmt { name, typ, value: Box::new(value), span })
        }
    }

    /// Parse `set target to value` (see `set_spec`).
    fn parse_set(&mut self) -> (r: Result<AstNode, ParseError>)
        requires
            old(self).wf(),
        ensures
            advanced(*old(self), *final(self), r is Ok),
            node_outcome(*final(self), r, set_spec(old(self).tokens(), old(self).spans(), old(self).pos())),
    {
        proof {
            unfold_set_spec(old(self).tokens(), old(self).spans(), old(self).pos());
        }
        let span = self.current_span();
        match self.expect(TokenOf::SetKeyword) {
            Err(e) => return Err(e),
            Ok(()) => {},
        }
        let target = match self.parse_postfix() {
            Err(e) => return Err(e),
            Ok(x) => x,
        };
        match self.expect(TokenOf::To) {
            Err(e) => return Err(e),
            Ok(()) => {},
        }
        let value = match self.parse_expression() {
            Err(e) => return Err(e),
            Ok(x) => x,
        };
        Ok(AstNode::SetStmt { target: Box::new(target), value: Box::new(value), span })
    }

    /// Parse `yield value` (see `yield_spec`).
    fn parse_yield(&mut self) -> (r: Result<AstNode, ParseError>)
        requires
            old(self).wf(),
        ensures
            advanced(*old(self), *final(self), r is Ok),
            node_outcome(*final(self), r, yield_spec(old(self).tokens(), old(self).spans(), old(self).pos())),
    {
        proof {
            unfold_yield_spec(old(self).tokens(), old(self).spans(), old(self).pos());
        }
        let span = self.current_span();
        match self.expect(TokenOf::Yield) {
            Err(e) => return Err(e),
            Ok(()) => {},
        }
        let value = match self.parse_expression() {
            Err(e) => return Err(e),
            Ok(x) => x,
        };
        Ok(AstNode::YieldStmt { value: Box::new(value), span })
    }

    /// Parse `break`.
    fn parse_break(&mut self) -> (r: Result<AstNode, ParseError>)
        requires
            old(self).wf(),
            token_at(old(self).tokens(), old(self).pos()) is Break,
        ensures
            advanced(*old(self), *final(self), true),
            r == Ok::<AstNode, ParseError>(AstNode::Break { span: super::span_at(old(self).spans(), old(self).pos()) }),
            final(self).pos() == old(self).pos() + 1,
    {
        let span = self.current_span();
        self.advance();
        Ok(AstNode::Break { span })
    }

    /// Parse `continue`.
    fn parse_continue(&mut self) -> (r: Result<AstNode, ParseError>)
        requires
            old(self).wf(),
            token_at(old(self).tokens(), old(self).pos()) is Continue,
        ensures
            advanced(*old(self), *final(self), true),
            r == Ok::<AstNode, ParseError>(AstNode::Continue { span: super::span_at(old(self).spans(), old(self).pos()) }),
            final(self).pos() == old(self).pos() + 1,
    {
        let span = self.current_span();
        self.advance();
        Ok(AstNode::Continue { span })
    }

    /// Parse `should condition then ... [otherwise ...] end` (see
    /// `if_spec`).
    fn parse_if(&mut self) -> (r: Result<AstNode, ParseError>)
        requires
            old(self).wf(),
        ensures
            advanced(*old(self), *final(self), r is Ok),
            node_outcome(*final(self), r, if_spec(old(self).tokens(), old(self).spans(), old(self).pos())),
        decreases old(self).tokens().len() - old(self).pos(), 0nat,
    {
        let ghost toks = self.tokens();
        proof {
            unfold_if_spec(toks, old(self).spans(), old(self).pos());
        }
        let span = self.current_span();
        match self.expect(TokenOf::Should) {
            Err(e) => return Err(e),
            Ok(()) => {},
        }
        let condition = match self.parse_expression() {
            Err(e) => return Err(e),
            Ok(x) => x,
        };
        let ghost q = self.pos();
        match self.expect(TokenOf::Then) {
            Err(e) => return Err(e),
            Ok(()) => {},
        }
        self.skip_newlines();
        proof {
            lemma_skip_nl_bounds(toks, q + 1);
        }
        let then_branch = match self.parse_block(BlockEnd::Otherwise) {
            Err(e) => return Err(e),
            Ok(b) => b,
        };
        let ghost r = self.pos();
        if self.match_token(TokenOf::Otherwise) {
            self.skip_newlines();
            proof {
                lemma_skip_nl_bounds(toks, r + 1);
            }
            let else_branch = match self.parse_block(BlockEnd::End) {
                Err(e) => return Err(e),
                Ok(b) => b,
            };
            match self.expect(TokenOf::End) {
                Err(e) => return Err(e),
                Ok(()) => {},
            }
            Ok(AstNode::IfStmt { condition: Box::new(condition), then_branch, else_branch: Some(else_branch), span })
        } else {
            match self.expect(TokenOf::End) {
                Err(e) => return Err(e),
                Ok(()) => {},
            }
            Ok(AstNode::IfStmt { condition: Box::new(condition), then_branch, else_branch: None, span })
        }
    }

    /// Parse `for each name in iterable then ... end` (see `for_spec`).
    fn parse_for(&mut self) -> (r: Result<AstNode, ParseError>)
        requires
            old(self).wf(),
        ensures
            advanced(*old(self), *final(self), r is Ok),
            node_outcome(*final(self), r, for_spec(old(self).tokens(), old(self).spans(), old(self).pos())),
        decreases old(self).tokens().len() - old(self).pos(), 0nat,
    {
        let ghost toks = self.tokens();
        proof {
            unfold_for_spec(toks, old(self).spans(), old(self).pos());
        }
        let span = self.current_span();
        match self.expect(TokenOf::For) {
            Err(e) => return Err(e),
            Ok(()) => {},
        }
        match self.expect(TokenOf::Each) {
            Err(e) => return Err(e),
            Ok(()) => {},
        }
        let variable = match self.current() {
            TokenOf::Ident(n) => n.clone(),
            _ => {
                return Err(
                    ParseError {
                        message: String::from_str("Expected identifier after 'for each'"),
                        position: self.position,
                    },
                );
            },
        };
        self.advance();
        match self.expect(TokenOf::In) {
            Err(e) => return Err(e),
            Ok(()) => {},
        }
        let iterable = match self.parse_expression() {
            Err(e) => return Err(e),
            Ok(x) => x,
        };
        let ghost q = self.pos();
        match self.expect(TokenOf::Then) {
            Err(e) => return Err(e),
            Ok(()) => {},
        }
        self.skip_newlines();
        proof {
            lemma_skip_nl_bounds(toks, q + 1);
        }
        let body = match self.parse_block(BlockEnd::End) {
            Err(e) => return Err(e),
            Ok(b) => b,
        };
        match self.expect(TokenOf::End) {
            Err(e) => return Err(e),
            Ok(()) => {},
        }
        Ok(AstNode::ForStmt { variable, iterable: Box::new(iterable), body, span })
    }

    /// Parse `whilst condition then ... end` (see `while_spec`).
    fn parse_while(&mut self) -> (r: Result<AstNode, ParseError>)
        requires
            old(self).wf(),
        ensures
            advanced(*old(self), *final(self), r is Ok),
            node_outcome(*final(self), r, while_spec(old(self).tokens(), old(self).spans(), old(self).pos())),
        decreases old(self).tokens().len() - old(self).pos(), 0nat,
    {
        let ghost toks = self.tokens();
        proof {
            unfold_while_spec(toks, old(self).spans(), old(self).pos());
        }
        let span = self.current_span();
        match self.expect(TokenOf::Whilst) {
            Err(e) => return Err(e),
            Ok(()) => {},
        }
        let condition = match self.parse_expression() {
            Err(e) => return Err(e),
            Ok(x) => x,
        };
        let ghost q = self.pos();
        match self.expect(TokenOf::Then) {
            Err(e) => return Err(e),
            Ok(()) => {},
        }
        self.skip_newlines();
        proof {
            lemma_skip_nl_bounds(toks, q + 1);
        }
        let body = match self.parse_block(BlockEnd::End) {
            Err(e) => return Err(e),
            Ok(b) => b,
        };
        match self.expect(TokenOf::End) {
            Err(e) => return Err(e),
            Ok(()) => {},
        }
        Ok(AstNode::WhileStmt { condition: Box::new(condition), body, span })
    }
}

impl Parser {
    /// Parse optional type parameters `<T, U>` (see `generics_spec`).
    fn parse_generics(&mut self) -> (r: Result<Vec<String>, ParseError>)
        requires
            old(self).wf(),
        ensures
            advanced(*old(self), *final(self), false),
            list_outcome(*final(self), r, |ns: Seq<String>| names_view(ns), generics_spec(old(self).tokens(), old(self).pos())),
    {
        proof {
            unfold_generics_spec(old(self).tokens(), old(self).pos());
        }
        if !self.check(&TokenOf::LeftAngle) {
            let names: Vec<String> = Vec::new();
            proof {
                assert(names_view(names@) =~= Seq::<Seq<char>>::empty());
            }
            return Ok(names);
        }
        self.advance();
        let names = match self.parse_type_params() {
            Err(e) => return Err(e),
            Ok(n) => n,
        };
        match self.expect(TokenOf::RightAngle) {
            Err(e) => return Err(e),
            Ok(()) => {},
        }
        Ok(names)
    }

    /// Parse type parameter names separated by commas (see
    /// `type_params_spec`).
    fn parse_type_params(&mut self) -> (r: Result<Vec<String>, ParseError>)
        requires
            old(self).wf(),
        ensures
            advanced(*old(self), *final(self), false),
            list_outcome(*final(self), r, |ns: Seq<String>| names_view(ns), type_params_spec(old(self).tokens(), old(self).pos())),
    {
        let ghost toks = self.tokens();
        let ghost start = self.pos();
        let mut names: Vec<String> = Vec::new();
        proof {
            assert(names_view(names@) =~= Seq::<Seq<char>>::empty());
            lemma_prefixed_empty(type_params_spec(toks, start));
        }
        loop
            invariant
                self.wf(),
                self.tokens() == toks,
                self.spans() == old(self).spans(),
                toks == old(self).tokens(),
                start <= self.pos(),
                start == old(self).pos(),
                type_params_spec(toks, start) == prefixed(names_view(names@), type_params_spec(toks, self.pos())),
            decreases self.tokens@.len() - self.position,
        {
            let ghost p = self.pos();
            proof {
                unfold_type_params_spec(toks, p);
            }
            let name = match self.current() {
                TokenOf::Ident(n) => n.clone(),
                _ => {
                    return Err(
                        ParseError { message: String::from_str("Expected type parameter name"), position: self.position },
                    );
                },
            };
            self.advance();
            proof {
                lemma_names_push(names@, name);
                lemma_prefixed_push(names_view(names@), name@, type_params_spec(toks, p + 2));
                lemma_prefixed_single(names_view(names@), name@, p + 1);
            }
            names.push(name);
            if !self.check(&TokenOf::Comma) {
                return Ok(names);
            }
            self.advance();
        }
    }

    /// Parse parameters separated by commas (see `params_spec`).
    fn parse_params(&mut self) -> (r: Result<Vec<Parameter>, ParseError>)
        requires
            old(self).wf(),
        ensures
            advanced(*old(self), *final(self), false),
            list_outcome(*final(self), r, |ps: Seq<Parameter>| params_view(ps), params_spec(old(self).tokens(), old(self).pos())),
    {
        let ghost toks = self.tokens();
        let ghost start = self.pos();
        let mut params: Vec<Parameter> = Vec::new();
        proof {
            assert(params_view(params@) =~= Seq::<ParamView>::empty());
            lemma_prefixed_empty(params_spec(toks, start));
        }
        loop
            invariant
                self.wf(),
                self.tokens() == toks,
                self.spans() == old(self).spans(),
                toks == old(self).tokens(),
                start <= self.pos(),
                start == old(self).pos(),
                params_spec(toks, start) == prefixed(params_view(params@), params_spec(toks, self.pos())),
            decreases self.tokens@.len() - self.position,
        {
            let ghost p = self.pos();
            proof {
                unfold_params_spec(toks, p);
            }
            let name = match self.current() {
                TokenOf::Ident(n) => n.clone(),
                _ => {
                    return Err(ParseError { message: String::from_str("Expected parameter name"), position: self.position });
                },
            };
            self.advance();
            let typ = if self.match_token(TokenOf::As) {
                match self.parse_type_annotation() {
                    Err(e) => return Err(e),
                    Ok(t) => Some(t),
                }
            } else {
                None
            };
            let ghost q = self.pos();
            let param = Parameter { name, typ, is_variadic: false, borrow_mode: BorrowMode::Owned, lifetime: None };
            proof {
                lemma_params_push(params@, param);
                lemma_skip_nl_bounds(toks, q + 1);
                lemma_prefixed_push(params_view(params@), param_view(param), params_spec(toks, skip_nl(toks, q + 1)));
                lemma_prefixed_single(params_view(params@), param_view(param), q);
            }
            params.push(param);
            if !self.match_token(TokenOf::Comma) {
                return Ok(params);
            }
            self.skip_newlines();
        }
    }

    /// Parse a function definition (see `chant_spec`).
    fn parse_chant_def(&mut self) -> (r: Result<AstNode, ParseError>)
        requires
            old(self).wf(),
        ensures
            advanced(*old(self), *final(self), r is Ok),
            node_outcome(*final(self), r, chant_spec(old(self).tokens(), old(self).spans(), old(self).pos())),
        decreases old(self).tokens().len() - old(self).pos(), 0nat,
    {
        let ghost toks = self.tokens();
        proof {
            unfold_chant_spec(toks, old(self).spans(), old(self).pos());
        }
        match self.expect(TokenOf::Chant) {
            Err(e) => return Err(e),
            Ok(()) => {},
        }
        let name = match self.current() {
            TokenOf::Ident(n) => n.clone(),
            _ => {
                return Err(
                    ParseError { message: String::from_str("Expected identifier after 'chant'"), position: self.position },
                );
            },
        };
        self.advance();
        let type_params = match self.parse_generics() {
            Err(e) => return Err(e),
            Ok(t) => t,
        };
        match self.expect(TokenOf::LeftParen) {
            Err(e) => return Err(e),
            Ok(()) => {},
        }
        self.skip_newlines();
        let params = if self.check(&TokenOf::RightParen) {
            let none: Vec<Parameter> = Vec::new();
            proof {
                assert(params_view(none@) =~= Seq::<ParamView>::empty());
            }
            none
        } else {
            match self.parse_params() {
                Err(e) => return Err(e),
                Ok(ps) => ps,
            }
        };
        self.skip_newlines();
        match self.expect(TokenOf::RightParen) {
            Err(e) => return Err(e),
            Ok(()) => {},
        }
        let return_type = if self.match_token(TokenOf::Arrow) {
            match self.parse_type_annotation() {
                Err(e) => return Err(e),
                Ok(t) => Some(t),
            }
        } else {
            None
        };
        let ghost d = self.pos();
        match self.expect(TokenOf::Then) {
            Err(e) => return Err(e),
            Ok(()) => {},
        }
        self.skip_newlines();
        proof {
            lemma_skip_nl_bounds(toks, d + 1);
        }
        let body = match self.parse_block(BlockEnd::End) {
            Err(e) => return Err(e),
            Ok(b) => b,
        };
        match self.expect(TokenOf::End) {
            Err(e) => return Err(e),
            Ok(()) => {},
        }
        let span = self.current_span();
        let lifetime_params = Vec::new();
        proof {
            assert(lifetimes_view(lifetime_params@) =~= Seq::<Seq<char>>::empty());
        }
        Ok(AstNode::ChantDef { name, type_params, lifetime_params, params, return_type, body, span })
    }

    /// Parse struct fields up to `end` (see `form_fields_spec`).
    fn parse_form_fields(&mut self) -> (r: Result<Vec<StructField>, ParseError>)
        requires
            old(self).wf(),
        ensures
            advanced(*old(self), *final(self), false),
            list_outcome(*final(self), r, |fs: Seq<StructField>| form_fields_view(fs), form_fields_spec(old(self).tokens(), old(self).pos())),
    {
        let ghost toks = self.tokens();
        let ghost start = self.pos();
        let mut fields: Vec<StructField> = Vec::new();
        proof {
            assert(form_fields_view(fields@) =~= Seq::<(Seq<char>, TypeView)>::empty());
            lemma_prefixed_empty(form_fields_spec(toks, start));
        }
        loop
            invariant
                self.wf(),
                self.tokens() == toks,
                self.spans() == old(self).spans(),
                toks == old(self).tokens(),
                start <= self.pos(),
                start == old(self).pos(),
                form_fields_spec(toks, start) == prefixed(form_fields_view(fields@), form_fields_spec(toks, self.pos())),
            decreases self.tokens@.len() - self.position,
        {
            let ghost p = self.pos();
            proof {
                unfold_form_fields_spec(toks, p);
            }
            if self.check(&TokenOf::End) || self.check(&TokenOf::Eof) {
                proof {
                    lemma_prefixed_end(form_fields_view(fields@), p);
                }
                return Ok(fields);
            }
            let name = match self.current() {
                TokenOf::Ident(n) => n.clone(),
                _ => {
                    return Err(
                        ParseError {
                            message: String::from_str("Expected field name in struct definition"),
                            position: self.position,
                        },
                    );
                },
            };
            self.advance();
            match self.expect(TokenOf::As) {
                Err(e) => return Err(e),
                Ok(()) => {},
            }
            let typ = match self.parse_type_annotation() {
                Err(e) => return Err(e),
                Ok(t) => t,
            };
            let ghost q = self.pos();
            let field = StructField { name, typ };
            self.skip_newlines();
            proof {
                lemma_skip_nl_bounds(toks, q);
                lemma_form_fields_push(fields@, field);
                lemma_prefixed_push(form_fields_view(fields@), (field.name@, super::type_view(field.typ)), form_fields_spec(toks, self.pos()));
            }
            fields.push(field);
        }
    }

    /// Parse a struct definition (see `form_spec`).
    fn parse_form_def(&mut self) -> (r: Result<AstNode, ParseError>)
        requires
            old(self).wf(),
        ensures
            advanced(*old(self), *final(self), r is Ok),
            node_outcome(*final(self), r, form_spec(old(self).tokens(), old(self).spans(), old(self).pos())),
    {
        proof {
            unfold_form_spec(old(self).tokens(), old(self).spans(), old(self).pos());
        }
        match self.expect(TokenOf::Form) {
            Err(e) => return Err(e),
            Ok(()) => {},
        }
        let name = match self.current() {
            TokenOf::Ident(n) => n.clone(),
            _ => {
                return Err(
                    ParseError { message: String::from_str("Expected identifier after 'form'"), position: self.position },
                );
            },
        };
        self.advance();
        let type_params = match self.parse_generics() {
            Err(e) => return Err(e),
            Ok(t) => t,
        };
        match self.expect(TokenOf::With) {
            Err(e) => return Err(e),
            Ok(()) => {},
        }
        self.skip_newlines();
        let fields = match self.parse_form_fields() {
            Err(e) => return Err(e),
            Ok(f) => f,
        };
        match self.expect(TokenOf::End) {
            Err(e) => return Err(e),
            Ok(()) => {},
        }
        let span = self.current_span();
        Ok(AstNode::FormDef { name, type_params, fields, span })
    }

    /// Parse the fields of an enum case up to `)` (see `case_fields_spec`).
    fn parse_case_fields(&mut self) -> (r: Result<Vec<Parameter>, ParseError>)
        requires
            old(self).wf(),
        ensures
            advanced(*old(self), *final(self), false),
            list_outcome(*final(self), r, |ps: Seq<Parameter>| params_view(ps), case_fields_spec(old(self).tokens(), old(self).pos())),
    {
        let ghost toks = self.tokens();
        let ghost start = self.pos();
        let mut fields: Vec<Parameter> = Vec::new();
        proof {
            assert(params_view(fields@) =~= Seq::<ParamView>::empty());
            lemma_prefixed_empty(case_fields_spec(toks, start));
        }
        loop
            invariant
                self.wf(),
                self.tokens() == toks,
                self.spans() == old(self).spans(),
                toks == old(self).tokens(),
                start <= self.pos(),
                start == old(self).pos(),
                case_fields_spec(toks, start) == prefixed(params_view(fields@), case_fields_spec(toks, self.pos())),
            decreases self.tokens@.len() - self.position,
        {
            let ghost p = self.pos();
            proof {
                unfold_case_fields_spec(toks, p);
            }
            if self.check(&TokenOf::RightParen) || self.check(&TokenOf::Eof) {
                proof {
                    lemma_prefixed_end(params_view(fields@), p);
                }
                return Ok(fields);
            }
            let name = match self.current() {
                TokenOf::Ident(n) => n.clone(),
                _ => {
                    return Err(
                        ParseError { message: String::from_str("Expected field name in variant"), position: self.position },
                    );
                },
            };
            self.advance();
            match self.expect(TokenOf::Colon) {
                Err(e) => return Err(e),
                Ok(()) => {},
            }
            let typ = match self.parse_type_annotation() {
                Err(e) => return Err(e),
                Ok(t) => t,
            };
            let ghost q = self.pos();
            let field = Parameter { name, typ: Some(typ), is_variadic: false, borrow_mode: BorrowMode::Owned, lifetime: None };
            proof {
                lemma_params_push(fields@, field);
                lemma_prefixed_push(params_view(fields@), param_view(field), case_fields_spec(toks, q + 1));
                lemma_prefixed_single(params_view(fields@), param_view(field), q);
            }
            fields.push(field);
            if self.check(&TokenOf::Comma) {
                self.advance();
            } else if self.check(&TokenOf::RightParen) {
                return Ok(fields);
            } else {
                return Err(
                    ParseError {
                        message: String::from_str("Expected ',' or ')' in variant field list"),
                        position: self.position,
                    },
                );
            }
        }
    }

    /// Parse enum cases up to `end` (see `cases_spec`).
    fn parse_cases(&mut self) -> (r: Result<Vec<VariantCase>, ParseError>)
        requires
            old(self).wf(),
        ensures
            advanced(*old(self), *final(self), false),
            list_outcome(*final(self), r, |cs: Seq<VariantCase>| cases_view(cs), cases_spec(old(self).tokens(), old(self).pos())),
    {
        let ghost toks = self.tokens();
        let ghost start = self.pos();
        let mut cases: Vec<VariantCase> = Vec::new();
        proof {
            assert(cases_view(cases@) =~= Seq::<(Seq<char>, Seq<ParamView>)>::empty());
            lemma_prefixed_empty(cases_spec(toks, start));
        }
        loop
            invariant
                self.wf(),
                self.tokens() == toks,
                self.spans() == old(self).spans(),
                toks == old(self).tokens(),
                start <= self.pos(),
                start == old(self).pos(),
                cases_spec(toks, start) == prefixed(cases_view(cases@), cases_spec(toks, self.pos())),
            decreases self.tokens@.len() - self.position,
        {
            let ghost p = self.pos();
            proof {
                unfold_cases_spec(toks, p);
            }
            if self.check(&TokenOf::End) || self.check(&TokenOf::Eof) {
                proof {
                    lemma_prefixed_end(cases_view(cases@), p);
                }
                return Ok(cases);
            }
            let name = match self.current() {
                TokenOf::Ident(n) => n.clone(),
                _ => {
                    return Err(
                        ParseError {
                            message: String::from_str("Expected variant name in enum definition"),
                            position: self.position,
                        },
                    );
                },
            };
            self.advance();
            let fields = if self.check(&TokenOf::LeftParen) {
                self.advance();
                let fs = match self.parse_case_fields() {
                    Err(e) => return Err(e),
                    Ok(f) => f,
                };
                match self.expect(TokenOf::RightParen) {
                    Err(e) => return Err(e),
                    Ok(()) => {},
                }
                fs
            } else {
                let none: Vec<Parameter> = Vec::new();
                proof {
                    assert(params_view(none@) =~= Seq::<ParamView>::empty());
                }
                none
            };
            let case = VariantCase { name, fields };
            if self.check(&TokenOf::Comma) {
                self.advance();
            }
            let ghost a = self.pos();
            self.skip_newlines();
            proof {
                lemma_skip_nl_bounds(toks, a);
                lemma_cases_push(cases@, case);
                lemma_prefixed_push(cases_view(cases@), (case.name@, params_view(case.fields@)), cases_spec(toks, self.pos()));
            }
            cases.push(case);
        }
    }

    /// Parse an enum definition (see `variant_spec`).
    fn parse_variant_def(&mut self) -> (r: Result<AstNode, ParseError>)
        requires
            old(self).wf(),
        ensures
            advanced(*old(self), *final(self), r is Ok),
            node_outcome(*final(self), r, variant_spec(old(self).tokens(), old(self).spans(), old(self).pos())),
    {
        proof {
            unfold_variant_spec(old(self).tokens(), old(self).spans(), old(self).pos());
        }
        match self.expect(TokenOf::Variant) {
            Err(e) => return Err(e),
            Ok(()) => {},
        }
        let name = match self.current() {
            TokenOf::Ident(n) => n.clone(),
            _ => {
                return Err(
                    ParseError { message: String::from_str("Expected identifier after 'variant'"), position: self.position },
                );
            },
        };
        self.advance();
        let type_params = match self.parse_generics() {
            Err(e) => return Err(e),
            Ok(t) => t,
        };
        match self.expect(TokenOf::Then) {
            Err(e) => return Err(e),
            Ok(()) => {},
        }
        self.skip_newlines();
        let variants = match self.parse_cases() {
            Err(e) => return Err(e),
            Ok(c) => c,
        };
        match self.expect(TokenOf::End) {
            Err(e) => return Err(e),
            Ok(()) => {},
        }
        let span = self.current_span();
        Ok(AstNode::VariantDef { name, type_params, variants, span })
    }
}

impl Parser {
    /// Parse a match pattern (see `pattern_spec`).
    fn parse_pattern(&mut self) -> (r: Result<Pattern, ParseError>)
        requires
            old(self).wf(),
        ensures
            advanced(*old(self), *final(self), r is Ok),
            pattern_outcome(*final(self), r, pattern_spec(old(self).tokens(), old(self).spans(), old(self).pos())),
        decreases old(self).tokens().len() - old(self).pos(), 2nat,
    {
        proof {
            unfold_pattern_spec(old(self).tokens(), old(self).spans(), old(self).pos());
        }
        let span = self.current_span();
        match self.current() {
            TokenOf::Number(n) => {
                let value = n.clone();
                self.advance();
                let node = AstNode::Number { value, span };
                proof {
                    assert(pattern_view(Pattern::Literal(node)) == PatternView::Literal(Box::new(node_view(node))));
                }
                Ok(Pattern::Literal(node))
            },
            TokenOf::Text(t) => {
                let value = t.clone();
                self.advance();
                let node = AstNode::Text { value, span };
                proof {
                    assert(pattern_view(Pattern::Literal(node)) == PatternView::Literal(Box::new(node_view(node))));
                }
                Ok(Pattern::Literal(node))
            },
            TokenOf::Truth(b) => {
                let value = *b;
                self.advance();
                let node = AstNode::Truth { value, span };
                proof {
                    assert(pattern_view(Pattern::Literal(node)) == PatternView::Literal(Box::new(node_view(node))));
                }
                Ok(Pattern::Literal(node))
            },
            TokenOf::Ident(n) => {
                let name = n.clone();
                self.advance();
                if !self.match_token(TokenOf::LeftParen) {
                    return Ok(Pattern::Ident(name));
                }
                if self.check(&TokenOf::RightParen) {
                    self.advance();
                    return Ok(Pattern::Enum { variant: name, inner: None });
                }
                let fields = match self.parse_patterns() {
                    Err(e) => return Err(e),
                    Ok(f) => f,
                };
                match self.expect(TokenOf::RightParen) {
                    Err(e) => return Err(e),
                    Ok(()) => {},
                }
                Ok(enum_with_fields(name, fields))
            },
            TokenOf::Triumph => self.parse_wrapped_pattern("Triumph"),
            TokenOf::Mishap => self.parse_wrapped_pattern("Mishap"),
            TokenOf::Present => self.parse_wrapped_pattern("Present"),
            TokenOf::Absent => {
                self.advance();
                Ok(Pattern::Enum { variant: String::from_str("Absent"), inner: None })
            },
            _ => Err(ParseError { message: String::from_str("Expected pattern"), position: self.position }),
        }
    }

    /// Parse `(p)` after an outcome or maybe keyword (see
    /// `wrapped_pattern_spec`).
    fn parse_wrapped_pattern(&mut self, variant: &str) -> (r: Result<Pattern, ParseError>)
        requires
            old(self).wf(),
            old(self).pos() < old(self).tokens().len(),
        ensures
            advanced(*old(self), *final(self), r is Ok),
            pattern_outcome(*final(self), r, wrapped_pattern_spec(old(self).tokens(), old(self).spans(), variant@, old(self).pos())),
        decreases old(self).tokens().len() - old(self).pos(), 1nat,
    {
        proof {
            unfold_wrapped_pattern_spec(old(self).tokens(), old(self).spans(), variant@, old(self).pos());
        }
        self.advance();
        match self.expect(TokenOf::LeftParen) {
            Err(e) => return Err(e),
            Ok(()) => {},
        }
        let inner = match self.parse_pattern() {
            Err(e) => return Err(e),
            Ok(p) => p,
        };
        match self.expect(TokenOf::RightParen) {
            Err(e) => return Err(e),
            Ok(()) => {},
        }
        Ok(Pattern::Enum { variant: String::from_str(variant), inner: Some(Box::new(inner)) })
    }

    /// Parse patterns separated by commas (see `patterns_spec`).
    fn parse_patterns(&mut self) -> (r: Result<Vec<Pattern>, ParseError>)
        requires
            old(self).wf(),
        ensures
            advanced(*old(self), *final(self), false),
            list_outcome(*final(self), r, |ps: Seq<Pattern>| patterns_view(ps), patterns_spec(old(self).tokens(), old(self).spans(), old(self).pos())),
        decreases old(self).tokens().len() - old(self).pos(), 3nat,
    {
        let ghost toks = self.tokens();
        let ghost spans = self.spans();
        let ghost start = self.pos();
        let mut patterns: Vec<Pattern> = Vec::new();
        proof {
            assert(patterns_view(patterns@) =~= Seq::<PatternView>::empty());
            lemma_prefixed_empty(patterns_spec(toks, spans, start));
        }
        loop
            invariant
                self.wf(),
                self.tokens() == toks,
                self.spans() == spans,
                toks == old(self).tokens(),
                spans == old(self).spans(),
                start <= self.pos(),
                start == old(self).pos(),
                patterns_spec(toks, spans, start) == prefixed(patterns_view(patterns@), patterns_spec(toks, spans, self.pos())),
            decreases self.tokens@.len() - self.position,
        {
            let ghost p = self.pos();
            proof {
                unfold_patterns_spec(toks, spans, p);
            }
            let x = match self.parse_pattern() {
                Err(e) => return Err(e),
                Ok(x) => x,
            };
            let ghost q = self.pos();
            proof {
                lemma_patterns_push(patterns@, x);
                lemma_prefixed_push(patterns_view(patterns@), pattern_view(x), patterns_spec(toks, spans, q + 1));
                lemma_prefixed_single(patterns_view(patterns@), pattern_view(x), q);
            }
            patterns.push(x);
            if !self.check(&TokenOf::Comma) {
                return Ok(patterns);
            }
            self.advance();
        }
    }

    /// Parse a match statement (see `match_spec`).
    fn parse_match(&mut self) -> (r: Result<AstNode, ParseError>)
        requires
            old(self).wf(),
        ensures
            advanced(*old(self), *final(self), r is Ok),
            node_outcome(*final(self), r, match_spec(old(self).tokens(), old(self).spans(), old(self).pos())),
        decreases old(self).tokens().len() - old(self).pos(), 0nat,
    {
        let ghost toks = self.tokens();
        proof {
            unfold_match_spec(toks, old(self).spans(), old(self).pos());
        }
        match self.expect(TokenOf::Match) {
            Err(e) => return Err(e),
            Ok(()) => {},
        }
        let value = match self.parse_expression() {
            Err(e) => return Err(e),
            Ok(x) => x,
        };
        let ghost q = self.pos();
        match self.expect(TokenOf::With) {
            Err(e) => return Err(e),
            Ok(()) => {},
        }
        self.skip_newlines();
        proof {
            lemma_skip_nl_bounds(toks, q + 1);
        }
        let arms = match self.parse_arms() {
            Err(e) => return Err(e),
            Ok(a) => a,
        };
        match self.expect(TokenOf::End) {
            Err(e) => return Err(e),
            Ok(()) => {},
        }
        let span = self.current_span();
        Ok(AstNode::MatchStmt { value: Box::new(value), arms, span })
    }

    /// Parse match arms (see `arms_spec`).
    fn parse_arms(&mut self) -> (r: Result<Vec<MatchArm>, ParseError>)
        requires
            old(self).wf(),
        ensures
            advanced(*old(self), *final(self), false),
            list_outcome(*final(self), r, |arms: Seq<MatchArm>| arms_view(arms), arms_spec(old(self).tokens(), old(self).spans(), old(self).pos())),
        decreases old(self).tokens().len() - old(self).pos(), 0nat,
    {
        let ghost toks = self.tokens();
        let ghost spans = self.spans();
        let ghost start = self.pos();
        let mut arms: Vec<MatchArm> = Vec::new();
        proof {
            assert(arms_view(arms@) =~= Seq::<(PatternView, Seq<NodeView>)>::empty());
            lemma_prefixed_empty(arms_spec(toks, spans, start));
        }
        loop
            invariant
                self.wf(),
                self.tokens() == toks,
                self.spans() == spans,
                toks == old(self).tokens(),
                spans == old(self).spans(),
                start <= self.pos(),
                start == old(self).pos(),
                arms_spec(toks, spans, start) == prefixed(arms_view(arms@), arms_spec(toks, spans, self.pos())),
            decreases self.tokens@.len() - self.position,
        {
            let ghost p = self.pos();
            proof {
                unfold_arms_spec(toks, spans, p);
            }
            if self.match_token(TokenOf::When) {
                let pattern = match self.parse_pattern() {
                    Err(e) => return Err(e),
                    Ok(x) => x,
                };
                let ghost q = self.pos();
                match self.expect(TokenOf::Then) {
                    Err(e) => return Err(e),
                    Ok(()) => {},
                }
                self.skip_newlines();
                proof {
                    lemma_skip_nl_bounds(toks, q + 1);
                }
                let body = match self.parse_block(BlockEnd::Arm) {
                    Err(e) => return Err(e),
                    Ok(b) => b,
                };
                let arm = MatchArm { pattern, body };
                proof {
                    lemma_arms_push(arms@, arm);
                    lemma_prefixed_push(arms_view(arms@), (pattern_view(arm.pattern), nodes_view(arm.body@)), arms_spec(toks, spans, self.pos()));
                }
                arms.push(arm);
            } else if self.match_token(TokenOf::Otherwise) {
                match self.expect(TokenOf::Then) {
                    Err(e) => return Err(e),
                    Ok(()) => {},
                }
                self.skip_newlines();
                proof {
                    lemma_skip_nl_bounds(toks, p + 2);
                }
                let body = match self.parse_block(BlockEnd::End) {
                    Err(e) => return Err(e),
                    Ok(b) => b,
                };
                let arm = MatchArm { pattern: Pattern::Wildcard, body };
                proof {
                    lemma_arms_push(arms@, arm);
                    lemma_prefixed_single(arms_view(arms@), (pattern_view(arm.pattern), nodes_view(arm.body@)), self.pos());
                }
                arms.push(arm);
                return Ok(arms);
            } else {
                proof {
                    lemma_prefixed_end(arms_view(arms@), p);
                }
                return Ok(arms);
            }
        }
    }

    /// Parse `attempt ... harmonize on Error then ... end` (see
    /// `attempt_spec`).
    fn parse_attempt(&mut self) -> (r: Result<AstNode, ParseError>)
        requires
            old(self).wf(),
        ensures
            advanced(*old(self), *final(self), r is Ok),
            node_outcome(*final(self), r, attempt_spec(old(self).tokens(), old(self).spans(), old(self).pos())),
        decreases old(self).tokens().len() - old(self).pos(), 0nat,
    {
        let ghost toks = self.tokens();
        let ghost p = self.pos();
        proof {
            unfold_attempt_spec(toks, old(self).spans(), p);
        }
        match self.expect(TokenOf::Attempt) {
            Err(e) => return Err(e),
            Ok(()) => {},
        }
        self.skip_newlines();
        proof {
            lemma_skip_nl_bounds(toks, p + 1);
        }
        let body = match self.parse_block(BlockEnd::Handler) {
            Err(e) => return Err(e),
            Ok(b) => b,
        };
        let handlers = match self.parse_handlers() {
            Err(e) => return Err(e),
            Ok(h) => h,
        };
        match self.expect(TokenOf::End) {
            Err(e) => return Err(e),
            Ok(()) => {},
        }
        let span = self.current_span();
        Ok(AstNode::AttemptStmt { body, handlers, span })
    }

    /// Parse error handlers (see `handlers_spec`).
    fn parse_handlers(&mut self) -> (r: Result<Vec<ErrorHandler>, ParseError>)
        requires
            old(self).wf(),
        ensures
            advanced(*old(self), *final(self), false),
            list_outcome(*final(self), r, |hs: Seq<ErrorHandler>| handlers_view(hs), handlers_spec(old(self).tokens(), old(self).spans(), old(self).pos())),
        decreases old(self).tokens().len() - old(self).pos(), 0nat,
    {
        let ghost toks = self.tokens();
        let ghost spans = self.spans();
        let ghost start = self.pos();
        let mut handlers: Vec<ErrorHandler> = Vec::new();
        proof {
            assert(handlers_view(handlers@) =~= Seq::<(Seq<char>, Seq<NodeView>)>::empty());
            lemma_prefixed_empty(handlers_spec(toks, spans, start));
        }
        loop
            invariant
                self.wf(),
                self.tokens() == toks,
                self.spans() == spans,
                toks == old(self).tokens(),
                spans == old(self).spans(),
                start <= self.pos(),
                start == old(self).pos(),
                handlers_spec(toks, spans, start) == prefixed(handlers_view(handlers@), handlers_spec(toks, spans, self.pos())),
            decreases self.tokens@.len() - self.position,
        {
            let ghost p = self.pos();
            proof {
                unfold_handlers_spec(toks, spans, p);
            }
            if !self.match_token(TokenOf::Harmonize) {
                proof {
                    lemma_prefixed_end(handlers_view(handlers@), p);
                }
                return Ok(handlers);
            }
            match self.expect(TokenOf::On) {
                Err(e) => return Err(e),
                Ok(()) => {},
            }
            let error_type = match self.current() {
                TokenOf::Ident(n) => n.clone(),
                _ => {
                    return Err(
                        ParseError { message: String::from_str("Expected error type after 'on'"), position: self.position },
                    );
                },
            };
            self.advance();
            match self.expect(TokenOf::Then) {
                Err(e) => return Err(e),
                Ok(()) => {},
            }
            self.skip_newlines();
            proof {
                lemma_skip_nl_bounds(toks, p + 4);
            }
            let body = match self.parse_block(BlockEnd::Handler) {
                Err(e) => return Err(e),
                Ok(b) => b,
            };
            let handler = ErrorHandler { error_type, body };
            proof {
                lemma_handlers_push(handlers@, handler);
                lemma_prefixed_push(handlers_view(handlers@), (handler.error_type@, nodes_view(handler.body@)), handlers_spec(toks, spans, self.pos()));
            }
            handlers.push(handler);
        }
    }
}

/// The enum pattern `variant(...)` with its field patterns (see
/// `enum_pattern`): several fields are held as a list literal of
/// placeholders.
fn enum_with_fields(variant: String, fields: Vec<Pattern>) -> (p: Pattern)
    ensures
        pattern_view(p) == enum_pattern(variant@, patterns_view(fields@)),
{
    let ghost views = patterns_view(fields@);
    if fields.len() == 0 {
        return Pattern::Enum { variant, inner: None };
    }
    if fields.len() == 1 {
        let mut fields = fields;
        let only = fields.remove(0);
        return Pattern::Enum { variant, inner: Some(Box::new(only)) };
    }
    let mut elements: Vec<AstNode> = Vec::new();
    let mut i: usize = 0;
    while i < fields.len()
        invariant
            i <= fields.len(),
            views == patterns_view(fields@),
            nodes_view(elements@) =~= placeholders(views.subrange(0, i as int)),
        decreases fields.len() - i,
    {
        let element = match &fields[i] {
            Pattern::Ident(name) => AstNode::Ident { name: name.clone(), span: SourceSpan::unknown() },
            _ => AstNode::Nothing { span: SourceSpan::unknown() },
        };
        proof {
            lemma_nodes_view_push(elements@, element);
            assert(node_view(element) == field_placeholder(views[i as int]));
            assert(placeholders(views.subrange(0, i + 1)) =~= placeholders(views.subrange(0, i as int)).push(
                field_placeholder(views[i as int]),
            ));
        }
        elements.push(element);
        i = i + 1;
    }
    proof {
        assert(views.subrange(0, i as int) =~= views);
    }
    let list = AstNode::List { elements, span: SourceSpan::unknown() };
    proof {
        assert(node_view(list) == NodeView::List { elements: placeholders(views), span: SourceSpan::spec_unknown() });
    }
    let literal = Pattern::Literal(list);
    proof {
        assert(pattern_view(literal) == PatternView::Literal(Box::new(node_view(list))));
    }
    Pattern::Enum { variant, inner: Some(Box::new(literal)) }
}


/// The names exported by the `offer` statements among `body`, in order
/// (see `exports_of`).
fn exports_in(body: &Vec<AstNode>) -> (r: Vec<String>)
    ensures
        names_view(r@) == exports_of(nodes_view(body@)),
{
    let mut out: Vec<String> = Vec::new();
    let mut i: usize = 0;
    proof {
        assert(body@.take(0) =~= Seq::<AstNode>::empty());
        assert(names_view(out@) =~= Seq::<Seq<char>>::empty());
    }
    while i < body.len()
        invariant
            i <= body@.len(),
            names_view(out@) == exports_of(nodes_view(body@.take(i as int))),
        decreases body@.len() - i,
    {
        let ghost before = names_view(out@);
        proof {
            let t = body@.take(i + 1);
            assert(t.drop_last() =~= body@.take(i as int));
            let nv = nodes_view(t);
            assert(nv.drop_last() =~= nodes_view(body@.take(i as int)));
            assert(nv.last() == node_view(body@[i as int]));
        }
        match &body[i] {
            AstNode::Export { items, .. } => {
                let mut j: usize = 0;
                while j < items.len()
                    invariant
                        j <= items@.len(),
                        names_view(out@) == before + names_view(items@.take(j as int)),
                    decreases items@.len() - j,
                {
                    let ghost prev = out@;
                    out.push(items[j].clone());
                    proof {
                        assert(names_view(out@) =~= names_view(prev).push(items@[j as int]@));
                        assert(names_view(items@.take(j + 1)) =~= names_view(items@.take(j as int)).push(items@[j as int]@));
                        assert(before + names_view(items@.take(j + 1)) =~= (before + names_view(items@.take(j as int))).push(items@[j as int]@));
                    }
                    j += 1;
                }
                assert(items@.take(j as int) =~= items@);
            },
            _ => {},
        }
        i += 1;
    }
    assert(body@.take(i as int) =~= body@);
    out
}

/// The view of an optional list of names.
pub open spec fn opt_names_view(v: Option<Vec<String>>) -> Option<Seq<Seq<char>>> {
    match v {
        Some(ns) => Some(names_view(ns@)),
        None => None,
    }
}

/// The view of an optional name.
pub open spec fn opt_name_view(v: Option<String>) -> Option<Seq<char>> {
    match v {
        Some(n) => Some(n@),
        None => None,
    }
}

impl Parser {
    /// Parse names separated by commas (see `name_list_spec`).
    fn parse_name_list(&mut self, missing: &str) -> (r: Result<Vec<String>, ParseError>)
        requires
            old(self).wf(),
        ensures
            advanced(*old(self), *final(self), false),
            list_outcome(*final(self), r, |ns: Seq<String>| names_view(ns), name_list_spec(old(self).tokens(), old(self).pos(), missing@)),
    {
        let ghost toks = self.tokens();
        let ghost start = self.pos();
        let mut names: Vec<String> = Vec::new();
        proof {
            assert(names_view(names@) =~= Seq::<Seq<char>>::empty());
            lemma_prefixed_empty(name_list_spec(toks, start, missing@));
        }
        loop
            invariant
                self.wf(),
                self.tokens() == toks,
                self.spans() == old(self).spans(),
                toks == old(self).tokens(),
                start <= self.pos(),
                start == old(self).pos(),
                name_list_spec(toks, start, missing@) == prefixed(names_view(names@), name_list_spec(toks, self.pos(), missing@)),
            decreases self.tokens@.len() - self.position,
        {
            let ghost p = self.pos();
            proof {
                unfold_name_list_spec(toks, p, missing@);
            }
            let name = match self.current() {
                TokenOf::Ident(n) => n.clone(),
                _ => {
                    return Err(ParseError { message: String::from_str(missing), position: self.position });
                },
            };
            self.advance();
            proof {
                lemma_names_push(names@, name);
                lemma_prefixed_push(names_view(names@), name@, name_list_spec(toks, p + 2, missing@));
                lemma_prefixed_single(names_view(names@), name@, p + 1);
            }
            names.push(name);
            if !self.check(&TokenOf::Comma) {
                return Ok(names);
            }
            self.advance();
        }
    }

    /// Parse `offer a, b` (see `export_spec`).
    fn parse_export(&mut self) -> (r: Result<AstNode, ParseError>)
        requires
            old(self).wf(),
        ensures
            advanced(*old(self), *final(self), r is Ok),
            node_outcome(*final(self), r, export_spec(old(self).tokens(), old(self).spans(), old(self).pos())),
    {
        proof {
            unfold_export_spec(old(self).tokens(), old(self).spans(), old(self).pos());
        }
        match self.expect(TokenOf::Offer) {
            Err(e) => return Err(e),
            Ok(()) => {},
        }
        let items = match self.parse_name_list("Expected identifier in export list") {
            Err(e) => return Err(e),
            Ok(x) => x,
        };
        let span = self.current_span();
        Ok(AstNode::Export { items, span })
    }

    /// Parse `grove Name with ... end` (see `module_spec`).
    fn parse_module_decl(&mut self) -> (r: Result<AstNode, ParseError>)
        requires
            old(self).wf(),
        ensures
            advanced(*old(self), *final(self), r is Ok),
            node_outcome(*final(self), r, module_spec(old(self).tokens(), old(self).spans(), old(self).pos())),
        decreases old(self).tokens().len() - old(self).pos(), 0nat,
    {
        let ghost toks = self.tokens();
        let ghost p = self.pos();
        proof {
            unfold_module_spec(toks, old(self).spans(), p);
        }
        match self.expect(TokenOf::Grove) {
            Err(e) => return Err(e),
            Ok(()) => {},
        }
        let name = match self.current() {
            TokenOf::Ident(n) => n.clone(),
            _ => {
                return Err(
                    ParseError { message: String::from_str("Expected module name after 'grove'"), position: self.position },
                );
            },
        };
        self.advance();
        match self.expect(TokenOf::With) {
            Err(e) => return Err(e),
            Ok(()) => {},
        }
        self.skip_newlines();
        proof {
            lemma_skip_nl_bounds(toks, p + 3);
        }
        let body = match self.parse_block(BlockEnd::End) {
            Err(e) => return Err(e),
            Ok(b) => b,
        };
        match self.expect(TokenOf::End) {
            Err(e) => return Err(e),
            Ok(()) => {},
        }
        let exports = exports_in(&body);
        let span = self.current_span();
        Ok(AstNode::ModuleDecl { name, body, exports, span })
    }

    /// Parse `summon [Name] from ...` or `gather a, b from ...` (see
    /// `import_spec`).
    fn parse_import(&mut self) -> (r: Result<AstNode, ParseError>)
        requires
            old(self).wf(),
        ensures
            advanced(*old(self), *final(self), r is Ok),
            node_outcome(*final(self), r, import_spec(old(self).tokens(), old(self).spans(), old(self).pos())),
    {
        proof {
            unfold_import_spec(old(self).tokens(), old(self).spans(), old(self).pos());
        }
        if self.check(&TokenOf::Gather) {
            self.advance();
            let items = match self.parse_name_list("Expected identifier in gather list") {
                Err(e) => return Err(e),
                Ok(x) => x,
            };
            return self.parse_import_from(None, Some(items));
        }
        match self.expect(TokenOf::Summon) {
            Err(e) => return Err(e),
            Ok(()) => {},
        }
        if self.check(&TokenOf::From) {
            return self.parse_import_from(None, None);
        }
        let hint = match self.current() {
            TokenOf::Ident(n) => n.clone(),
            _ => {
                return Err(
                    ParseError {
                        message: String::from_str("Expected module name or 'from' after 'summon'"),
                        position: self.position,
                    },
                );
            },
        };
        self.advance();
        self.parse_import_from(Some(hint), None)
    }

    /// Parse the `from ...` part of an import and its optional alias (see
    /// `from_spec`).
    fn parse_import_from(&mut self, hint: Option<String>, items: Option<Vec<String>>) -> (r: Result<AstNode, ParseError>)
        requires
            old(self).wf(),
        ensures
            advanced(*old(self), *final(self), r is Ok),
            node_outcome(
                *final(self),
                r,
                from_spec(old(self).tokens(), old(self).spans(), opt_name_view(hint), opt_names_view(items), old(self).pos()),
            ),
    {
        let ghost toks = self.tokens();
        let ghost q = self.pos();
        match self.expect(TokenOf::From) {
            Err(e) => return Err(e),
            Ok(()) => {},
        }
        let (module_name, path) = match self.current() {
            TokenOf::Text(p) => {
                let path = p.clone();
                let m = match hint {
                    Some(h) => h,
                    None => ModuleResolver::module_name_from_path(path.as_str()),
                };
                (m, path)
            },
            TokenOf::Ident(n) => {
                let mut path = n.clone();
                push_str(&mut path, ".gw");
                let m = match hint {
                    Some(h) => h,
                    None => n.clone(),
                };
                (m, path)
            },
            _ => {
                return Err(
                    ParseError {
                        message: String::from_str("Expected module path (string) or name (identifier) after 'from'"),
                        position: self.position,
                    },
                );
            },
        };
        self.advance();
        let alias = if self.check(&TokenOf::As) {
            self.advance();
            match self.current() {
                TokenOf::Ident(a) => {
                    let a = a.clone();
                    self.advance();
                    Some(a)
                },
                _ => {
                    return Err(
                        ParseError { message: String::from_str("Expected identifier after 'as'"), position: self.position },
                    );
                },
            }
        } else {
            None
        };
        let span = self.current_span();
        Ok(AstNode::Import { module_name, path, items, alias, span })
    }
}


impl Parser {
    /// Parse `embody Aspect[<Types>] for Type then ... end` (see
    /// `embody_spec`).
    fn parse_embody_stmt(&mut self) -> (r: Result<AstNode, ParseError>)
        requires
            old(self).wf(),
        ensures
            advanced(*old(self), *final(self), r is Ok),
            node_outcome(*final(self), r, embody_spec(old(self).tokens(), old(self).spans(), old(self).pos())),
        decreases old(self).tokens().len() - old(self).pos(), 0nat,
    {
        let ghost toks = self.tokens();
        let ghost p = self.pos();
        proof {
            unfold_embody_spec(toks, old(self).spans(), p);
        }
        match self.expect(TokenOf::Embody) {
            Err(e) => return Err(e),
            Ok(()) => {},
        }
        let aspect_name = match self.current() {
            TokenOf::Ident(n) => n.clone(),
            _ => {
                return Err(
                    ParseError { message: String::from_str("Expected aspect name after 'embody'"), position: self.position },
                );
            },
        };
        self.advance();
        let type_args = if self.check(&TokenOf::LeftAngle) {
            self.advance();
            let ts = match self.parse_type_args() {
                Err(e) => return Err(e),
                Ok(x) => x,
            };
            match self.expect(TokenOf::RightAngle) {
                Err(e) => return Err(e),
                Ok(()) => {},
            }
            ts
        } else {
            let ts: Vec<TypeAnnotation> = Vec::new();
            assert(types_view(ts@) =~= Seq::<TypeView>::empty());
            ts
        };
        match self.expect(TokenOf::For) {
            Err(e) => return Err(e),
            Ok(()) => {},
        }
        let target_type = match self.parse_type_annotation() {
            Err(e) => return Err(e),
            Ok(t) => t,
        };
        match self.expect(TokenOf::Then) {
            Err(e) => return Err(e),
            Ok(()) => {},
        }
        let ghost r = self.pos();
        self.skip_newlines();
        proof {
            lemma_skip_nl_bounds(toks, r);
        }
        let methods = match self.parse_methods() {
            Err(e) => return Err(e),
            Ok(m) => m,
        };
        match self.expect(TokenOf::End) {
            Err(e) => return Err(e),
            Ok(()) => {},
        }
        let span = self.current_span();
        Ok(AstNode::EmbodyStmt { aspect_name, type_args, target_type, methods, span })
    }

    /// Parse `chant` definitions up to `end` or the end of input (see
    /// `methods_spec`).
    fn parse_methods(&mut self) -> (r: Result<Vec<AstNode>, ParseError>)
        requires
            old(self).wf(),
        ensures
            advanced(*old(self), *final(self), false),
            nodes_outcome(*final(self), r, methods_spec(old(self).tokens(), old(self).spans(), old(self).pos())),
        decreases old(self).tokens().len() - old(self).pos(), 1nat,
    {
        let ghost toks = self.tokens();
        let ghost spans = self.spans();
        let ghost start = self.pos();
        let mut methods: Vec<AstNode> = Vec::new();
        proof {
            assert(nodes_view(methods@) =~= Seq::<NodeView>::empty());
            lemma_prefixed_empty(methods_spec(toks, spans, start));
        }
        loop
            invariant
                self.wf(),
                self.tokens() == toks,
                self.spans() == spans,
                toks == old(self).tokens(),
                spans == old(self).spans(),
                start <= self.pos(),
                start == old(self).pos(),
                methods_spec(toks, spans, start) == prefixed(nodes_view(methods@), methods_spec(toks, spans, self.pos())),
            decreases self.tokens@.len() - self.position,
        {
            let ghost p = self.pos();
            proof {
                unfold_methods_spec(toks, spans, p);
            }
            if block_ends(BlockEnd::End, self.current()) {
                proof {
                    lemma_prefixed_end(nodes_view(methods@), p);
                }
                return Ok(methods);
            }
            let m = match self.parse_chant_def() {
                Err(e) => return Err(e),
                Ok(x) => x,
            };
            let ghost q = self.pos();
            self.skip_newlines();
            proof {
                lemma_skip_nl_bounds(toks, q);
                lemma_nodes_view_push(methods@, m);
                lemma_prefixed_push(nodes_view(methods@), node_view(m), methods_spec(toks, spans, self.pos()));
            }
            methods.push(m);
        }
    }
}


/// The values of trait method signatures after one more.
proof fn lemma_methods_push(ms: Seq<TraitMethod>, m: TraitMethod)
    ensures
        methods_view(ms.push(m)) == methods_view(ms).push((m.name@, params_view(m.params@), opt_type_view(m.return_type))),
{
    assert(methods_view(ms.push(m)) =~= methods_view(ms).push((m.name@, params_view(m.params@), opt_type_view(m.return_type))));
}

impl Parser {
    /// Parse the parameters after `self` in a method signature (see
    /// `sig_params_spec`).
    fn parse_sig_params(&mut self) -> (r: Result<Vec<Parameter>, ParseError>)
        requires
            old(self).wf(),
        ensures
            advanced(*old(self), *final(self), false),
            list_outcome(*final(self), r, |ps: Seq<Parameter>| params_view(ps), sig_params_spec(old(self).tokens(), old(self).pos())),
    {
        let ghost toks = self.tokens();
        let ghost start = self.pos();
        let mut params: Vec<Parameter> = Vec::new();
        proof {
            assert(params_view(params@) =~= Seq::<ParamView>::empty());
            lemma_prefixed_empty(sig_params_spec(toks, start));
        }
        loop
            invariant
                self.wf(),
                self.tokens() == toks,
                self.spans() == old(self).spans(),
                toks == old(self).tokens(),
                start <= self.pos(),
                start == old(self).pos(),
                sig_params_spec(toks, start) == prefixed(params_view(params@), sig_params_spec(toks, self.pos())),
            decreases self.tokens@.len() - self.position,
        {
            let ghost p = self.pos();
            proof {
                unfold_sig_params_spec(toks, p);
            }
            if !self.check(&TokenOf::Comma) {
                proof {
                    lemma_prefixed_end(params_view(params@), p);
                }
                return Ok(params);
            }
            self.advance();
            if self.check(&TokenOf::RightParen) {
                proof {
                    lemma_prefixed_end(params_view(params@), p + 1);
                }
                return Ok(params);
            }
            let name = match self.current() {
                TokenOf::Ident(n) => n.clone(),
                _ => {
                    return Err(ParseError { message: String::from_str("Expected parameter name"), position: self.position });
                },
            };
            self.advance();
            let typ = if self.check(&TokenOf::Colon) {
                self.advance();
                match self.parse_type_annotation() {
                    Err(e) => return Err(e),
                    Ok(t) => Some(t),
                }
            } else {
                None
            };
            let prm = Parameter { name, typ, is_variadic: false, borrow_mode: BorrowMode::Owned, lifetime: None };
            proof {
                lemma_params_push(params@, prm);
                lemma_prefixed_push(params_view(params@), param_view(prm), sig_params_spec(toks, self.pos()));
            }
            params.push(prm);
        }
    }

    /// Parse a method signature `chant name(self, ...) [-> Type]` (see
    /// `sig_spec`).
    fn parse_signature(&mut self) -> (r: Result<TraitMethod, ParseError>)
        requires
            old(self).wf(),
        ensures
            advanced(*old(self), *final(self), r is Ok),
            match r {
                Ok(m) => sig_spec(old(self).tokens(), old(self).pos()) == Ok::<
                    ((Seq<char>, Seq<ParamView>, Option<TypeView>), int),
                    (Seq<char>, int),
                >(((m.name@, params_view(m.params@), opt_type_view(m.return_type)), final(self).pos())),
                Err(e) => sig_spec(old(self).tokens(), old(self).pos()) == Err::<
                    ((Seq<char>, Seq<ParamView>, Option<TypeView>), int),
                    (Seq<char>, int),
                >((e.message@, e.position as int)),
            },
    {
        proof {
            unfold_sig_spec(old(self).tokens(), old(self).pos());
        }
        match self.expect(TokenOf::Chant) {
            Err(e) => return Err(e),
            Ok(()) => {},
        }
        let name = match self.current() {
            TokenOf::Ident(n) => n.clone(),
            _ => {
                return Err(
                    ParseError { message: String::from_str("Expected method name in aspect"), position: self.position },
                );
            },
        };
        self.advance();
        match self.expect(TokenOf::LeftParen) {
            Err(e) => return Err(e),
            Ok(()) => {},
        }
        let is_self = match self.current() {
            TokenOf::Ident(n) => text_eq(n, "self"),
            _ => false,
        };
        if !is_self {
            return Err(
                ParseError {
                    message: String::from_str("Trait methods must have 'self' as first parameter"),
                    position: self.position,
                },
            );
        }
        self.advance();
        let mut params: Vec<Parameter> = Vec::new();
        params.push(
            Parameter {
                name: String::from_str("self"),
                typ: None,
                is_variadic: false,
                borrow_mode: BorrowMode::Owned,
                lifetime: None,
            },
        );
        let mut rest = match self.parse_sig_params() {
            Err(e) => return Err(e),
            Ok(x) => x,
        };
        let ghost first = params@;
        let ghost others = rest@;
        params.append(&mut rest);
        proof {
            assert(params_view(first) =~= seq![self_param()]);
            assert(params_view(params@) =~= params_view(first) + params_view(others));
        }
        match self.expect(TokenOf::RightParen) {
            Err(e) => return Err(e),
            Ok(()) => {},
        }
        let return_type = if self.check(&TokenOf::Arrow) {
            self.advance();
            match self.parse_type_annotation() {
                Err(e) => return Err(e),
                Ok(t) => Some(t),
            }
        } else {
            None
        };
        Ok(TraitMethod { name, params, return_type })
    }

    /// Parse method signatures up to `end` or the end of input (see
    /// `sigs_spec`).
    fn parse_signatures(&mut self) -> (r: Result<Vec<TraitMethod>, ParseError>)
        requires
            old(self).wf(),
        ensures
            advanced(*old(self), *final(self), false),
            list_outcome(*final(self), r, |ms: Seq<TraitMethod>| methods_view(ms), sigs_spec(old(self).tokens(), old(self).pos())),
    {
        let ghost toks = self.tokens();
        let ghost start = self.pos();
        let mut methods: Vec<TraitMethod> = Vec::new();
        proof {
            assert(methods_view(methods@) =~= Seq::<(Seq<char>, Seq<ParamView>, Option<TypeView>)>::empty());
            lemma_prefixed_empty(sigs_spec(toks, start));
        }
        loop
            invariant
                self.wf(),
                self.tokens() == toks,
                self.spans() == old(self).spans(),
                toks == old(self).tokens(),
                start <= self.pos(),
                start == old(self).pos(),
                sigs_spec(toks, start) == prefixed(methods_view(methods@), sigs_spec(toks, self.pos())),
            decreases self.tokens@.len() - self.position,
        {
            let ghost p = self.pos();
            proof {
                unfold_sigs_spec(toks, p);
            }
            if block_ends(BlockEnd::End, self.current()) {
                proof {
                    lemma_prefixed_end(methods_view(methods@), p);
                }
                return Ok(methods);
            }
            let m = match self.parse_signature() {
                Err(e) => return Err(e),
                Ok(x) => x,
            };
            let ghost q = self.pos();
            self.skip_newlines();
            proof {
                lemma_skip_nl_bounds(toks, q);
                lemma_methods_push(methods@, m);
                lemma_prefixed_push(
                    methods_view(methods@),
                    (m.name@, params_view(m.params@), opt_type_view(m.return_type)),
                    sigs_spec(toks, self.pos()),
                );
            }
            methods.push(m);
        }
    }

    /// Parse `aspect Name[<T, U>] then ... end` (see `aspect_spec`).
    fn parse_aspect_def(&mut self) -> (r: Result<AstNode, ParseError>)
        requires
            old(self).wf(),
        ensures
            advanced(*old(self), *final(self), r is Ok),
            node_outcome(*final(self), r, aspect_spec(old(self).tokens(), old(self).spans(), old(self).pos())),
    {
        let ghost toks = self.tokens();
        proof {
            unfold_aspect_spec(toks, old(self).spans(), old(self).pos());
        }
        match self.expect(TokenOf::Aspect) {
            Err(e) => return Err(e),
            Ok(()) => {},
        }
        let name = match self.current() {
            TokenOf::Ident(n) => n.clone(),
            _ => {
                return Err(
                    ParseError { message: String::from_str("Expected identifier after 'aspect'"), position: self.position },
                );
            },
        };
        self.advance();
        let type_params = match self.parse_generics() {
            Err(e) => return Err(e),
            Ok(t) => t,
        };
        match self.expect(TokenOf::Then) {
            Err(e) => return Err(e),
            Ok(()) => {},
        }
        let ghost q = self.pos();
        self.skip_newlines();
        proof {
            lemma_skip_nl_bounds(toks, q);
        }
        let methods = match self.parse_signatures() {
            Err(e) => return Err(e),
            Ok(m) => m,
        };
        match self.expect(TokenOf::End) {
            Err(e) => return Err(e),
            Ok(()) => {},
        }
        let span = self.current_span();
        Ok(AstNode::AspectDef { name, type_params, methods, span })
    }
}

} // verus!
