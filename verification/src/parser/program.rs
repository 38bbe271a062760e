//! The statement grammar: what parsing a statement, a block or a whole
//! program at a position gives, as spec functions over the tokens and
//! their spans.
//!
//! A program is a sequence of statements separated by newlines. Blocks run
//! up to a closing keyword (`end`, `otherwise`, `when`, `harmonize`) or the
//! end of input; the keyword itself is left to the enclosing statement.

use vstd::prelude::*;
use crate::ast::BorrowMode;
use crate::source_location::SourceSpan;
use crate::token::{Span, TokenOf, TokenView};
use crate::module_resolver::module_name;
use super::{skip_nl, span_at, token_at, type_args_spec, type_spec, Parsed, TypeView};
use super::grammar::{expect_err, expr_spec, fwd, postfix_spec, request_spec, NodeView, ParamView, PatternView};

verus! {

/// Which tokens close a block: the end of input always does.
#[derive(Clone, Copy, PartialEq, Eq, Structural)]
pub enum BlockEnd {
    /// Only the end of input (a whole program).
    Eof,
    /// `end`.
    End,
    /// `otherwise` or `end` (the first branch of `should`).
    Otherwise,
    /// `when`, `otherwise` or `end` (a match arm).
    Arm,
    /// `harmonize` or `end` (an `attempt` body or handler).
    Handler,
}

/// Whether `t` closes a block of kind `stop`.
pub open spec fn ends_block(stop: BlockEnd, t: TokenView) -> bool {
    match stop {
        BlockEnd::Eof => t is Eof,
        BlockEnd::End => t is End || t is Eof,
        BlockEnd::Otherwise => t is Otherwise || t is End || t is Eof,
        BlockEnd::Arm => t is When || t is Otherwise || t is End || t is Eof,
        BlockEnd::Handler => t is Harmonize || t is End || t is Eof,
    }
}

/// The placeholder node that stands for one field of a multi-field enum
/// pattern: its name where the field is a name, `nothing` otherwise.
pub open spec fn field_placeholder(p: PatternView) -> NodeView {
    match p {
        PatternView::Ident(name) => NodeView::Ident { name, span: SourceSpan::spec_unknown() },
        _ => NodeView::Nothing { span: SourceSpan::spec_unknown() },
    }
}

/// The placeholders of the fields of a multi-field enum pattern.
pub open spec fn placeholders(fields: Seq<PatternView>) -> Seq<NodeView> {
    fields.map_values(|f: PatternView| field_placeholder(f))
}

/// The pattern `variant(p1, p2, ...)` with its field patterns.
pub open spec fn enum_pattern(variant: Seq<char>, fields: Seq<PatternView>) -> PatternView {
    if fields.len() == 0 {
        PatternView::Enum { variant, inner: None }
    } else if fields.len() == 1 {
        PatternView::Enum { variant, inner: Some(Box::new(fields[0])) }
    } else {
        PatternView::Enum {
            variant,
            inner: Some(Box::new(PatternView::Literal(Box::new(NodeView::List {
                elements: placeholders(fields),
                span: SourceSpan::spec_unknown(),
            })))),
        }
    }
}

/// A whole program: statements up to the end of input, newlines skipped
/// before and after each.
pub closed spec fn program_spec(toks: Seq<TokenView>, spans: Seq<Span>, pos: int) -> Parsed<Seq<NodeView>> {
    block_spec(toks, spans, BlockEnd::Eof, skip_nl(toks, pos))
}

/// Statements from `pos` up to a token that closes the block (which is
/// not taken), with the newlines after each statement skipped.
pub closed spec fn block_spec(toks: Seq<TokenView>, spans: Seq<Span>, stop: BlockEnd, pos: int) -> Parsed<Seq<NodeView>>
    decreases toks.len() - pos, 2nat,
{
    if ends_block(stop, token_at(toks, pos)) || !(pos <= toks.len()) {
        Ok((Seq::empty(), pos))
    } else {
        match statement_spec(toks, spans, pos) {
            Err(e) => Err(e),
            Ok((s, q)) => if pos < q && fwd(toks, pos, skip_nl(toks, q)) {
                match block_spec(toks, spans, stop, skip_nl(toks, q)) {
                    Err(e) => Err(e),
                    Ok((rest, r)) => Ok((seq![s] + rest, r)),
                }
            } else {
                Ok((seq![s], q))
            },
        }
    }
}

/// One statement, after any newlines: chosen by its first keyword, else
/// an expression statement whose span is that of the token after it.
pub closed spec fn statement_spec(toks: Seq<TokenView>, spans: Seq<Span>, pos: int) -> Parsed<NodeView>
    decreases toks.len() - pos, 1nat,
{
    let p = skip_nl(toks, pos);
    if !(pos <= p <= toks.len()) {
        Ok((NodeView::Other, p))
    } else {
        match token_at(toks, p) {
            TokenOf::Bind => binding_spec(toks, spans, true, p),
            TokenOf::Weave => binding_spec(toks, spans, false, p),
            TokenOf::SetKeyword => set_spec(toks, spans, p),
            TokenOf::Should => if_spec(toks, spans, p),
            TokenOf::For => for_spec(toks, spans, p),
            TokenOf::Whilst => while_spec(toks, spans, p),
            TokenOf::Chant => chant_spec(toks, spans, p),
            TokenOf::Form => form_spec(toks, spans, p),
            TokenOf::Variant => variant_spec(toks, spans, p),
            TokenOf::Yield => yield_spec(toks, spans, p),
            TokenOf::Break => Ok((NodeView::Break { span: span_at(spans, p) }, p + 1)),
            TokenOf::Continue => Ok((NodeView::Continue { span: span_at(spans, p) }, p + 1)),
            TokenOf::Match => match_spec(toks, spans, p),
            TokenOf::Attempt => attempt_spec(toks, spans, p),
            TokenOf::Request => request_spec(toks, spans, p),
            TokenOf::Grove => module_spec(toks, spans, p),
            TokenOf::Summon => import_spec(toks, spans, p),
            TokenOf::Gather => import_spec(toks, spans, p),
            TokenOf::Offer => export_spec(toks, spans, p),
            TokenOf::Embody => embody_spec(toks, spans, p),
            TokenOf::Aspect => aspect_spec(toks, spans, p),
            _ => match expr_spec(toks, spans, p) {
                Err(e) => Err(e),
                Ok((e, q)) => Ok((NodeView::ExprStmt { expr: Box::new(e), span: span_at(spans, q) }, q)),
            },
        }
    }
}

/// `bind name [: Type] to value` (when `bind`) or
/// `weave name [: Type] as value`, with the span of the keyword.
pub closed spec fn binding_spec(toks: Seq<TokenView>, spans: Seq<Span>, bind: bool, p: int) -> Parsed<NodeView> {
    let keyword: TokenView = if bind { TokenOf::Bind } else { TokenOf::Weave };
    let separator: TokenView = if bind { TokenOf::To } else { TokenOf::As };
    if token_at(toks, p) != keyword {
        expect_err(toks, keyword, p)
    } else {
        match token_at(toks, p + 1) {
            TokenOf::Ident(name) => {
                let annotated: Parsed<Option<TypeView>> = if token_at(toks, p + 2) is Colon {
                    match type_spec(toks, p + 3) {
                        Err(e) => Err(e),
                        Ok((t, q)) => Ok((Some(t), q)),
                    }
                } else {
                    Ok((None, p + 2))
                };
                match annotated {
                    Err(e) => Err(e),
                    Ok((typ, q)) => if token_at(toks, q) != separator {
                        expect_err(toks, separator, q)
                    } else {
                        match expr_spec(toks, spans, q + 1) {
                            Err(e) => Err(e),
                            Ok((v, r)) => if bind {
                                Ok((NodeView::BindStmt { name, typ, value: Box::new(v), span: span_at(spans, p) }, r))
                            } else {
                                Ok((NodeView::WeaveStmt { name, typ, value: Box::new(v), span: span_at(spans, p) }, r))
                            },
                        }
                    },
                }
            },
            _ => if bind {
                Err(("Expected identifier after 'bind'"@, p + 1))
            } else {
                Err(("Expected identifier after 'weave'"@, p + 1))
            },
        }
    }
}

/// `set target to value`, the target a postfix expression.
pub closed spec fn set_spec(toks: Seq<TokenView>, spans: Seq<Span>, p: int) -> Parsed<NodeView> {
    if !(token_at(toks, p) is SetKeyword) {
        expect_err(toks, TokenOf::SetKeyword, p)
    } else {
        match postfix_spec(toks, spans, p + 1) {
            Err(e) => Err(e),
            Ok((target, q)) => if !(token_at(toks, q) is To) {
                expect_err(toks, TokenOf::To, q)
            } else {
                match expr_spec(toks, spans, q + 1) {
                    Err(e) => Err(e),
                    Ok((v, r)) => Ok((
                        NodeView::SetStmt { target: Box::new(target), value: Box::new(v), span: span_at(spans, p) },
                        r,
                    )),
                }
            },
        }
    }
}

/// `yield value`.
pub closed spec fn yield_spec(toks: Seq<TokenView>, spans: Seq<Span>, p: int) -> Parsed<NodeView> {
    if !(token_at(toks, p) is Yield) {
        expect_err(toks, TokenOf::Yield, p)
    } else {
        match expr_spec(toks, spans, p + 1) {
            Err(e) => Err(e),
            Ok((v, r)) => Ok((NodeView::YieldStmt { value: Box::new(v), span: span_at(spans, p) }, r)),
        }
    }
}

/// `should condition then ... [otherwise ...] end`.
pub closed spec fn if_spec(toks: Seq<TokenView>, spans: Seq<Span>, p: int) -> Parsed<NodeView>
    decreases toks.len() - p, 0nat,
{
    if !(token_at(toks, p) is Should) {
        expect_err(toks, TokenOf::Should, p)
    } else {
        match expr_spec(toks, spans, p + 1) {
            Err(e) => Err(e),
            Ok((c, q)) => if !(token_at(toks, q) is Then) {
                expect_err(toks, TokenOf::Then, q)
            } else if !fwd(toks, p, skip_nl(toks, q + 1)) {
                Ok((NodeView::Other, q))
            } else {
                match block_spec(toks, spans, BlockEnd::Otherwise, skip_nl(toks, q + 1)) {
                    Err(e) => Err(e),
                    Ok((then_branch, r)) => if token_at(toks, r) is Otherwise {
                        if !fwd(toks, p, skip_nl(toks, r + 1)) {
                            Ok((NodeView::Other, r))
                        } else {
                            match block_spec(toks, spans, BlockEnd::End, skip_nl(toks, r + 1)) {
                                Err(e) => Err(e),
                                Ok((else_branch, r2)) => if token_at(toks, r2) is End {
                                    Ok((
                                        NodeView::IfStmt {
                                            condition: Box::new(c),
                                            then_branch,
                                            else_branch: Some(else_branch),
                                            span: span_at(spans, p),
                                        },
                                        r2 + 1,
                                    ))
                                } else {
                                    expect_err(toks, TokenOf::End, r2)
                                },
                            }
                        }
                    } else if token_at(toks, r) is End {
                        Ok((
                            NodeView::IfStmt {
                                condition: Box::new(c),
                                then_branch,
                                else_branch: None,
                                span: span_at(spans, p),
                            },
                            r + 1,
                        ))
                    } else {
                        expect_err(toks, TokenOf::End, r)
                    },
                }
            },
        }
    }
}

/// `for each name in iterable then ... end`.
pub closed spec fn for_spec(toks: Seq<TokenView>, spans: Seq<Span>, p: int) -> Parsed<NodeView>
    decreases toks.len() - p, 0nat,
{
    if !(token_at(toks, p) is For) {
        expect_err(toks, TokenOf::For, p)
    } else if !(token_at(toks, p + 1) is Each) {
        expect_err(toks, TokenOf::Each, p + 1)
    } else {
        match token_at(toks, p + 2) {
            TokenOf::Ident(variable) => if !(token_at(toks, p + 3) is In) {
                expect_err(toks, TokenOf::In, p + 3)
            } else {
                match expr_spec(toks, spans, p + 4) {
                    Err(e) => Err(e),
                    Ok((iterable, q)) => if !(token_at(toks, q) is Then) {
                        expect_err(toks, TokenOf::Then, q)
                    } else if !fwd(toks, p, skip_nl(toks, q + 1)) {
                        Ok((NodeView::Other, q))
                    } else {
                        match block_spec(toks, spans, BlockEnd::End, skip_nl(toks, q + 1)) {
                            Err(e) => Err(e),
                            Ok((body, r)) => if token_at(toks, r) is End {
                                Ok((
                                    NodeView::ForStmt {
                                        variable,
                                        iterable: Box::new(iterable),
                                        body,
                                        span: span_at(spans, p),
                                    },
                                    r + 1,
                                ))
                            } else {
                                expect_err(toks, TokenOf::End, r)
                            },
                        }
                    },
                }
            },
            _ => Err(("Expected identifier after 'for each'"@, p + 2)),
        }
    }
}

/// `whilst condition then ... end`.
pub closed spec fn while_spec(toks: Seq<TokenView>, spans: Seq<Span>, p: int) -> Parsed<NodeView>
    decreases toks.len() - p, 0nat,
{
    if !(token_at(toks, p) is Whilst) {
        expect_err(toks, TokenOf::Whilst, p)
    } else {
        match expr_spec(toks, spans, p + 1) {
            Err(e) => Err(e),
            Ok((c, q)) => if !(token_at(toks, q) is Then) {
                expect_err(toks, TokenOf::Then, q)
            } else if !fwd(toks, p, skip_nl(toks, q + 1)) {
                Ok((NodeView::Other, q))
            } else {
                match block_spec(toks, spans, BlockEnd::End, skip_nl(toks, q + 1)) {
                    Err(e) => Err(e),
                    Ok((body, r)) => if token_at(toks, r) is End {
                        Ok((NodeView::WhileStmt { condition: Box::new(c), body, span: span_at(spans, p) }, r + 1))
                    } else {
                        expect_err(toks, TokenOf::End, r)
                    },
                }
            },
        }
    }
}

/// Optional type parameters `<T, U>`; none where no `<` follows.
pub closed spec fn generics_spec(toks: Seq<TokenView>, pos: int) -> Parsed<Seq<Seq<char>>> {
    if token_at(toks, pos) is LeftAngle {
        match type_params_spec(toks, pos + 1) {
            Err(e) => Err(e),
            Ok((names, q)) => if token_at(toks, q) is RightAngle {
                Ok((names, q + 1))
            } else {
                expect_err(toks, TokenOf::RightAngle, q)
            },
        }
    } else {
        Ok((Seq::empty(), pos))
    }
}

/// Type parameter names separated by commas.
pub closed spec fn type_params_spec(toks: Seq<TokenView>, pos: int) -> Parsed<Seq<Seq<char>>>
    decreases toks.len() - pos,
{
    match token_at(toks, pos) {
        TokenOf::Ident(name) => if token_at(toks, pos + 1) is Comma && pos + 2 <= toks.len() {
            match type_params_spec(toks, pos + 2) {
                Err(e) => Err(e),
                Ok((rest, q)) => Ok((seq![name] + rest, q)),
            }
        } else {
            Ok((seq![name], pos + 1))
        },
        _ => Err(("Expected type parameter name"@, pos)),
    }
}

/// Parameters `name [as Type]` separated by commas, newlines allowed after
/// each comma.
pub closed spec fn params_spec(toks: Seq<TokenView>, pos: int) -> Parsed<Seq<ParamView>>
    decreases toks.len() - pos,
{
    match token_at(toks, pos) {
        TokenOf::Ident(name) => {
            let annotated: Parsed<Option<TypeView>> = if token_at(toks, pos + 1) is As {
                match type_spec(toks, pos + 2) {
                    Err(e) => Err(e),
                    Ok((t, q)) => Ok((Some(t), q)),
                }
            } else {
                Ok((None, pos + 1))
            };
            match annotated {
                Err(e) => Err(e),
                Ok((typ, q)) => {
                    let param = ParamView { name, typ, is_variadic: false, borrow_mode: BorrowMode::Owned, lifetime: None };
                    if token_at(toks, q) is Comma && fwd(toks, pos, skip_nl(toks, q + 1)) {
                        match params_spec(toks, skip_nl(toks, q + 1)) {
                            Err(e) => Err(e),
                            Ok((rest, r)) => Ok((seq![param] + rest, r)),
                        }
                    } else {
                        Ok((seq![param], q))
                    }
                },
            }
        },
        _ => Err(("Expected parameter name"@, pos)),
    }
}

/// `chant name[<T, ...>](params) [-> Type] then ... end`, with the span of
/// the token after `end`.
pub closed spec fn chant_spec(toks: Seq<TokenView>, spans: Seq<Span>, p: int) -> Parsed<NodeView>
    decreases toks.len() - p, 0nat,
{
    if !(token_at(toks, p) is Chant) {
        expect_err(toks, TokenOf::Chant, p)
    } else {
        match token_at(toks, p + 1) {
            TokenOf::Ident(name) => match generics_spec(toks, p + 2) {
                Err(e) => Err(e),
                Ok((type_params, t)) => if !(token_at(toks, t) is LeftParen) {
                    expect_err(toks, TokenOf::LeftParen, t)
                } else {
                    let a = skip_nl(toks, t + 1);
                    let listed: Parsed<Seq<ParamView>> = if token_at(toks, a) is RightParen {
                        Ok((Seq::empty(), a))
                    } else {
                        params_spec(toks, a)
                    };
                    match listed {
                        Err(e) => Err(e),
                        Ok((params, q)) => if !(token_at(toks, skip_nl(toks, q)) is RightParen) {
                            expect_err(toks, TokenOf::RightParen, skip_nl(toks, q))
                        } else {
                            let c = skip_nl(toks, q) + 1;
                            let returned: Parsed<Option<TypeView>> = if token_at(toks, c) is Arrow {
                                match type_spec(toks, c + 1) {
                                    Err(e) => Err(e),
                                    Ok((rt, d)) => Ok((Some(rt), d)),
                                }
                            } else {
                                Ok((None, c))
                            };
                            match returned {
                                Err(e) => Err(e),
                                Ok((return_type, d)) => if !(token_at(toks, d) is Then) {
                                    expect_err(toks, TokenOf::Then, d)
                                } else if !fwd(toks, p, skip_nl(toks, d + 1)) {
                                    Ok((NodeView::Other, d))
                                } else {
                                    match block_spec(toks, spans, BlockEnd::End, skip_nl(toks, d + 1)) {
                                        Err(e) => Err(e),
                                        Ok((body, r)) => if token_at(toks, r) is End {
                                            Ok((
                                                NodeView::ChantDef {
                                                    name,
                                                    type_params,
                                                    lifetime_params: Seq::empty(),
                                                    params,
                                                    return_type,
                                                    body,
                                                    span: span_at(spans, r + 1),
                                                },
                                                r + 1,
                                            ))
                                        } else {
                                            expect_err(toks, TokenOf::End, r)
                                        },
                                    }
                                },
                            }
                        },
                    }
                },
            },
            _ => Err(("Expected identifier after 'chant'"@, p + 1)),
        }
    }
}

/// Struct fields `name as Type`, each followed by newlines, up to `end`.
pub closed spec fn form_fields_spec(toks: Seq<TokenView>, pos: int) -> Parsed<Seq<(Seq<char>, TypeView)>>
    decreases toks.len() - pos,
{
    if token_at(toks, pos) is End || token_at(toks, pos) is Eof {
        Ok((Seq::empty(), pos))
    } else {
        match token_at(toks, pos) {
            TokenOf::Ident(name) => if !(token_at(toks, pos + 1) is As) {
                expect_err(toks, TokenOf::As, pos + 1)
            } else {
                match type_spec(toks, pos + 2) {
                    Err(e) => Err(e),
                    Ok((t, q)) => if fwd(toks, pos, skip_nl(toks, q)) {
                        match form_fields_spec(toks, skip_nl(toks, q)) {
                            Err(e) => Err(e),
                            Ok((rest, r)) => Ok((seq![(name, t)] + rest, r)),
                        }
                    } else {
                        Ok((seq![(name, t)], q))
                    },
                }
            },
            _ => Err(("Expected field name in struct definition"@, pos)),
        }
    }
}

/// `form Name[<T, ...>] with fields end`, with the span of the token after
/// `end`.
pub closed spec fn form_spec(toks: Seq<TokenView>, spans: Seq<Span>, p: int) -> Parsed<NodeView> {
    if !(token_at(toks, p) is Form) {
        expect_err(toks, TokenOf::Form, p)
    } else {
        match token_at(toks, p + 1) {
            TokenOf::Ident(name) => match generics_spec(toks, p + 2) {
                Err(e) => Err(e),
                Ok((type_params, t)) => if !(token_at(toks, t) is With) {
                    expect_err(toks, TokenOf::With, t)
                } else {
                    match form_fields_spec(toks, skip_nl(toks, t + 1)) {
                        Err(e) => Err(e),
                        Ok((fields, r)) => if token_at(toks, r) is End {
                            Ok((NodeView::FormDef { name, type_params, fields, span: span_at(spans, r + 1) }, r + 1))
                        } else {
                            expect_err(toks, TokenOf::End, r)
                        },
                    }
                },
            },
            _ => Err(("Expected identifier after 'form'"@, p + 1)),
        }
    }
}

/// The fields of an enum case, `name: Type` separated by commas, up to `)`.
pub closed spec fn case_fields_spec(toks: Seq<TokenView>, pos: int) -> Parsed<Seq<ParamView>>
    decreases toks.len() - pos,
{
    if token_at(toks, pos) is RightParen || token_at(toks, pos) is Eof {
        Ok((Seq::empty(), pos))
    } else {
        match token_at(toks, pos) {
            TokenOf::Ident(name) => if !(token_at(toks, pos + 1) is Colon) {
                expect_err(toks, TokenOf::Colon, pos + 1)
            } else {
                match type_spec(toks, pos + 2) {
                    Err(e) => Err(e),
                    Ok((t, q)) => {
                        let field = ParamView {
                            name,
                            typ: Some(t),
                            is_variadic: false,
                            borrow_mode: BorrowMode::Owned,
                            lifetime: None,
                        };
                        if token_at(toks, q) is Comma && fwd(toks, pos, q + 1) {
                            match case_fields_spec(toks, q + 1) {
                                Err(e) => Err(e),
                                Ok((rest, r)) => Ok((seq![field] + rest, r)),
                            }
                        } else if token_at(toks, q) is RightParen {
                            Ok((seq![field], q))
                        } else {
                            Err(("Expected ',' or ')' in variant field list"@, q))
                        }
                    },
                }
            },
            _ => Err(("Expected field name in variant"@, pos)),
        }
    }
}

/// Enum cases `Name` or `Name(fields)`, each followed by an optional comma
/// and newlines, up to `end`.
pub closed spec fn cases_spec(toks: Seq<TokenView>, pos: int) -> Parsed<Seq<(Seq<char>, Seq<ParamView>)>>
    decreases toks.len() - pos,
{
    if token_at(toks, pos) is End || token_at(toks, pos) is Eof {
        Ok((Seq::empty(), pos))
    } else {
        match token_at(toks, pos) {
            TokenOf::Ident(name) => {
                let listed: Parsed<Seq<ParamView>> = if token_at(toks, pos + 1) is LeftParen {
                    match case_fields_spec(toks, pos + 2) {
                        Err(e) => Err(e),
                        Ok((fields, q)) => if token_at(toks, q) is RightParen {
                            Ok((fields, q + 1))
                        } else {
                            expect_err(toks, TokenOf::RightParen, q)
                        },
                    }
                } else {
                    Ok((Seq::empty(), pos + 1))
                };
                match listed {
                    Err(e) => Err(e),
                    Ok((fields, q)) => {
                        let after = if token_at(toks, q) is Comma { q + 1 } else { q };
                        if fwd(toks, pos, skip_nl(toks, after)) {
                            match cases_spec(toks, skip_nl(toks, after)) {
                                Err(e) => Err(e),
                                Ok((rest, r)) => Ok((seq![(name, fields)] + rest, r)),
                            }
                        } else {
                            Ok((seq![(name, fields)], after))
                        }
                    },
                }
            },
            _ => Err(("Expected variant name in enum definition"@, pos)),
        }
    }
}

/// `variant Name[<T, ...>] then cases end`, with the span of the token
/// after `end`.
pub closed spec fn variant_spec(toks: Seq<TokenView>, spans: Seq<Span>, p: int) -> Parsed<NodeView> {
    if !(token_at(toks, p) is Variant) {
        expect_err(toks, TokenOf::Variant, p)
    } else {
        match token_at(toks, p + 1) {
            TokenOf::Ident(name) => match generics_spec(toks, p + 2) {
                Err(e) => Err(e),
                Ok((type_params, t)) => if !(token_at(toks, t) is Then) {
                    expect_err(toks, TokenOf::Then, t)
                } else {
                    match cases_spec(toks, skip_nl(toks, t + 1)) {
                        Err(e) => Err(e),
                        Ok((variants, r)) => if token_at(toks, r) is End {
                            Ok((NodeView::VariantDef { name, type_params, variants, span: span_at(spans, r + 1) }, r + 1))
                        } else {
                            expect_err(toks, TokenOf::End, r)
                        },
                    }
                },
            },
            _ => Err(("Expected identifier after 'variant'"@, p + 1)),
        }
    }
}

/// A match pattern: a number, text or truth literal; a name; `Name(...)`;
/// `Triumph(p)`, `Mishap(p)`, `Present(p)`; or `Absent`.
pub closed spec fn pattern_spec(toks: Seq<TokenView>, spans: Seq<Span>, pos: int) -> Parsed<PatternView>
    decreases toks.len() - pos, 2nat,
{
    let span = span_at(spans, pos);
    match token_at(toks, pos) {
        TokenOf::Number(n) => Ok((PatternView::Literal(Box::new(NodeView::Number { value: n, span })), pos + 1)),
        TokenOf::Text(s) => Ok((PatternView::Literal(Box::new(NodeView::Text { value: s, span })), pos + 1)),
        TokenOf::Truth(b) => Ok((PatternView::Literal(Box::new(NodeView::Truth { value: b, span })), pos + 1)),
        TokenOf::Ident(name) => if !(token_at(toks, pos + 1) is LeftParen) {
            Ok((PatternView::Ident(name), pos + 1))
        } else if token_at(toks, pos + 2) is RightParen {
            Ok((enum_pattern(name, Seq::empty()), pos + 3))
        } else if !(pos + 2 <= toks.len()) {
            Ok((PatternView::Wildcard, pos))
        } else {
            match patterns_spec(toks, spans, pos + 2) {
                Err(e) => Err(e),
                Ok((fields, q)) => if token_at(toks, q) is RightParen {
                    Ok((enum_pattern(name, fields), q + 1))
                } else {
                    expect_err(toks, TokenOf::RightParen, q)
                },
            }
        },
        TokenOf::Triumph => wrapped_pattern_spec(toks, spans, "Triumph"@, pos),
        TokenOf::Mishap => wrapped_pattern_spec(toks, spans, "Mishap"@, pos),
        TokenOf::Present => wrapped_pattern_spec(toks, spans, "Present"@, pos),
        TokenOf::Absent => Ok((PatternView::Enum { variant: "Absent"@, inner: None }, pos + 1)),
        _ => Err(("Expected pattern"@, pos)),
    }
}

/// `(p)` after the keyword at `pos`: the enum pattern `variant` holding
/// `p`.
pub closed spec fn wrapped_pattern_spec(toks: Seq<TokenView>, spans: Seq<Span>, variant: Seq<char>, pos: int) -> Parsed<PatternView>
    decreases toks.len() - pos, 1nat,
{
    if !(token_at(toks, pos + 1) is LeftParen) {
        expect_err(toks, TokenOf::LeftParen, pos + 1)
    } else if !(pos + 2 <= toks.len()) {
        Ok((PatternView::Wildcard, pos))
    } else {
        match pattern_spec(toks, spans, pos + 2) {
            Err(e) => Err(e),
            Ok((inner, q)) => if token_at(toks, q) is RightParen {
                Ok((PatternView::Enum { variant, inner: Some(Box::new(inner)) }, q + 1))
            } else {
                expect_err(toks, TokenOf::RightParen, q)
            },
        }
    }
}

/// Patterns separated by commas.
pub closed spec fn patterns_spec(toks: Seq<TokenView>, spans: Seq<Span>, pos: int) -> Parsed<Seq<PatternView>>
    decreases toks.len() - pos, 3nat,
{
    match pattern_spec(toks, spans, pos) {
        Err(e) => Err(e),
        Ok((x, q)) => if token_at(toks, q) is Comma && fwd(toks, pos, q + 1) {
            match patterns_spec(toks, spans, q + 1) {
                Err(e) => Err(e),
                Ok((rest, r)) => Ok((seq![x] + rest, r)),
            }
        } else {
            Ok((seq![x], q))
        },
    }
}

/// `match value with arms end`, with the span of the token after `end`.
pub closed spec fn match_spec(toks: Seq<TokenView>, spans: Seq<Span>, p: int) -> Parsed<NodeView>
    decreases toks.len() - p, 0nat,
{
    if !(token_at(toks, p) is Match) {
        expect_err(toks, TokenOf::Match, p)
    } else {
        match expr_spec(toks, spans, p + 1) {
            Err(e) => Err(e),
            Ok((v, q)) => if !(token_at(toks, q) is With) {
                expect_err(toks, TokenOf::With, q)
            } else if !fwd(toks, p, skip_nl(toks, q + 1)) {
                Ok((NodeView::Other, q))
            } else {
                match arms_spec(toks, spans, skip_nl(toks, q + 1)) {
                    Err(e) => Err(e),
                    Ok((arms, r)) => if token_at(toks, r) is End {
                        Ok((NodeView::MatchStmt { value: Box::new(v), arms, span: span_at(spans, r + 1) }, r + 1))
                    } else {
                        expect_err(toks, TokenOf::End, r)
                    },
                }
            },
        }
    }
}

/// Match arms `when pattern then ...`, ending after an
/// `otherwise then ...` arm (whose pattern is the wildcard) or at any
/// other token.
pub closed spec fn arms_spec(toks: Seq<TokenView>, spans: Seq<Span>, pos: int) -> Parsed<Seq<(PatternView, Seq<NodeView>)>>
    decreases toks.len() - pos, 0nat,
{
    if token_at(toks, pos) is When {
        match pattern_spec(toks, spans, pos + 1) {
            Err(e) => Err(e),
            Ok((pattern, q)) => if !(token_at(toks, q) is Then) {
                expect_err(toks, TokenOf::Then, q)
            } else if !(pos < q && fwd(toks, pos, skip_nl(toks, q + 1))) {
                Ok((Seq::empty(), q))
            } else {
                match block_spec(toks, spans, BlockEnd::Arm, skip_nl(toks, q + 1)) {
                    Err(e) => Err(e),
                    Ok((body, r)) => if fwd(toks, pos, r) {
                        match arms_spec(toks, spans, r) {
                            Err(e) => Err(e),
                            Ok((rest, r2)) => Ok((seq![(pattern, body)] + rest, r2)),
                        }
                    } else {
                        Ok((seq![(pattern, body)], r))
                    },
                }
            },
        }
    } else if token_at(toks, pos) is Otherwise {
        if !(token_at(toks, pos + 1) is Then) {
            expect_err(toks, TokenOf::Then, pos + 1)
        } else if !fwd(toks, pos, skip_nl(toks, pos + 2)) {
            Ok((Seq::empty(), pos))
        } else {
            match block_spec(toks, spans, BlockEnd::End, skip_nl(toks, pos + 2)) {
                Err(e) => Err(e),
                Ok((body, r)) => Ok((seq![(PatternView::Wildcard, body)], r)),
            }
        }
    } else {
        Ok((Seq::empty(), pos))
    }
}

/// `attempt ... harmonize on Error then ... end`, with the span of the
/// token after `end`.
pub closed spec fn attempt_spec(toks: Seq<TokenView>, spans: Seq<Span>, p: int) -> Parsed<NodeView>
    decreases toks.len() - p, 0nat,
{
    if !(token_at(toks, p) is Attempt) {
        expect_err(toks, TokenOf::Attempt, p)
    } else if !fwd(toks, p, skip_nl(toks, p + 1)) {
        Ok((NodeView::Other, p))
    } else {
        match block_spec(toks, spans, BlockEnd::Handler, skip_nl(toks, p + 1)) {
            Err(e) => Err(e),
            Ok((body, r)) => if !fwd(toks, p, r) {
                Ok((NodeView::Other, r))
            } else {
                match handlers_spec(toks, spans, r) {
                    Err(e) => Err(e),
                    Ok((handlers, r2)) => if token_at(toks, r2) is End {
                        Ok((NodeView::AttemptStmt { body, handlers, span: span_at(spans, r2 + 1) }, r2 + 1))
                    } else {
                        expect_err(toks, TokenOf::End, r2)
                    },
                }
            },
        }
    }
}

/// Error handlers `harmonize on Name then ...`.
pub closed spec fn handlers_spec(toks: Seq<TokenView>, spans: Seq<Span>, pos: int) -> Parsed<Seq<(Seq<char>, Seq<NodeView>)>>
    decreases toks.len() - pos, 0nat,
{
    if !(token_at(toks, pos) is Harmonize) {
        Ok((Seq::empty(), pos))
    } else if !(token_at(toks, pos + 1) is On) {
        expect_err(toks, TokenOf::On, pos + 1)
    } else {
        match token_at(toks, pos + 2) {
            TokenOf::Ident(error_type) => if !(token_at(toks, pos + 3) is Then) {
                expect_err(toks, TokenOf::Then, pos + 3)
            } else if !fwd(toks, pos, skip_nl(toks, pos + 4)) {
                Ok((Seq::empty(), pos))
            } else {
                match block_spec(toks, spans, BlockEnd::Handler, skip_nl(toks, pos + 4)) {
                    Err(e) => Err(e),
                    Ok((body, r)) => if fwd(toks, pos, r) {
                        match handlers_spec(toks, spans, r) {
                            Err(e) => Err(e),
                            Ok((rest, r2)) => Ok((seq![(error_type, body)] + rest, r2)),
                        }
                    } else {
                        Ok((seq![(error_type, body)], r))
                    },
                }
            },
            _ => Err(("Expected error type after 'on'"@, pos + 2)),
        }
    }
}

/// One step of `program_spec`.
pub proof fn unfold_program_spec(toks: Seq<TokenView>, spans: Seq<Span>, pos: int)
    ensures
        program_spec(toks, spans, pos) == ({
            block_spec(toks, spans, BlockEnd::Eof, skip_nl(toks, pos))
        }),
{
}

/// One step of `block_spec`.
pub proof fn unfold_block_spec(toks: Seq<TokenView>, spans: Seq<Span>, stop: BlockEnd, pos: int)
    ensures
        block_spec(toks, spans, stop, pos) == ({
            if ends_block(stop, token_at(toks, pos)) || !(pos <= toks.len()) {
                Ok((Seq::empty(), pos))
            } else {
                match statement_spec(toks, spans, pos) {
                    Err(e) => Err(e),
                    Ok((s, q)) => if pos < q && fwd(toks, pos, skip_nl(toks, q)) {
                        match block_spec(toks, spans, stop, skip_nl(toks, q)) {
                            Err(e) => Err(e),
                            Ok((rest, r)) => Ok((seq![s] + rest, r)),
                        }
                    } else {
                        Ok((seq![s], q))
                    },
                }
            }
        }),
{
}

/// One step of `statement_spec`.
pub proof fn unfold_statement_spec(toks: Seq<TokenView>, spans: Seq<Span>, pos: int)
    ensures
        statement_spec(toks, spans, pos) == ({
            let p = skip_nl(toks, pos);
            if !(pos <= p <= toks.len()) {
                Ok((NodeView::Other, p))
            } else {
                match token_at(toks, p) {
                    TokenOf::Bind => binding_spec(toks, spans, true, p),
                    TokenOf::Weave => binding_spec(toks, spans, false, p),
                    TokenOf::SetKeyword => set_spec(toks, spans, p),
                    TokenOf::Should => if_spec(toks, spans, p),
                    TokenOf::For => for_spec(toks, spans, p),
                    TokenOf::Whilst => while_spec(toks, spans, p),
                    TokenOf::Chant => chant_spec(toks, spans, p),
                    TokenOf::Form => form_spec(toks, spans, p),
                    TokenOf::Variant => variant_spec(toks, spans, p),
                    TokenOf::Yield => yield_spec(toks, spans, p),
                    TokenOf::Break => Ok((NodeView::Break { span: span_at(spans, p) }, p + 1)),
                    TokenOf::Continue => Ok((NodeView::Continue { span: span_at(spans, p) }, p + 1)),
                    TokenOf::Match => match_spec(toks, spans, p),
                    TokenOf::Attempt => attempt_spec(toks, spans, p),
                    TokenOf::Request => request_spec(toks, spans, p),
                    TokenOf::Grove => module_spec(toks, spans, p),
                    TokenOf::Summon => import_spec(toks, spans, p),
                    TokenOf::Gather => import_spec(toks, spans, p),
                    TokenOf::Offer => export_spec(toks, spans, p),
                    TokenOf::Embody => embody_spec(toks, spans, p),
                    TokenOf::Aspect => aspect_spec(toks, spans, p),
                    _ => match expr_spec(toks, spans, p) {
                        Err(e) => Err(e),
                        Ok((e, q)) => Ok((NodeView::ExprStmt { expr: Box::new(e), span: span_at(spans, q) }, q)),
                    },
                }
            }
        }),
{
}

/// One step of `binding_spec`.
pub proof fn unfold_binding_spec(toks: Seq<TokenView>, spans: Seq<Span>, bind: bool, p: int)
    ensures
        binding_spec(toks, spans, bind, p) == ({
            let keyword: TokenView = if bind { TokenOf::Bind } else { TokenOf::Weave };
            let separator: TokenView = if bind { TokenOf::To } else { TokenOf::As };
            if token_at(toks, p) != keyword {
                expect_err(toks, keyword, p)
            } else {
                match token_at(toks, p + 1) {
                    TokenOf::Ident(name) => {
                        let annotated: Parsed<Option<TypeView>> = if token_at(toks, p + 2) is Colon {
                            match type_spec(toks, p + 3) {
                                Err(e) => Err(e),
                                Ok((t, q)) => Ok((Some(t), q)),
                            }
                        } else {
                            Ok((None, p + 2))
                        };
                        match annotated {
                            Err(e) => Err(e),
                            Ok((typ, q)) => if token_at(toks, q) != separator {
                                expect_err(toks, separator, q)
                            } else {
                                match expr_spec(toks, spans, q + 1) {
                                    Err(e) => Err(e),
                                    Ok((v, r)) => if bind {
                                        Ok((NodeView::BindStmt { name, typ, value: Box::new(v), span: span_at(spans, p) }, r))
                                    } else {
                                        Ok((NodeView::WeaveStmt { name, typ, value: Box::new(v), span: span_at(spans, p) }, r))
                                    },
                                }
                            },
                        }
                    },
                    _ => if bind {
                        Err(("Expected identifier after 'bind'"@, p + 1))
                    } else {
                        Err(("Expected identifier after 'weave'"@, p + 1))
                    },
                }
            }
        }),
{
}

/// One step of `set_spec`.
pub proof fn unfold_set_spec(toks: Seq<TokenView>, spans: Seq<Span>, p: int)
    ensures
        set_spec(toks, spans, p) == ({
            if !(token_at(toks, p) is SetKeyword) {
                expect_err(toks, TokenOf::SetKeyword, p)
            } else {
                match postfix_spec(toks, spans, p + 1) {
                    Err(e) => Err(e),
                    Ok((target, q)) => if !(token_at(toks, q) is To) {
                        expect_err(toks, TokenOf::To, q)
                    } else {
                        match expr_spec(toks, spans, q + 1) {
                            Err(e) => Err(e),
                            Ok((v, r)) => Ok((
                                NodeView::SetStmt { target: Box::new(target), value: Box::new(v), span: span_at(spans, p) },
                                r,
                            )),
                        }
                    },
                }
            }
        }),
{
}

/// One step of `yield_spec`.
pub proof fn unfold_yield_spec(toks: Seq<TokenView>, spans: Seq<Span>, p: int)
    ensures
        yield_spec(toks, spans, p) == ({
            if !(token_at(toks, p) is Yield) {
                expect_err(toks, TokenOf::Yield, p)
            } else {
                match expr_spec(toks, spans, p + 1) {
                    Err(e) => Err(e),
                    Ok((v, r)) => Ok((NodeView::YieldStmt { value: Box::new(v), span: span_at(spans, p) }, r)),
                }
            }
        }),
{
}

/// One step of `if_spec`.
pub proof fn unfold_if_spec(toks: Seq<TokenView>, spans: Seq<Span>, p: int)
    ensures
        if_spec(toks, spans, p) == ({
            if !(token_at(toks, p) is Should) {
                expect_err(toks, TokenOf::Should, p)
            } else {
                match expr_spec(toks, spans, p + 1) {
                    Err(e) => Err(e),
                    Ok((c, q)) => if !(token_at(toks, q) is Then) {
                        expect_err(toks, TokenOf::Then, q)
                    } else if !fwd(toks, p, skip_nl(toks, q + 1)) {
                        Ok((NodeView::Other, q))
                    } else {
                        match block_spec(toks, spans, BlockEnd::Otherwise, skip_nl(toks, q + 1)) {
                            Err(e) => Err(e),
                            Ok((then_branch, r)) => if token_at(toks, r) is Otherwise {
                                if !fwd(toks, p, skip_nl(toks, r + 1)) {
                                    Ok((NodeView::Other, r))
                                } else {
                                    match block_spec(toks, spans, BlockEnd::End, skip_nl(toks, r + 1)) {
                                        Err(e) => Err(e),
                                        Ok((else_branch, r2)) => if token_at(toks, r2) is End {
                                            Ok((
                                                NodeView::IfStmt {
                                                    condition: Box::new(c),
                                                    then_branch,
                                                    else_branch: Some(else_branch),
                                                    span: span_at(spans, p),
                                                },
                                                r2 + 1,
                                            ))
                                        } else {
                                            expect_err(toks, TokenOf::End, r2)
                                        },
                                    }
                                }
                            } else if token_at(toks, r) is End {
                                Ok((
                                    NodeView::IfStmt {
                                        condition: Box::new(c),
                                        then_branch,
                                        else_branch: None,
                                        span: span_at(spans, p),
                                    },
                                    r + 1,
                                ))
                            } else {
                                expect_err(toks, TokenOf::End, r)
                            },
                        }
                    },
                }
            }
        }),
{
}

/// One step of `for_spec`.
pub proof fn unfold_for_spec(toks: Seq<TokenView>, spans: Seq<Span>, p: int)
    ensures
        for_spec(toks, spans, p) == ({
            if !(token_at(toks, p) is For) {
                expect_err(toks, TokenOf::For, p)
            } else if !(token_at(toks, p + 1) is Each) {
                expect_err(toks, TokenOf::Each, p + 1)
            } else {
                match token_at(toks, p + 2) {
                    TokenOf::Ident(variable) => if !(token_at(toks, p + 3) is In) {
                        expect_err(toks, TokenOf::In, p + 3)
                    } else {
                        match expr_spec(toks, spans, p + 4) {
                            Err(e) => Err(e),
                            Ok((iterable, q)) => if !(token_at(toks, q) is Then) {
                                expect_err(toks, TokenOf::Then, q)
                            } else if !fwd(toks, p, skip_nl(toks, q + 1)) {
                                Ok((NodeView::Other, q))
                            } else {
                                match block_spec(toks, spans, BlockEnd::End, skip_nl(toks, q + 1)) {
                                    Err(e) => Err(e),
                                    Ok((body, r)) => if token_at(toks, r) is End {
                                        Ok((
                                            NodeView::ForStmt {
                                                variable,
                                                iterable: Box::new(iterable),
                                                body,
                                                span: span_at(spans, p),
                                            },
                                            r + 1,
                                        ))
                                    } else {
                                        expect_err(toks, TokenOf::End, r)
                                    },
                                }
                            },
                        }
                    },
                    _ => Err(("Expected identifier after 'for each'"@, p + 2)),
                }
            }
        }),
{
}

/// One step of `while_spec`.
pub proof fn unfold_while_spec(toks: Seq<TokenView>, spans: Seq<Span>, p: int)
    ensures
        while_spec(toks, spans, p) == ({
            if !(token_at(toks, p) is Whilst) {
                expect_err(toks, TokenOf::Whilst, p)
            } else {
                match expr_spec(toks, spans, p + 1) {
                    Err(e) => Err(e),
                    Ok((c, q)) => if !(token_at(toks, q) is Then) {
                        expect_err(toks, TokenOf::Then, q)
                    } else if !fwd(toks, p, skip_nl(toks, q + 1)) {
                        Ok((NodeView::Other, q))
                    } else {
                        match block_spec(toks, spans, BlockEnd::End, skip_nl(toks, q + 1)) {
                            Err(e) => Err(e),
                            Ok((body, r)) => if token_at(toks, r) is End {
                                Ok((NodeView::WhileStmt { condition: Box::new(c), body, span: span_at(spans, p) }, r + 1))
                            } else {
                                expect_err(toks, TokenOf::End, r)
                            },
                        }
                    },
                }
            }
        }),
{
}

/// One step of `generics_spec`.
pub proof fn unfold_generics_spec(toks: Seq<TokenView>, pos: int)
    ensures
        generics_spec(toks, pos) == ({
            if token_at(toks, pos) is LeftAngle {
                match type_params_spec(toks, pos + 1) {
                    Err(e) => Err(e),
                    Ok((names, q)) => if token_at(toks, q) is RightAngle {
                        Ok((names, q + 1))
                    } else {
                        expect_err(toks, TokenOf::RightAngle, q)
                    },
                }
            } else {
                Ok((Seq::empty(), pos))
            }
        }),
{
}

/// One step of `type_params_spec`.
pub proof fn unfold_type_params_spec(toks: Seq<TokenView>, pos: int)
    ensures
        type_params_spec(toks, pos) == ({
            match token_at(toks, pos) {
                TokenOf::Ident(name) => if token_at(toks, pos + 1) is Comma && pos + 2 <= toks.len() {
                    match type_params_spec(toks, pos + 2) {
                        Err(e) => Err(e),
                        Ok((rest, q)) => Ok((seq![name] + rest, q)),
                    }
                } else {
                    Ok((seq![name], pos + 1))
                },
                _ => Err(("Expected type parameter name"@, pos)),
            }
        }),
{
}

/// One step of `params_spec`.
pub proof fn unfold_params_spec(toks: Seq<TokenView>, pos: int)
    ensures
        params_spec(toks, pos) == ({
            match token_at(toks, pos) {
                TokenOf::Ident(name) => {
                    let annotated: Parsed<Option<TypeView>> = if token_at(toks, pos + 1) is As {
                        match type_spec(toks, pos + 2) {
                            Err(e) => Err(e),
                            Ok((t, q)) => Ok((Some(t), q)),
                        }
                    } else {
                        Ok((None, pos + 1))
                    };
                    match annotated {
                        Err(e) => Err(e),
                        Ok((typ, q)) => {
                            let param = ParamView { name, typ, is_variadic: false, borrow_mode: BorrowMode::Owned, lifetime: None };
                            if token_at(toks, q) is Comma && fwd(toks, pos, skip_nl(toks, q + 1)) {
                                match params_spec(toks, skip_nl(toks, q + 1)) {
                                    Err(e) => Err(e),
                                    Ok((rest, r)) => Ok((seq![param] + rest, r)),
                                }
                            } else {
                                Ok((seq![param], q))
                            }
                        },
                    }
                },
                _ => Err(("Expected parameter name"@, pos)),
            }
        }),
{
}

/// One step of `chant_spec`.
pub proof fn unfold_chant_spec(toks: Seq<TokenView>, spans: Seq<Span>, p: int)
    ensures
        chant_spec(toks, spans, p) == ({
            if !(token_at(toks, p) is Chant) {
                expect_err(toks, TokenOf::Chant, p)
            } else {
                match token_at(toks, p + 1) {
                    TokenOf::Ident(name) => match generics_spec(toks, p + 2) {
                        Err(e) => Err(e),
                        Ok((type_params, t)) => if !(token_at(toks, t) is LeftParen) {
                            expect_err(toks, TokenOf::LeftParen, t)
                        } else {
                            let a = skip_nl(toks, t + 1);
                            let listed: Parsed<Seq<ParamView>> = if token_at(toks, a) is RightParen {
                                Ok((Seq::empty(), a))
                            } else {
                                params_spec(toks, a)
                            };
                            match listed {
                                Err(e) => Err(e),
                                Ok((params, q)) => if !(token_at(toks, skip_nl(toks, q)) is RightParen) {
                                    expect_err(toks, TokenOf::RightParen, skip_nl(toks, q))
                                } else {
                                    let c = skip_nl(toks, q) + 1;
                                    let returned: Parsed<Option<TypeView>> = if token_at(toks, c) is Arrow {
                                        match type_spec(toks, c + 1) {
                                            Err(e) => Err(e),
                                            Ok((rt, d)) => Ok((Some(rt), d)),
                                        }
                                    } else {
                                        Ok((None, c))
                                    };
                                    match returned {
                                        Err(e) => Err(e),
                                        Ok((return_type, d)) => if !(token_at(toks, d) is Then) {
                                            expect_err(toks, TokenOf::Then, d)
                                        } else if !fwd(toks, p, skip_nl(toks, d + 1)) {
                                            Ok((NodeView::Other, d))
                                        } else {
                                            match block_spec(toks, spans, BlockEnd::End, skip_nl(toks, d + 1)) {
                                                Err(e) => Err(e),
                                                Ok((body, r)) => if token_at(toks, r) is End {
                                                    Ok((
                                                        NodeView::ChantDef {
                                                            name,
                                                            type_params,
                                                            lifetime_params: Seq::empty(),
                                                            params,
                                                            return_type,
                                                            body,
                                                            span: span_at(spans, r + 1),
                                                        },
                                                        r + 1,
                                                    ))
                                                } else {
                                                    expect_err(toks, TokenOf::End, r)
                                                },
                                            }
                                        },
                                    }
                                },
                            }
                        },
                    },
                    _ => Err(("Expected identifier after 'chant'"@, p + 1)),
                }
            }
        }),
{
}

/// One step of `form_fields_spec`.
pub proof fn unfold_form_fields_spec(toks: Seq<TokenView>, pos: int)
    ensures
        form_fields_spec(toks, pos) == ({
            if token_at(toks, pos) is End || token_at(toks, pos) is Eof {
                Ok((Seq::empty(), pos))
            } else {
                match token_at(toks, pos) {
                    TokenOf::Ident(name) => if !(token_at(toks, pos + 1) is As) {
                        expect_err(toks, TokenOf::As, pos + 1)
                    } else {
                        match type_spec(toks, pos + 2) {
                            Err(e) => Err(e),
                            Ok((t, q)) => if fwd(toks, pos, skip_nl(toks, q)) {
                                match form_fields_spec(toks, skip_nl(toks, q)) {
                                    Err(e) => Err(e),
                                    Ok((rest, r)) => Ok((seq![(name, t)] + rest, r)),
                                }
                            } else {
                                Ok((seq![(name, t)], q))
                            },
                        }
                    },
                    _ => Err(("Expected field name in struct definition"@, pos)),
                }
            }
        }),
{
}

/// One step of `form_spec`.
pub proof fn unfold_form_spec(toks: Seq<TokenView>, spans: Seq<Span>, p: int)
    ensures
        form_spec(toks, spans, p) == ({
            if !(token_at(toks, p) is Form) {
                expect_err(toks, TokenOf::Form, p)
            } else {
                match token_at(toks, p + 1) {
                    TokenOf::Ident(name) => match generics_spec(toks, p + 2) {
                        Err(e) => Err(e),
                        Ok((type_params, t)) => if !(token_at(toks, t) is With) {
                            expect_err(toks, TokenOf::With, t)
                        } else {
                            match form_fields_spec(toks, skip_nl(toks, t + 1)) {
                                Err(e) => Err(e),
                                Ok((fields, r)) => if token_at(toks, r) is End {
                                    Ok((NodeView::FormDef { name, type_params, fields, span: span_at(spans, r + 1) }, r + 1))
                                } else {
                                    expect_err(toks, TokenOf::End, r)
                                },
                            }
                        },
                    },
                    _ => Err(("Expected identifier after 'form'"@, p + 1)),
                }
            }
        }),
{
}

/// One step of `case_fields_spec`.
pub proof fn unfold_case_fields_spec(toks: Seq<TokenView>, pos: int)
    ensures
        case_fields_spec(toks, pos) == ({
            if token_at(toks, pos) is RightParen || token_at(toks, pos) is Eof {
                Ok((Seq::empty(), pos))
            } else {
                match token_at(toks, pos) {
                    TokenOf::Ident(name) => if !(token_at(toks, pos + 1) is Colon) {
                        expect_err(toks, TokenOf::Colon, pos + 1)
                    } else {
                        match type_spec(toks, pos + 2) {
                            Err(e) => Err(e),
                            Ok((t, q)) => {
                                let field = ParamView {
                                    name,
                                    typ: Some(t),
                                    is_variadic: false,
                                    borrow_mode: BorrowMode::Owned,
                                    lifetime: None,
                                };
                                if token_at(toks, q) is Comma && fwd(toks, pos, q + 1) {
                                    match case_fields_spec(toks, q + 1) {
                                        Err(e) => Err(e),
                                        Ok((rest, r)) => Ok((seq![field] + rest, r)),
                                    }
                                } else if token_at(toks, q) is RightParen {
                                    Ok((seq![field], q))
                                } else {
                                    Err(("Expected ',' or ')' in variant field list"@, q))
                                }
                            },
                        }
                    },
                    _ => Err(("Expected field name in variant"@, pos)),
                }
            }
        }),
{
}

/// One step of `cases_spec`.
pub proof fn unfold_cases_spec(toks: Seq<TokenView>, pos: int)
    ensures
        cases_spec(toks, pos) == ({
            if token_at(toks, pos) is End || token_at(toks, pos) is Eof {
                Ok((Seq::empty(), pos))
            } else {
                match token_at(toks, pos) {
                    TokenOf::Ident(name) => {
                        let listed: Parsed<Seq<ParamView>> = if token_at(toks, pos + 1) is LeftParen {
                            match case_fields_spec(toks, pos + 2) {
                                Err(e) => Err(e),
                                Ok((fields, q)) => if token_at(toks, q) is RightParen {
                                    Ok((fields, q + 1))
                                } else {
                                    expect_err(toks, TokenOf::RightParen, q)
                                },
                            }
                        } else {
                            Ok((Seq::empty(), pos + 1))
                        };
                        match listed {
                            Err(e) => Err(e),
                            Ok((fields, q)) => {
                                let after = if token_at(toks, q) is Comma { q + 1 } else { q };
                                if fwd(toks, pos, skip_nl(toks, after)) {
                                    match cases_spec(toks, skip_nl(toks, after)) {
                                        Err(e) => Err(e),
                                        Ok((rest, r)) => Ok((seq![(name, fields)] + rest, r)),
                                    }
                                } else {
                                    Ok((seq![(name, fields)], after))
                                }
                            },
                        }
                    },
                    _ => Err(("Expected variant name in enum definition"@, pos)),
                }
            }
        }),
{
}

/// One step of `variant_spec`.
pub proof fn unfold_variant_spec(toks: Seq<TokenView>, spans: Seq<Span>, p: int)
    ensures
        variant_spec(toks, spans, p) == ({
            if !(token_at(toks, p) is Variant) {
                expect_err(toks, TokenOf::Variant, p)
            } else {
                match token_at(toks, p + 1) {
                    TokenOf::Ident(name) => match generics_spec(toks, p + 2) {
                        Err(e) => Err(e),
                        Ok((type_params, t)) => if !(token_at(toks, t) is Then) {
                            expect_err(toks, TokenOf::Then, t)
                        } else {
                            match cases_spec(toks, skip_nl(toks, t + 1)) {
                                Err(e) => Err(e),
                                Ok((variants, r)) => if token_at(toks, r) is End {
                                    Ok((NodeView::VariantDef { name, type_params, variants, span: span_at(spans, r + 1) }, r + 1))
                                } else {
                                    expect_err(toks, TokenOf::End, r)
                                },
                            }
                        },
                    },
                    _ => Err(("Expected identifier after 'variant'"@, p + 1)),
                }
            }
        }),
{
}

/// One step of `pattern_spec`.
pub proof fn unfold_pattern_spec(toks: Seq<TokenView>, spans: Seq<Span>, pos: int)
    ensures
        pattern_spec(toks, spans, pos) == ({
            let span = span_at(spans, pos);
            match token_at(toks, pos) {
                TokenOf::Number(n) => Ok((PatternView::Literal(Box::new(NodeView::Number { value: n, span })), pos + 1)),
                TokenOf::Text(s) => Ok((PatternView::Literal(Box::new(NodeView::Text { value: s, span })), pos + 1)),
                TokenOf::Truth(b) => Ok((PatternView::Literal(Box::new(NodeView::Truth { value: b, span })), pos + 1)),
                TokenOf::Ident(name) => if !(token_at(toks, pos + 1) is LeftParen) {
                    Ok((PatternView::Ident(name), pos + 1))
                } else if token_at(toks, pos + 2) is RightParen {
                    Ok((enum_pattern(name, Seq::empty()), pos + 3))
                } else if !(pos + 2 <= toks.len()) {
                    Ok((PatternView::Wildcard, pos))
                } else {
                    match patterns_spec(toks, spans, pos + 2) {
                        Err(e) => Err(e),
                        Ok((fields, q)) => if token_at(toks, q) is RightParen {
                            Ok((enum_pattern(name, fields), q + 1))
                        } else {
                            expect_err(toks, TokenOf::RightParen, q)
                        },
                    }
                },
                TokenOf::Triumph => wrapped_pattern_spec(toks, spans, "Triumph"@, pos),
                TokenOf::Mishap => wrapped_pattern_spec(toks, spans, "Mishap"@, pos),
                TokenOf::Present => wrapped_pattern_spec(toks, spans, "Present"@, pos),
                TokenOf::Absent => Ok((PatternView::Enum { variant: "Absent"@, inner: None }, pos + 1)),
                _ => Err(("Expected pattern"@, pos)),
            }
        }),
{
}

/// One step of `wrapped_pattern_spec`.
pub proof fn unfold_wrapped_pattern_spec(toks: Seq<TokenView>, spans: Seq<Span>, variant: Seq<char>, pos: int)
    ensures
        wrapped_pattern_spec(toks, spans, variant, pos) == ({
            if !(token_at(toks, pos + 1) is LeftParen) {
                expect_err(toks, TokenOf::LeftParen, pos + 1)
            } else if !(pos + 2 <= toks.len()) {
                Ok((PatternView::Wildcard, pos))
            } else {
                match pattern_spec(toks, spans, pos + 2) {
                    Err(e) => Err(e),
                    Ok((inner, q)) => if token_at(toks, q) is RightParen {
                        Ok((PatternView::Enum { variant, inner: Some(Box::new(inner)) }, q + 1))
                    } else {
                        expect_err(toks, TokenOf::RightParen, q)
                    },
                }
            }
        }),
{
}

/// One step of `patterns_spec`.
pub proof fn unfold_patterns_spec(toks: Seq<TokenView>, spans: Seq<Span>, pos: int)
    ensures
        patterns_spec(toks, spans, pos) == ({
            match pattern_spec(toks, spans, pos) {
                Err(e) => Err(e),
                Ok((x, q)) => if token_at(toks, q) is Comma && fwd(toks, pos, q + 1) {
                    match patterns_spec(toks, spans, q + 1) {
                        Err(e) => Err(e),
                        Ok((rest, r)) => Ok((seq![x] + rest, r)),
                    }
                } else {
                    Ok((seq![x], q))
                },
            }
        }),
{
}

/// One step of `match_spec`.
pub proof fn unfold_match_spec(toks: Seq<TokenView>, spans: Seq<Span>, p: int)
    ensures
        match_spec(toks, spans, p) == ({
            if !(token_at(toks, p) is Match) {
                expect_err(toks, TokenOf::Match, p)
            } else {
                match expr_spec(toks, spans, p + 1) {
                    Err(e) => Err(e),
                    Ok((v, q)) => if !(token_at(toks, q) is With) {
                        expect_err(toks, TokenOf::With, q)
                    } else if !fwd(toks, p, skip_nl(toks, q + 1)) {
                        Ok((NodeView::Other, q))
                    } else {
                        match arms_spec(toks, spans, skip_nl(toks, q + 1)) {
                            Err(e) => Err(e),
                            Ok((arms, r)) => if token_at(toks, r) is End {
                                Ok((NodeView::MatchStmt { value: Box::new(v), arms, span: span_at(spans, r + 1) }, r + 1))
                            } else {
                                expect_err(toks, TokenOf::End, r)
                            },
                        }
                    },
                }
            }
        }),
{
}

/// One step of `arms_spec`.
pub proof fn unfold_arms_spec(toks: Seq<TokenView>, spans: Seq<Span>, pos: int)
    ensures
        arms_spec(toks, spans, pos) == ({
            if token_at(toks, pos) is When {
                match pattern_spec(toks, spans, pos + 1) {
                    Err(e) => Err(e),
                    Ok((pattern, q)) => if !(token_at(toks, q) is Then) {
                        expect_err(toks, TokenOf::Then, q)
                    } else if !(pos < q && fwd(toks, pos, skip_nl(toks, q + 1))) {
                        Ok((Seq::empty(), q))
                    } else {
                        match block_spec(toks, spans, BlockEnd::Arm, skip_nl(toks, q + 1)) {
                            Err(e) => Err(e),
                            Ok((body, r)) => if fwd(toks, pos, r) {
                                match arms_spec(toks, spans, r) {
                                    Err(e) => Err(e),
                                    Ok((rest, r2)) => Ok((seq![(pattern, body)] + rest, r2)),
                                }
                            } else {
                                Ok((seq![(pattern, body)], r))
                            },
                        }
                    },
                }
            } else if token_at(toks, pos) is Otherwise {
                if !(token_at(toks, pos + 1) is Then) {
                    expect_err(toks, TokenOf::Then, pos + 1)
                } else if !fwd(toks, pos, skip_nl(toks, pos + 2)) {
                    Ok((Seq::empty(), pos))
                } else {
                    match block_spec(toks, spans, BlockEnd::End, skip_nl(toks, pos + 2)) {
                        Err(e) => Err(e),
                        Ok((body, r)) => Ok((seq![(PatternView::Wildcard, body)], r)),
                    }
                }
            } else {
                Ok((Seq::empty(), pos))
            }
        }),
{
}

/// One step of `attempt_spec`.
pub proof fn unfold_attempt_spec(toks: Seq<TokenView>, spans: Seq<Span>, p: int)
    ensures
        attempt_spec(toks, spans, p) == ({
            if !(token_at(toks, p) is Attempt) {
                expect_err(toks, TokenOf::Attempt, p)
            } else if !fwd(toks, p, skip_nl(toks, p + 1)) {
                Ok((NodeView::Other, p))
            } else {
                match block_spec(toks, spans, BlockEnd::Handler, skip_nl(toks, p + 1)) {
                    Err(e) => Err(e),
                    Ok((body, r)) => if !fwd(toks, p, r) {
                        Ok((NodeView::Other, r))
                    } else {
                        match handlers_spec(toks, spans, r) {
                            Err(e) => Err(e),
                            Ok((handlers, r2)) => if token_at(toks, r2) is End {
                                Ok((NodeView::AttemptStmt { body, handlers, span: span_at(spans, r2 + 1) }, r2 + 1))
                            } else {
                                expect_err(toks, TokenOf::End, r2)
                            },
                        }
                    },
                }
            }
        }),
{
}

/// One step of `handlers_spec`.
pub proof fn unfold_handlers_spec(toks: Seq<TokenView>, spans: Seq<Span>, pos: int)
    ensures
        handlers_spec(toks, spans, pos) == ({
            if !(token_at(toks, pos) is Harmonize) {
                Ok((Seq::empty(), pos))
            } else if !(token_at(toks, pos + 1) is On) {
                expect_err(toks, TokenOf::On, pos + 1)
            } else {
                match token_at(toks, pos + 2) {
                    TokenOf::Ident(error_type) => if !(token_at(toks, pos + 3) is Then) {
                        expect_err(toks, TokenOf::Then, pos + 3)
                    } else if !fwd(toks, pos, skip_nl(toks, pos + 4)) {
                        Ok((Seq::empty(), pos))
                    } else {
                        match block_spec(toks, spans, BlockEnd::Handler, skip_nl(toks, pos + 4)) {
                            Err(e) => Err(e),
                            Ok((body, r)) => if fwd(toks, pos, r) {
                                match handlers_spec(toks, spans, r) {
                                    Err(e) => Err(e),
                                    Ok((rest, r2)) => Ok((seq![(error_type, body)] + rest, r2)),
                                }
                            } else {
                                Ok((seq![(error_type, body)], r))
                            },
                        }
                    },
                    _ => Err(("Expected error type after 'on'"@, pos + 2)),
                }
            }
        }),
{
}


/// Names separated by commas; `missing` is the message where a name is
/// expected and none is found.
pub closed spec fn name_list_spec(toks: Seq<TokenView>, pos: int, missing: Seq<char>) -> Parsed<Seq<Seq<char>>>
    decreases toks.len() - pos,
{
    match token_at(toks, pos) {
        TokenOf::Ident(name) => if token_at(toks, pos + 1) is Comma && pos + 2 <= toks.len() {
            match name_list_spec(toks, pos + 2, missing) {
                Err(e) => Err(e),
                Ok((rest, q)) => Ok((seq![name] + rest, q)),
            }
        } else {
            Ok((seq![name], pos + 1))
        },
        _ => Err((missing, pos)),
    }
}

/// `offer a, b`, with the span of the token after it.
pub closed spec fn export_spec(toks: Seq<TokenView>, spans: Seq<Span>, p: int) -> Parsed<NodeView> {
    if !(token_at(toks, p) is Offer) {
        expect_err(toks, TokenOf::Offer, p)
    } else {
        match name_list_spec(toks, p + 1, "Expected identifier in export list"@) {
            Err(e) => Err(e),
            Ok((items, q)) => Ok((NodeView::Export { items, span: span_at(spans, q) }, q)),
        }
    }
}

/// The names exported by the `offer` statements among `body`, in order.
pub open spec fn exports_of(body: Seq<NodeView>) -> Seq<Seq<char>>
    decreases body.len(),
{
    if body.len() == 0 {
        Seq::empty()
    } else {
        match body.last() {
            NodeView::Export { items, .. } => exports_of(body.drop_last()) + items,
            _ => exports_of(body.drop_last()),
        }
    }
}

/// `grove Name with ... end`: the statements of the module, and the names
/// its `offer` statements export; the span is that of the token after it.
pub closed spec fn module_spec(toks: Seq<TokenView>, spans: Seq<Span>, p: int) -> Parsed<NodeView>
    decreases toks.len() - p, 0nat,
{
    if !(token_at(toks, p) is Grove) {
        expect_err(toks, TokenOf::Grove, p)
    } else {
        match token_at(toks, p + 1) {
            TokenOf::Ident(name) => if !(token_at(toks, p + 2) is With) {
                expect_err(toks, TokenOf::With, p + 2)
            } else if !fwd(toks, p, skip_nl(toks, p + 3)) {
                Ok((NodeView::Other, p))
            } else {
                match block_spec(toks, spans, BlockEnd::End, skip_nl(toks, p + 3)) {
                    Err(e) => Err(e),
                    Ok((body, r)) => if token_at(toks, r) is End {
                        Ok((
                            NodeView::ModuleDecl { name, body, exports: exports_of(body), span: span_at(spans, r + 1) },
                            r + 1,
                        ))
                    } else {
                        expect_err(toks, TokenOf::End, r)
                    },
                }
            },
            _ => Err(("Expected module name after 'grove'"@, p + 1)),
        }
    }
}

/// The end of an import at `r`: an optional `as Alias`; the span is that
/// of the token after it.
pub open spec fn alias_spec(
    toks: Seq<TokenView>,
    spans: Seq<Span>,
    module_name: Seq<char>,
    path: Seq<char>,
    items: Option<Seq<Seq<char>>>,
    r: int,
) -> Parsed<NodeView> {
    if token_at(toks, r) is As {
        match token_at(toks, r + 1) {
            TokenOf::Ident(a) => Ok((
                NodeView::Import { module_name, path, items, alias: Some(a), span: span_at(spans, r + 2) },
                r + 2,
            )),
            _ => Err(("Expected identifier after 'as'"@, r + 1)),
        }
    } else {
        Ok((NodeView::Import { module_name, path, items, alias: None, span: span_at(spans, r) }, r))
    }
}

/// `from "path"` or `from Name` at `q`: a path gives the module name
/// `module_name(path)`, a name `Name` the path `Name.gw`; a name given
/// before `from` is the module name either way.
pub open spec fn from_spec(
    toks: Seq<TokenView>,
    spans: Seq<Span>,
    hint: Option<Seq<char>>,
    items: Option<Seq<Seq<char>>>,
    q: int,
) -> Parsed<NodeView> {
    if !(token_at(toks, q) is From) {
        expect_err(toks, TokenOf::From, q)
    } else {
        match token_at(toks, q + 1) {
            TokenOf::Text(path) => alias_spec(
                toks,
                spans,
                match hint {
                    Some(h) => h,
                    None => module_name(path),
                },
                path,
                items,
                q + 2,
            ),
            TokenOf::Ident(name) => alias_spec(
                toks,
                spans,
                match hint {
                    Some(h) => h,
                    None => name,
                },
                name + ".gw"@,
                items,
                q + 2,
            ),
            _ => Err(("Expected module path (string) or name (identifier) after 'from'"@, q + 1)),
        }
    }
}

/// `summon [Name] from ...` (the whole module) or `gather a, b from ...`
/// (the named items).
pub closed spec fn import_spec(toks: Seq<TokenView>, spans: Seq<Span>, p: int) -> Parsed<NodeView> {
    if token_at(toks, p) is Gather {
        match name_list_spec(toks, p + 1, "Expected identifier in gather list"@) {
            Err(e) => Err(e),
            Ok((items, q)) => from_spec(toks, spans, None, Some(items), q),
        }
    } else if !(token_at(toks, p) is Summon) {
        expect_err(toks, TokenOf::Summon, p)
    } else {
        match token_at(toks, p + 1) {
            TokenOf::From => from_spec(toks, spans, None, None, p + 1),
            TokenOf::Ident(n) => from_spec(toks, spans, Some(n), None, p + 2),
            _ => Err(("Expected module name or 'from' after 'summon'"@, p + 1)),
        }
    }
}

/// One step of `name_list_spec`.
pub proof fn unfold_name_list_spec(toks: Seq<TokenView>, pos: int, missing: Seq<char>)
    ensures
        name_list_spec(toks, pos, missing) == ({
            match token_at(toks, pos) {
                TokenOf::Ident(name) => if token_at(toks, pos + 1) is Comma && pos + 2 <= toks.len() {
                    match name_list_spec(toks, pos + 2, missing) {
                        Err(e) => Err(e),
                        Ok((rest, q)) => Ok((seq![name] + rest, q)),
                    }
                } else {
                    Ok((seq![name], pos + 1))
                },
                _ => Err((missing, pos)),
            }
        }),
{
}

/// One step of `export_spec`.
pub proof fn unfold_export_spec(toks: Seq<TokenView>, spans: Seq<Span>, p: int)
    ensures
        export_spec(toks, spans, p) == (if !(token_at(toks, p) is Offer) {
            expect_err(toks, TokenOf::Offer, p)
        } else {
            match name_list_spec(toks, p + 1, "Expected identifier in export list"@) {
                Err(e) => Err(e),
                Ok((items, q)) => Ok((NodeView::Export { items, span: span_at(spans, q) }, q)),
            }
        }),
{
}

/// One step of `module_spec`.
pub proof fn unfold_module_spec(toks: Seq<TokenView>, spans: Seq<Span>, p: int)
    ensures
        module_spec(toks, spans, p) == (if !(token_at(toks, p) is Grove) {
            expect_err(toks, TokenOf::Grove, p)
        } else {
            match token_at(toks, p + 1) {
                TokenOf::Ident(name) => if !(token_at(toks, p + 2) is With) {
                    expect_err(toks, TokenOf::With, p + 2)
                } else if !fwd(toks, p, skip_nl(toks, p + 3)) {
                    Ok((NodeView::Other, p))
                } else {
                    match block_spec(toks, spans, BlockEnd::End, skip_nl(toks, p + 3)) {
                        Err(e) => Err(e),
                        Ok((body, r)) => if token_at(toks, r) is End {
                            Ok((
                                NodeView::ModuleDecl { name, body, exports: exports_of(body), span: span_at(spans, r + 1) },
                                r + 1,
                            ))
                        } else {
                            expect_err(toks, TokenOf::End, r)
                        },
                    }
                },
                _ => Err(("Expected module name after 'grove'"@, p + 1)),
            }
        }),
{
}

/// One step of `import_spec`.
pub proof fn unfold_import_spec(toks: Seq<TokenView>, spans: Seq<Span>, p: int)
    ensures
        import_spec(toks, spans, p) == (if token_at(toks, p) is Gather {
            match name_list_spec(toks, p + 1, "Expected identifier in gather list"@) {
                Err(e) => Err(e),
                Ok((items, q)) => from_spec(toks, spans, None, Some(items), q),
            }
        } else if !(token_at(toks, p) is Summon) {
            expect_err(toks, TokenOf::Summon, p)
        } else {
            match token_at(toks, p + 1) {
                TokenOf::From => from_spec(toks, spans, None, None, p + 1),
                TokenOf::Ident(n) => from_spec(toks, spans, Some(n), None, p + 2),
                _ => Err(("Expected module name or 'from' after 'summon'"@, p + 1)),
            }
        }),
{
}


/// `embody Aspect[<Types>] for Type then chant ... end ... end`: the
/// implemented methods, each a `chant`; the span is that of the token after
/// it.
pub closed spec fn embody_spec(toks: Seq<TokenView>, spans: Seq<Span>, p: int) -> Parsed<NodeView>
    decreases toks.len() - p, 0nat,
{
    if !(token_at(toks, p) is Embody) {
        expect_err(toks, TokenOf::Embody, p)
    } else {
        match token_at(toks, p + 1) {
            TokenOf::Ident(aspect) => {
                let targs: Parsed<Seq<TypeView>> = if token_at(toks, p + 2) is LeftAngle {
                    match type_args_spec(toks, p + 3) {
                        Err(e) => Err(e),
                        Ok((ts, q)) => if token_at(toks, q) is RightAngle {
                            Ok((ts, q + 1))
                        } else {
                            expect_err(toks, TokenOf::RightAngle, q)
                        },
                    }
                } else {
                    Ok((Seq::empty(), p + 2))
                };
                match targs {
                    Err(e) => Err(e),
                    Ok((ts, q)) => if !(token_at(toks, q) is For) {
                        expect_err(toks, TokenOf::For, q)
                    } else {
                        match type_spec(toks, q + 1) {
                            Err(e) => Err(e),
                            Ok((target, r)) => if !(token_at(toks, r) is Then) {
                                expect_err(toks, TokenOf::Then, r)
                            } else if !fwd(toks, p, skip_nl(toks, r + 1)) {
                                Ok((NodeView::Other, p))
                            } else {
                                match methods_spec(toks, spans, skip_nl(toks, r + 1)) {
                                    Err(e) => Err(e),
                                    Ok((ms, s)) => if token_at(toks, s) is End {
                                        Ok((
                                            NodeView::EmbodyStmt {
                                                aspect_name: aspect,
                                                type_args: ts,
                                                target_type: target,
                                                methods: ms,
                                                span: span_at(spans, s + 1),
                                            },
                                            s + 1,
                                        ))
                                    } else {
                                        expect_err(toks, TokenOf::End, s)
                                    },
                                }
                            },
                        }
                    },
                }
            },
            _ => Err(("Expected aspect name after 'embody'"@, p + 1)),
        }
    }
}

/// `chant` definitions up to `end` (not taken) or the end of input, with
/// the newlines after each skipped.
pub closed spec fn methods_spec(toks: Seq<TokenView>, spans: Seq<Span>, pos: int) -> Parsed<Seq<NodeView>>
    decreases toks.len() - pos, 1nat,
{
    if ends_block(BlockEnd::End, token_at(toks, pos)) || !(pos <= toks.len()) {
        Ok((Seq::empty(), pos))
    } else {
        match chant_spec(toks, spans, pos) {
            Err(e) => Err(e),
            Ok((m, q)) => if pos < q && fwd(toks, pos, skip_nl(toks, q)) {
                match methods_spec(toks, spans, skip_nl(toks, q)) {
                    Err(e) => Err(e),
                    Ok((rest, r)) => Ok((seq![m] + rest, r)),
                }
            } else {
                Ok((seq![m], q))
            },
        }
    }
}

/// One step of `embody_spec`.
pub proof fn unfold_embody_spec(toks: Seq<TokenView>, spans: Seq<Span>, p: int)
    ensures
        embody_spec(toks, spans, p) == (if !(token_at(toks, p) is Embody) {
            expect_err(toks, TokenOf::Embody, p)
        } else {
            match token_at(toks, p + 1) {
                TokenOf::Ident(aspect) => {
                    let targs: Parsed<Seq<TypeView>> = if token_at(toks, p + 2) is LeftAngle {
                        match type_args_spec(toks, p + 3) {
                            Err(e) => Err(e),
                            Ok((ts, q)) => if token_at(toks, q) is RightAngle {
                                Ok((ts, q + 1))
                            } else {
                                expect_err(toks, TokenOf::RightAngle, q)
                            },
                        }
                    } else {
                        Ok((Seq::empty(), p + 2))
                    };
                    match targs {
                        Err(e) => Err(e),
                        Ok((ts, q)) => if !(token_at(toks, q) is For) {
                            expect_err(toks, TokenOf::For, q)
                        } else {
                            match type_spec(toks, q + 1) {
                                Err(e) => Err(e),
                                Ok((target, r)) => if !(token_at(toks, r) is Then) {
                                    expect_err(toks, TokenOf::Then, r)
                                } else if !fwd(toks, p, skip_nl(toks, r + 1)) {
                                    Ok((NodeView::Other, p))
                                } else {
                                    match methods_spec(toks, spans, skip_nl(toks, r + 1)) {
                                        Err(e) => Err(e),
                                        Ok((ms, s)) => if token_at(toks, s) is End {
                                            Ok((
                                                NodeView::EmbodyStmt {
                                                    aspect_name: aspect,
                                                    type_args: ts,
                                                    target_type: target,
                                                    methods: ms,
                                                    span: span_at(spans, s + 1),
                                                },
                                                s + 1,
                                            ))
                                        } else {
                                            expect_err(toks, TokenOf::End, s)
                                        },
                                    }
                                },
                            }
                        },
                    }
                },
                _ => Err(("Expected aspect name after 'embody'"@, p + 1)),
            }
        }),
{
}

/// One step of `methods_spec`.
pub proof fn unfold_methods_spec(toks: Seq<TokenView>, spans: Seq<Span>, pos: int)
    ensures
        methods_spec(toks, spans, pos) == (if ends_block(BlockEnd::End, token_at(toks, pos)) || !(pos <= toks.len()) {
            Ok((Seq::empty(), pos))
        } else {
            match chant_spec(toks, spans, pos) {
                Err(e) => Err(e),
                Ok((m, q)) => if pos < q && fwd(toks, pos, skip_nl(toks, q)) {
                    match methods_spec(toks, spans, skip_nl(toks, q)) {
                        Err(e) => Err(e),
                        Ok((rest, r)) => Ok((seq![m] + rest, r)),
                    }
                } else {
                    Ok((seq![m], q))
                },
            }
        }),
{
}


/// The parameters after `self` in a method signature: `, name [: Type]`
/// each; a comma right before `)` ends them.
pub closed spec fn sig_params_spec(toks: Seq<TokenView>, pos: int) -> Parsed<Seq<ParamView>>
    decreases toks.len() - pos,
{
    if !(token_at(toks, pos) is Comma) {
        Ok((Seq::empty(), pos))
    } else if token_at(toks, pos + 1) is RightParen {
        Ok((Seq::empty(), pos + 1))
    } else {
        match token_at(toks, pos + 1) {
            TokenOf::Ident(n) => {
                let t: Parsed<Option<TypeView>> = if token_at(toks, pos + 2) is Colon {
                    match type_spec(toks, pos + 3) {
                        Err(e) => Err(e),
                        Ok((ty, s)) => Ok((Some(ty), s)),
                    }
                } else {
                    Ok((None, pos + 2))
                };
                match t {
                    Err(e) => Err(e),
                    Ok((typ, s)) => {
                        let prm = ParamView { name: n, typ, is_variadic: false, borrow_mode: BorrowMode::Owned, lifetime: None };
                        if pos < s {
                            match sig_params_spec(toks, s) {
                                Err(e) => Err(e),
                                Ok((rest, r)) => Ok((seq![prm] + rest, r)),
                            }
                        } else {
                            Ok((seq![prm], s))
                        }
                    },
                }
            },
            _ => Err(("Expected parameter name"@, pos + 1)),
        }
    }
}

/// The `self` parameter of a method signature.
pub open spec fn self_param() -> ParamView {
    ParamView { name: "self"@, typ: None, is_variadic: false, borrow_mode: BorrowMode::Owned, lifetime: None }
}

/// A method signature `chant name(self, ...) [-> Type]`: its name, its
/// parameters (`self` first) and its return type.
pub closed spec fn sig_spec(toks: Seq<TokenView>, pos: int) -> Parsed<(Seq<char>, Seq<ParamView>, Option<TypeView>)> {
    if !(token_at(toks, pos) is Chant) {
        expect_err(toks, TokenOf::Chant, pos)
    } else {
        match token_at(toks, pos + 1) {
            TokenOf::Ident(m) => if !(token_at(toks, pos + 2) is LeftParen) {
                expect_err(toks, TokenOf::LeftParen, pos + 2)
            } else if token_at(toks, pos + 3) != TokenOf::<Seq<char>>::Ident("self"@) {
                Err(("Trait methods must have 'self' as first parameter"@, pos + 3))
            } else {
                match sig_params_spec(toks, pos + 4) {
                    Err(e) => Err(e),
                    Ok((rest, r)) => if !(token_at(toks, r) is RightParen) {
                        expect_err(toks, TokenOf::RightParen, r)
                    } else if token_at(toks, r + 1) is Arrow {
                        match type_spec(toks, r + 2) {
                            Err(e) => Err(e),
                            Ok((t, s)) => Ok(((m, seq![self_param()] + rest, Some(t)), s)),
                        }
                    } else {
                        Ok(((m, seq![self_param()] + rest, None), r + 1))
                    },
                }
            },
            _ => Err(("Expected method name in aspect"@, pos + 1)),
        }
    }
}

/// Method signatures up to `end` (not taken) or the end of input, with the
/// newlines after each skipped.
pub closed spec fn sigs_spec(toks: Seq<TokenView>, pos: int) -> Parsed<Seq<(Seq<char>, Seq<ParamView>, Option<TypeView>)>>
    decreases toks.len() - pos,
{
    if ends_block(BlockEnd::End, token_at(toks, pos)) || !(pos <= toks.len()) {
        Ok((Seq::empty(), pos))
    } else {
        match sig_spec(toks, pos) {
            Err(e) => Err(e),
            Ok((m, q)) => if pos < q && fwd(toks, pos, skip_nl(toks, q)) {
                match sigs_spec(toks, skip_nl(toks, q)) {
                    Err(e) => Err(e),
                    Ok((rest, r)) => Ok((seq![m] + rest, r)),
                }
            } else {
                Ok((seq![m], q))
            },
        }
    }
}

/// `aspect Name[<T, U>] then <signatures> end`; the span is that of the
/// token after it.
pub closed spec fn aspect_spec(toks: Seq<TokenView>, spans: Seq<Span>, p: int) -> Parsed<NodeView> {
    if !(token_at(toks, p) is Aspect) {
        expect_err(toks, TokenOf::Aspect, p)
    } else {
        match token_at(toks, p + 1) {
            TokenOf::Ident(name) => match generics_spec(toks, p + 2) {
                Err(e) => Err(e),
                Ok((tps, q)) => if !(token_at(toks, q) is Then) {
                    expect_err(toks, TokenOf::Then, q)
                } else {
                    match sigs_spec(toks, skip_nl(toks, q + 1)) {
                        Err(e) => Err(e),
                        Ok((ms, s)) => if token_at(toks, s) is End {
                            Ok((NodeView::AspectDef { name, type_params: tps, methods: ms, span: span_at(spans, s + 1) }, s + 1))
                        } else {
                            expect_err(toks, TokenOf::End, s)
                        },
                    }
                },
            },
            _ => Err(("Expected identifier after 'aspect'"@, p + 1)),
        }
    }
}

/// One step of `sig_params_spec`.
pub proof fn unfold_sig_params_spec(toks: Seq<TokenView>, pos: int)
    ensures
        sig_params_spec(toks, pos) == (if !(token_at(toks, pos) is Comma) {
            Ok((Seq::empty(), pos))
        } else if token_at(toks, pos + 1) is RightParen {
            Ok((Seq::empty(), pos + 1))
        } else {
            match token_at(toks, pos + 1) {
                TokenOf::Ident(n) => {
                    let t: Parsed<Option<TypeView>> = if token_at(toks, pos + 2) is Colon {
                        match type_spec(toks, pos + 3) {
                            Err(e) => Err(e),
                            Ok((ty, s)) => Ok((Some(ty), s)),
                        }
                    } else {
                        Ok((None, pos + 2))
                    };
                    match t {
                        Err(e) => Err(e),
                        Ok((typ, s)) => {
                            let prm = ParamView { name: n, typ, is_variadic: false, borrow_mode: BorrowMode::Owned, lifetime: None };
                            if pos < s {
                                match sig_params_spec(toks, s) {
                                    Err(e) => Err(e),
                                    Ok((rest, r)) => Ok((seq![prm] + rest, r)),
                                }
                            } else {
                                Ok((seq![prm], s))
                            }
                        },
                    }
                },
                _ => Err(("Expected parameter name"@, pos + 1)),
            }
        }),
{
}

/// One step of `sig_spec`.
pub proof fn unfold_sig_spec(toks: Seq<TokenView>, pos: int)
    ensures
        sig_spec(toks, pos) == (if !(token_at(toks, pos) is Chant) {
            expect_err(toks, TokenOf::Chant, pos)
        } else {
            match token_at(toks, pos + 1) {
                TokenOf::Ident(m) => if !(token_at(toks, pos + 2) is LeftParen) {
                    expect_err(toks, TokenOf::LeftParen, pos + 2)
                } else if token_at(toks, pos + 3) != TokenOf::<Seq<char>>::Ident("self"@) {
                    Err(("Trait methods must have 'self' as first parameter"@, pos + 3))
                } else {
                    match sig_params_spec(toks, pos + 4) {
                        Err(e) => Err(e),
                        Ok((rest, r)) => if !(token_at(toks, r) is RightParen) {
                            expect_err(toks, TokenOf::RightParen, r)
                        } else if token_at(toks, r + 1) is Arrow {
                            match type_spec(toks, r + 2) {
                                Err(e) => Err(e),
                                Ok((t, s)) => Ok(((m, seq![self_param()] + rest, Some(t)), s)),
                            }
                        } else {
                            Ok(((m, seq![self_param()] + rest, None), r + 1))
                        },
                    }
                },
                _ => Err(("Expected method name in aspect"@, pos + 1)),
            }
        }),
{
}

/// One step of `sigs_spec`.
pub proof fn unfold_sigs_spec(toks: Seq<TokenView>, pos: int)
    ensures
        sigs_spec(toks, pos) == (if ends_block(BlockEnd::End, token_at(toks, pos)) || !(pos <= toks.len()) {
            Ok((Seq::empty(), pos))
        } else {
            match sig_spec(toks, pos) {
                Err(e) => Err(e),
                Ok((m, q)) => if pos < q && fwd(toks, pos, skip_nl(toks, q)) {
                    match sigs_spec(toks, skip_nl(toks, q)) {
                        Err(e) => Err(e),
                        Ok((rest, r)) => Ok((seq![m] + rest, r)),
                    }
                } else {
                    Ok((seq![m], q))
                },
            }
        }),
{
}

/// One step of `aspect_spec`.
pub proof fn unfold_aspect_spec(toks: Seq<TokenView>, spans: Seq<Span>, p: int)
    ensures
        aspect_spec(toks, spans, p) == (if !(token_at(toks, p) is Aspect) {
            expect_err(toks, TokenOf::Aspect, p)
        } else {
            match token_at(toks, p + 1) {
                TokenOf::Ident(name) => match generics_spec(toks, p + 2) {
                    Err(e) => Err(e),
                    Ok((tps, q)) => if !(token_at(toks, q) is Then) {
                        expect_err(toks, TokenOf::Then, q)
                    } else {
                        match sigs_spec(toks, skip_nl(toks, q + 1)) {
                            Err(e) => Err(e),
                            Ok((ms, s)) => if token_at(toks, s) is End {
                                Ok((NodeView::AspectDef { name, type_params: tps, methods: ms, span: span_at(spans, s + 1) }, s + 1))
                            } else {
                                expect_err(toks, TokenOf::End, s)
                            },
                        }
                    },
                },
                _ => Err(("Expected identifier after 'aspect'"@, p + 1)),
            }
        }),
{
}

} // verus!
