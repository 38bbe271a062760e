//! Copies of syntax trees: each copy has the value (`node_view`) of the
//! tree it copies.

use vstd::prelude::*;
use crate::ast::{
    AstNode, ErrorHandler, Lifetime, MatchArm, Parameter, Pattern, QueryCondition, StructField, TraitMethod,
    TypeAnnotation, VariantCase,
};
use crate::parser::grammar::{
    arms_view, cases_view, conditions_view, form_fields_view, handlers_view, methods_view, names_view, node_view,
    nodes_view, opt_type_view, pairs_view, param_view, params_view, pattern_view,
};
use crate::parser::{type_view, types_view};

verus! {

/// A copy of a type annotation.
pub fn copy_type(t: &TypeAnnotation) -> (r: TypeAnnotation)
    ensures
        type_view(r) == type_view(*t),
    decreases t, 1nat,
{
    match t {
        TypeAnnotation::Named(n) => TypeAnnotation::Named(n.clone()),
        TypeAnnotation::Generic(n) => TypeAnnotation::Generic(n.clone()),
        TypeAnnotation::Parametrized { name, type_args } => TypeAnnotation::Parametrized {
            name: name.clone(),
            type_args: copy_types(type_args),
        },
        TypeAnnotation::List(x) => TypeAnnotation::List(Box::new(copy_type(&**x))),
        TypeAnnotation::MapType => TypeAnnotation::MapType,
        TypeAnnotation::Function { param_types, return_type } => TypeAnnotation::Function {
            param_types: copy_types(param_types),
            return_type: Box::new(copy_type(&**return_type)),
        },
        TypeAnnotation::Optional(x) => TypeAnnotation::Optional(Box::new(copy_type(&**x))),
        TypeAnnotation::Borrowed { lifetime, inner, mutable } => TypeAnnotation::Borrowed {
            lifetime: copy_lifetime(lifetime),
            inner: Box::new(copy_type(&**inner)),
            mutable: *mutable,
        },
    }
}

/// A copy of a list of type annotations.
pub fn copy_types(ts: &Vec<TypeAnnotation>) -> (r: Vec<TypeAnnotation>)
    ensures
        types_view(r@) == types_view(ts@),
    decreases ts, 0nat,
{
    let mut out: Vec<TypeAnnotation> = Vec::new();
    let mut i: usize = 0;
    while i < ts.len()
        invariant
            i <= ts@.len(),
            types_view(out@) == types_view(ts@.take(i as int)),
        decreases ts@.len() - i,
    {
        let t = copy_type(&ts[i]);
        let ghost before = out@;
        out.push(t);
        proof {
            assert(out@.drop_last() =~= before);
            assert(ts@.take(i + 1).drop_last() =~= ts@.take(i as int));
        }
        i += 1;
    }
    assert(ts@.take(i as int) =~= ts@);
    out
}

/// A copy of an optional type annotation.
pub fn copy_opt_type(t: &Option<TypeAnnotation>) -> (r: Option<TypeAnnotation>)
    ensures
        opt_type_view(r) == opt_type_view(*t),
{
    match t {
        Some(t) => Some(copy_type(t)),
        None => None,
    }
}

/// A copy of an optional lifetime.
pub fn copy_lifetime(l: &Option<Lifetime>) -> (r: Option<Lifetime>)
    ensures
        r is Some <==> l is Some,
        r is Some ==> r->0.name@ == l->0.name@,
{
    match l {
        Some(l) => Some(Lifetime { name: l.name.clone() }),
        None => None,
    }
}

/// A copy of a list of names.
pub fn copy_names(ns: &Vec<String>) -> (r: Vec<String>)
    ensures
        names_view(r@) == names_view(ns@),
{
    let mut out: Vec<String> = Vec::new();
    let mut i: usize = 0;
    while i < ns.len()
        invariant
            i <= ns@.len(),
            out@.len() == i,
            forall|j: int| 0 <= j < i ==> #[trigger] out@[j]@ == ns@[j]@,
        decreases ns@.len() - i,
    {
        out.push(ns[i].clone());
        i += 1;
    }
    assert(names_view(out@) =~= names_view(ns@));
    out
}

/// A copy of a list of lifetimes.
pub fn copy_lifetimes(ls: &Vec<Lifetime>) -> (r: Vec<Lifetime>)
    ensures
        r@.map_values(|l: Lifetime| l.name@) == ls@.map_values(|l: Lifetime| l.name@),
{
    let mut out: Vec<Lifetime> = Vec::new();
    let mut i: usize = 0;
    while i < ls.len()
        invariant
            i <= ls@.len(),
            out@.len() == i,
            forall|j: int| 0 <= j < i ==> #[trigger] out@[j].name@ == ls@[j].name@,
        decreases ls@.len() - i,
    {
        out.push(Lifetime { name: ls[i].name.clone() });
        i += 1;
    }
    assert(out@.map_values(|l: Lifetime| l.name@) =~= ls@.map_values(|l: Lifetime| l.name@));
    out
}

/// A copy of a parameter.
pub fn copy_param(p: &Parameter) -> (r: Parameter)
    ensures
        param_view(r) == param_view(*p),
{
    Parameter {
        name: p.name.clone(),
        typ: copy_opt_type(&p.typ),
        is_variadic: p.is_variadic,
        borrow_mode: p.borrow_mode,
        lifetime: copy_lifetime(&p.lifetime),
    }
}

/// A copy of a list of parameters.
pub fn copy_params(ps: &Vec<Parameter>) -> (r: Vec<Parameter>)
    ensures
        params_view(r@) == params_view(ps@),
{
    let mut out: Vec<Parameter> = Vec::new();
    let mut i: usize = 0;
    while i < ps.len()
        invariant
            i <= ps@.len(),
            out@.len() == i,
            forall|j: int| 0 <= j < i ==> #[trigger] param_view(out@[j]) == param_view(ps@[j]),
        decreases ps@.len() - i,
    {
        out.push(copy_param(&ps[i]));
        i += 1;
    }
    assert(params_view(out@) =~= params_view(ps@));
    out
}

/// A copy of a list of struct fields.
pub fn copy_fields(fs: &Vec<StructField>) -> (r: Vec<StructField>)
    ensures
        form_fields_view(r@) == form_fields_view(fs@),
{
    let mut out: Vec<StructField> = Vec::new();
    let mut i: usize = 0;
    while i < fs.len()
        invariant
            i <= fs@.len(),
            out@.len() == i,
            forall|j: int| 0 <= j < i ==> #[trigger] out@[j].name@ == fs@[j].name@ && type_view(out@[j].typ) == type_view(fs@[j].typ),
        decreases fs@.len() - i,
    {
        out.push(StructField { name: fs[i].name.clone(), typ: copy_type(&fs[i].typ) });
        i += 1;
    }
    assert(form_fields_view(out@) =~= form_fields_view(fs@));
    out
}

/// A copy of a list of enum cases.
fn copy_cases(cs: &Vec<VariantCase>) -> (r: Vec<VariantCase>)
    ensures
        cases_view(r@) == cases_view(cs@),
{
    let mut out: Vec<VariantCase> = Vec::new();
    let mut i: usize = 0;
    while i < cs.len()
        invariant
            i <= cs@.len(),
            out@.len() == i,
            forall|j: int| 0 <= j < i ==> #[trigger] out@[j].name@ == cs@[j].name@ && params_view(out@[j].fields@) == params_view(cs@[j].fields@),
        decreases cs@.len() - i,
    {
        out.push(VariantCase { name: cs[i].name.clone(), fields: copy_params(&cs[i].fields) });
        i += 1;
    }
    assert(cases_view(out@) =~= cases_view(cs@));
    out
}

/// A copy of a list of trait method signatures.
fn copy_methods(ms: &Vec<TraitMethod>) -> (r: Vec<TraitMethod>)
    ensures
        methods_view(r@) == methods_view(ms@),
{
    let mut out: Vec<TraitMethod> = Vec::new();
    let mut i: usize = 0;
    while i < ms.len()
        invariant
            i <= ms@.len(),
            out@.len() == i,
            forall|j: int| 0 <= j < i ==> #[trigger] out@[j].name@ == ms@[j].name@
                && params_view(out@[j].params@) == params_view(ms@[j].params@)
                && opt_type_view(out@[j].return_type) == opt_type_view(ms@[j].return_type),
        decreases ms@.len() - i,
    {
        out.push(TraitMethod {
            name: ms[i].name.clone(),
            params: copy_params(&ms[i].params),
            return_type: copy_opt_type(&ms[i].return_type),
        });
        i += 1;
    }
    assert(methods_view(out@) =~= methods_view(ms@));
    out
}

/// A copy of a list of nodes.
pub fn copy_nodes(ns: &Vec<AstNode>) -> (r: Vec<AstNode>)
    ensures
        nodes_view(r@) == nodes_view(ns@),
    decreases ns, 0nat,
{
    let mut out: Vec<AstNode> = Vec::new();
    let mut i: usize = 0;
    while i < ns.len()
        invariant
            i <= ns@.len(),
            nodes_view(out@) == nodes_view(ns@.take(i as int)),
        decreases ns@.len() - i,
    {
        let n = copy_node(&ns[i]);
        let ghost before = out@;
        out.push(n);
        proof {
            assert(out@.drop_last() =~= before);
            assert(ns@.take(i + 1).drop_last() =~= ns@.take(i as int));
        }
        i += 1;
    }
    assert(ns@.take(i as int) =~= ns@);
    out
}

/// A copy of a list of named nodes.
fn copy_pairs(ps: &Vec<(String, AstNode)>) -> (r: Vec<(String, AstNode)>)
    ensures
        pairs_view(r@) == pairs_view(ps@),
    decreases ps, 0nat,
{
    let mut out: Vec<(String, AstNode)> = Vec::new();
    let mut i: usize = 0;
    while i < ps.len()
        invariant
            i <= ps@.len(),
            pairs_view(out@) == pairs_view(ps@.take(i as int)),
        decreases ps@.len() - i,
    {
        let n = copy_node(&ps[i].1);
        let ghost before = out@;
        out.push((ps[i].0.clone(), n));
        proof {
            assert(out@.drop_last() =~= before);
            assert(ps@.take(i + 1).drop_last() =~= ps@.take(i as int));
        }
        i += 1;
    }
    assert(ps@.take(i as int) =~= ps@);
    out
}

/// A copy of a list of query conditions.
fn copy_conditions(cs: &Vec<QueryCondition>) -> (r: Vec<QueryCondition>)
    ensures
        conditions_view(r@) == conditions_view(cs@),
    decreases cs, 0nat,
{
    let mut out: Vec<QueryCondition> = Vec::new();
    let mut i: usize = 0;
    while i < cs.len()
        invariant
            i <= cs@.len(),
            conditions_view(out@) == conditions_view(cs@.take(i as int)),
        decreases cs@.len() - i,
    {
        let v = copy_node(&*cs[i].value);
        let ghost before = out@;
        out.push(QueryCondition { field: cs[i].field.clone(), operator: cs[i].operator, value: Box::new(v) });
        proof {
            assert(out@.drop_last() =~= before);
            assert(cs@.take(i + 1).drop_last() =~= cs@.take(i as int));
        }
        i += 1;
    }
    assert(cs@.take(i as int) =~= cs@);
    out
}

/// A copy of a match pattern.
fn copy_pattern(p: &Pattern) -> (r: Pattern)
    ensures
        pattern_view(r) == pattern_view(*p),
    decreases p, 1nat,
{
    match p {
        Pattern::Literal(n) => Pattern::Literal(copy_node(n)),
        Pattern::Ident(name) => Pattern::Ident(name.clone()),
        Pattern::Wildcard => Pattern::Wildcard,
        Pattern::Enum { variant, inner } => Pattern::Enum {
            variant: variant.clone(),
            inner: match inner {
                Some(i) => Some(Box::new(copy_pattern(&**i))),
                None => None,
            },
        },
    }
}

/// A copy of a list of match arms.
fn copy_arms(arms: &Vec<MatchArm>) -> (r: Vec<MatchArm>)
    ensures
        arms_view(r@) == arms_view(arms@),
    decreases arms, 0nat,
{
    let mut out: Vec<MatchArm> = Vec::new();
    let mut i: usize = 0;
    while i < arms.len()
        invariant
            i <= arms@.len(),
            arms_view(out@) == arms_view(arms@.take(i as int)),
        decreases arms@.len() - i,
    {
        let pattern = copy_pattern(&arms[i].pattern);
        let body = copy_nodes(&arms[i].body);
        let ghost before = out@;
        out.push(MatchArm { pattern, body });
        proof {
            assert(out@.drop_last() =~= before);
            assert(arms@.take(i + 1).drop_last() =~= arms@.take(i as int));
        }
        i += 1;
    }
    assert(arms@.take(i as int) =~= arms@);
    out
}

/// A copy of a list of error handlers.
fn copy_handlers(hs: &Vec<ErrorHandler>) -> (r: Vec<ErrorHandler>)
    ensures
        handlers_view(r@) == handlers_view(hs@),
    decreases hs, 0nat,
{
    let mut out: Vec<ErrorHandler> = Vec::new();
    let mut i: usize = 0;
    while i < hs.len()
        invariant
            i <= hs@.len(),
            handlers_view(out@) == handlers_view(hs@.take(i as int)),
        decreases hs@.len() - i,
    {
        let body = copy_nodes(&hs[i].body);
        let ghost before = out@;
        out.push(ErrorHandler { error_type: hs[i].error_type.clone(), body });
        proof {
            assert(out@.drop_last() =~= before);
            assert(hs@.take(i + 1).drop_last() =~= hs@.take(i as int));
        }
        i += 1;
    }
    assert(hs@.take(i as int) =~= hs@);
    out
}

/// A copy of an optional list of names.
fn copy_opt_names(ns: &Option<Vec<String>>) -> (r: Option<Vec<String>>)
    ensures
        r is Some <==> ns is Some,
        r is Some ==> names_view(r->0@) == names_view(ns->0@),
{
    match ns {
        Some(v) => Some(copy_names(v)),
        None => None,
    }
}

/// A copy of a syntax node.
#[verifier::spinoff_prover]
#[verifier::rlimit(40)]
pub fn copy_node(n: &AstNode) -> (r: AstNode)
    ensures
        node_view(r) == node_view(*n),
    decreases n, 2nat,
{
    match n {
        AstNode::BindStmt { name, typ, value, span } => AstNode::BindStmt {
            name: name.clone(),
            typ: copy_opt_type(typ),
            value: Box::new(copy_node(&**value)),
            span: *span,
        },
        AstNode::WeaveStmt { name, typ, value, span } => AstNode::WeaveStmt {
            name: name.clone(),
            typ: copy_opt_type(typ),
            value: Box::new(copy_node(&**value)),
            span: *span,
        },
        AstNode::SetStmt { target, value, span } => AstNode::SetStmt {
            target: Box::new(copy_node(&**target)),
            value: Box::new(copy_node(&**value)),
            span: *span,
        },
        AstNode::IfStmt { condition, then_branch, else_branch, span } => AstNode::IfStmt {
            condition: Box::new(copy_node(&**condition)),
            then_branch: copy_nodes(then_branch),
            else_branch: match else_branch {
                Some(b) => Some(copy_nodes(b)),
                None => None,
            },
            span: *span,
        },
        AstNode::ForStmt { variable, iterable, body, span } => AstNode::ForStmt {
            variable: variable.clone(),
            iterable: Box::new(copy_node(&**iterable)),
            body: copy_nodes(body),
            span: *span,
        },
        AstNode::WhileStmt { condition, body, span } => AstNode::WhileStmt {
            condition: Box::new(copy_node(&**condition)),
            body: copy_nodes(body),
            span: *span,
        },
        AstNode::ChantDef { name, type_params, lifetime_params, params, return_type, body, span } => AstNode::ChantDef {
            name: name.clone(),
            type_params: copy_names(type_params),
            lifetime_params: copy_lifetimes(lifetime_params),
            params: copy_params(params),
            return_type: copy_opt_type(return_type),
            body: copy_nodes(body),
            span: *span,
        },
        AstNode::FormDef { name, type_params, fields, span } => AstNode::FormDef {
            name: name.clone(),
            type_params: copy_names(type_params),
            fields: copy_fields(fields),
            span: *span,
        },
        AstNode::VariantDef { name, type_params, variants, span } => AstNode::VariantDef {
            name: name.clone(),
            type_params: copy_names(type_params),
            variants: copy_cases(variants),
            span: *span,
        },
        AstNode::AspectDef { name, type_params, methods, span } => AstNode::AspectDef {
            name: name.clone(),
            type_params: copy_names(type_params),
            methods: copy_methods(methods),
            span: *span,
        },
        AstNode::EmbodyStmt { aspect_name, type_args, target_type, methods, span } => AstNode::EmbodyStmt {
            aspect_name: aspect_name.clone(),
            type_args: copy_types(type_args),
            target_type: copy_type(target_type),
            methods: copy_nodes(methods),
            span: *span,
        },
        AstNode::YieldStmt { value, span } => AstNode::YieldStmt { value: Box::new(copy_node(&**value)), span: *span },
        AstNode::MatchStmt { value, arms, span } => AstNode::MatchStmt {
            value: Box::new(copy_node(&**value)),
            arms: copy_arms(arms),
            span: *span,
        },
        AstNode::AttemptStmt { body, handlers, span } => AstNode::AttemptStmt {
            body: copy_nodes(body),
            handlers: copy_handlers(handlers),
            span: *span,
        },
        AstNode::RequestStmt { capability, justification, span } => AstNode::RequestStmt {
            capability: Box::new(copy_node(&**capability)),
            justification: justification.clone(),
            span: *span,
        },
        AstNode::ModuleDecl { name, body, exports, span } => AstNode::ModuleDecl {
            name: name.clone(),
            body: copy_nodes(body),
            exports: copy_names(exports),
            span: *span,
        },
        AstNode::Import { module_name, path, items, alias, span } => AstNode::Import {
            module_name: module_name.clone(),
            path: path.clone(),
            items: copy_opt_names(items),
            alias: match alias {
                Some(a) => Some(a.clone()),
                None => None,
            },
            span: *span,
        },
        AstNode::Export { items, span } => AstNode::Export { items: copy_names(items), span: *span },
        AstNode::Number { value, span } => AstNode::Number { value: value.clone(), span: *span },
        AstNode::Text { value, span } => AstNode::Text { value: value.clone(), span: *span },
        AstNode::Truth { value, span } => AstNode::Truth { value: *value, span: *span },
        AstNode::Nothing { span } => AstNode::Nothing { span: *span },
        AstNode::Ident { name, span } => AstNode::Ident { name: name.clone(), span: *span },
        AstNode::Triumph { value, span } => AstNode::Triumph { value: Box::new(copy_node(&**value)), span: *span },
        AstNode::Mishap { value, span } => AstNode::Mishap { value: Box::new(copy_node(&**value)), span: *span },
        AstNode::Present { value, span } => AstNode::Present { value: Box::new(copy_node(&**value)), span: *span },
        AstNode::Absent { span } => AstNode::Absent { span: *span },
        AstNode::List { elements, span } => AstNode::List { elements: copy_nodes(elements), span: *span },
        AstNode::MapLiteral { entries, span } => AstNode::MapLiteral { entries: copy_pairs(entries), span: *span },
        AstNode::StructLiteral { struct_name, type_args, fields, span } => AstNode::StructLiteral {
            struct_name: struct_name.clone(),
            type_args: copy_types(type_args),
            fields: copy_pairs(fields),
            span: *span,
        },
        AstNode::BinaryOp { left, op, right, span } => AstNode::BinaryOp {
            left: Box::new(copy_node(&**left)),
            op: *op,
            right: Box::new(copy_node(&**right)),
            span: *span,
        },
        AstNode::UnaryOp { op, operand, span } => AstNode::UnaryOp {
            op: *op,
            operand: Box::new(copy_node(&**operand)),
            span: *span,
        },
        AstNode::BorrowExpr { value, mutable, span } => AstNode::BorrowExpr {
            value: Box::new(copy_node(&**value)),
            mutable: *mutable,
            span: *span,
        },
        AstNode::Call { callee, type_args, args, span } => AstNode::Call {
            callee: Box::new(copy_node(&**callee)),
            type_args: copy_types(type_args),
            args: copy_nodes(args),
            span: *span,
        },
        AstNode::FieldAccess { object, field, span } => AstNode::FieldAccess {
            object: Box::new(copy_node(&**object)),
            field: field.clone(),
            span: *span,
        },
        AstNode::ModuleAccess { module, member, span } => AstNode::ModuleAccess {
            module: module.clone(),
            member: member.clone(),
            span: *span,
        },
        AstNode::IndexAccess { object, index, span } => AstNode::IndexAccess {
            object: Box::new(copy_node(&**object)),
            index: Box::new(copy_node(&**index)),
            span: *span,
        },
        AstNode::Range { start, end, span } => AstNode::Range {
            start: Box::new(copy_node(&**start)),
            end: Box::new(copy_node(&**end)),
            span: *span,
        },
        AstNode::Pipeline { stages, span } => AstNode::Pipeline { stages: copy_nodes(stages), span: *span },
        AstNode::SeekExpr { conditions, span } => AstNode::SeekExpr {
            conditions: copy_conditions(conditions),
            span: *span,
        },
        AstNode::ExprStmt { expr, span } => AstNode::ExprStmt { expr: Box::new(copy_node(&**expr)), span: *span },
        AstNode::Block { statements, span } => AstNode::Block { statements: copy_nodes(statements), span: *span },
        AstNode::Break { span } => AstNode::Break { span: *span },
        AstNode::Continue { span } => AstNode::Continue { span: *span },
        AstNode::Try { expr, span } => AstNode::Try { expr: Box::new(copy_node(&**expr)), span: *span },
    }
}

} // verus!
