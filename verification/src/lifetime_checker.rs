//! Lifetime checking: references must not outlive the data they point to,
//! and every lifetime a type names must be declared.

use vstd::prelude::*;
use crate::ast::{AstNode, Lifetime, Parameter, TypeAnnotation};
use crate::borrow_checker::{lookup, update, lemma_first_entry};
use crate::source_location::{SourceSpan, spec_span_text};
use crate::text::push_str;

verus! {

/// Errors that can occur during lifetime checking
#[derive(Debug, Clone, PartialEq)]
pub enum LifetimeErrorOf<S> {
    /// Reference outlives the data it points to
    OutlivesReferent { reference: S, reference_lifetime: S, referent_lifetime: S, span: SourceSpan },
    /// Returning a reference to a local variable
    ReturnsLocalReference { variable: S, span: SourceSpan },
    /// Lifetime parameter not declared
    UndeclaredLifetime { lifetime: S, span: SourceSpan },
    /// Conflicting lifetime requirements
    LifetimeConflict { first: S, second: S, span: SourceSpan },
}

/// Executable lifetime error.
pub type LifetimeError = LifetimeErrorOf<String>;

/// Mathematical view of a lifetime error.
pub type LifetimeErrorView = LifetimeErrorOf<Seq<char>>;

impl View for LifetimeErrorOf<String> {
    type V = LifetimeErrorOf<Seq<char>>;

    open spec fn view(&self) -> LifetimeErrorOf<Seq<char>> {
        match self {
            LifetimeErrorOf::OutlivesReferent { reference, reference_lifetime, referent_lifetime, span } =>
                LifetimeErrorOf::OutlivesReferent {
                reference: reference@,
                reference_lifetime: reference_lifetime@,
                referent_lifetime: referent_lifetime@,
                span: *span,
            },
            LifetimeErrorOf::ReturnsLocalReference { variable, span } => LifetimeErrorOf::ReturnsLocalReference {
                variable: variable@,
                span: *span,
            },
            LifetimeErrorOf::UndeclaredLifetime { lifetime, span } => LifetimeErrorOf::UndeclaredLifetime {
                lifetime: lifetime@,
                span: *span,
            },
            LifetimeErrorOf::LifetimeConflict { first, second, span } => LifetimeErrorOf::LifetimeConflict {
                first: first@,
                second: second@,
                span: *span,
            },
        }
    }
}

/// The message of a lifetime error.
pub open spec fn lifetime_error_text(e: LifetimeErrorView) -> Seq<char> {
    match e {
        LifetimeErrorOf::OutlivesReferent { reference, reference_lifetime, referent_lifetime, span } =>
            "Reference '"@ + reference + "' with lifetime '"@ + reference_lifetime
                + "' outlives referent with lifetime '"@ + referent_lifetime + "'\n  at: "@ + spec_span_text(span),
        LifetimeErrorOf::ReturnsLocalReference { variable, span } => "Cannot return reference to local variable '"@
            + variable + "'\n  at: "@ + spec_span_text(span),
        LifetimeErrorOf::UndeclaredLifetime { lifetime, span } => "Lifetime '"@ + lifetime + "' is not declared\n  at: "@
            + spec_span_text(span),
        LifetimeErrorOf::LifetimeConflict { first, second, span } => "Conflicting lifetime requirements: '"@ + first
            + "' and '"@ + second + "'\n  at: "@ + spec_span_text(span),
    }
}

impl LifetimeErrorOf<String> {
    /// The error's message.
    pub fn to_text(&self) -> (s: String)
        ensures
            s@ == lifetime_error_text(self@),
    {
        let mut s = String::new();
        match self {
            LifetimeErrorOf::OutlivesReferent { reference, reference_lifetime, referent_lifetime, span } => {
                push_str(&mut s, "Reference '");
                push_str(&mut s, reference.as_str());
                push_str(&mut s, "' with lifetime '");
                push_str(&mut s, reference_lifetime.as_str());
                push_str(&mut s, "' outlives referent with lifetime '");
                push_str(&mut s, referent_lifetime.as_str());
                push_str(&mut s, "'\n  at: ");
                push_str(&mut s, span.to_text().as_str());
            },
            LifetimeErrorOf::ReturnsLocalReference { variable, span } => {
                push_str(&mut s, "Cannot return reference to local variable '");
                push_str(&mut s, variable.as_str());
                push_str(&mut s, "'\n  at: ");
                push_str(&mut s, span.to_text().as_str());
            },
            LifetimeErrorOf::UndeclaredLifetime { lifetime, span } => {
                push_str(&mut s, "Lifetime '");
                push_str(&mut s, lifetime.as_str());
                push_str(&mut s, "' is not declared\n  at: ");
                push_str(&mut s, span.to_text().as_str());
            },
            LifetimeErrorOf::LifetimeConflict { first, second, span } => {
                push_str(&mut s, "Conflicting lifetime requirements: '");
                push_str(&mut s, first.as_str());
                push_str(&mut s, "' and '");
                push_str(&mut s, second.as_str());
                push_str(&mut s, "'\n  at: ");
                push_str(&mut s, span.to_text().as_str());
            },
        }
        s
    }

    /// A copy of the error.
    pub fn duplicate(&self) -> (e: LifetimeError)
        ensures
            e@ == self@,
    {
        match self {
            LifetimeErrorOf::OutlivesReferent { reference, reference_lifetime, referent_lifetime, span } =>
                LifetimeErrorOf::OutlivesReferent {
                reference: reference.clone(),
                reference_lifetime: reference_lifetime.clone(),
                referent_lifetime: referent_lifetime.clone(),
                span: *span,
            },
            LifetimeErrorOf::ReturnsLocalReference { variable, span } => LifetimeErrorOf::ReturnsLocalReference {
                variable: variable.clone(),
                span: *span,
            },
            LifetimeErrorOf::UndeclaredLifetime { lifetime, span } => LifetimeErrorOf::UndeclaredLifetime {
                lifetime: lifetime.clone(),
                span: *span,
            },
            LifetimeErrorOf::LifetimeConflict { first, second, span } => LifetimeErrorOf::LifetimeConflict {
                first: first.clone(),
                second: second.clone(),
                span: *span,
            },
        }
    }
}

/// What the lifetime checker knows: the lifetimes in scope (in the order
/// they were declared), each variable's lifetime, if its type names one,
/// and the errors found so far.
pub struct LtState {
    pub declared: Seq<Seq<char>>,
    pub vars: Seq<(Seq<char>, Option<Seq<char>>)>,
    pub errors: Seq<LifetimeErrorView>,
}

pub open spec fn with_lt_error(st: LtState, e: LifetimeErrorView) -> LtState {
    LtState { errors: st.errors.push(e), ..st }
}

/// Whether the lifetime `name` may be used: `static` always may.
pub open spec fn is_declared(st: LtState, name: Seq<char>) -> bool {
    name == "static"@ || st.declared.contains(name)
}

/// An error unless the lifetime `name` is declared.
pub open spec fn require_declared(st: LtState, name: Seq<char>) -> LtState {
    if is_declared(st, name) {
        st
    } else {
        with_lt_error(st, LifetimeErrorOf::UndeclaredLifetime { lifetime: name, span: SourceSpan::spec_unknown() })
    }
}

/// Checking that every lifetime a type names is declared.
pub open spec fn type_check(st: LtState, typ: TypeAnnotation) -> LtState
    decreases typ, 1nat,
{
    match typ {
        TypeAnnotation::Borrowed { lifetime, inner, .. } => {
            let st2 = match lifetime {
                Some(lt) => require_declared(st, lt.name@),
                None => st,
            };
            type_check(st2, *inner)
        },
        TypeAnnotation::List(inner) => type_check(st, *inner),
        TypeAnnotation::Parametrized { type_args, .. } => types_check(st, type_args@),
        TypeAnnotation::Function { param_types, return_type } => type_check(
            types_check(st, param_types@),
            *return_type,
        ),
        TypeAnnotation::Optional(inner) => type_check(st, *inner),
        _ => st,
    }
}

/// Checking types in order.
pub open spec fn types_check(st: LtState, ts: Seq<TypeAnnotation>) -> LtState
    decreases ts, 0nat,
{
    if ts.len() == 0 {
        st
    } else {
        type_check(types_check(st, ts.drop_last()), ts.last())
    }
}

/// The lifetime a variable's declared type gives it: that of a borrowed type.
pub open spec fn lifetime_of(typ: Option<TypeAnnotation>) -> Option<Seq<char>> {
    match typ {
        Some(TypeAnnotation::Borrowed { lifetime: Some(lt), .. }) => Some(lt.name@),
        _ => None,
    }
}

/// Checking a parameter: its type, then its own lifetime.
pub open spec fn param_check(st: LtState, p: Parameter) -> LtState {
    let st1 = match p.typ {
        Some(t) => type_check(st, t),
        None => st,
    };
    match p.lifetime {
        Some(lt) => require_declared(st1, lt.name@),
        None => st1,
    }
}

/// Checking parameters in order.
pub open spec fn params_check(st: LtState, ps: Seq<Parameter>) -> LtState
    decreases ps.len(),
{
    if ps.len() == 0 {
        st
    } else {
        param_check(params_check(st, ps.drop_last()), ps.last())
    }
}

/// Names of lifetimes.
pub open spec fn lifetime_names(ls: Seq<Lifetime>) -> Seq<Seq<char>> {
    ls.map_values(|l: Lifetime| l.name@)
}

/// Checking nodes in order.
pub open spec fn nodes_check(st: LtState, nodes: Seq<AstNode>) -> LtState
    decreases nodes, 0nat,
{
    if nodes.len() == 0 {
        st
    } else {
        node_check(nodes_check(st, nodes.drop_last()), nodes.last())
    }
}

/// The lifetime rules for a function: its lifetime parameters are in scope
/// for its parameters, return type and body, and are dropped afterwards
/// (every declaration of those names is).
pub open spec fn chant_check(st: LtState, node: AstNode) -> LtState
    decreases node, 1nat,
{
    match node {
        AstNode::ChantDef { lifetime_params, params, body, return_type, .. } => {
            let names = lifetime_names(lifetime_params@);
            let st1 = LtState { declared: st.declared + names, ..st };
            let st2 = params_check(st1, params@);
            let st3 = match return_type {
                Some(t) => type_check(st2, t),
                None => st2,
            };
            let st4 = nodes_check(st3, body@);
            LtState { declared: st4.declared.filter(|l: Seq<char>| !names.contains(l)), ..st4 }
        },
        _ => st,
    }
}

/// The lifetime rules for one node.
pub open spec fn node_check(st: LtState, node: AstNode) -> LtState
    decreases node, 2nat,
{
    match node {
        AstNode::BindStmt { name, typ, value, .. } => {
            let st1 = node_check(st, *value);
            LtState { vars: update(st1.vars, name@, lifetime_of(typ)), ..st1 }
        },
        AstNode::WeaveStmt { name, typ, value, .. } => {
            let st1 = node_check(st, *value);
            LtState { vars: update(st1.vars, name@, lifetime_of(typ)), ..st1 }
        },
        AstNode::ChantDef { .. } => chant_check(st, node),
        AstNode::YieldStmt { value, span } => {
            let st1 = match *value {
                AstNode::Ident { name, .. } => match lookup(st.vars, name@) {
                    Some(Some(_)) => with_lt_error(
                        st,
                        LifetimeErrorOf::ReturnsLocalReference { variable: name@, span },
                    ),
                    _ => st,
                },
                _ => st,
            };
            node_check(st1, *value)
        },
        AstNode::IfStmt { condition, then_branch, else_branch, .. } => {
            let st1 = nodes_check(node_check(st, *condition), then_branch@);
            match else_branch {
                Some(eb) => nodes_check(st1, eb@),
                None => st1,
            }
        },
        AstNode::WhileStmt { condition, body, .. } => nodes_check(node_check(st, *condition), body@),
        AstNode::BinaryOp { left, right, .. } => node_check(node_check(st, *left), *right),
        AstNode::Call { callee, args, .. } => nodes_check(node_check(st, *callee), args@),
        _ => st,
    }
}

/// The lifetimes a function declares are out of scope once the function
/// has been checked, even where an enclosing scope declared the same name.
pub proof fn lemma_function_lifetimes_dropped(st: LtState, node: AstNode, l: Seq<char>)
    requires
        node is ChantDef,
        lifetime_names(node->ChantDef_lifetime_params@).contains(l),
    ensures
        !chant_check(st, node).declared.contains(l),
{
    match node {
        AstNode::ChantDef { lifetime_params, params, body, return_type, .. } => {
            let names = lifetime_names(lifetime_params@);
            let st1 = LtState { declared: st.declared + names, ..st };
            let st2 = params_check(st1, params@);
            let st3 = match return_type {
                Some(t) => type_check(st2, t),
                None => st2,
            };
            let st4 = nodes_check(st3, body@);
            let pred = |x: Seq<char>| !names.contains(x);
            let f = st4.declared.filter(pred);
            assert(chant_check(st, node).declared == f);
            if f.contains(l) {
                let i = choose|i: int| 0 <= i < f.len() && f[i] == l;
                st4.declared.lemma_filter_pred(pred, i);
            }
        },
        _ => {},
    }
}

/// Tracks lifetime information for variables
struct LifetimeInfo {
    /// The lifetime of this variable
    lifetime: Option<Lifetime>,
    /// Where this variable was declared
    span: SourceSpan,
}

/// View of an optional lifetime: its name.
pub open spec fn lifetime_view(l: Option<Lifetime>) -> Option<Seq<char>> {
    match l {
        Some(lt) => Some(lt.name@),
        None => None,
    }
}

/// Lifetime checker for Glimmer-Weave
pub struct LifetimeChecker {
    /// Declared lifetimes in current scope
    declared_lifetimes: Vec<String>,
    /// Lifetime information for each variable, one entry per name
    variables: Vec<(String, LifetimeInfo)>,
    /// Errors found during checking
    errors: Vec<LifetimeError>,
}

impl LifetimeChecker {
    /// Declared lifetimes, variables and errors found so far.
    pub closed spec fn state(&self) -> LtState {
        LtState {
            declared: self.declared_lifetimes@.map_values(|l: String| l@),
            vars: self.variables@.map_values(|p: (String, LifetimeInfo)| (p.0@, lifetime_view(p.1.lifetime))),
            errors: self.errors@.map_values(|e: LifetimeError| e@),
        }
    }

    /// Create a new lifetime checker
    pub fn new() -> (c: Self)
        ensures
            c.state() == (LtState { declared: Seq::empty(), vars: Seq::empty(), errors: Seq::empty() }),
    {
        let c = LifetimeChecker { declared_lifetimes: Vec::new(), variables: Vec::new(), errors: Vec::new() };
        assert(c.state().declared =~= Seq::<Seq<char>>::empty());
        assert(c.state().vars =~= Seq::<(Seq<char>, Option<Seq<char>>)>::empty());
        assert(c.state().errors =~= Seq::<LifetimeErrorView>::empty());
        c
    }

    /// Record an error.
    fn add_error(&mut self, e: LifetimeError)
        ensures
            final(self).state() == with_lt_error(old(self).state(), e@),
    {
        self.errors.push(e);
        assert(self.state().errors =~= old(self).state().errors.push(e@));
    }

    /// Whether the lifetime `name` may be used here.
    fn is_lifetime_declared(&self, name: &String) -> (r: bool)
        ensures
            r == is_declared(self.state(), name@),
    {
        proof {
            reveal_strlit("static");
        }
        if *name == String::from_str("static") {
            return true;
        }
        let ghost declared = self.state().declared;
        let mut i: usize = 0;
        while i < self.declared_lifetimes.len()
            invariant
                i <= self.declared_lifetimes@.len(),
                declared == self.state().declared,
                forall|j: int| 0 <= j < i ==> #[trigger] declared[j] != name@,
            decreases self.declared_lifetimes@.len() - i,
        {
            if self.declared_lifetimes[i] == *name {
                assert(declared[i as int] == name@);
                return true;
            }
            i += 1;
        }
        false
    }

    /// Report the lifetime `name` unless it is declared.
    fn require_declared(&mut self, name: &String)
        ensures
            final(self).state() == require_declared(old(self).state(), name@),
    {
        if !self.is_lifetime_declared(name) {
            self.add_error(LifetimeErrorOf::UndeclaredLifetime { lifetime: name.clone(), span: SourceSpan::unknown() });
        }
    }

    /// Check that every lifetime a type names is declared.
    fn check_type_annotation(&mut self, typ: &TypeAnnotation)
        ensures
            final(self).state() == type_check(old(self).state(), *typ),
        decreases typ, 1nat,
    {
        match typ {
            TypeAnnotation::Borrowed { lifetime, inner, .. } => {
                match lifetime {
                    Some(lt) => self.require_declared(&lt.name),
                    None => {},
                }
                self.check_type_annotation(inner);
            },
            TypeAnnotation::List(inner) => self.check_type_annotation(inner),
            TypeAnnotation::Parametrized { type_args, .. } => self.check_types(type_args),
            TypeAnnotation::Function { param_types, return_type } => {
                self.check_types(param_types);
                self.check_type_annotation(return_type);
            },
            TypeAnnotation::Optional(inner) => self.check_type_annotation(inner),
            _ => {},
        }
    }

    /// Check types in order.
    fn check_types(&mut self, ts: &Vec<TypeAnnotation>)
        ensures
            final(self).state() == types_check(old(self).state(), ts@),
        decreases ts@, 0nat,
    {
        let ghost st0 = self.state();
        let mut i: usize = 0;
        while i < ts.len()
            invariant
                i <= ts@.len(),
                st0 == old(self).state(),
                self.state() == types_check(st0, ts@.take(i as int)),
            decreases ts@.len() - i,
        {
            proof {
                assert(decreases_to!(ts@ => ts@[i as int]));
            }
            self.check_type_annotation(&ts[i]);
            i += 1;
            assert(ts@.take(i as int).drop_last() =~= ts@.take(i - 1));
        }
        assert(ts@.take(i as int) =~= ts@);
    }

    /// The lifetime of a borrowed type.
    fn extract_lifetime(&self, typ: &TypeAnnotation) -> (r: Option<Lifetime>)
        ensures
            lifetime_view(r) == lifetime_of(Some(*typ)),
    {
        match typ {
            TypeAnnotation::Borrowed { lifetime, .. } => match lifetime {
                Some(lt) => Some(Lifetime { name: lt.name.clone() }),
                None => None,
            },
            _ => None,
        }
    }

    /// Index of the first entry for `name`.
    fn find_var(&self, name: &String) -> (r: Option<usize>)
        ensures
            match r {
                Some(i) => {
                    &&& i < self.variables@.len()
                    &&& self.variables@[i as int].0@ == name@
                    &&& forall|j: int| 0 <= j < i ==> #[trigger] self.variables@[j].0@ != name@
                },
                None => forall|j: int| 0 <= j < self.variables@.len() ==> #[trigger] self.variables@[j].0@ != name@,
            },
    {
        let mut i: usize = 0;
        while i < self.variables.len()
            invariant
                i <= self.variables@.len(),
                forall|j: int| 0 <= j < i ==> #[trigger] self.variables@[j].0@ != name@,
            decreases self.variables@.len() - i,
        {
            if self.variables[i].0 == *name {
                return Some(i);
            }
            i += 1;
        }
        None
    }

    /// Record the lifetime of variable `name`.
    fn set_var(&mut self, name: String, info: LifetimeInfo)
        ensures
            final(self).state() == (LtState {
                vars: update(old(self).state().vars, name@, lifetime_view(info.lifetime)),
                ..old(self).state()
            }),
    {
        let ghost t = self.state().vars;
        let ghost nv = name@;
        let ghost lv = lifetime_view(info.lifetime);
        match self.find_var(&name) {
            Some(i) => {
                proof {
                    lemma_first_entry(t, nv, lv, i as int);
                }
                self.variables.set(i, (name, info));
                assert(self.state().vars =~= t.update(i as int, (nv, lv)));
            },
            None => {
                proof {
                    lemma_first_entry(t, nv, lv, t.len() as int);
                }
                self.variables.push((name, info));
                assert(self.state().vars =~= t.push((nv, lv)));
            },
        }
    }

    /// Whether variable `name` has a lifetime.
    fn has_lifetime(&self, name: &String) -> (r: bool)
        ensures
            r == (lookup(self.state().vars, name@) matches Some(Some(_))),
    {
        let ghost t = self.state().vars;
        match self.find_var(name) {
            Some(i) => {
                proof {
                    lemma_first_entry(t, name@, None, i as int);
                }
                self.variables[i].1.lifetime.is_some()
            },
            None => {
                proof {
                    lemma_first_entry(t, name@, None, t.len() as int);
                }
                false
            },
        }
    }

    /// Check nodes in order.
    fn check_nodes(&mut self, nodes: &[AstNode])
        ensures
            final(self).state() == nodes_check(old(self).state(), nodes@),
        decreases nodes@, 0nat,
    {
        let ghost st0 = self.state();
        let mut i: usize = 0;
        while i < nodes.len()
            invariant
                i <= nodes@.len(),
                st0 == old(self).state(),
                self.state() == nodes_check(st0, nodes@.take(i as int)),
            decreases nodes@.len() - i,
        {
            proof {
                assert(decreases_to!(nodes@ => nodes@[i as int]));
            }
            self.check_node(&nodes[i]);
            i += 1;
            assert(nodes@.take(i as int).drop_last() =~= nodes@.take(i - 1));
        }
        assert(nodes@.take(i as int) =~= nodes@);
    }

    /// Check parameters in order: each one's type, then its lifetime.
    fn check_params(&mut self, params: &Vec<Parameter>)
        ensures
            final(self).state() == params_check(old(self).state(), params@),
    {
        let ghost st0 = self.state();
        let mut i: usize = 0;
        while i < params.len()
            invariant
                i <= params@.len(),
                st0 == old(self).state(),
                self.state() == params_check(st0, params@.take(i as int)),
            decreases params@.len() - i,
        {
            let p = &params[i];
            match &p.typ {
                Some(t) => self.check_type_annotation(t),
                None => {},
            }
            match &p.lifetime {
                Some(lt) => self.require_declared(&lt.name),
                None => {},
            }
            i += 1;
            assert(params@.take(i as int).drop_last() =~= params@.take(i - 1));
        }
        assert(params@.take(i as int) =~= params@);
    }

    /// Check a function: its lifetime parameters are declared for its
    /// parameters, return type and body, and dropped afterwards.
    fn check_chant(&mut self, node: &AstNode)
        requires
            node is ChantDef,
        ensures
            final(self).state() == chant_check(old(self).state(), *node),
        decreases node, 1nat,
    {
        match node {
            AstNode::ChantDef { lifetime_params, params, body, return_type, .. } => {
                let ghost names = lifetime_names(lifetime_params@);
                let mut i: usize = 0;
                let ghost d0 = self.state().declared;
                while i < lifetime_params.len()
                    invariant
                        i <= lifetime_params@.len(),
                        names == lifetime_names(lifetime_params@),
                        self.state() == (LtState { declared: d0 + names.take(i as int), ..old(self).state() }),
                        d0 == old(self).state().declared,
                    decreases lifetime_params@.len() - i,
                {
                    let ghost before = self.state().declared;
                    self.declared_lifetimes.push(lifetime_params[i].name.clone());
                    assert(names[i as int] == lifetime_params@[i as int].name@);
                    assert(self.state().declared =~= before.push(names[i as int]));
                    i += 1;
                    assert(names.take(i as int) =~= names.take(i - 1).push(names[i - 1]));
                    assert(self.state().declared =~= d0 + names.take(i as int));
                }
                assert(names.take(i as int) =~= names);
                self.check_params(params);
                match return_type {
                    Some(t) => self.check_type_annotation(t),
                    None => {},
                }
                self.check_nodes(body.as_slice());
                let ghost st4 = self.state();
                let mut kept: Vec<String> = Vec::new();
                let mut k: usize = 0;
                while k < self.declared_lifetimes.len()
                    invariant
                        k <= self.declared_lifetimes@.len(),
                        st4 == self.state(),
                        names == lifetime_names(lifetime_params@),
                        kept@.map_values(|l: String| l@) == st4.declared.take(k as int).filter(
                            |l: Seq<char>| !names.contains(l),
                        ),
                    decreases self.declared_lifetimes@.len() - k,
                {
                    let keep = !is_lifetime_name_in(&self.declared_lifetimes[k], lifetime_params);
                    let ghost before = kept@.map_values(|l: String| l@);
                    if keep {
                        kept.push(self.declared_lifetimes[k].clone());
                    }
                    k += 1;
                    proof {
                        let s = st4.declared.take(k as int);
                        assert(s.drop_last() =~= st4.declared.take(k - 1));
                        reveal(Seq::filter);
                        assert(kept@.map_values(|l: String| l@) =~= s.filter(|l: Seq<char>| !names.contains(l)));
                    }
                }
                assert(st4.declared.take(k as int) =~= st4.declared);
                self.declared_lifetimes = kept;
            },
            _ => {},
        }
    }

    fn check_node(&mut self, node: &AstNode)
        ensures
            final(self).state() == node_check(old(self).state(), *node),
        decreases node, 2nat,
    {
        match node {
            AstNode::BindStmt { name, typ, value, span } => {
                self.check_node(value);
                let lifetime = match typ {
                    Some(t) => self.extract_lifetime(t),
                    None => None,
                };
                self.set_var(name.clone(), LifetimeInfo { lifetime, span: *span });
            },
            AstNode::WeaveStmt { name, typ, value, span } => {
                self.check_node(value);
                let lifetime = match typ {
                    Some(t) => self.extract_lifetime(t),
                    None => None,
                };
                self.set_var(name.clone(), LifetimeInfo { lifetime, span: *span });
            },
            AstNode::ChantDef { .. } => self.check_chant(node),
            AstNode::YieldStmt { value, span } => {
                match &**value {
                    AstNode::Ident { name, .. } => {
                        if self.has_lifetime(name) {
                            self.add_error(
                                LifetimeErrorOf::ReturnsLocalReference { variable: name.clone(), span: *span },
                            );
                        }
                    },
                    _ => {},
                }
                self.check_node(value);
            },
            AstNode::IfStmt { condition, then_branch, else_branch, .. } => {
                self.check_node(condition);
                self.check_nodes(then_branch.as_slice());
                match else_branch {
                    Some(eb) => self.check_nodes(eb.as_slice()),
                    None => {},
                }
            },
            AstNode::WhileStmt { condition, body, .. } => {
                self.check_node(condition);
                self.check_nodes(body.as_slice());
            },
            AstNode::BinaryOp { left, right, .. } => {
                self.check_node(left);
                self.check_node(right);
            },
            AstNode::Call { callee, args, .. } => {
                self.check_node(callee);
                self.check_nodes(args.as_slice());
            },
            _ => {},
        }
    }

    /// Check a list of AST nodes for lifetime errors: `Ok` when no error was
    /// found (by this call or an earlier one), else every error found so far.
    pub fn check(&mut self, nodes: &[AstNode]) -> (r: Result<(), Vec<LifetimeError>>)
        ensures
            final(self).state() == nodes_check(old(self).state(), nodes@),
            match r {
                Ok(()) => final(self).state().errors.len() == 0,
                Err(es) => {
                    &&& final(self).state().errors.len() > 0
                    &&& es@.map_values(|e: LifetimeError| e@) == final(self).state().errors
                },
            },
    {
        self.check_nodes(nodes);
        if self.errors.len() == 0 {
            Ok(())
        } else {
            let mut es: Vec<LifetimeError> = Vec::new();
            let mut i: usize = 0;
            while i < self.errors.len()
                invariant
                    i <= self.errors@.len(),
                    es@.len() == i,
                    forall|j: int| 0 <= j < i ==> #[trigger] es@[j]@ == self.errors@[j]@,
                decreases self.errors@.len() - i,
            {
                es.push(self.errors[i].duplicate());
                i += 1;
            }
            assert(es@.map_values(|e: LifetimeError| e@) =~= self.state().errors);
            Err(es)
        }
    }
}

/// Whether `name` is among the lifetimes' names.
fn is_lifetime_name_in(name: &String, ls: &Vec<Lifetime>) -> (r: bool)
    ensures
        r == lifetime_names(ls@).contains(name@),
{
    let ghost names = lifetime_names(ls@);
    let mut i: usize = 0;
    while i < ls.len()
        invariant
            i <= ls@.len(),
            names == lifetime_names(ls@),
            forall|j: int| 0 <= j < i ==> #[trigger] names[j] != name@,
        decreases ls@.len() - i,
    {
        if ls[i].name == *name {
            assert(names[i as int] == name@);
            return true;
        }
        i += 1;
    }
    false
}

impl Default for LifetimeChecker {
    fn default() -> (c: Self)
        ensures
            c.state() == (LtState { declared: Seq::empty(), vars: Seq::empty(), errors: Seq::empty() }),
    {
        Self::new()
    }
}

} // verus!
