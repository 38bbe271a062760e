//! Borrow checking in the style of Rust: a value cannot be used after it
//! was moved, and a variable borrowed mutably or immutably cannot be moved
//! or mutated in conflict with the borrow.

use vstd::prelude::*;
use crate::ast::{AstNode, BorrowMode, Parameter};
use crate::source_location::{SourceSpan, spec_span_text};
use crate::text::push_str;

verus! {

/// Errors that can occur during borrow checking
#[derive(Debug, Clone, PartialEq)]
pub enum BorrowErrorOf<S> {
    /// Variable used after being moved
    UseAfterMove { variable: S, moved_at: SourceSpan, used_at: SourceSpan },
    /// Mutable borrow while immutable borrows exist
    MutableBorrowConflict { variable: S, immutable_borrow_at: SourceSpan, mutable_borrow_at: SourceSpan },
    /// Multiple mutable borrows
    MultipleMutableBorrows { variable: S, first_borrow_at: SourceSpan, second_borrow_at: SourceSpan },
    /// Borrowing a moved value
    BorrowOfMovedValue { variable: S, moved_at: SourceSpan, borrowed_at: SourceSpan },
}

/// Executable borrow error.
pub type BorrowError = BorrowErrorOf<String>;

/// Mathematical view of a borrow error.
pub type BorrowErrorView = BorrowErrorOf<Seq<char>>;

impl View for BorrowErrorOf<String> {
    type V = BorrowErrorOf<Seq<char>>;

    open spec fn view(&self) -> BorrowErrorOf<Seq<char>> {
        match self {
            BorrowErrorOf::UseAfterMove { variable, moved_at, used_at } =>
                BorrowErrorOf::UseAfterMove { variable: variable@, moved_at: *moved_at, used_at: *used_at },
            BorrowErrorOf::MutableBorrowConflict { variable, immutable_borrow_at, mutable_borrow_at } =>
                BorrowErrorOf::MutableBorrowConflict {
                    variable: variable@,
                    immutable_borrow_at: *immutable_borrow_at,
                    mutable_borrow_at: *mutable_borrow_at,
                },
            BorrowErrorOf::MultipleMutableBorrows { variable, first_borrow_at, second_borrow_at } =>
                BorrowErrorOf::MultipleMutableBorrows {
                    variable: variable@,
                    first_borrow_at: *first_borrow_at,
                    second_borrow_at: *second_borrow_at,
                },
            BorrowErrorOf::BorrowOfMovedValue { variable, moved_at, borrowed_at } =>
                BorrowErrorOf::BorrowOfMovedValue { variable: variable@, moved_at: *moved_at, borrowed_at: *borrowed_at },
        }
    }
}

/// The message of a borrow error.
pub open spec fn borrow_error_text(e: BorrowErrorView) -> Seq<char> {
    match e {
        BorrowErrorOf::UseAfterMove { variable, moved_at, used_at } => "Use of moved value '"@ + variable
            + "'\n  moved at: "@ + spec_span_text(moved_at) + "\n  used at: "@ + spec_span_text(used_at),
        BorrowErrorOf::MutableBorrowConflict { variable, immutable_borrow_at, mutable_borrow_at } =>
            "Cannot borrow '"@ + variable
                + "' as mutable because it is also borrowed as immutable\n  immutable borrow at: "@
                + spec_span_text(immutable_borrow_at) + "\n  mutable borrow at: "@ + spec_span_text(
                mutable_borrow_at,
            ),
        BorrowErrorOf::MultipleMutableBorrows { variable, first_borrow_at, second_borrow_at } =>
            "Cannot borrow '"@ + variable + "' as mutable more than once\n  first borrow at: "@
                + spec_span_text(first_borrow_at) + "\n  second borrow at: "@ + spec_span_text(
                second_borrow_at,
            ),
        BorrowErrorOf::BorrowOfMovedValue { variable, moved_at, borrowed_at } => "Cannot borrow '"@
            + variable + "' because it was moved\n  moved at: "@ + spec_span_text(moved_at)
            + "\n  borrow attempted at: "@ + spec_span_text(borrowed_at),
    }
}

/// `first`, the variable, `second`, the first span, `third`, the second span.
fn error_text(first: &str, variable: &String, second: &str, a: SourceSpan, third: &str, b: SourceSpan) -> (s: String)
    ensures
        s@ == first@ + variable@ + second@ + spec_span_text(a) + third@ + spec_span_text(b),
{
    let mut s = String::from_str(first);
    push_str(&mut s, variable.as_str());
    push_str(&mut s, second);
    push_str(&mut s, a.to_text().as_str());
    push_str(&mut s, third);
    push_str(&mut s, b.to_text().as_str());
    s
}

impl BorrowErrorOf<String> {
    /// The error's message.
    pub fn to_text(&self) -> (s: String)
        ensures
            s@ == borrow_error_text(self@),
    {
        match self {
            BorrowErrorOf::UseAfterMove { variable, moved_at, used_at } => error_text(
                "Use of moved value '",
                variable,
                "'\n  moved at: ",
                *moved_at,
                "\n  used at: ",
                *used_at,
            ),
            BorrowErrorOf::MutableBorrowConflict { variable, immutable_borrow_at, mutable_borrow_at } =>
                error_text(
                "Cannot borrow '",
                variable,
                "' as mutable because it is also borrowed as immutable\n  immutable borrow at: ",
                *immutable_borrow_at,
                "\n  mutable borrow at: ",
                *mutable_borrow_at,
            ),
            BorrowErrorOf::MultipleMutableBorrows { variable, first_borrow_at, second_borrow_at } =>
                error_text(
                "Cannot borrow '",
                variable,
                "' as mutable more than once\n  first borrow at: ",
                *first_borrow_at,
                "\n  second borrow at: ",
                *second_borrow_at,
            ),
            BorrowErrorOf::BorrowOfMovedValue { variable, moved_at, borrowed_at } => error_text(
                "Cannot borrow '",
                variable,
                "' because it was moved\n  moved at: ",
                *moved_at,
                "\n  borrow attempted at: ",
                *borrowed_at,
            ),
        }
    }

    /// A copy of the error.
    pub fn duplicate(&self) -> (e: BorrowError)
        ensures
            e@ == self@,
    {
        match self {
            BorrowErrorOf::UseAfterMove { variable, moved_at, used_at } =>
                BorrowErrorOf::UseAfterMove { variable: variable.clone(), moved_at: *moved_at, used_at: *used_at },
            BorrowErrorOf::MutableBorrowConflict { variable, immutable_borrow_at, mutable_borrow_at } =>
                BorrowErrorOf::MutableBorrowConflict {
                    variable: variable.clone(),
                    immutable_borrow_at: *immutable_borrow_at,
                    mutable_borrow_at: *mutable_borrow_at,
                },
            BorrowErrorOf::MultipleMutableBorrows { variable, first_borrow_at, second_borrow_at } =>
                BorrowErrorOf::MultipleMutableBorrows {
                    variable: variable.clone(),
                    first_borrow_at: *first_borrow_at,
                    second_borrow_at: *second_borrow_at,
                },
            BorrowErrorOf::BorrowOfMovedValue { variable, moved_at, borrowed_at } =>
                BorrowErrorOf::BorrowOfMovedValue {
                    variable: variable.clone(),
                    moved_at: *moved_at,
                    borrowed_at: *borrowed_at,
                },
        }
    }
}

/// Tracks the state of a variable in the borrow checker
pub enum VarState {
    /// Variable is owned and can be used
    Owned,
    /// Variable was moved
    Moved(SourceSpan),
    /// Variable is immutably borrowed
    ImmutablyBorrowed(Vec<SourceSpan>),
    /// Variable is mutably borrowed
    MutablyBorrowed(SourceSpan),
}

/// Mathematical view of a variable's state.
pub enum VarStateView {
    Owned,
    Moved(SourceSpan),
    ImmutablyBorrowed(Seq<SourceSpan>),
    MutablyBorrowed(SourceSpan),
}

impl View for VarState {
    type V = VarStateView;

    open spec fn view(&self) -> VarStateView {
        match self {
            VarState::Owned => VarStateView::Owned,
            VarState::Moved(s) => VarStateView::Moved(*s),
            VarState::ImmutablyBorrowed(v) => VarStateView::ImmutablyBorrowed(v@),
            VarState::MutablyBorrowed(s) => VarStateView::MutablyBorrowed(*s),
        }
    }
}

/// Variable states, in the order the variables were first seen.
pub type VarTable = Seq<(Seq<char>, VarStateView)>;

/// The value of the first entry for `name`.
pub open spec fn lookup<V>(t: Seq<(Seq<char>, V)>, name: Seq<char>) -> Option<V>
    decreases t.len(),
{
    if t.len() == 0 {
        None
    } else if t[0].0 == name {
        Some(t[0].1)
    } else {
        lookup(t.drop_first(), name)
    }
}

/// The table with `name` set to `v`: its entry replaced, or a new entry at the end.
pub open spec fn update<V>(t: Seq<(Seq<char>, V)>, name: Seq<char>, v: V) -> Seq<(Seq<char>, V)>
    decreases t.len(),
{
    if t.len() == 0 {
        seq![(name, v)]
    } else if t[0].0 == name {
        t.update(0, (name, v))
    } else {
        seq![t[0]] + update(t.drop_first(), name, v)
    }
}

/// Setting a variable and reading it back gives the value set; other
/// variables keep their states.
pub proof fn lemma_lookup_update<V>(t: Seq<(Seq<char>, V)>, name: Seq<char>, v: V, other: Seq<char>)
    ensures
        lookup(update(t, name, v), name) == Some(v),
        other != name ==> lookup(update(t, name, v), other) == lookup(t, other),
    decreases t.len(),
{
    let u = update(t, name, v);
    if t.len() > 0 && t[0].0 != name {
        lemma_lookup_update(t.drop_first(), name, v, other);
        assert(u.drop_first() =~= update(t.drop_first(), name, v));
        assert(u[0] == t[0]);
    } else if t.len() > 0 {
        assert(u.drop_first() =~= t.drop_first());
        assert(u[0] == (name, v));
        if other != name {
            assert(lookup(u, other) == lookup(u.drop_first(), other));
            assert(lookup(t, other) == lookup(t.drop_first(), other));
        }
    } else {
        assert(u.drop_first() =~= Seq::<(Seq<char>, V)>::empty());
        assert(u[0] == (name, v));
        if other != name {
            assert(lookup(u, other) == lookup(u.drop_first(), other));
        }
    }
}

/// What the borrow checker knows: variable states and errors found so far.
pub struct CheckState {
    pub vars: VarTable,
    pub errors: Seq<BorrowErrorView>,
}

/// The state after recording an error.
pub open spec fn with_error(st: CheckState, e: BorrowErrorView) -> CheckState {
    CheckState { errors: st.errors.push(e), ..st }
}

/// The state after setting a variable.
pub open spec fn with_var(st: CheckState, name: Seq<char>, v: VarStateView) -> CheckState {
    CheckState { vars: update(st.vars, name, v), ..st }
}

/// The variable an expression would move, with where it is named: only a
/// bare identifier moves.
pub open spec fn moved_var(node: AstNode) -> Option<(Seq<char>, SourceSpan)> {
    match node {
        AstNode::Ident { name, span } => Some((name@, span)),
        _ => None,
    }
}

/// Moving `name` at `span`: an error if it was already moved or is
/// borrowed; an owned variable becomes moved; unknown variables are ignored.
pub open spec fn mark_moved_spec(st: CheckState, name: Seq<char>, span: SourceSpan) -> CheckState {
    match lookup(st.vars, name) {
        Some(VarStateView::Moved(moved_at)) => with_error(
            st,
            BorrowErrorOf::UseAfterMove { variable: name, moved_at, used_at: span },
        ),
        Some(VarStateView::ImmutablyBorrowed(borrows)) => if borrows.len() > 0 {
            with_error(st, BorrowErrorOf::BorrowOfMovedValue { variable: name, moved_at: borrows[0], borrowed_at: span })
        } else {
            st
        },
        Some(VarStateView::MutablyBorrowed(borrow_at)) => with_error(
            st,
            BorrowErrorOf::BorrowOfMovedValue { variable: name, moved_at: borrow_at, borrowed_at: span },
        ),
        Some(VarStateView::Owned) => with_var(st, name, VarStateView::Moved(span)),
        None => st,
    }
}

/// Binding `name` to `value`: the value is moved if it is a variable, else
/// checked; the new variable is owned.
pub open spec fn bind_spec(st: CheckState, name: Seq<char>, value: AstNode, span: SourceSpan) -> CheckState
    decreases value, 3nat,
{
    let after = match moved_var(value) {
        Some((v, _)) => mark_moved_spec(st, v, span),
        None => check_node_spec(st, value),
    };
    with_var(after, name, VarStateView::Owned)
}

/// Assigning to a variable: an error if it was moved or is borrowed.
pub open spec fn assign_spec(st: CheckState, target: AstNode, span: SourceSpan) -> CheckState {
    match target {
        AstNode::Ident { name, .. } => match lookup(st.vars, name@) {
            Some(VarStateView::Moved(moved_at)) => with_error(
                st,
                BorrowErrorOf::UseAfterMove { variable: name@, moved_at, used_at: span },
            ),
            Some(VarStateView::ImmutablyBorrowed(borrows)) => if borrows.len() > 0 {
                with_error(
                    st,
                    BorrowErrorOf::MutableBorrowConflict {
                        variable: name@,
                        immutable_borrow_at: borrows[0],
                        mutable_borrow_at: span,
                    },
                )
            } else {
                st
            },
            Some(VarStateView::MutablyBorrowed(borrow_at)) => with_error(
                st,
                BorrowErrorOf::MultipleMutableBorrows { variable: name@, first_borrow_at: borrow_at, second_borrow_at: span },
            ),
            _ => st,
        },
        _ => st,
    }
}

/// The state a parameter starts in, by its borrow mode.
pub open spec fn param_state(p: Parameter) -> VarStateView {
    match p.borrow_mode {
        BorrowMode::Owned => VarStateView::Owned,
        BorrowMode::Borrowed => VarStateView::ImmutablyBorrowed(Seq::empty()),
        BorrowMode::BorrowedMut => VarStateView::MutablyBorrowed(SourceSpan::spec_unknown()),
    }
}

/// Declaring parameters, in order.
pub open spec fn declare_params(st: CheckState, ps: Seq<Parameter>) -> CheckState
    decreases ps.len(),
{
    if ps.len() == 0 {
        st
    } else {
        let before = declare_params(st, ps.drop_last());
        with_var(before, ps.last().name@, param_state(ps.last()))
    }
}

/// Checking statements, in order.
pub open spec fn check_nodes_spec(st: CheckState, nodes: Seq<AstNode>) -> CheckState
    decreases nodes, 0nat,
{
    if nodes.len() == 0 {
        st
    } else {
        check_node_spec(check_nodes_spec(st, nodes.drop_last()), nodes.last())
    }
}

/// Checking one call argument: an explicit borrow of a moved variable is an
/// error; a bare variable is moved; anything else is checked.
pub open spec fn check_arg_spec(st: CheckState, arg: AstNode) -> CheckState
    decreases arg, 3nat,
{
    match arg {
        AstNode::BorrowExpr { value, mutable, span: borrow_span } => {
            let st2 = match *value {
                AstNode::Ident { name, .. } => match lookup(st.vars, name@) {
                    Some(VarStateView::Moved(moved_at)) => with_error(
                        st,
                        BorrowErrorOf::BorrowOfMovedValue { variable: name@, moved_at, borrowed_at: borrow_span },
                    ),
                    _ => st,
                },
                _ => st,
            };
            check_node_spec(st2, *value)
        },
        _ => match moved_var(arg) {
            Some((v, vspan)) => mark_moved_spec(st, v, vspan),
            None => check_node_spec(st, arg),
        },
    }
}

/// Checking call arguments, in order.
pub open spec fn check_args_spec(st: CheckState, args: Seq<AstNode>) -> CheckState
    decreases args, 0nat,
{
    if args.len() == 0 {
        st
    } else {
        check_arg_spec(check_args_spec(st, args.drop_last()), args.last())
    }
}

/// The borrow-checking rules for one node.
pub open spec fn check_node_spec(st: CheckState, node: AstNode) -> CheckState
    decreases node, 2nat,
{
    match node {
        AstNode::BindStmt { name, value, span, .. } => bind_spec(st, name@, *value, span),
        AstNode::WeaveStmt { name, value, span, .. } => bind_spec(st, name@, *value, span),
        AstNode::SetStmt { target, value, span } => {
            let st2 = assign_spec(st, *target, span);
            check_node_spec(check_node_spec(st2, *target), *value)
        },
        AstNode::Ident { name, span } => match lookup(st.vars, name@) {
            Some(VarStateView::Moved(moved_at)) => with_error(
                st,
                BorrowErrorOf::UseAfterMove { variable: name@, moved_at, used_at: span },
            ),
            _ => st,
        },
        AstNode::ChantDef { params, body, .. } => check_nodes_spec(declare_params(st, params@), body@),
        AstNode::IfStmt { condition, then_branch, else_branch, .. } => {
            let st2 = check_nodes_spec(check_node_spec(st, *condition), then_branch@);
            match else_branch {
                Some(eb) => check_nodes_spec(st2, eb@),
                None => st2,
            }
        },
        AstNode::WhileStmt { condition, body, .. } => check_nodes_spec(check_node_spec(st, *condition), body@),
        AstNode::ForStmt { body, iterable, .. } => check_nodes_spec(check_node_spec(st, *iterable), body@),
        AstNode::BinaryOp { left, right, .. } => check_node_spec(check_node_spec(st, *left), *right),
        AstNode::UnaryOp { operand, .. } => check_node_spec(st, *operand),
        AstNode::Call { callee, args, .. } => check_args_spec(check_node_spec(st, *callee), args@),
        AstNode::YieldStmt { value, span } => match moved_var(*value) {
            Some((v, _)) => mark_moved_spec(st, v, span),
            None => check_node_spec(st, *value),
        },
        AstNode::BorrowExpr { value, .. } => check_node_spec(st, *value),
        AstNode::List { elements, .. } => check_nodes_spec(st, elements@),
        AstNode::FieldAccess { object, .. } => check_node_spec(st, *object),
        AstNode::IndexAccess { object, index, .. } => check_node_spec(check_node_spec(st, *object), *index),
        _ => st,
    }
}

/// `a`'s errors stand, in order, at the start of `b`'s.
pub open spec fn keeps_errors(a: CheckState, b: CheckState) -> bool {
    a.errors.is_prefix_of(b.errors)
}

proof fn lemma_keeps_refl(a: CheckState)
    ensures
        keeps_errors(a, a),
{
    assert(a.errors.subrange(0, a.errors.len() as int) =~= a.errors);
}

proof fn lemma_keeps_trans(a: CheckState, b: CheckState, c: CheckState)
    requires
        keeps_errors(a, b),
        keeps_errors(b, c),
    ensures
        keeps_errors(a, c),
{
    assert(c.errors.subrange(0, a.errors.len() as int) =~= c.errors.subrange(0, b.errors.len() as int).subrange(
        0,
        a.errors.len() as int,
    ));
}

proof fn lemma_with_error_keeps(st: CheckState, e: BorrowErrorView)
    ensures
        keeps_errors(st, with_error(st, e)),
{
    assert(st.errors.push(e).subrange(0, st.errors.len() as int) =~= st.errors);
}

proof fn lemma_mark_moved_keeps(st: CheckState, name: Seq<char>, span: SourceSpan)
    ensures
        keeps_errors(st, mark_moved_spec(st, name, span)),
{
    lemma_keeps_refl(st);
    match lookup(st.vars, name) {
        Some(VarStateView::Moved(moved_at)) => lemma_with_error_keeps(
            st,
            BorrowErrorOf::UseAfterMove { variable: name, moved_at, used_at: span },
        ),
        Some(VarStateView::ImmutablyBorrowed(borrows)) => if borrows.len() > 0 {
            lemma_with_error_keeps(st, BorrowErrorOf::BorrowOfMovedValue { variable: name, moved_at: borrows[0], borrowed_at: span });
        },
        Some(VarStateView::MutablyBorrowed(borrow_at)) => lemma_with_error_keeps(
            st,
            BorrowErrorOf::BorrowOfMovedValue { variable: name, moved_at: borrow_at, borrowed_at: span },
        ),
        _ => {},
    }
}

proof fn lemma_declare_params_keeps(st: CheckState, ps: Seq<Parameter>)
    ensures
        declare_params(st, ps).errors == st.errors,
    decreases ps.len(),
{
    if ps.len() > 0 {
        lemma_declare_params_keeps(st, ps.drop_last());
    }
}

proof fn lemma_bind_keeps(st: CheckState, name: Seq<char>, value: AstNode, span: SourceSpan)
    ensures
        keeps_errors(st, bind_spec(st, name, value, span)),
    decreases value, 3nat,
{
    match moved_var(value) {
        Some((v, _)) => lemma_mark_moved_keeps(st, v, span),
        None => lemma_node_keeps_errors(st, value),
    }
}

proof fn lemma_nodes_keeps(st: CheckState, nodes: Seq<AstNode>)
    ensures
        keeps_errors(st, check_nodes_spec(st, nodes)),
    decreases nodes, 0nat,
{
    if nodes.len() == 0 {
        lemma_keeps_refl(st);
    } else {
        let mid = check_nodes_spec(st, nodes.drop_last());
        lemma_nodes_keeps(st, nodes.drop_last());
        lemma_node_keeps_errors(mid, nodes.last());
        lemma_keeps_trans(st, mid, check_node_spec(mid, nodes.last()));
    }
}

proof fn lemma_arg_keeps(st: CheckState, arg: AstNode)
    ensures
        keeps_errors(st, check_arg_spec(st, arg)),
    decreases arg, 3nat,
{
    match arg {
        AstNode::BorrowExpr { value, mutable, span: borrow_span } => {
            let st2 = match *value {
                AstNode::Ident { name, .. } => match lookup(st.vars, name@) {
                    Some(VarStateView::Moved(moved_at)) => with_error(
                        st,
                        BorrowErrorOf::BorrowOfMovedValue { variable: name@, moved_at, borrowed_at: borrow_span },
                    ),
                    _ => st,
                },
                _ => st,
            };
            lemma_keeps_refl(st);
            match *value {
                AstNode::Ident { name, .. } => match lookup(st.vars, name@) {
                    Some(VarStateView::Moved(moved_at)) => lemma_with_error_keeps(
                        st,
                        BorrowErrorOf::BorrowOfMovedValue { variable: name@, moved_at, borrowed_at: borrow_span },
                    ),
                    _ => {},
                },
                _ => {},
            }
            lemma_node_keeps_errors(st2, *value);
            lemma_keeps_trans(st, st2, check_node_spec(st2, *value));
        },
        _ => match moved_var(arg) {
            Some((v, vspan)) => lemma_mark_moved_keeps(st, v, vspan),
            None => lemma_node_keeps_errors(st, arg),
        },
    }
}

proof fn lemma_args_keeps(st: CheckState, args: Seq<AstNode>)
    ensures
        keeps_errors(st, check_args_spec(st, args)),
    decreases args, 0nat,
{
    if args.len() == 0 {
        lemma_keeps_refl(st);
    } else {
        let mid = check_args_spec(st, args.drop_last());
        lemma_args_keeps(st, args.drop_last());
        lemma_arg_keeps(mid, args.last());
        lemma_keeps_trans(st, mid, check_arg_spec(mid, args.last()));
    }
}

/// Checking never takes back an error: every error found before checking a
/// node is still there afterwards, in the same place.
pub proof fn lemma_node_keeps_errors(st: CheckState, node: AstNode)
    ensures
        keeps_errors(st, check_node_spec(st, node)),
    decreases node, 2nat,
{
    lemma_keeps_refl(st);
    match node {
        AstNode::BindStmt { name, value, span, .. } => lemma_bind_keeps(st, name@, *value, span),
        AstNode::WeaveStmt { name, value, span, .. } => lemma_bind_keeps(st, name@, *value, span),
        AstNode::SetStmt { target, value, span } => {
            let st2 = assign_spec(st, *target, span);
            assert(keeps_errors(st, st2)) by {
                match *target {
                    AstNode::Ident { name, .. } => match lookup(st.vars, name@) {
                        Some(VarStateView::Moved(moved_at)) => lemma_with_error_keeps(
                            st,
                            BorrowErrorOf::UseAfterMove { variable: name@, moved_at, used_at: span },
                        ),
                        Some(VarStateView::ImmutablyBorrowed(borrows)) => if borrows.len() > 0 {
                            lemma_with_error_keeps(
                                st,
                                BorrowErrorOf::MutableBorrowConflict {
                                    variable: name@,
                                    immutable_borrow_at: borrows[0],
                                    mutable_borrow_at: span,
                                },
                            );
                        },
                        Some(VarStateView::MutablyBorrowed(borrow_at)) => lemma_with_error_keeps(
                            st,
                            BorrowErrorOf::MultipleMutableBorrows {
                                variable: name@,
                                first_borrow_at: borrow_at,
                                second_borrow_at: span,
                            },
                        ),
                        _ => {},
                    },
                    _ => {},
                }
            }
            let st3 = check_node_spec(st2, *target);
            lemma_node_keeps_errors(st2, *target);
            lemma_node_keeps_errors(st3, *value);
            lemma_keeps_trans(st, st2, st3);
            lemma_keeps_trans(st, st3, check_node_spec(st3, *value));
        },
        AstNode::Ident { name, span } => match lookup(st.vars, name@) {
            Some(VarStateView::Moved(moved_at)) => lemma_with_error_keeps(
                st,
                BorrowErrorOf::UseAfterMove { variable: name@, moved_at, used_at: span },
            ),
            _ => {},
        },
        AstNode::ChantDef { params, body, .. } => {
            let st2 = declare_params(st, params@);
            lemma_declare_params_keeps(st, params@);
            lemma_nodes_keeps(st2, body@);
        },
        AstNode::IfStmt { condition, then_branch, else_branch, .. } => {
            let st1 = check_node_spec(st, *condition);
            let st2 = check_nodes_spec(st1, then_branch@);
            lemma_node_keeps_errors(st, *condition);
            lemma_nodes_keeps(st1, then_branch@);
            lemma_keeps_trans(st, st1, st2);
            match else_branch {
                Some(eb) => {
                    lemma_nodes_keeps(st2, eb@);
                    lemma_keeps_trans(st, st2, check_nodes_spec(st2, eb@));
                },
                None => {},
            }
        },
        AstNode::WhileStmt { condition, body, .. } => {
            let st1 = check_node_spec(st, *condition);
            lemma_node_keeps_errors(st, *condition);
            lemma_nodes_keeps(st1, body@);
            lemma_keeps_trans(st, st1, check_nodes_spec(st1, body@));
        },
        AstNode::ForStmt { body, iterable, .. } => {
            let st1 = check_node_spec(st, *iterable);
            lemma_node_keeps_errors(st, *iterable);
            lemma_nodes_keeps(st1, body@);
            lemma_keeps_trans(st, st1, check_nodes_spec(st1, body@));
        },
        AstNode::BinaryOp { left, right, .. } => {
            let st1 = check_node_spec(st, *left);
            lemma_node_keeps_errors(st, *left);
            lemma_node_keeps_errors(st1, *right);
            lemma_keeps_trans(st, st1, check_node_spec(st1, *right));
        },
        AstNode::UnaryOp { operand, .. } => lemma_node_keeps_errors(st, *operand),
        AstNode::Call { callee, args, .. } => {
            let st1 = check_node_spec(st, *callee);
            lemma_node_keeps_errors(st, *callee);
            lemma_args_keeps(st1, args@);
            lemma_keeps_trans(st, st1, check_args_spec(st1, args@));
        },
        AstNode::YieldStmt { value, span } => match moved_var(*value) {
            Some((v, _)) => lemma_mark_moved_keeps(st, v, span),
            None => lemma_node_keeps_errors(st, *value),
        },
        AstNode::BorrowExpr { value, .. } => lemma_node_keeps_errors(st, *value),
        AstNode::List { elements, .. } => lemma_nodes_keeps(st, elements@),
        AstNode::FieldAccess { object, .. } => lemma_node_keeps_errors(st, *object),
        AstNode::IndexAccess { object, index, .. } => {
            let st1 = check_node_spec(st, *object);
            lemma_node_keeps_errors(st, *object);
            lemma_node_keeps_errors(st1, *index);
            lemma_keeps_trans(st, st1, check_node_spec(st1, *index));
        },
        _ => {},
    }
}

/// Checking a list of nodes never takes back an error found before.
pub proof fn lemma_nodes_keep_errors(st: CheckState, nodes: Seq<AstNode>)
    ensures
        keeps_errors(st, check_nodes_spec(st, nodes)),
{
    lemma_nodes_keeps(st, nodes);
}

/// Values cannot be used after being moved: binding `y` to the owned
/// variable `x` moves `x`, and naming `x` afterwards is reported as a use
/// after move, giving where it was moved and where it was used.
pub proof fn lemma_use_after_move(
    st: CheckState,
    bind: AstNode,
    use_x: AstNode,
    x: Seq<char>,
    bind_span: SourceSpan,
    use_span: SourceSpan,
)
    requires
        lookup(st.vars, x) == Some(VarStateView::Owned),
        bind is BindStmt,
        bind->BindStmt_name@ != x,
        bind->BindStmt_span == bind_span,
        *bind->BindStmt_value is Ident,
        (*bind->BindStmt_value)->Ident_name@ == x,
        use_x is Ident,
        use_x->Ident_name@ == x,
        use_x->Ident_span == use_span,
    ensures
        check_nodes_spec(st, seq![bind, use_x]).errors == st.errors.push(
            BorrowErrorOf::UseAfterMove { variable: x, moved_at: bind_span, used_at: use_span },
        ),
{
    let y = bind->BindStmt_name@;
    let value = *bind->BindStmt_value;
    let st1 = with_var(st, x, VarStateView::Moved(bind_span));
    let st2 = with_var(st1, y, VarStateView::Owned);
    assert(moved_var(value) == Some((x, value->Ident_span)));
    assert(mark_moved_spec(st, x, bind_span) == st1);
    assert(bind_spec(st, y, value, bind_span) == st2);
    assert(check_node_spec(st, bind) == st2);
    lemma_lookup_update(st1.vars, y, VarStateView::Owned, x);
    lemma_lookup_update(st.vars, x, VarStateView::Moved(bind_span), x);
    let prog = seq![bind, use_x];
    assert(prog.drop_last() =~= seq![bind]);
    assert(seq![bind].drop_last() =~= Seq::<AstNode>::empty());
    assert(check_nodes_spec(st, seq![bind]) == check_node_spec(check_nodes_spec(st, Seq::empty()), bind));
    assert(check_nodes_spec(st, seq![bind]) == st2);
    assert(lookup(st2.vars, x) == Some(VarStateView::Moved(bind_span)));
    assert(check_nodes_spec(st, prog) == check_node_spec(st2, use_x));
}

/// Lending a variable to a call does not move it: an owned variable passed
/// as `borrow x` stays owned, and the call adds no error about it.
pub proof fn lemma_borrow_does_not_move(st: CheckState, call: AstNode, x: Seq<char>)
    requires
        lookup(st.vars, x) == Some(VarStateView::Owned),
        call is Call,
        *call->Call_callee is Ident,
        call->Call_args@.len() == 1,
        call->Call_args@[0] is BorrowExpr,
        *call->Call_args@[0]->BorrowExpr_value is Ident,
        (*call->Call_args@[0]->BorrowExpr_value)->Ident_name@ == x,
    ensures
        check_node_spec(st, call).vars == st.vars,
        check_node_spec(st, call).errors == check_node_spec(st, *call->Call_callee).errors,
{
    let args = call->Call_args@;
    let callee = *call->Call_callee;
    let arg = args[0];
    let value = *arg->BorrowExpr_value;
    let st1 = check_node_spec(st, callee);
    assert(st1.vars == st.vars);
    assert(check_node_spec(st1, value) == st1);
    assert(check_arg_spec(st1, arg) == st1);
    assert(args.drop_last() =~= Seq::<AstNode>::empty());
    assert(check_args_spec(st1, args) == check_arg_spec(check_args_spec(st1, args.drop_last()), arg));
    assert(check_node_spec(st, call) == check_args_spec(st1, args));
}

/// An expression built from names, literals, operators, field and index
/// access and borrows only: checking it reads variables and moves none.
pub open spec fn reading_expr(node: AstNode) -> bool
    decreases node,
{
    match node {
        AstNode::Ident { .. } => true,
        AstNode::Number { .. } => true,
        AstNode::Text { .. } => true,
        AstNode::Truth { .. } => true,
        AstNode::Nothing { .. } => true,
        AstNode::BinaryOp { left, right, .. } => reading_expr(*left) && reading_expr(*right),
        AstNode::UnaryOp { operand, .. } => reading_expr(*operand),
        AstNode::FieldAccess { object, .. } => reading_expr(*object),
        AstNode::IndexAccess { object, index, .. } => reading_expr(*object) && reading_expr(*index),
        AstNode::BorrowExpr { value, .. } => reading_expr(*value),
        _ => false,
    }
}

/// Whether the variable `x` is named anywhere in an expression.
pub open spec fn names_var(node: AstNode, x: Seq<char>) -> bool
    decreases node,
{
    match node {
        AstNode::Ident { name, .. } => name@ == x,
        AstNode::BinaryOp { left, right, .. } => names_var(*left, x) || names_var(*right, x),
        AstNode::UnaryOp { operand, .. } => names_var(*operand, x),
        AstNode::FieldAccess { object, .. } => names_var(*object, x),
        AstNode::IndexAccess { object, index, .. } => names_var(*object, x) || names_var(*index, x),
        AstNode::BorrowExpr { value, .. } => names_var(*value, x),
        _ => false,
    }
}

/// Whether `e` reports a use of `x` after it was moved at `moved_at`.
pub open spec fn is_use_after_move(e: BorrowErrorView, x: Seq<char>, moved_at: SourceSpan) -> bool {
    match e {
        BorrowErrorOf::UseAfterMove { variable, moved_at: m, .. } => variable == x && m == moved_at,
        _ => false,
    }
}

/// Between the states `before` and `after`, a use after move of `x`,
/// moved at `moved_at`, was reported.
pub open spec fn use_after_move_reported(
    before: CheckState,
    after: CheckState,
    x: Seq<char>,
    moved_at: SourceSpan,
) -> bool {
    exists|i: int|
        before.errors.len() <= i < after.errors.len() && is_use_after_move(#[trigger] after.errors[i], x, moved_at)
}

/// Checking a reading expression leaves every variable's state as it was.
pub proof fn lemma_reading_keeps_vars(st: CheckState, node: AstNode)
    requires
        reading_expr(node),
    ensures
        check_node_spec(st, node).vars == st.vars,
    decreases node,
{
    match node {
        AstNode::BinaryOp { left, right, .. } => {
            lemma_reading_keeps_vars(st, *left);
            lemma_reading_keeps_vars(check_node_spec(st, *left), *right);
        },
        AstNode::UnaryOp { operand, .. } => lemma_reading_keeps_vars(st, *operand),
        AstNode::FieldAccess { object, .. } => lemma_reading_keeps_vars(st, *object),
        AstNode::IndexAccess { object, index, .. } => {
            lemma_reading_keeps_vars(st, *object);
            lemma_reading_keeps_vars(check_node_spec(st, *object), *index);
        },
        AstNode::BorrowExpr { value, .. } => lemma_reading_keeps_vars(st, *value),
        _ => {},
    }
}

/// An error found at `i` is still there after more checking.
proof fn lemma_kept_error(a: CheckState, b: CheckState, i: int)
    requires
        keeps_errors(a, b),
        0 <= i < a.errors.len(),
    ensures
        a.errors.len() <= b.errors.len(),
        b.errors[i] == a.errors[i],
{
    assert(a.errors == b.errors.subrange(0, a.errors.len() as int));
}

/// Naming a moved variable anywhere in an expression is reported: when `x`
/// was moved at `moved_at`, checking an expression that names `x` records
/// a use after move of `x` that gives where it was moved, whichever operand
/// of whichever operator names it.
pub proof fn moved_name_reported_law(st: CheckState, node: AstNode, x: Seq<char>, moved_at: SourceSpan)
    requires
        reading_expr(node),
        names_var(node, x),
        lookup(st.vars, x) == Some(VarStateView::Moved(moved_at)),
    ensures
        use_after_move_reported(st, check_node_spec(st, node), x, moved_at),
    decreases node,
{
    let out = check_node_spec(st, node);
    match node {
        AstNode::Ident { name, span } => {
            let i = st.errors.len() as int;
            assert(out.errors[i] == BorrowErrorOf::UseAfterMove { variable: x, moved_at, used_at: span });
        },
        AstNode::BinaryOp { left, right, .. } => {
            let st1 = check_node_spec(st, *left);
            lemma_node_keeps_errors(st, *left);
            lemma_node_keeps_errors(st1, *right);
            lemma_reading_keeps_vars(st, *left);
            assert(st.errors.len() <= st1.errors.len()) by {
                assert(st.errors == st1.errors.subrange(0, st.errors.len() as int));
            }
            if names_var(*left, x) {
                moved_name_reported_law(st, *left, x, moved_at);
                let i = choose|i: int|
                    st.errors.len() <= i < st1.errors.len() && is_use_after_move(#[trigger] st1.errors[i], x, moved_at);
                lemma_kept_error(st1, out, i);
                assert(out.errors[i] == st1.errors[i]);
            } else {
                moved_name_reported_law(st1, *right, x, moved_at);
            }
        },
        AstNode::IndexAccess { object, index, .. } => {
            let st1 = check_node_spec(st, *object);
            lemma_node_keeps_errors(st, *object);
            lemma_node_keeps_errors(st1, *index);
            lemma_reading_keeps_vars(st, *object);
            assert(st.errors.len() <= st1.errors.len()) by {
                assert(st.errors == st1.errors.subrange(0, st.errors.len() as int));
            }
            if names_var(*object, x) {
                moved_name_reported_law(st, *object, x, moved_at);
                let i = choose|i: int|
                    st.errors.len() <= i < st1.errors.len() && is_use_after_move(#[trigger] st1.errors[i], x, moved_at);
                lemma_kept_error(st1, out, i);
                assert(out.errors[i] == st1.errors[i]);
            } else {
                moved_name_reported_law(st1, *index, x, moved_at);
            }
        },
        AstNode::UnaryOp { operand, .. } => moved_name_reported_law(st, *operand, x, moved_at),
        AstNode::FieldAccess { object, .. } => moved_name_reported_law(st, *object, x, moved_at),
        AstNode::BorrowExpr { value, .. } => moved_name_reported_law(st, *value, x, moved_at),
        _ => {},
    }
}

/// Both operands of a binary operation are checked, the left one first:
/// when, after the left operand, the variable named as the right operand
/// has been moved, checking the operation adds exactly one error to those
/// of the left operand: a use after move of that variable at the right
/// operand, giving where it was moved.
pub proof fn binary_checks_both_operands_law(
    st: CheckState,
    left: AstNode,
    op: crate::ast::BinaryOperator,
    right: AstNode,
    span: SourceSpan,
    moved_at: SourceSpan,
)
    requires
        right is Ident,
        lookup(check_node_spec(st, left).vars, right->Ident_name@) == Some(VarStateView::Moved(moved_at)),
    ensures
        check_node_spec(st, AstNode::BinaryOp { left: Box::new(left), op, right: Box::new(right), span }).errors
            == check_node_spec(st, left).errors.push(
            BorrowErrorOf::UseAfterMove { variable: right->Ident_name@, moved_at, used_at: right->Ident_span },
        ),
{
    let st1 = check_node_spec(st, left);
    let n = AstNode::BinaryOp { left: Box::new(left), op, right: Box::new(right), span };
    assert(check_node_spec(st, n) == check_node_spec(st1, right));
    assert(check_node_spec(st1, right) == with_error(
        st1,
        BorrowErrorOf::UseAfterMove { variable: right->Ident_name@, moved_at, used_at: right->Ident_span },
    ));
}

/// The first entry for `name` is at `i` (or there is none, when `i` is
/// the table's length): then reading and setting `name` act at `i`.
pub proof fn lemma_first_entry<V>(t: Seq<(Seq<char>, V)>, name: Seq<char>, v: V, i: int)
    requires
        0 <= i <= t.len(),
        forall|j: int| 0 <= j < i ==> #[trigger] t[j].0 != name,
        i < t.len() ==> t[i].0 == name,
    ensures
        lookup(t, name) == (if i < t.len() { Some(t[i].1) } else { None }),
        update(t, name, v) == (if i < t.len() { t.update(i, (name, v)) } else { t.push((name, v)) }),
    decreases i,
{
    if i > 0 {
        let d = t.drop_first();
        assert forall|j: int| 0 <= j < i - 1 implies #[trigger] d[j].0 != name by {
            assert(d[j] == t[j + 1]);
        }
        lemma_first_entry(d, name, v, i - 1);
        if i < t.len() {
            assert(seq![t[0]] + d.update(i - 1, (name, v)) =~= t.update(i, (name, v)));
        } else {
            assert(seq![t[0]] + d.push((name, v)) =~= t.push((name, v)));
        }
    } else if t.len() == 0 {
        assert(seq![(name, v)] =~= t.push((name, v)));
    }
}

/// A variable's state as far as the rules look at it: of the immutable
/// borrows only the first one counts.
#[derive(Clone, Copy)]
enum Seen {
    Owned,
    Moved(SourceSpan),
    Borrowed(SourceSpan),
    BorrowedByNone,
    BorrowedMut(SourceSpan),
}

spec fn seen(v: VarStateView) -> Seen {
    match v {
        VarStateView::Owned => Seen::Owned,
        VarStateView::Moved(at) => Seen::Moved(at),
        VarStateView::ImmutablyBorrowed(b) => if b.len() > 0 {
            Seen::Borrowed(b[0])
        } else {
            Seen::BorrowedByNone
        },
        VarStateView::MutablyBorrowed(at) => Seen::BorrowedMut(at),
    }
}

/// The table of an executable variable list.
pub open spec fn table_view(v: Seq<(String, VarState)>) -> VarTable {
    v.map_values(|p: (String, VarState)| (p.0@, p.1@))
}

/// Borrow checker for Glimmer-Weave
pub struct BorrowChecker {
    /// Current state of each variable, one entry per name
    variables: Vec<(String, VarState)>,
    /// Errors found during checking
    errors: Vec<BorrowError>,
}

impl BorrowChecker {
    /// Variable states and errors found so far.
    pub closed spec fn state(&self) -> CheckState {
        CheckState {
            vars: table_view(self.variables@),
            errors: self.errors@.map_values(|e: BorrowError| e@),
        }
    }

    /// Create a new borrow checker
    pub fn new() -> (c: Self)
        ensures
            c.state().vars == Seq::<(Seq<char>, VarStateView)>::empty(),
            c.state().errors == Seq::<BorrowErrorView>::empty(),
    {
        let c = BorrowChecker { variables: Vec::new(), errors: Vec::new() };
        assert(c.state().vars =~= Seq::<(Seq<char>, VarStateView)>::empty());
        assert(c.state().errors =~= Seq::<BorrowErrorView>::empty());
        c
    }

    /// Index of the first entry for `name`.
    fn find(&self, name: &String) -> (r: Option<usize>)
        ensures
            match r {
                Some(i) => {
                    &&& i < self.variables@.len()
                    &&& self.variables@[i as int].0@ == name@
                    &&& forall|j: int| 0 <= j < i ==> #[trigger] self.variables@[j].0@ != name@
                },
                None => forall|j: int| 0 <= j < self.variables@.len() ==> #[trigger] self.variables@[j].0@ != name@,
            },
    {
        let mut i: usize = 0;
        while i < self.variables.len()
            invariant
                i <= self.variables@.len(),
                forall|j: int| 0 <= j < i ==> #[trigger] self.variables@[j].0@ != name@,
            decreases self.variables@.len() - i,
        {
            if self.variables[i].0 == *name {
                return Some(i);
            }
            i += 1;
        }
        None
    }

    /// Record an error.
    fn add_error(&mut self, e: BorrowError)
        ensures
            final(self).state() == with_error(old(self).state(), e@),
    {
        self.errors.push(e);
        assert(self.state().errors =~= old(self).state().errors.push(e@));
    }

    /// Set the state of `name`.
    fn set_var(&mut self, name: String, v: VarState)
        ensures
            final(self).state() == with_var(old(self).state(), name@, v@),
    {
        let ghost t = self.state().vars;
        let ghost nv = name@;
        let ghost vv = v@;
        match self.find(&name) {
            Some(i) => {
                proof {
                    lemma_first_entry(t, nv, vv, i as int);
                }
                self.variables.set(i, (name, v));
                assert(self.state().vars =~= t.update(i as int, (nv, vv)));
            },
            None => {
                proof {
                    lemma_first_entry(t, nv, vv, t.len() as int);
                }
                self.variables.push((name, v));
                assert(self.state().vars =~= t.push((nv, vv)));
            },
        }
    }

    /// The state of `name`, when it has one, as far as the rules look at it.
    fn state_of(&self, name: &String) -> (r: Option<Seen>)
        ensures
            r == (match lookup(self.state().vars, name@) {
                None => None,
                Some(v) => Some(seen(v)),
            }),
    {
        match self.find(name) {
            None => {
                proof {
                    lemma_first_entry(self.state().vars, name@, VarStateView::Owned, self.variables@.len() as int);
                }
                None
            },
            Some(i) => {
                proof {
                    lemma_first_entry(self.state().vars, name@, VarStateView::Owned, i as int);
                }
                match &self.variables[i].1 {
                    VarState::Owned => Some(Seen::Owned),
                    VarState::Moved(at) => Some(Seen::Moved(*at)),
                    VarState::ImmutablyBorrowed(b) => if b.len() > 0 {
                        Some(Seen::Borrowed(b[0]))
                    } else {
                        Some(Seen::BorrowedByNone)
                    },
                    VarState::MutablyBorrowed(at) => Some(Seen::BorrowedMut(*at)),
                }
            },
        }
    }

    /// Mark a variable as moved
    fn mark_moved(&mut self, name: &String, span: SourceSpan)
        ensures
            final(self).state() == mark_moved_spec(old(self).state(), name@, span),
    {
        match self.state_of(name) {
            Some(Seen::Moved(moved_at)) => self.add_error(
                BorrowErrorOf::UseAfterMove { variable: name.clone(), moved_at, used_at: span },
            ),
            Some(Seen::Borrowed(borrow_at)) => self.add_error(
                BorrowErrorOf::BorrowOfMovedValue { variable: name.clone(), moved_at: borrow_at, borrowed_at: span },
            ),
            Some(Seen::BorrowedMut(borrow_at)) => self.add_error(
                BorrowErrorOf::BorrowOfMovedValue { variable: name.clone(), moved_at: borrow_at, borrowed_at: span },
            ),
            Some(Seen::Owned) => self.set_var(name.clone(), VarState::Moved(span)),
            _ => {},
        }
    }

    /// Check an assignment's target variable: it must be neither moved nor borrowed.
    fn check_assign(&mut self, target: &AstNode, span: SourceSpan)
        ensures
            final(self).state() == assign_spec(old(self).state(), *target, span),
    {
        match target {
            AstNode::Ident { name, .. } => match self.state_of(name) {
                Some(Seen::Moved(moved_at)) => self.add_error(
                    BorrowErrorOf::UseAfterMove { variable: name.clone(), moved_at, used_at: span },
                ),
                Some(Seen::Borrowed(borrow_at)) => self.add_error(
                    BorrowErrorOf::MutableBorrowConflict {
                        variable: name.clone(),
                        immutable_borrow_at: borrow_at,
                        mutable_borrow_at: span,
                    },
                ),
                Some(Seen::BorrowedMut(borrow_at)) => self.add_error(
                    BorrowErrorOf::MultipleMutableBorrows {
                        variable: name.clone(),
                        first_borrow_at: borrow_at,
                        second_borrow_at: span,
                    },
                ),
                _ => {},
            },
            _ => {},
        }
    }

    /// Bind a new variable to `value`, moving the value if it is a variable.
    fn check_bind(&mut self, name: &String, value: &AstNode, span: SourceSpan)
        ensures
            final(self).state() == bind_spec(old(self).state(), name@, *value, span),
        decreases value, 3nat,
    {
        match value {
            AstNode::Ident { name: moved, .. } => self.mark_moved(moved, span),
            _ => self.check_node(value),
        }
        self.set_var(name.clone(), VarState::Owned);
    }

    /// Check statements in order.
    fn check_nodes(&mut self, nodes: &[AstNode])
        ensures
            final(self).state() == check_nodes_spec(old(self).state(), nodes@),
        decreases nodes@, 0nat,
    {
        let ghost st0 = self.state();
        let mut i: usize = 0;
        while i < nodes.len()
            invariant
                i <= nodes@.len(),
                self.state() == check_nodes_spec(st0, nodes@.take(i as int)),
            decreases nodes@.len() - i,
        {
            proof {
                assert(decreases_to!(nodes@ => nodes@[i as int]));
            }
            self.check_node(&nodes[i]);
            i += 1;
            assert(nodes@.take(i as int).drop_last() =~= nodes@.take(i - 1));
        }
        assert(nodes@.take(i as int) =~= nodes@);
    }

    /// Check one call argument.
    fn check_arg(&mut self, arg: &AstNode)
        ensures
            final(self).state() == check_arg_spec(old(self).state(), *arg),
        decreases arg, 3nat,
    {
        match arg {
            AstNode::BorrowExpr { value, span: borrow_span, .. } => {
                match &**value {
                    AstNode::Ident { name, .. } => match self.state_of(name) {
                        Some(Seen::Moved(moved_at)) => self.add_error(
                            BorrowErrorOf::BorrowOfMovedValue {
                                variable: name.clone(),
                                moved_at,
                                borrowed_at: *borrow_span,
                            },
                        ),
                        _ => {},
                    },
                    _ => {},
                }
                self.check_node(value);
            },
            AstNode::Ident { name, span } => self.mark_moved(name, *span),
            _ => self.check_node(arg),
        }
    }

    /// Check call arguments in order.
    fn check_args(&mut self, args: &[AstNode])
        ensures
            final(self).state() == check_args_spec(old(self).state(), args@),
        decreases args@, 0nat,
    {
        let ghost st0 = self.state();
        let mut i: usize = 0;
        while i < args.len()
            invariant
                i <= args@.len(),
                self.state() == check_args_spec(st0, args@.take(i as int)),
            decreases args@.len() - i,
        {
            proof {
                assert(decreases_to!(args@ => args@[i as int]));
            }
            self.check_arg(&args[i]);
            i += 1;
            assert(args@.take(i as int).drop_last() =~= args@.take(i - 1));
        }
        assert(args@.take(i as int) =~= args@);
    }

    /// Declare parameters in order, each in the state its borrow mode gives.
    fn declare_params(&mut self, params: &Vec<Parameter>)
        ensures
            final(self).state() == declare_params(old(self).state(), params@),
    {
        let ghost st0 = self.state();
        let mut i: usize = 0;
        while i < params.len()
            invariant
                i <= params@.len(),
                self.state() == declare_params(st0, params@.take(i as int)),
            decreases params@.len() - i,
        {
            let p = &params[i];
            let state = match p.borrow_mode {
                BorrowMode::Owned => VarState::Owned,
                BorrowMode::Borrowed => VarState::ImmutablyBorrowed(Vec::new()),
                BorrowMode::BorrowedMut => VarState::MutablyBorrowed(SourceSpan::unknown()),
            };
            proof {
                assert(state@ == param_state(*p)) by {
                    if p.borrow_mode is Borrowed {
                        assert(state@ == VarStateView::ImmutablyBorrowed(Seq::<SourceSpan>::empty()));
                    }
                }
            }
            self.set_var(p.name.clone(), state);
            i += 1;
            assert(params@.take(i as int).drop_last() =~= params@.take(i - 1));
        }
        assert(params@.take(i as int) =~= params@);
    }

    /// Check one node.
    fn check_node(&mut self, node: &AstNode)
        ensures
            final(self).state() == check_node_spec(old(self).state(), *node),
        decreases node, 2nat,
    {
        match node {
            AstNode::BindStmt { name, value, span, .. } => self.check_bind(name, value, *span),
            AstNode::WeaveStmt { name, value, span, .. } => self.check_bind(name, value, *span),
            AstNode::SetStmt { target, value, span } => {
                self.check_assign(target, *span);
                self.check_node(target);
                self.check_node(value);
            },
            AstNode::Ident { name, span } => match self.state_of(name) {
                Some(Seen::Moved(moved_at)) => self.add_error(
                    BorrowErrorOf::UseAfterMove { variable: name.clone(), moved_at, used_at: *span },
                ),
                _ => {},
            },
            AstNode::ChantDef { params, body, .. } => {
                self.declare_params(params);
                self.check_nodes(body.as_slice());
            },
            AstNode::IfStmt { condition, then_branch, else_branch, .. } => {
                self.check_node(condition);
                self.check_nodes(then_branch.as_slice());
                match else_branch {
                    Some(eb) => self.check_nodes(eb.as_slice()),
                    None => {},
                }
            },
            AstNode::WhileStmt { condition, body, .. } => {
                self.check_node(condition);
                self.check_nodes(body.as_slice());
            },
            AstNode::ForStmt { body, iterable, .. } => {
                self.check_node(iterable);
                self.check_nodes(body.as_slice());
            },
            AstNode::BinaryOp { left, right, .. } => {
                self.check_node(left);
                self.check_node(right);
            },
            AstNode::UnaryOp { operand, .. } => self.check_node(operand),
            AstNode::Call { callee, args, .. } => {
                self.check_node(callee);
                self.check_args(args.as_slice());
            },
            AstNode::YieldStmt { value, span } => match &**value {
                AstNode::Ident { name, .. } => self.mark_moved(name, *span),
                _ => self.check_node(value),
            },
            AstNode::BorrowExpr { value, .. } => self.check_node(value),
            AstNode::List { elements, .. } => self.check_nodes(elements.as_slice()),
            AstNode::FieldAccess { object, .. } => self.check_node(object),
            AstNode::IndexAccess { object, index, .. } => {
                self.check_node(object);
                self.check_node(index);
            },
            _ => {},
        }
    }

    /// Check a list of AST nodes for borrow errors: `Ok` when no error was
    /// found (by this call or an earlier one), else every error found so far.
    pub fn check(&mut self, nodes: &[AstNode]) -> (r: Result<(), Vec<BorrowError>>)
        ensures
            final(self).state() == check_nodes_spec(old(self).state(), nodes@),
            match r {
                Ok(()) => final(self).state().errors.len() == 0,
                Err(es) => {
                    &&& final(self).state().errors.len() > 0
                    &&& es@.map_values(|e: BorrowError| e@) == final(self).state().errors
                },
            },
    {
        self.check_nodes(nodes);
        if self.errors.len() == 0 {
            Ok(())
        } else {
            let mut es: Vec<BorrowError> = Vec::new();
            let mut i: usize = 0;
            while i < self.errors.len()
                invariant
                    i <= self.errors@.len(),
                    es@.len() == i,
                    forall|j: int| 0 <= j < i ==> #[trigger] es@[j]@ == self.errors@[j]@,
                decreases self.errors@.len() - i,
            {
                let e = self.errors[i].duplicate();
                es.push(e);
                i += 1;
            }
            assert(es@.map_values(|e: BorrowError| e@) =~= self.state().errors);
            Err(es)
        }
    }
}

impl Default for BorrowChecker {
    fn default() -> (c: Self)
        ensures
            c.state().vars == Seq::<(Seq<char>, VarStateView)>::empty(),
            c.state().errors == Seq::<BorrowErrorView>::empty(),
    {
        Self::new()
    }
}

} // verus!
