//! The interpreter's variable store: nested scopes of bindings, each
//! immutable (`bind`) or mutable (`weave`). Lookups and assignments search
//! from the innermost scope outwards; a `bind` variable cannot be changed.

use vstd::prelude::*;
use crate::module_resolver::text_eq;

verus! {

/// An error of the variable store.
#[derive(Debug, Clone, PartialEq)]
pub enum EnvError {
    /// No scope binds the variable.
    UndefinedVariable(String),
    /// The variable was bound with `bind` and cannot be changed.
    ImmutableBinding(String),
}

/// An error of the variable store, as a value.
pub enum EnvErrorView {
    UndefinedVariable(Seq<char>),
    ImmutableBinding(Seq<char>),
}

impl View for EnvError {
    type V = EnvErrorView;

    open spec fn view(&self) -> EnvErrorView {
        match self {
            EnvError::UndefinedVariable(n) => EnvErrorView::UndefinedVariable(n@),
            EnvError::ImmutableBinding(n) => EnvErrorView::ImmutableBinding(n@),
        }
    }
}

/// The value of the result of an assignment.
pub open spec fn set_result_view(r: Result<(), EnvError>) -> Result<(), EnvErrorView> {
    match r {
        Ok(()) => Ok(()),
        Err(e) => Err(e@),
    }
}

/// A scope as a value: each binding's name, value and whether it may change.
pub type ScopeView<V> = Seq<(Seq<char>, V, bool)>;

/// Where `name` is bound in a scope: its first entry.
pub open spec fn scope_find<V>(scope: ScopeView<V>, name: Seq<char>) -> Option<int>
    decreases scope.len(),
{
    if scope.len() == 0 {
        None
    } else if scope[0].0 == name {
        Some(0)
    } else {
        match scope_find(scope.drop_first(), name) {
            Some(j) => Some(j + 1),
            None => None,
        }
    }
}

/// The first entry for `name` is at `j`, or there is none.
proof fn lemma_scope_find<V>(scope: ScopeView<V>, name: Seq<char>, j: int)
    requires
        0 <= j <= scope.len(),
        forall|k: int| 0 <= k < j ==> #[trigger] scope[k].0 != name,
        j < scope.len() ==> scope[j].0 == name,
    ensures
        scope_find(scope, name) == (if j < scope.len() { Some(j) } else { None::<int> }),
    decreases j,
{
    if j > 0 {
        let rest = scope.drop_first();
        assert forall|k: int| 0 <= k < j - 1 implies #[trigger] rest[k].0 != name by {
            assert(rest[k] == scope[k + 1]);
        }
        lemma_scope_find(rest, name, j - 1);
        assert(scope[0].0 != name);
    } else if scope.len() > 0 {
    }
}

/// A scope with `name` bound to `value`: its entry replaced, or a new one
/// added at the end.
pub open spec fn scope_bind<V>(scope: ScopeView<V>, name: Seq<char>, value: V, mutable: bool) -> ScopeView<V> {
    match scope_find(scope, name) {
        Some(j) => scope.update(j, (name, value, mutable)),
        None => scope.push((name, value, mutable)),
    }
}

/// The scopes with `name` bound to `value` in the innermost one (none
/// without scopes).
pub open spec fn bind_innermost<V>(scopes: Seq<ScopeView<V>>, name: Seq<char>, value: V, mutable: bool) -> Seq<
    ScopeView<V>,
> {
    if scopes.len() == 0 {
        scopes
    } else {
        scopes.update(scopes.len() - 1, scope_bind(scopes.last(), name, value, mutable))
    }
}

/// The binding of `name` that a lookup finds: in the innermost scope that
/// binds it, as its scope's index and its entry's index.
pub open spec fn innermost_binding<V>(scopes: Seq<ScopeView<V>>, name: Seq<char>) -> Option<(int, int)>
    decreases scopes.len(),
{
    if scopes.len() == 0 {
        None
    } else {
        match scope_find(scopes.last(), name) {
            Some(j) => Some(((scopes.len() - 1) as int, j)),
            None => innermost_binding(scopes.drop_last(), name),
        }
    }
}

/// The value a lookup of `name` finds.
pub open spec fn lookup_innermost<V>(scopes: Seq<ScopeView<V>>, name: Seq<char>) -> Option<V> {
    match innermost_binding(scopes, name) {
        Some((i, j)) => Some(scopes[i][j].1),
        None => None,
    }
}

/// Assigning `value` to `name`: the binding a lookup finds gets the value
/// if it is mutable; an immutable or missing binding is an error and
/// nothing changes.
pub open spec fn set_outcome<V>(scopes: Seq<ScopeView<V>>, name: Seq<char>, value: V) -> (
    Seq<ScopeView<V>>,
    Result<(), EnvErrorView>,
) {
    match innermost_binding(scopes, name) {
        None => (scopes, Err(EnvErrorView::UndefinedVariable(name))),
        Some((i, j)) => if !scopes[i][j].2 {
            (scopes, Err(EnvErrorView::ImmutableBinding(name)))
        } else {
            (scopes.update(i, scopes[i].update(j, (name, value, true))), Ok(()))
        },
    }
}

/// The scopes after leaving the innermost one; the outermost is never left.
pub open spec fn pop_scopes<V>(scopes: Seq<ScopeView<V>>) -> Seq<ScopeView<V>> {
    if scopes.len() > 1 {
        scopes.drop_last()
    } else {
        scopes
    }
}

/// A binding's position is within its scopes.
proof fn lemma_innermost_binding<V>(scopes: Seq<ScopeView<V>>, name: Seq<char>)
    ensures
        innermost_binding(scopes, name) matches Some((i, j)) ==> 0 <= i < scopes.len() && 0 <= j < scopes[i].len()
            && scopes[i][j].0 == name,
    decreases scopes.len(),
{
    if scopes.len() > 0 {
        lemma_scope_find_bounds(scopes.last(), name);
        lemma_innermost_binding(scopes.drop_last(), name);
    }
}

/// What the first entry for `name` is: the least index with that name.
proof fn lemma_scope_find_bounds<V>(scope: ScopeView<V>, name: Seq<char>)
    ensures
        match scope_find(scope, name) {
            Some(j) => 0 <= j < scope.len() && scope[j].0 == name && forall|k: int| 0 <= k < j ==> #[trigger] scope[k].0
                != name,
            None => forall|k: int| 0 <= k < scope.len() ==> #[trigger] scope[k].0 != name,
        },
    decreases scope.len(),
{
    if scope.len() > 0 && scope[0].0 != name {
        let rest = scope.drop_first();
        lemma_scope_find_bounds(rest, name);
        assert forall|k: int| 0 < k < scope.len() implies #[trigger] scope[k] == rest[k - 1] by {}
    }
}

/// A binding just made in a scope is the one found there.
proof fn lemma_scope_bind_find<V>(scope: ScopeView<V>, name: Seq<char>, value: V, mutable: bool)
    ensures
        scope_find(scope_bind(scope, name, value, mutable), name) == Some(
            match scope_find(scope, name) {
                Some(j) => j,
                None => scope.len() as int,
            },
        ),
        scope_find(scope_bind(scope, name, value, mutable), name) matches Some(j)
            && scope_bind(scope, name, value, mutable)[j] == (name, value, mutable),
{
    lemma_scope_find_bounds(scope, name);
    let b = scope_bind(scope, name, value, mutable);
    match scope_find(scope, name) {
        Some(j) => {
            assert forall|k: int| 0 <= k < j implies #[trigger] b[k].0 != name by {
                assert(b[k] == scope[k]);
            }
            lemma_scope_find(b, name, j);
        },
        None => {
            assert forall|k: int| 0 <= k < scope.len() implies #[trigger] b[k].0 != name by {
                assert(b[k] == scope[k]);
            }
            lemma_scope_find(b, name, scope.len() as int);
        },
    }
}

/// What a lookup gives right after a definition: the value defined, in
/// the innermost scope.
pub proof fn define_then_get_law<V>(scopes: Seq<ScopeView<V>>, name: Seq<char>, value: V, mutable: bool)
    requires
        scopes.len() >= 1,
    ensures
        innermost_binding(bind_innermost(scopes, name, value, mutable), name) matches Some((i, _))
            && i == scopes.len() - 1,
        lookup_innermost(bind_innermost(scopes, name, value, mutable), name) == Some(value),
{
    lemma_scope_bind_find(scopes.last(), name, value, mutable);
    let b = bind_innermost(scopes, name, value, mutable);
    assert(b.last() == scope_bind(scopes.last(), name, value, mutable));
}

/// A `bind` variable cannot be changed: assigning to a variable just
/// bound with `define` fails with `ImmutableBinding` and changes nothing.
pub proof fn bind_is_immutable_law<V>(scopes: Seq<ScopeView<V>>, name: Seq<char>, value: V, new_value: V)
    requires
        scopes.len() >= 1,
    ensures
        set_outcome(bind_innermost(scopes, name, value, false), name, new_value) == (
            bind_innermost(scopes, name, value, false),
            Err::<(), EnvErrorView>(EnvErrorView::ImmutableBinding(name)),
        ),
{
    define_then_get_law(scopes, name, value, false);
    lemma_scope_bind_find(scopes.last(), name, value, false);
}

/// A `weave` variable can be changed: assigning to a variable just bound
/// with `define_mut` succeeds, and a lookup then gives the new value.
pub proof fn weave_is_mutable_law<V>(scopes: Seq<ScopeView<V>>, name: Seq<char>, value: V, new_value: V)
    requires
        scopes.len() >= 1,
    ensures
        set_outcome(bind_innermost(scopes, name, value, true), name, new_value).1 == Ok::<(), EnvErrorView>(()),
        set_outcome(bind_innermost(scopes, name, value, true), name, new_value).0 == bind_innermost(
            scopes,
            name,
            new_value,
            true,
        ),
        lookup_innermost(set_outcome(bind_innermost(scopes, name, value, true), name, new_value).0, name) == Some(
            new_value,
        ),
{
    define_then_get_law(scopes, name, value, true);
    let s = scopes.last();
    lemma_scope_bind_find(s, name, value, true);
    lemma_scope_find_bounds(s, name);
    let b = bind_innermost(scopes, name, value, true);
    let j = scope_find(scope_bind(s, name, value, true), name)->Some_0;
    assert(b[scopes.len() - 1] == scope_bind(s, name, value, true));
    match scope_find(s, name) {
        Some(k) => {
            assert(b[scopes.len() - 1].update(j, (name, new_value, true)) =~= s.update(k, (name, new_value, true)));
        },
        None => {
            assert(b[scopes.len() - 1].update(j, (name, new_value, true)) =~= s.push((name, new_value, true)));
        },
    }
    let after = set_outcome(b, name, new_value).0;
    assert(after =~= bind_innermost(scopes, name, new_value, true));
    define_then_get_law(scopes, name, new_value, true);
}

/// Entering a scope and leaving it again gives back the scopes there were.
pub proof fn push_then_pop_law<V>(scopes: Seq<ScopeView<V>>)
    requires
        scopes.len() >= 1,
    ensures
        pop_scopes(scopes.push(Seq::empty())) == scopes,
{
    assert(scopes.push(Seq::empty()).drop_last() =~= scopes);
}

/// A definition in an inner scope shadows the outer ones only until that
/// scope is left: afterwards a lookup finds what it found before.
pub proof fn shadowing_ends_with_scope_law<V>(scopes: Seq<ScopeView<V>>, name: Seq<char>, value: V, mutable: bool)
    requires
        scopes.len() >= 1,
    ensures
        pop_scopes(bind_innermost(scopes.push(Seq::empty()), name, value, mutable)) == scopes,
        lookup_innermost(bind_innermost(scopes.push(Seq::empty()), name, value, mutable), name) == Some(value),
{
    let inner = scopes.push(Seq::empty());
    define_then_get_law(inner, name, value, mutable);
    assert(bind_innermost(inner, name, value, mutable).drop_last() =~= scopes);
}

/// The scopes of a store as values.
pub open spec fn scopes_of<V>(scopes: Seq<Vec<(String, V, bool)>>) -> Seq<ScopeView<V>> {
    scopes.map_values(|s: Vec<(String, V, bool)>| scope_of(s@))
}

/// A scope as a value.
pub open spec fn scope_of<V>(scope: Seq<(String, V, bool)>) -> ScopeView<V> {
    scope.map_values(|e: (String, V, bool)| (e.0@, e.1, e.2))
}

/// Environment manages variable scopes
///
/// Scopes are nested: inner scopes can shadow outer scopes.
/// When a function is called, we push a new scope.
/// When it returns, we pop the scope.
#[derive(Debug, Clone, PartialEq)]
pub struct Environment<V> {
    /// Stack of scopes (innermost scope is last): each binding's name,
    /// value and whether it may change.
    scopes: Vec<Vec<(String, V, bool)>>,
}

/// The first entry of `scope` for `name`.
fn find_in_scope<V>(scope: &Vec<(String, V, bool)>, name: &str) -> (r: Option<usize>)
    ensures
        match r {
            Some(j) => j < scope@.len() && scope_find(scope_of(scope@), name@) == Some(j as int),
            None => scope_find(scope_of(scope@), name@) is None,
        },
{
    let ghost sv = scope_of(scope@);
    let mut j: usize = 0;
    while j < scope.len()
        invariant
            j <= scope@.len(),
            sv == scope_of(scope@),
            forall|k: int| 0 <= k < j ==> #[trigger] sv[k].0 != name@,
        decreases scope@.len() - j,
    {
        if text_eq(&scope[j].0, name) {
            proof {
                lemma_scope_find(sv, name@, j as int);
            }
            return Some(j);
        }
        j += 1;
    }
    proof {
        lemma_scope_find(sv, name@, j as int);
    }
    None
}

impl<V> Environment<V> {
    /// The scopes, outermost first, as values.
    pub closed spec fn scopes_view(&self) -> Seq<ScopeView<V>> {
        scopes_of(self.scopes@)
    }

    /// Create a new environment with one empty scope
    pub fn new() -> (e: Self)
        ensures
            e.scopes_view() == seq![Seq::<(Seq<char>, V, bool)>::empty()],
    {
        let mut scopes: Vec<Vec<(String, V, bool)>> = Vec::new();
        scopes.push(Vec::new());
        let e = Environment { scopes };
        assert(scope_of(Seq::<(String, V, bool)>::empty()) =~= Seq::<(Seq<char>, V, bool)>::empty());
        assert(e.scopes_view() =~= seq![Seq::<(Seq<char>, V, bool)>::empty()]);
        e
    }

    /// Push a new scope (for function calls, blocks)
    pub fn push_scope(&mut self)
        ensures
            final(self).scopes_view() == old(self).scopes_view().push(Seq::empty()),
    {
        self.scopes.push(Vec::new());
        assert(scope_of(Seq::<(String, V, bool)>::empty()) =~= Seq::<(Seq<char>, V, bool)>::empty());
        assert(self.scopes_view() =~= old(self).scopes_view().push(Seq::empty()));
    }

    /// Pop the innermost scope; the outermost one stays.
    pub fn pop_scope(&mut self)
        ensures
            final(self).scopes_view() == pop_scopes(old(self).scopes_view()),
    {
        if self.scopes.len() > 1 {
            self.scopes.pop();
            assert(self.scopes_view() =~= old(self).scopes_view().drop_last());
        }
    }

    /// Bind `name` in the innermost scope.
    fn bind(&mut self, name: String, value: V, mutable: bool)
        ensures
            final(self).scopes_view() == bind_innermost(old(self).scopes_view(), name@, value, mutable),
    {
        if self.scopes.len() == 0 {
            return;
        }
        let ghost before = self.scopes@;
        let mut last = self.scopes.pop().unwrap();
        let ghost old_last = last@;
        match find_in_scope(&last, name.as_str()) {
            Some(j) => {
                let ghost n = name@;
                last.set(j, (name, value, mutable));
                assert(scope_of(last@) =~= scope_of(old_last).update(j as int, (n, value, mutable)));
            },
            None => {
                let ghost n = name@;
                last.push((name, value, mutable));
                assert(scope_of(last@) =~= scope_of(old_last).push((n, value, mutable)));
            },
        }
        self.scopes.push(last);
        assert(self.scopes_view() =~= bind_innermost(old(self).scopes_view(), name@, value, mutable));
    }

    /// Define a new immutable binding
    pub fn define(&mut self, name: String, value: V)
        ensures
            final(self).scopes_view() == bind_innermost(old(self).scopes_view(), name@, value, false),
    {
        self.bind(name, value, false)
    }

    /// Define a new mutable binding
    pub fn define_mut(&mut self, name: String, value: V)
        ensures
            final(self).scopes_view() == bind_innermost(old(self).scopes_view(), name@, value, true),
    {
        self.bind(name, value, true)
    }

    /// Where a lookup of `name` finds its binding (see `innermost_binding`).
    fn find(&self, name: &str) -> (r: Option<(usize, usize)>)
        ensures
            match r {
                Some((i, j)) => i < self.scopes@.len() && j < self.scopes@[i as int]@.len() && innermost_binding(
                    self.scopes_view(),
                    name@,
                ) == Some((i as int, j as int)),
                None => innermost_binding(self.scopes_view(), name@) is None,
            },
    {
        let ghost s = self.scopes_view();
        let mut i: usize = self.scopes.len();
        assert(s.take(i as int) =~= s);
        while i > 0
            invariant
                i <= self.scopes@.len() == s.len(),
                s == self.scopes_view(),
                innermost_binding(s, name@) == innermost_binding(s.take(i as int), name@),
            decreases i,
        {
            i -= 1;
            assert(s.take(i + 1).drop_last() =~= s.take(i as int));
            assert(s.take(i + 1).last() == s[i as int]);
            match find_in_scope(&self.scopes[i], name) {
                Some(j) => {
                    return Some((i, j));
                },
                None => {},
            }
        }
        None
    }
}

impl<V: Clone> Environment<V> {
    /// Get a variable's value (searches from innermost to outermost scope):
    /// a clone of the value that the lookup finds.
    pub fn get(&self, name: &str) -> (r: Result<V, EnvError>)
        ensures
            match lookup_innermost(self.scopes_view(), name@) {
                Some(v) => r matches Ok(x) && cloned::<V>(v, x),
                None => r matches Err(e) && e@ == EnvErrorView::UndefinedVariable(name@),
            },
    {
        match self.find(name) {
            Some((i, j)) => Ok(self.scopes[i][j].1.clone()),
            None => Err(EnvError::UndefinedVariable(String::from_str(name))),
        }
    }

    /// Set a variable's value (must be mutable); see `set_outcome`.
    pub fn set(&mut self, name: &str, value: V) -> (r: Result<(), EnvError>)
        ensures
            (final(self).scopes_view(), set_result_view(r)) == set_outcome(old(self).scopes_view(), name@, value),
    {
        match self.find(name) {
            None => Err(EnvError::UndefinedVariable(String::from_str(name))),
            Some((i, j)) => {
                if !self.scopes[i][j].2 {
                    return Err(EnvError::ImmutableBinding(String::from_str(name)));
                }
                let ghost s = self.scopes_view();
                let mut scope = self.scopes.remove(i);
                let ghost old_scope = scope@;
                scope.set(j, (String::from_str(name), value, true));
                assert(scope_of(scope@) =~= s[i as int].update(j as int, (name@, value, true)));
                self.scopes.insert(i, scope);
                assert(self.scopes_view() =~= s.update(i as int, s[i as int].update(j as int, (name@, value, true))));
                Ok(())
            },
        }
    }
}

impl<V> Default for Environment<V> {
    fn default() -> (e: Self)
        ensures
            e.scopes_view() == seq![Seq::<(Seq<char>, V, bool)>::empty()],
    {
        Self::new()
    }
}

} // verus!
