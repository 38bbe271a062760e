//! Module resolution: turning import paths into file paths, naming modules
//! after their files, and finding circular dependencies between modules.
//!
//! Import paths are resolved in this order: a path starting with `./` or
//! `../` is relative to the importing file; a path under `std/` is taken
//! from the standard library directory; any other path from the project
//! root.

use vstd::prelude::*;
use crate::ast::AstNode;
use crate::debug_text::{debug_str, str_debug_text};
use crate::parser::{token_spans, token_views, ParseError, Parser};
use crate::parser::grammar::nodes_view;
use crate::parser::program::program_spec;
use crate::text::{push_str, spec_decimal, usize_to_string};
use crate::token::PositionedToken;

verus! {

/// Errors that can occur during module resolution
#[derive(Debug, Clone, PartialEq)]
pub enum ResolverError {
    /// Module file not found at specified path
    ModuleNotFound { path: String, searched_paths: Vec<String> },
    /// Circular dependency detected
    CircularDependency { cycle: Vec<String> },
    /// Parse error while loading module
    ParseError { path: String, error: String },
    /// I/O error reading module file
    IoError { path: String, message: String },
    /// Invalid module path
    InvalidPath { path: String, reason: String },
}

/// Mathematical view of a resolver error.
pub enum ResolverErrorView {
    ModuleNotFound { path: Seq<char>, searched_paths: Seq<Seq<char>> },
    CircularDependency { cycle: Seq<Seq<char>> },
    ParseError { path: Seq<char>, error: Seq<char> },
    IoError { path: Seq<char>, message: Seq<char> },
    InvalidPath { path: Seq<char>, reason: Seq<char> },
}

/// Views of a list of texts.
pub open spec fn texts_view(v: Seq<String>) -> Seq<Seq<char>> {
    v.map_values(|s: String| s@)
}

impl View for ResolverError {
    type V = ResolverErrorView;

    open spec fn view(&self) -> ResolverErrorView {
        match self {
            ResolverError::ModuleNotFound { path, searched_paths } => ResolverErrorView::ModuleNotFound {
                path: path@,
                searched_paths: texts_view(searched_paths@),
            },
            ResolverError::CircularDependency { cycle } => ResolverErrorView::CircularDependency {
                cycle: texts_view(cycle@),
            },
            ResolverError::ParseError { path, error } => ResolverErrorView::ParseError { path: path@, error: error@ },
            ResolverError::IoError { path, message } => ResolverErrorView::IoError { path: path@, message: message@ },
            ResolverError::InvalidPath { path, reason } => ResolverErrorView::InvalidPath {
                path: path@,
                reason: reason@,
            },
        }
    }
}

/// Lexicographic order of texts by character (the order of `String`).
pub open spec fn text_lt(a: Seq<char>, b: Seq<char>) -> bool
    decreases a.len(),
{
    if a.len() == 0 {
        b.len() > 0
    } else if b.len() == 0 {
        false
    } else if a[0] != b[0] {
        a[0] < b[0]
    } else {
        text_lt(a.drop_first(), b.drop_first())
    }
}

pub(crate) proof fn lemma_text_lt_irreflexive(a: Seq<char>)
    ensures
        !text_lt(a, a),
    decreases a.len(),
{
    if a.len() > 0 {
        lemma_text_lt_irreflexive(a.drop_first());
    }
}

pub(crate) proof fn lemma_text_lt_transitive(a: Seq<char>, b: Seq<char>, c: Seq<char>)
    requires
        text_lt(a, b),
        text_lt(b, c),
    ensures
        text_lt(a, c),
    decreases a.len(),
{
    if a.len() > 0 && b.len() > 0 && c.len() > 0 && a[0] == b[0] && b[0] == c[0] {
        lemma_text_lt_transitive(a.drop_first(), b.drop_first(), c.drop_first());
    }
}

pub(crate) proof fn lemma_text_lt_total(a: Seq<char>, b: Seq<char>)
    ensures
        a == b || text_lt(a, b) || text_lt(b, a),
    decreases a.len(),
{
    if a.len() > 0 && b.len() > 0 && a[0] == b[0] {
        lemma_text_lt_total(a.drop_first(), b.drop_first());
        if a.drop_first() == b.drop_first() {
            assert(a =~= seq![a[0]] + a.drop_first());
            assert(b =~= seq![b[0]] + b.drop_first());
        }
    } else if a.len() == 0 && b.len() == 0 {
        assert(a =~= b);
    }
}

pub(crate) proof fn lemma_text_lt_asymmetric(a: Seq<char>, b: Seq<char>)
    requires
        text_lt(a, b),
    ensures
        !text_lt(b, a),
{
    if text_lt(b, a) {
        lemma_text_lt_transitive(a, b, a);
        lemma_text_lt_irreflexive(a);
    }
}

/// Whether `a` comes before `b`.
pub(crate) fn less_than(a: &String, b: &String) -> (r: bool)
    ensures
        r == text_lt(a@, b@),
{
    let av = a.as_str();
    let bv = b.as_str();
    let n = av.unicode_len();
    let m = bv.unicode_len();
    let mut i: usize = 0;
    assert(a@.skip(0) =~= a@);
    assert(b@.skip(0) =~= b@);
    while i < n && i < m
        invariant
            n == a@.len(),
            m == b@.len(),
            av@ == a@,
            bv@ == b@,
            i <= n,
            i <= m,
            forall|j: int| 0 <= j < i ==> a@[j] == b@[j],
            text_lt(a@, b@) == text_lt(a@.skip(i as int), b@.skip(i as int)),
        decreases n - i,
    {
        let x = av.get_char(i);
        let y = bv.get_char(i);
        if x != y {
            return x < y;
        }
        proof {
            assert(a@.skip(i as int).drop_first() =~= a@.skip(i + 1));
            assert(b@.skip(i as int).drop_first() =~= b@.skip(i + 1));
        }
        i += 1;
    }
    i < m
}

/// Dependency graph: each module's path with the paths it imports, in
/// increasing order of path.
pub type Graph = Seq<(Seq<char>, Seq<Seq<char>>)>;

/// The graph's paths are in strictly increasing order.
pub open spec fn sorted_graph(g: Graph) -> bool {
    forall|i: int, j: int| 0 <= i < j < g.len() ==> text_lt(#[trigger] g[i].0, #[trigger] g[j].0)
}

/// The graph with `k`'s dependencies set to `v`: its entry replaced, or
/// a new entry in its place in the order.
pub open spec fn graph_insert(g: Graph, k: Seq<char>, v: Seq<Seq<char>>) -> Graph
    decreases g.len(),
{
    if g.len() == 0 {
        seq![(k, v)]
    } else if g[0].0 == k {
        g.update(0, (k, v))
    } else if text_lt(k, g[0].0) {
        seq![(k, v)] + g
    } else {
        seq![g[0]] + graph_insert(g.drop_first(), k, v)
    }
}

/// The dependencies of `k`, if the graph has an entry for it.
pub open spec fn deps_of(g: Graph, k: Seq<char>) -> Option<Seq<Seq<char>>>
    decreases g.len(),
{
    if g.len() == 0 {
        None
    } else if g[0].0 == k {
        Some(g[0].1)
    } else {
        deps_of(g.drop_first(), k)
    }
}

/// The graph's paths.
pub open spec fn graph_keys(g: Graph) -> Seq<Seq<char>> {
    g.map_values(|e: (Seq<char>, Seq<Seq<char>>)| e.0)
}

/// How many of `keys` are not in `visited`.
pub open spec fn unvisited(keys: Seq<Seq<char>>, visited: Seq<Seq<char>>) -> nat
    decreases keys.len(),
{
    if keys.len() == 0 {
        0
    } else {
        unvisited(keys.drop_last(), visited) + if visited.contains(keys.last()) {
            0nat
        } else {
            1nat
        }
    }
}

pub proof fn lemma_unvisited_push(keys: Seq<Seq<char>>, visited: Seq<Seq<char>>, c: Seq<char>)
    ensures
        unvisited(keys, visited.push(c)) <= unvisited(keys, visited),
        keys.contains(c) && !visited.contains(c) ==> unvisited(keys, visited.push(c)) < unvisited(keys, visited),
    decreases keys.len(),
{
    if keys.len() > 0 {
        lemma_unvisited_push(keys.drop_last(), visited, c);
        if visited.contains(keys.last()) {
            assert(visited.push(c).contains(keys.last())) by {
                let i = choose|i: int| 0 <= i < visited.len() && visited[i] == keys.last();
                assert(visited.push(c)[i] == keys.last());
            }
        }
        if keys.last() == c {
            assert(visited.push(c)[visited.len() as int] == c);
        }
        if keys.contains(c) && keys.last() != c {
            let i = choose|i: int| 0 <= i < keys.len() && keys[i] == c;
            assert(keys.drop_last()[i] == c);
        }
    }
}

pub proof fn lemma_deps_of_key(g: Graph, k: Seq<char>)
    ensures
        deps_of(g, k) is Some ==> graph_keys(g).contains(k),
    decreases g.len(),
{
    if g.len() > 0 {
        if g[0].0 == k {
            assert(graph_keys(g)[0] == k);
        } else {
            lemma_deps_of_key(g.drop_first(), k);
            if deps_of(g, k) is Some {
                let i = choose|i: int| 0 <= i < graph_keys(g.drop_first()).len() && graph_keys(g.drop_first())[i] == k;
                assert(graph_keys(g)[i + 1] == k);
            }
        }
    }
}

/// Position of the first `x` in `s`.
pub open spec fn first_index(s: Seq<Seq<char>>, x: Seq<char>) -> int
    decreases s.len(),
{
    if s.len() == 0 {
        0
    } else if s[0] == x {
        0
    } else {
        1 + first_index(s.drop_first(), x)
    }
}

/// Searching for a cycle from `cur`, having come along the path `visited`:
/// reaching a module already on the path is a cycle, from its first visit
/// to the end of the path; otherwise each dependency is searched in order.
pub open spec fn cycle_from(g: Graph, cur: Seq<char>, visited: Seq<Seq<char>>) -> Result<(), Seq<Seq<char>>>
    decreases unvisited(graph_keys(g), visited), 0nat, 0nat,
{
    if visited.contains(cur) {
        Err(visited.subrange(first_index(visited, cur), visited.len() as int))
    } else {
        match deps_of(g, cur) {
            None => Ok(()),
            Some(ds) => {
                proof {
                    lemma_deps_of_key(g, cur);
                    lemma_unvisited_push(graph_keys(g), visited, cur);
                }
                deps_from(g, ds, visited.push(cur), 0)
            },
        }
    }
}

/// Searching dependencies `ds[i..]` in order, stopping at the first cycle.
pub open spec fn deps_from(g: Graph, ds: Seq<Seq<char>>, visited: Seq<Seq<char>>, i: int) -> Result<
    (),
    Seq<Seq<char>>,
>
    decreases unvisited(graph_keys(g), visited), 1nat, ds.len() - i,
{
    if i < 0 || i >= ds.len() {
        Ok(())
    } else {
        match cycle_from(g, ds[i], visited) {
            Err(c) => Err(c),
            Ok(()) => deps_from(g, ds, visited, i + 1),
        }
    }
}

/// Searching from each module in the graph's order, stopping at the first
/// cycle found.
pub open spec fn graph_cycle(g: Graph, i: int) -> Result<(), Seq<Seq<char>>>
    decreases g.len() - i,
{
    if i < 0 || i >= g.len() {
        Ok(())
    } else {
        match cycle_from(g, g[i].0, Seq::empty()) {
            Err(c) => Err(c),
            Ok(()) => graph_cycle(g, i + 1),
        }
    }
}

/// Module `b` is among the dependencies of module `a`.
pub open spec fn has_edge(g: Graph, a: Seq<char>, b: Seq<char>) -> bool {
    deps_of(g, a) matches Some(ds) && ds.contains(b)
}

/// Each module of `p` depends on the next.
pub open spec fn is_path(g: Graph, p: Seq<Seq<char>>) -> bool {
    forall|i: int| 0 <= i < p.len() - 1 ==> has_edge(g, #[trigger] p[i], p[i + 1])
}

/// A cycle: a nonempty path whose last module depends on its first.
pub open spec fn is_cycle(g: Graph, c: Seq<Seq<char>>) -> bool {
    c.len() > 0 && is_path(g, c) && has_edge(g, c.last(), c[0])
}

proof fn lemma_first_index(s: Seq<Seq<char>>, x: Seq<char>)
    requires
        s.contains(x),
    ensures
        0 <= first_index(s, x) < s.len(),
        s[first_index(s, x)] == x,
    decreases s.len(),
{
    if s[0] != x {
        let i = choose|i: int| 0 <= i < s.len() && s[i] == x;
        assert(s.drop_first()[i - 1] == x);
        lemma_first_index(s.drop_first(), x);
    }
}

proof fn lemma_cycle_from_sound(g: Graph, cur: Seq<char>, visited: Seq<Seq<char>>)
    requires
        is_path(g, visited),
        visited.len() > 0 ==> has_edge(g, visited.last(), cur),
    ensures
        cycle_from(g, cur, visited) matches Err(c) ==> is_cycle(g, c),
    decreases unvisited(graph_keys(g), visited), 0nat, 0nat,
{
    if visited.contains(cur) {
        lemma_first_index(visited, cur);
        let p = first_index(visited, cur);
        let c = visited.subrange(p, visited.len() as int);
        assert forall|i: int| 0 <= i < c.len() - 1 implies has_edge(g, #[trigger] c[i], c[i + 1]) by {
            assert(c[i] == visited[p + i]);
            assert(c[i + 1] == visited[p + i + 1]);
        }
        assert(c[0] == cur);
        assert(c.last() == visited.last());
    } else {
        match deps_of(g, cur) {
            None => {},
            Some(ds) => {
                lemma_deps_of_key(g, cur);
                lemma_unvisited_push(graph_keys(g), visited, cur);
                let v2 = visited.push(cur);
                assert forall|i: int| 0 <= i < v2.len() - 1 implies has_edge(g, #[trigger] v2[i], v2[i + 1]) by {
                    if i < visited.len() - 1 {
                        assert(v2[i] == visited[i] && v2[i + 1] == visited[i + 1]);
                    } else {
                        assert(v2[i] == visited.last() && v2[i + 1] == cur);
                    }
                }
                lemma_deps_from_sound(g, ds, cur, v2, 0);
            },
        }
    }
}

proof fn lemma_deps_from_sound(g: Graph, ds: Seq<Seq<char>>, from: Seq<char>, visited: Seq<Seq<char>>, i: int)
    requires
        is_path(g, visited),
        visited.len() > 0,
        visited.last() == from,
        deps_of(g, from) == Some(ds),
    ensures
        deps_from(g, ds, visited, i) matches Err(c) ==> is_cycle(g, c),
    decreases unvisited(graph_keys(g), visited), 1nat, ds.len() - i,
{
    if 0 <= i < ds.len() {
        assert(ds.contains(ds[i]));
        lemma_cycle_from_sound(g, ds[i], visited);
        lemma_deps_from_sound(g, ds, from, visited, i + 1);
    }
}

/// A reported cycle is a real one: each module on it depends on the next,
/// and the last on the first.
pub proof fn lemma_reported_cycle_is_real(g: Graph, i: int)
    ensures
        graph_cycle(g, i) matches Err(c) ==> is_cycle(g, c),
    decreases g.len() - i,
{
    if 0 <= i < g.len() {
        lemma_cycle_from_sound(g, g[i].0, Seq::empty());
        lemma_reported_cycle_is_real(g, i + 1);
    }
}

/// A search of dependencies that finds no cycle finds none from any of them.
proof fn lemma_deps_from_ok(g: Graph, ds: Seq<Seq<char>>, visited: Seq<Seq<char>>, i: int)
    requires
        0 <= i,
        deps_from(g, ds, visited, i) is Ok,
    ensures
        forall|k: int| i <= k < ds.len() ==> #[trigger] cycle_from(g, ds[k], visited) is Ok,
    decreases ds.len() - i,
{
    if i < ds.len() {
        lemma_deps_from_ok(g, ds, visited, i + 1);
    }
}

/// A search from `cur` that finds no cycle follows every path from `cur`:
/// no module on such a path is on the path `visited` already, and no
/// module comes twice on it.
proof fn lemma_cycle_from_complete(g: Graph, cur: Seq<char>, visited: Seq<Seq<char>>, p: Seq<Seq<char>>)
    requires
        cycle_from(g, cur, visited) is Ok,
        is_path(g, p),
        p.len() > 0,
        p[0] == cur,
    ensures
        forall|i: int| 0 <= i < p.len() ==> !visited.contains(#[trigger] p[i]),
        forall|i: int, j: int| 0 <= j < i < p.len() ==> #[trigger] p[j] != #[trigger] p[i],
    decreases unvisited(graph_keys(g), visited), 0nat,
{
    if p.len() > 1 {
        assert(has_edge(g, p[0], p[1]));
        let ds = deps_of(g, cur)->Some_0;
        lemma_deps_of_key(g, cur);
        lemma_unvisited_push(graph_keys(g), visited, cur);
        let v2 = visited.push(cur);
        lemma_deps_from_ok(g, ds, v2, 0);
        let k = choose|k: int| 0 <= k < ds.len() && ds[k] == p[1];
        assert(cycle_from(g, ds[k], v2) is Ok);
        let q = p.drop_first();
        assert forall|i: int| 0 <= i < q.len() - 1 implies has_edge(g, #[trigger] q[i], q[i + 1]) by {
            assert(q[i] == p[i + 1] && q[i + 1] == p[i + 2]);
        }
        lemma_cycle_from_complete(g, p[1], v2, q);
        assert forall|i: int| 0 <= i < p.len() implies !visited.contains(#[trigger] p[i]) by {
            if i > 0 {
                assert(q[i - 1] == p[i]);
                if visited.contains(p[i]) {
                    let m = choose|m: int| 0 <= m < visited.len() && visited[m] == p[i];
                    assert(v2[m] == p[i]);
                }
            }
        }
        assert forall|i: int, j: int| 0 <= j < i < p.len() implies #[trigger] p[j] != #[trigger] p[i] by {
            assert(q[i - 1] == p[i]);
            if j == 0 {
                assert(v2[visited.len() as int] == cur);
            } else {
                assert(q[j - 1] == p[j]);
            }
        }
    }
}

/// A search from each module that finds no cycle finds none from any.
proof fn lemma_graph_cycle_ok(g: Graph, i: int)
    requires
        0 <= i,
        graph_cycle(g, i) is Ok,
    ensures
        forall|k: int| i <= k < g.len() ==> #[trigger] cycle_from(g, g[k].0, Seq::empty()) is Ok,
    decreases g.len() - i,
{
    if i < g.len() {
        lemma_graph_cycle_ok(g, i + 1);
    }
}

/// The search finds every cycle: when it reports none, no cycle is in the
/// graph.
pub proof fn lemma_no_reported_cycle_means_acyclic(g: Graph, c: Seq<Seq<char>>)
    requires
        graph_cycle(g, 0) is Ok,
    ensures
        !is_cycle(g, c),
{
    if is_cycle(g, c) {
        let c0 = c[0];
        if c.len() > 1 {
            assert(has_edge(g, c[0], c[1]));
        }
        lemma_deps_of_key(g, c0);
        let k = choose|k: int| 0 <= k < graph_keys(g).len() && graph_keys(g)[k] == c0;
        lemma_graph_cycle_ok(g, 0);
        assert(cycle_from(g, g[k].0, Seq::empty()) is Ok);
        let p = c.push(c0);
        assert forall|i: int| 0 <= i < p.len() - 1 implies has_edge(g, #[trigger] p[i], p[i + 1]) by {
            if i < c.len() - 1 {
                assert(p[i] == c[i] && p[i + 1] == c[i + 1]);
            } else {
                assert(p[i] == c.last() && p[i + 1] == c0);
            }
        }
        lemma_cycle_from_complete(g, c0, Seq::empty(), p);
        assert(p[0] == p[c.len() as int]);
    }
}

/// The directory part of a path (before its last `/`), or `.`.
pub open spec fn dir_of(path: Seq<char>) -> Seq<char> {
    if path.contains('/') {
        path.take(last_slash(path))
    } else {
        "."@
    }
}

/// Index of the last `/` in `path` (meaningful when there is one).
pub open spec fn last_slash(path: Seq<char>) -> int
    decreases path.len(),
{
    if path.len() == 0 {
        -1
    } else if path.last() == '/' {
        path.len() - 1
    } else {
        last_slash(path.drop_last())
    }
}

proof fn lemma_last_slash(path: Seq<char>)
    ensures
        -1 <= last_slash(path) < path.len(),
        path.contains('/') ==> last_slash(path) >= 0 && path[last_slash(path)] == '/',
        !path.contains('/') ==> last_slash(path) == -1,
    decreases path.len(),
{
    if path.len() > 0 && path.last() != '/' {
        lemma_last_slash(path.drop_last());
        if path.contains('/') {
            let j = choose|j: int| 0 <= j < path.len() && path[j] == '/';
            assert(path.drop_last()[j] == '/');
        }
        if path.drop_last().contains('/') {
            let j = choose|j: int| 0 <= j < path.drop_last().len() && path.drop_last()[j] == '/';
            assert(path[j] == '/');
        }
    } else if path.len() > 0 {
        assert(path[path.len() - 1] == '/');
    }
}

/// The file name of a path: what follows its last `/`.
pub open spec fn file_name(path: Seq<char>) -> Seq<char> {
    path.skip(last_slash(path) + 1)
}

/// `s` with every trailing `.gw` removed.
pub open spec fn trim_gw(s: Seq<char>) -> Seq<char>
    decreases s.len(),
{
    if s.len() >= 3 && s.skip(s.len() - 3) == ".gw"@ {
        trim_gw(s.take(s.len() - 3))
    } else {
        s
    }
}

/// The module name of a file path: its file name without `.gw`.
pub open spec fn module_name(path: Seq<char>) -> Seq<char> {
    trim_gw(file_name(path))
}

/// Where an import path leads: relative paths from the importer's directory
/// (an error without an importer), `std/` paths from the standard library,
/// other paths from the project root.
pub open spec fn resolved_path(
    root: Seq<char>,
    stdlib: Seq<char>,
    import: Seq<char>,
    importer: Option<Seq<char>>,
) -> Result<Seq<char>, ResolverErrorView> {
    if "./"@.is_prefix_of(import) || "../"@.is_prefix_of(import) {
        match importer {
            Some(base) => Ok(dir_of(base) + "/"@ + import),
            None => Err(
                ResolverErrorView::InvalidPath {
                    path: import,
                    reason: "Relative path used but no importer specified"@,
                },
            ),
        }
    } else if "std/"@.is_prefix_of(import) {
        Ok(stdlib + "/"@ + import)
    } else {
        Ok(root + "/"@ + import)
    }
}

/// Index of the last `/` in `s`, if any.
fn find_last_slash(s: &str) -> (r: Option<usize>)
    ensures
        match r {
            Some(i) => s@.contains('/') && i == last_slash(s@),
            None => !s@.contains('/') && last_slash(s@) == -1,
        },
{
    let n = s.unicode_len();
    let mut i = n;
    assert(s@.take(n as int) =~= s@);
    while i > 0
        invariant
            i <= n == s@.len(),
            forall|j: int| i <= j < n ==> s@[j] != '/',
            last_slash(s@) == last_slash(s@.take(i as int)),
        decreases i,
    {
        assert(s@.take(i as int).drop_last() =~= s@.take(i - 1));
        if s.get_char(i - 1) == '/' {
            return Some(i - 1);
        }
        i -= 1;
    }
    proof {
        if s@.contains('/') {
            let j = choose|j: int| 0 <= j < s@.len() && s@[j] == '/';
            assert(false);
        }
    }
    None
}

/// Whether `s` begins with `p`.
fn starts_with(s: &str, p: &str) -> (r: bool)
    ensures
        r == p@.is_prefix_of(s@),
{
    let n = s.unicode_len();
    let m = p.unicode_len();
    if m > n {
        return false;
    }
    let mut i: usize = 0;
    while i < m
        invariant
            m <= n,
            n == s@.len(),
            m == p@.len(),
            i <= m,
            forall|j: int| 0 <= j < i ==> s@[j] == p@[j],
        decreases m - i,
    {
        if s.get_char(i) != p.get_char(i) {
            return false;
        }
        i += 1;
    }
    assert(p@ =~= s@.subrange(0, m as int));
    true
}

/// Information about a loaded module
#[derive(Debug)]
pub struct ModuleInfo {
    /// Canonical path to the module file
    pub path: String,
    /// Module name (from its `grove` declaration, else its file name)
    pub name: String,
    /// Parsed AST of the module
    pub ast: Vec<AstNode>,
    /// Paths of the modules this module imports, in order
    pub dependencies: Vec<String>,
    /// Exported symbols, in order
    pub exports: Vec<String>,
}

/// The module name given by the last `grove` declaration among `nodes`,
/// or `dflt` where there is none.
pub open spec fn declared_name(nodes: Seq<AstNode>, dflt: Seq<char>) -> Seq<char>
    decreases nodes.len(),
{
    if nodes.len() == 0 {
        dflt
    } else {
        match nodes.last() {
            AstNode::ModuleDecl { name, .. } => name@,
            _ => declared_name(nodes.drop_last(), dflt),
        }
    }
}

/// The paths of the imports among `nodes`, in order.
pub open spec fn import_paths(nodes: Seq<AstNode>) -> Seq<Seq<char>>
    decreases nodes.len(),
{
    if nodes.len() == 0 {
        Seq::empty()
    } else {
        import_paths(nodes.drop_last()) + match nodes.last() {
            AstNode::Import { path, .. } => seq![path@],
            _ => Seq::empty(),
        }
    }
}

/// The symbols exported by `nodes`, in order: those listed by `grove`
/// declarations and by `offer` statements.
pub open spec fn exported_names(nodes: Seq<AstNode>) -> Seq<Seq<char>>
    decreases nodes.len(),
{
    if nodes.len() == 0 {
        Seq::empty()
    } else {
        exported_names(nodes.drop_last()) + match nodes.last() {
            AstNode::ModuleDecl { exports, .. } => texts_view(exports@),
            AstNode::Export { items, .. } => texts_view(items@),
            _ => Seq::empty(),
        }
    }
}

/// Append clones of `items` to `out`.
fn extend_texts(out: &mut Vec<String>, items: &Vec<String>)
    ensures
        texts_view(final(out)@) == texts_view(old(out)@) + texts_view(items@),
{
    let ghost start = texts_view(out@);
    let mut i: usize = 0;
    while i < items.len()
        invariant
            i <= items@.len(),
            texts_view(out@) == start + texts_view(items@).take(i as int),
        decreases items@.len() - i,
    {
        let ghost before = out@;
        let item = items[i].clone();
        out.push(item);
        assert(out@ =~= before.push(item));
        assert(texts_view(out@) =~= texts_view(before).push(item@));
        i += 1;
        assert(texts_view(items@).take(i as int) =~= texts_view(items@).take(i - 1).push(items@[i - 1]@));
    }
    assert(texts_view(items@).take(items@.len() as int) =~= texts_view(items@));
}

/// Whether a module is cached under `path`.
pub open spec fn cached(cache: Seq<(String, ModuleInfo)>, path: Seq<char>) -> bool {
    exists|i: int| 0 <= i < cache.len() && (#[trigger] cache[i]).0@ == path
}

/// The cache's paths are in strictly increasing order.
pub open spec fn sorted_cache(c: Seq<(String, ModuleInfo)>) -> bool {
    forall|i: int, j: int| 0 <= i < j < c.len() ==> text_lt(#[trigger] c[i].0@, #[trigger] c[j].0@)
}

/// Where a module loaded from `path` goes in the cache: after each entry
/// whose path comes before it.
pub open spec fn cache_position(c: Seq<(String, ModuleInfo)>, path: Seq<char>) -> int
    decreases c.len(),
{
    if c.len() == 0 {
        0
    } else if text_lt(c[0].0@, path) {
        1 + cache_position(c.drop_first(), path)
    } else {
        0
    }
}

/// How a parse error is reported: `ParseError { message: "...", position: N }`,
/// the message quoted and escaped.
pub open spec fn parse_error_text(message: Seq<char>, position: nat) -> Seq<char> {
    "ParseError { message: "@ + str_debug_text(message) + ", position: "@ + spec_decimal(position) + " }"@
}

/// The cycle reported when `path` is loaded while it is being loaded: the
/// modules being loaded from its first occurrence on, then `path` again.
pub open spec fn loading_cycle(loading: Seq<Seq<char>>, path: Seq<char>) -> Seq<Seq<char>> {
    loading.subrange(first_index(loading, path), loading.len() as int).push(path)
}

/// Module resolver: resolves import paths and checks the dependency graph
/// for cycles.
pub struct ModuleResolver {
    /// Project root directory (where main.gw is located)
    pub project_root: String,
    /// Standard library directory path
    pub stdlib_path: String,
    /// Dependency graph (module path -> dependency paths), ordered by path
    dependency_graph: Vec<(String, Vec<String>)>,
    /// Cache of loaded modules (path and module information)
    pub module_cache: Vec<(String, ModuleInfo)>,
    /// Currently being loaded (for cycle detection)
    loading_stack: Vec<String>,
}

impl ModuleResolver {
    /// The dependency graph.
    pub closed spec fn graph(&self) -> Graph {
        self.dependency_graph@.map_values(|e: (String, Vec<String>)| (e.0@, texts_view(e.1@)))
    }

    /// The loaded modules, each with its path.
    pub closed spec fn cache(&self) -> Seq<(String, ModuleInfo)> {
        self.module_cache@
    }

    /// The paths of the modules being loaded, oldest first.
    pub closed spec fn loading(&self) -> Seq<Seq<char>> {
        texts_view(self.loading_stack@)
    }

    /// The project root.
    pub closed spec fn root(&self) -> Seq<char> {
        self.project_root@
    }

    /// The standard library directory.
    pub closed spec fn stdlib(&self) -> Seq<char> {
        self.stdlib_path@
    }

    /// The graph's paths and the cache's paths are in increasing order.
    pub closed spec fn wf(&self) -> bool {
        sorted_graph(self.graph()) && sorted_cache(self.module_cache@)
    }

    /// Create a new module resolver
    pub fn new(project_root: String, stdlib_path: String) -> (r: ModuleResolver)
        ensures
            r.wf(),
            r.root() == project_root@,
            r.stdlib() == stdlib_path@,
            r.graph() == Graph::empty(),
            r.cache().len() == 0,
            r.loading().len() == 0,
    {
        let r = ModuleResolver {
            project_root,
            stdlib_path,
            dependency_graph: Vec::new(),
            module_cache: Vec::new(),
            loading_stack: Vec::new(),
        };
        assert(r.graph() =~= Graph::empty());
        assert(r.loading() =~= Seq::<Seq<char>>::empty());
        r
    }

    /// Resolve an import path to a file path (see `resolved_path`).
    pub fn resolve_path(&self, import_path: &str, importer_path: Option<&str>) -> (r: Result<String, ResolverError>)
        ensures
            match r {
                Ok(p) => resolved_path(
                    self.root(),
                    self.stdlib(),
                    import_path@,
                    match importer_path {
                        Some(i) => Some(i@),
                        None => None,
                    },
                ) == Ok::<Seq<char>, ResolverErrorView>(p@),
                Err(e) => resolved_path(
                    self.root(),
                    self.stdlib(),
                    import_path@,
                    match importer_path {
                        Some(i) => Some(i@),
                        None => None,
                    },
                ) == Err::<Seq<char>, ResolverErrorView>(e@),
            },
    {
        if starts_with(import_path, "./") || starts_with(import_path, "../") {
            match importer_path {
                Some(importer) => Ok(Self::resolve_relative(import_path, importer)),
                None => Err(
                    ResolverError::InvalidPath {
                        path: String::from_str(import_path),
                        reason: String::from_str("Relative path used but no importer specified"),
                    },
                ),
            }
        } else if starts_with(import_path, "std/") {
            let mut p = self.stdlib_path.clone();
            push_str(&mut p, "/");
            push_str(&mut p, import_path);
            Ok(p)
        } else {
            let mut p = self.project_root.clone();
            push_str(&mut p, "/");
            push_str(&mut p, import_path);
            Ok(p)
        }
    }

    /// Resolve a relative path against the directory of `base_path`.
    pub fn resolve_relative(relative_path: &str, base_path: &str) -> (r: String)
        ensures
            r@ == dir_of(base_path@) + "/"@ + relative_path@,
    {
        proof {
            lemma_last_slash(base_path@);
        }
        let mut r = match find_last_slash(base_path) {
            Some(pos) => {
                let mut d = String::new();
                let mut i: usize = 0;
                while i < pos
                    invariant
                        i <= pos < base_path@.len(),
                        d@ == base_path@.take(i as int),
                    decreases pos - i,
                {
                    crate::text::push_char(&mut d, base_path.get_char(i));
                    i += 1;
                    assert(d@ =~= base_path@.take(i as int));
                }
                d
            },
            None => String::from_str("."),
        };
        push_str(&mut r, "/");
        push_str(&mut r, relative_path);
        r
    }

    /// Extract the module name from a file path (see `module_name`).
    pub fn module_name_from_path(path: &str) -> (name: String)
        ensures
            name@ == module_name(path@),
    {
        proof {
            lemma_last_slash(path@);
        }
        let n = path.unicode_len();
        let start: usize = match find_last_slash(path) {
            Some(pos) => {
                assert(pos < n);
                pos + 1
            },
            None => 0,
        };
        let mut end = n;
        let ghost file = path@.skip(start as int);
        assert(file =~= path@.subrange(start as int, end as int));
        while end - start >= 3 && path.get_char(end - 3) == '.' && path.get_char(end - 2) == 'g' && path.get_char(
            end - 1,
        ) == 'w'
            invariant
                start <= end <= n == path@.len(),
                file == path@.skip(start as int),
                trim_gw(file) == trim_gw(path@.subrange(start as int, end as int)),
            decreases end,
        {
            proof {
                reveal_strlit(".gw");
            }
            let ghost cur = path@.subrange(start as int, end as int);
            assert(cur.skip(cur.len() - 3) =~= ".gw"@);
            assert(cur.take(cur.len() - 3) =~= path@.subrange(start as int, end - 3));
            end -= 3;
        }
        proof {
            reveal_strlit(".gw");
            let cur = path@.subrange(start as int, end as int);
            if cur.len() >= 3 && cur.skip(cur.len() - 3) == ".gw"@ {
                assert(cur.skip(cur.len() - 3)[0] == path@[end - 3]);
                assert(cur.skip(cur.len() - 3)[1] == path@[end - 2]);
                assert(cur.skip(cur.len() - 3)[2] == path@[end - 1]);
            }
        }
        let mut name = String::new();
        let mut i = start;
        while i < end
            invariant
                start <= i <= end <= path@.len(),
                name@ == path@.subrange(start as int, i as int),
            decreases end - i,
        {
            crate::text::push_char(&mut name, path.get_char(i));
            i += 1;
            assert(name@ =~= path@.subrange(start as int, i as int));
        }
        name
    }

    /// Index of the first graph entry whose path is not before `path`.
    fn graph_position(&self, path: &String) -> (r: usize)
        requires
            self.wf(),
        ensures
            r <= self.dependency_graph@.len(),
            forall|j: int| 0 <= j < r ==> text_lt(#[trigger] self.graph()[j].0, path@),
            r < self.dependency_graph@.len() ==> !text_lt(self.graph()[r as int].0, path@),
    {
        let ghost g = self.graph();
        let mut i: usize = 0;
        while i < self.dependency_graph.len()
            invariant
                i <= self.dependency_graph@.len(),
                g == self.graph(),
                forall|j: int| 0 <= j < i ==> text_lt(#[trigger] g[j].0, path@),
            decreases self.dependency_graph@.len() - i,
        {
            if !less_than(&self.dependency_graph[i].0, path) {
                return i;
            }
            i += 1;
        }
        i
    }

    /// Record the dependencies of module `path`, replacing any recorded before.
    pub fn add_dependencies(&mut self, path: String, deps: Vec<String>)
        requires
            old(self).wf(),
        ensures
            final(self).wf(),
            final(self).graph() == graph_insert(old(self).graph(), path@, texts_view(deps@)),
            final(self).root() == old(self).root(),
            final(self).stdlib() == old(self).stdlib(),
            final(self).cache() == old(self).cache(),
            final(self).loading() == old(self).loading(),
    {
        let ghost g = self.graph();
        let ghost k = path@;
        let ghost v = texts_view(deps@);
        let i = self.graph_position(&path);
        proof {
            lemma_graph_insert_at(g, k, v, i as int);
        }
        if i < self.dependency_graph.len() && self.dependency_graph[i].0 == path {
            self.dependency_graph.set(i, (path, deps));
            assert(self.graph() =~= g.update(i as int, (k, v)));
        } else {
            self.dependency_graph.insert(i, (path, deps));
            assert(self.graph() =~= g.insert(i as int, (k, v)));
        }
    }

    /// Check for circular dependencies, starting from each module in order
    /// of path: the first cycle found is the error (see `graph_cycle`), and
    /// with no error the graph has no cycle.
    pub fn check_circular_dependencies(&self) -> (r: Result<(), ResolverError>)
        requires
            self.wf(),
        ensures
            match r {
                Ok(()) => graph_cycle(self.graph(), 0) is Ok && forall|c: Seq<Seq<char>>| !is_cycle(self.graph(), c),
                Err(e) => graph_cycle(self.graph(), 0) matches Err(c) && e@ == (ResolverErrorView::CircularDependency {
                    cycle: c,
                }),
            },
    {
        let ghost g = self.graph();
        let mut i: usize = 0;
        while i < self.dependency_graph.len()
            invariant
                i <= self.dependency_graph@.len(),
                g == self.graph(),
                self.wf(),
                graph_cycle(g, 0) == graph_cycle(g, i as int),
            decreases self.dependency_graph@.len() - i,
        {
            let mut visited: Vec<String> = Vec::new();
            assert(texts_view(visited@) =~= Seq::<Seq<char>>::empty());
            match self.check_cycle_from(&self.dependency_graph[i].0, &mut visited) {
                Err(e) => return Err(e),
                Ok(()) => {},
            }
            i += 1;
        }
        proof {
            assert forall|c: Seq<Seq<char>>| !is_cycle(g, c) by {
                lemma_no_reported_cycle_means_acyclic(g, c);
            }
        }
        Ok(())
    }

    /// Look for a cycle from module `current` along the path `visited`
    /// (see `cycle_from`); on success `visited` is as it was.
    fn check_cycle_from(&self, current: &String, visited: &mut Vec<String>) -> (r: Result<(), ResolverError>)
        requires
            self.wf(),
        ensures
            match r {
                Ok(()) => {
                    &&& cycle_from(self.graph(), current@, texts_view(old(visited)@)) is Ok
                    &&& final(visited)@ == old(visited)@
                },
                Err(e) => cycle_from(self.graph(), current@, texts_view(old(visited)@)) matches Err(c)
                    && e@ == (ResolverErrorView::CircularDependency { cycle: c }),
            },
        decreases unvisited(graph_keys(self.graph()), texts_view(old(visited)@)), 0nat, 0nat,
    {
        let ghost g = self.graph();
        let ghost v0 = texts_view(visited@);
        match position_of(visited, current) {
            Some(pos) => {
                proof {
                    lemma_first_index(v0, current@);
                }
                let mut cycle: Vec<String> = Vec::new();
                let mut j = pos;
                while j < visited.len()
                    invariant
                        pos <= j <= visited@.len(),
                        v0 == texts_view(visited@),
                        texts_view(cycle@) == v0.subrange(pos as int, j as int),
                    decreases visited@.len() - j,
                {
                    let ghost before = cycle@;
                    let item = visited[j].clone();
                    assert(item@ == v0[j as int]);
                    cycle.push(item);
                    assert(cycle@ =~= before.push(item));
                    assert(texts_view(cycle@) =~= texts_view(before).push(item@));
                    j += 1;
                    assert(texts_view(cycle@) =~= v0.subrange(pos as int, j as int));
                }
                return Err(ResolverError::CircularDependency { cycle });
            },
            None => {},
        }
        visited.push(current.clone());
        let ghost v1 = texts_view(visited@);
        assert(v1 =~= v0.push(current@));
        match self.find_deps(current) {
            None => {
                visited.pop();
                assert(visited@ =~= old(visited)@);
                Ok(())
            },
            Some(k) => {
                proof {
                    lemma_deps_of_key(g, current@);
                    lemma_unvisited_push(graph_keys(g), v0, current@);
                }
                let ghost ds = g[k as int].1;
                let deps = &self.dependency_graph[k].1;
                let mut i: usize = 0;
                while i < deps.len()
                    invariant
                        g == self.graph(),
                        self.wf(),
                        0 <= k < g.len(),
                        ds == g[k as int].1,
                        ds == texts_view(deps@),
                        i <= deps@.len(),
                        texts_view(visited@) == v1,
                        visited@.len() == old(visited)@.len() + 1,
                        visited@.take(visited@.len() - 1) == old(visited)@,
                        unvisited(graph_keys(g), v1) < unvisited(graph_keys(g), v0),
                        v0 == texts_view(old(visited)@),
                        cycle_from(g, current@, v0) == deps_from(g, ds, v1, i as int),
                    decreases deps@.len() - i,
                {
                    match self.check_cycle_from(&deps[i], visited) {
                        Err(e) => return Err(e),
                        Ok(()) => {},
                    }
                    i += 1;
                }
                visited.pop();
                assert(visited@ =~= old(visited)@);
                Ok(())
            },
        }
    }

    /// Index of the graph entry for `path`, if it has one.
    fn find_deps(&self, path: &String) -> (r: Option<usize>)
        requires
            self.wf(),
        ensures
            match r {
                Some(k) => k < self.dependency_graph@.len() && self.graph()[k as int].0 == path@ && deps_of(
                    self.graph(),
                    path@,
                ) == Some(self.graph()[k as int].1),
                None => deps_of(self.graph(), path@) is None,
            },
    {
        let ghost g = self.graph();
        let mut i: usize = 0;
        while i < self.dependency_graph.len()
            invariant
                i <= self.dependency_graph@.len(),
                g == self.graph(),
                forall|j: int| 0 <= j < i ==> #[trigger] g[j].0 != path@,
            decreases self.dependency_graph@.len() - i,
        {
            if self.dependency_graph[i].0 == *path {
                proof {
                    lemma_deps_of_first(g, path@, i as int);
                }
                return Some(i);
            }
            i += 1;
        }
        proof {
            lemma_deps_of_first(g, path@, i as int);
        }
        None
    }

    /// Extract module information from a parsed module: its name is that
    /// of its last `grove` declaration (else the file's name), its
    /// dependencies the paths of its imports, its exports those of its
    /// `grove` declarations and `offer` statements.
    pub fn extract_module_info(path: &str, ast: Vec<AstNode>) -> (r: Result<ModuleInfo, ResolverError>)
        ensures
            r matches Ok(info) && info.path@ == path@ && info.name@ == declared_name(ast@, module_name(path@))
                && texts_view(info.dependencies@) == import_paths(ast@) && texts_view(info.exports@)
                == exported_names(ast@) && info.ast@ == ast@,
    {
        let mut name = Self::module_name_from_path(path);
        let mut dependencies: Vec<String> = Vec::new();
        let mut exports: Vec<String> = Vec::new();
        let mut i: usize = 0;
        while i < ast.len()
            invariant
                i <= ast@.len(),
                name@ == declared_name(ast@.take(i as int), module_name(path@)),
                texts_view(dependencies@) == import_paths(ast@.take(i as int)),
                texts_view(exports@) == exported_names(ast@.take(i as int)),
            decreases ast@.len() - i,
        {
            let ghost pre = ast@.take(i as int);
            let ghost now = ast@.take(i + 1);
            assert(now.drop_last() =~= pre);
            assert(now.last() == ast@[i as int]);
            match &ast[i] {
                AstNode::ModuleDecl { name: module_name, exports: module_exports, .. } => {
                    name = module_name.clone();
                    extend_texts(&mut exports, module_exports);
                    assert(import_paths(now) =~= import_paths(pre));
                },
                AstNode::Import { path: import_path, .. } => {
                    let ghost before = dependencies@;
                    let p = import_path.clone();
                    dependencies.push(p);
                    assert(dependencies@ =~= before.push(p));
                    assert(texts_view(dependencies@) =~= texts_view(before).push(p@));
                    assert(import_paths(now) =~= import_paths(pre) + seq![p@]);
                    assert(exported_names(now) =~= exported_names(pre));
                },
                AstNode::Export { items, .. } => {
                    extend_texts(&mut exports, items);
                    assert(import_paths(now) =~= import_paths(pre));
                },
                _ => {
                    assert(import_paths(now) =~= import_paths(pre));
                    assert(exported_names(now) =~= exported_names(pre));
                },
            }
            i += 1;
        }
        assert(ast@.take(ast@.len() as int) =~= ast@);
        Ok(ModuleInfo { path: String::from_str(path), name, ast, dependencies, exports })
    }

    /// The cached module for `path`, if there is one.
    pub fn get_module(&self, path: &str) -> (r: Option<&ModuleInfo>)
        ensures
            match r {
                Some(info) => exists|i: int|
                    0 <= i < self.cache().len() && self.cache()[i].0@ == path@ && info
                        == &self.cache()[i].1 && forall|j: int|
                        0 <= j < i ==> #[trigger] self.cache()[j].0@ != path@,
                None => forall|j: int|
                    0 <= j < self.cache().len() ==> #[trigger] self.cache()[j].0@ != path@,
            },
    {
        let mut i: usize = 0;
        while i < self.module_cache.len()
            invariant
                i <= self.module_cache@.len(),
                self.cache() == self.module_cache@,
                forall|j: int| 0 <= j < i ==> #[trigger] self.cache()[j].0@ != path@,
            decreases self.module_cache@.len() - i,
        {
            if text_eq(&self.module_cache[i].0, path) {
                assert(self.cache()[i as int].0@ == path@ && &self.module_cache[i as int].1 == &self.cache()[i as int].1);
                return Some(&self.module_cache[i].1);
            }
            i += 1;
        }
        None
    }

    /// All loaded modules, each with its path.
    pub fn loaded_modules(&self) -> (r: &Vec<(String, ModuleInfo)>)
        ensures
            r@ == self.cache(),
    {
        &self.module_cache
    }

    /// Forget the loaded modules, the dependency graph and any module being
    /// loaded.
    pub fn clear_cache(&mut self)
        ensures
            final(self).wf(),
            final(self).cache().len() == 0,
            final(self).loading().len() == 0,
            final(self).graph() == Graph::empty(),
            final(self).root() == old(self).root(),
            final(self).stdlib() == old(self).stdlib(),
    {
        self.module_cache.clear();
        self.dependency_graph.clear();
        self.loading_stack.clear();
        assert(self.graph() =~= Graph::empty());
        assert(self.loading() =~= Seq::<Seq<char>>::empty());
    }

    /// Load the module at `path` from its tokens: a module already cached
    /// is left as it is; one being loaded is a circular dependency; else
    /// the tokens are parsed as a program (see `program_spec`), the module
    /// information extracted, its dependencies recorded and the module
    /// cached. A module that fails to parse stays among those being loaded.
    pub fn load_module(&mut self, path: &str, tokens: Vec<PositionedToken>) -> (r: Result<(), ResolverError>)
        requires
            old(self).wf(),
        ensures
            final(self).wf(),
            final(self).root() == old(self).root(),
            final(self).stdlib() == old(self).stdlib(),
            if cached(old(self).cache(), path@) {
                &&& r is Ok
                &&& final(self).cache() == old(self).cache()
                &&& final(self).graph() == old(self).graph()
                &&& final(self).loading() == old(self).loading()
            } else if old(self).loading().contains(path@) {
                &&& r matches Err(e) && e@ == (ResolverErrorView::CircularDependency {
                    cycle: loading_cycle(old(self).loading(), path@),
                })
                &&& final(self).cache() == old(self).cache()
                &&& final(self).graph() == old(self).graph()
                &&& final(self).loading() == old(self).loading()
            } else {
                match program_spec(token_views(tokens@), token_spans(tokens@), 0) {
                    Err((message, position)) => {
                        &&& r matches Err(e) && e@ == (ResolverErrorView::ParseError {
                            path: path@,
                            error: parse_error_text(message, position as nat),
                        })
                        &&& final(self).cache() == old(self).cache()
                        &&& final(self).graph() == old(self).graph()
                        &&& final(self).loading() == old(self).loading().push(path@)
                    },
                    Ok((nodes, _)) => {
                        let k = cache_position(old(self).cache(), path@);
                        let entry = final(self).cache()[k];
                        &&& r is Ok
                        &&& final(self).loading() == old(self).loading()
                        &&& 0 <= k <= old(self).cache().len()
                        &&& final(self).cache() == old(self).cache().insert(k, entry)
                        &&& entry.0@ == path@
                        &&& entry.1.path@ == path@
                        &&& nodes_view(entry.1.ast@) == nodes
                        &&& entry.1.name@ == declared_name(entry.1.ast@, module_name(path@))
                        &&& texts_view(entry.1.dependencies@) == import_paths(entry.1.ast@)
                        &&& texts_view(entry.1.exports@) == exported_names(entry.1.ast@)
                        &&& final(self).graph() == graph_insert(old(self).graph(), path@, import_paths(entry.1.ast@))
                    },
                }
            },
    {
        if self.get_module(path).is_some() {
            return Ok(());
        }
        proof {
            assert(!cached(self.cache(), path@));
        }
        let key = String::from_str(path);
        match position_of(&self.loading_stack, &key) {
            Some(first) => {
                let mut cycle: Vec<String> = Vec::new();
                proof {
                    lemma_first_index(texts_view(self.loading_stack@), path@);
                    assert(texts_view(cycle@) =~= texts_view(self.loading_stack@).subrange(first as int, first as int));
                }
                let mut i: usize = first;
                while i < self.loading_stack.len()
                    invariant
                        first <= i <= self.loading_stack@.len(),
                        texts_view(cycle@) == texts_view(self.loading_stack@).subrange(first as int, i as int),
                    decreases self.loading_stack@.len() - i,
                {
                    let ghost before = cycle@;
                    let p = self.loading_stack[i].clone();
                    cycle.push(p);
                    proof {
                        assert(cycle@ =~= before.push(p));
                        assert(texts_view(cycle@) =~= texts_view(before).push(p@));
                        assert(texts_view(cycle@) =~= texts_view(self.loading_stack@).subrange(first as int, i + 1));
                    }
                    i += 1;
                }
                let ghost before = cycle@;
                cycle.push(key);
                proof {
                    assert(cycle@ =~= before.push(key));
                    assert(texts_view(cycle@) =~= texts_view(before).push(path@));
                }
                return Err(ResolverError::CircularDependency { cycle });
            },
            None => {},
        }
        let ghost stack = self.loading();
        self.loading_stack.push(String::from_str(path));
        proof {
            assert(self.loading() =~= stack.push(path@));
        }
        let mut parser = Parser::new(tokens);
        let ast = match parser.parse() {
            Err(e) => {
                let error = parse_error_message(&e);
                return Err(ResolverError::ParseError { path: String::from_str(path), error });
            },
            Ok(nodes) => nodes,
        };
        let info = match Self::extract_module_info(path, ast) {
            Ok(info) => info,
            Err(e) => return Err(e),
        };
        self.loading_stack.pop();
        proof {
            assert(self.loading() =~= stack);
        }
        let mut deps: Vec<String> = Vec::new();
        proof {
            assert(texts_view(deps@) =~= Seq::<Seq<char>>::empty());
        }
        extend_texts(&mut deps, &info.dependencies);
        proof {
            assert(Seq::<Seq<char>>::empty() + texts_view(info.dependencies@) =~= texts_view(info.dependencies@));
        }
        self.add_dependencies(String::from_str(path), deps);
        let ghost cache = self.cache();
        let mut i: usize = 0;
        while i < self.module_cache.len() && less_than(&self.module_cache[i].0, &key)
            invariant
                i <= self.module_cache@.len(),
                cache == self.module_cache@,
                key@ == path@,
                forall|j: int| 0 <= j < i ==> text_lt(#[trigger] cache[j].0@, path@),
            decreases self.module_cache@.len() - i,
        {
            i += 1;
        }
        let entry = (String::from_str(path), info);
        proof {
            lemma_cache_insert(cache, entry, i as int);
        }
        self.module_cache.insert(i, entry);
        Ok(())
    }
}

/// How a parse error is reported (see `parse_error_text`).
fn parse_error_message(e: &ParseError) -> (r: String)
    ensures
        r@ == parse_error_text(e.message@, e.position as nat),
{
    let mut r = String::from_str("ParseError { message: ");
    push_str(&mut r, debug_str(&e.message).as_str());
    push_str(&mut r, ", position: ");
    push_str(&mut r, usize_to_string(e.position).as_str());
    push_str(&mut r, " }");
    r
}

/// Whether two texts are equal.
pub(crate) fn text_eq(a: &String, b: &str) -> (r: bool)
    ensures
        r == (a@ == b@),
{
    let n = a.unicode_len();
    if n != b.unicode_len() {
        return false;
    }
    let mut i: usize = 0;
    while i < n
        invariant
            i <= n == a@.len() == b@.len(),
            forall|j: int| 0 <= j < i ==> a@[j] == b@[j],
        decreases n - i,
    {
        if a.as_str().get_char(i) != b.get_char(i) {
            return false;
        }
        i += 1;
    }
    assert(a@ =~= b@);
    true
}

/// Position of the first `x` in `v`, if any.
fn position_of(v: &Vec<String>, x: &String) -> (r: Option<usize>)
    ensures
        match r {
            Some(i) => texts_view(v@).contains(x@) && i == first_index(texts_view(v@), x@),
            None => !texts_view(v@).contains(x@),
        },
{
    let ghost s = texts_view(v@);
    let mut i: usize = 0;
    assert(s.skip(0) =~= s);
    while i < v.len()
        invariant
            i <= v@.len(),
            s == texts_view(v@),
            forall|j: int| 0 <= j < i ==> #[trigger] s[j] != x@,
            first_index(s, x@) == i + first_index(s.skip(i as int), x@),
        decreases v@.len() - i,
    {
        if v[i] == *x {
            assert(s.skip(i as int)[0] == x@);
            assert(s[i as int] == x@);
            return Some(i);
        }
        assert(s.skip(i as int).drop_first() =~= s.skip(i + 1));
        i += 1;
    }
    None
}

proof fn lemma_deps_of_first(g: Graph, k: Seq<char>, i: int)
    requires
        0 <= i <= g.len(),
        forall|j: int| 0 <= j < i ==> #[trigger] g[j].0 != k,
        i < g.len() ==> g[i].0 == k,
    ensures
        deps_of(g, k) == (if i < g.len() { Some(g[i].1) } else { None }),
    decreases i,
{
    if i > 0 {
        let d = g.drop_first();
        assert forall|j: int| 0 <= j < i - 1 implies #[trigger] d[j].0 != k by {
            assert(d[j] == g[j + 1]);
        }
        lemma_deps_of_first(d, k, i - 1);
    }
}

proof fn lemma_graph_insert_at(g: Graph, k: Seq<char>, v: Seq<Seq<char>>, i: int)
    requires
        sorted_graph(g),
        0 <= i <= g.len(),
        forall|j: int| 0 <= j < i ==> text_lt(#[trigger] g[j].0, k),
        i < g.len() ==> !text_lt(g[i].0, k),
    ensures
        graph_insert(g, k, v) == (if i < g.len() && g[i].0 == k { g.update(i, (k, v)) } else { g.insert(i, (k, v)) }),
        sorted_graph(graph_insert(g, k, v)),
    decreases i,
{
    if i > 0 {
        let d = g.drop_first();
        assert forall|j: int| 0 <= j < i - 1 implies text_lt(#[trigger] d[j].0, k) by {
            assert(d[j] == g[j + 1]);
        }
        assert forall|a: int, b: int| 0 <= a < b < d.len() implies text_lt(#[trigger] d[a].0, #[trigger] d[b].0) by {
            assert(d[a] == g[a + 1] && d[b] == g[b + 1]);
        }
        lemma_graph_insert_at(d, k, v, i - 1);
        lemma_text_lt_asymmetric(g[0].0, k);
        lemma_text_lt_irreflexive(k);
        assert(g[0].0 != k);
        if i < g.len() && g[i].0 == k {
            assert(seq![g[0]] + d.update(i - 1, (k, v)) =~= g.update(i, (k, v)));
        } else {
            assert(seq![g[0]] + d.insert(i - 1, (k, v)) =~= g.insert(i, (k, v)));
        }
    } else {
        if i < g.len() {
            lemma_text_lt_total(g[0].0, k);
        } else {
            assert(seq![(k, v)] =~= g.insert(0, (k, v)));
        }
    }
    let r = graph_insert(g, k, v);
    assert forall|a: int, b: int| 0 <= a < b < r.len() implies text_lt(#[trigger] r[a].0, #[trigger] r[b].0) by {
        if i < g.len() && g[i].0 == k {
            assert(r == g.update(i, (k, v)));
        } else {
            assert(r == g.insert(i, (k, v)));
            if a < i && b == i {
            } else if a < i && b > i {
                if i < g.len() {
                    lemma_text_lt_total(g[i].0, k);
                    lemma_text_lt_transitive(r[a].0, k, g[i].0);
                    if b - 1 > i {
                        lemma_text_lt_transitive(r[a].0, g[i].0, r[b].0);
                    }
                }
            } else if a == i && b > i {
                lemma_text_lt_total(g[i].0, k);
                if b - 1 > i {
                    lemma_text_lt_transitive(k, g[i].0, r[b].0);
                }
            }
        }
    }
}


/// Inserting a module not in the cache at the first entry whose path is
/// not before its own keeps the cache in order, and that is where
/// `cache_position` puts it.
proof fn lemma_cache_insert(c: Seq<(String, ModuleInfo)>, e: (String, ModuleInfo), i: int)
    requires
        sorted_cache(c),
        0 <= i <= c.len(),
        forall|j: int| 0 <= j < i ==> text_lt(#[trigger] c[j].0@, e.0@),
        i < c.len() ==> !text_lt(c[i].0@, e.0@),
        forall|j: int| 0 <= j < c.len() ==> #[trigger] c[j].0@ != e.0@,
    ensures
        cache_position(c, e.0@) == i,
        sorted_cache(c.insert(i, e)),
    decreases i,
{
    if i > 0 {
        let d = c.drop_first();
        assert forall|j: int| 0 <= j < i - 1 implies text_lt(#[trigger] d[j].0@, e.0@) by {
            assert(d[j] == c[j + 1]);
        }
        assert forall|a: int, b: int| 0 <= a < b < d.len() implies text_lt(#[trigger] d[a].0@, #[trigger] d[b].0@) by {
            assert(d[a] == c[a + 1] && d[b] == c[b + 1]);
        }
        assert forall|j: int| 0 <= j < d.len() implies #[trigger] d[j].0@ != e.0@ by {
            assert(d[j] == c[j + 1]);
        }
        if i - 1 < d.len() {
            assert(d[i - 1] == c[i]);
        }
        lemma_cache_insert(d, e, i - 1);
        assert(text_lt(c[0].0@, e.0@));
    } else if c.len() > 0 {
        assert(!text_lt(c[0].0@, e.0@));
    }
    let r = c.insert(i, e);
    if i < c.len() {
        lemma_text_lt_total(c[i].0@, e.0@);
    }
    assert forall|a: int, b: int| 0 <= a < b < r.len() implies text_lt(#[trigger] r[a].0@, #[trigger] r[b].0@) by {
        if b < i {
            assert(r[a] == c[a] && r[b] == c[b]);
        } else if b == i {
            assert(r[a] == c[a] && r[b] == e);
        } else if a == i {
            assert(r[a] == e && r[b] == c[b - 1]);
            if b - 1 > i {
                lemma_text_lt_transitive(e.0@, c[i].0@, c[b - 1].0@);
            }
        } else if a < i {
            assert(r[a] == c[a] && r[b] == c[b - 1]);
        } else {
            assert(r[a] == c[a - 1] && r[b] == c[b - 1]);
        }
    }
}

} // verus!
