//! Monomorphization: generic functions (`chant identity<T>(x: T) -> T`)
//! get a specialized version for each type instantiation called
//! (`identity<Number>(42)` calls `identity_Number`), named by the function
//! and its type arguments, with the arguments put for the type parameters.

use vstd::prelude::*;
use crate::ast::{AstNode, Lifetime, Parameter, TypeAnnotation};
use crate::ast_copy::{copy_lifetime, copy_lifetimes, copy_node, copy_nodes, copy_opt_type, copy_types};
use crate::module_resolver::{
    less_than, lemma_text_lt_asymmetric, lemma_text_lt_irreflexive, lemma_text_lt_total, lemma_text_lt_transitive,
    text_lt,
};
use crate::parser::grammar::{names_view, node_view, nodes_view, param_view, params_view, NodeView, ParamView};
use crate::parser::{lemma_types_view, type_view, types_view, TypeView};
use crate::text::push_str;

verus! {

/// The names joined by underscores.
pub open spec fn join_underscore(parts: Seq<Seq<char>>) -> Seq<char>
    decreases parts.len(),
{
    if parts.len() == 0 {
        Seq::empty()
    } else if parts.len() == 1 {
        parts[0]
    } else {
        join_underscore(parts.drop_last()) + "_"@ + parts.last()
    }
}

/// A type instantiation of a generic function
#[derive(Debug, PartialEq, Eq)]
pub struct TypeInstantiation {
    /// Name of the generic function
    pub function_name: String,
    /// Type arguments for this instantiation
    pub type_args: Vec<String>,
}

/// Name of the specialized function: the generic name, then each type
/// argument, separated by underscores.
pub open spec fn spec_specialized_name(name: Seq<char>, args: Seq<Seq<char>>) -> Seq<char> {
    if args.len() == 0 {
        name
    } else {
        name + "_"@ + join_underscore(args)
    }
}

/// Join strings with underscores.
fn join_with_underscores(parts: &Vec<String>) -> (s: String)
    ensures
        s@ == join_underscore(parts@.map_values(|p: String| p@)),
{
    let ghost ps = parts@.map_values(|p: String| p@);
    let mut s = String::new();
    let mut i: usize = 0;
    while i < parts.len()
        invariant
            i <= parts.len(),
            ps == parts@.map_values(|p: String| p@),
            s@ == join_underscore(ps.subrange(0, i as int)),
        decreases parts.len() - i,
    {
        if i > 0 {
            push_str(&mut s, "_");
        }
        push_str(&mut s, parts[i].as_str());
        i = i + 1;
        assert(ps.subrange(0, i as int).drop_last() =~= ps.subrange(0, i - 1));
        assert(s@ =~= join_underscore(ps.subrange(0, i as int)));
    }
    assert(ps.subrange(0, i as int) =~= ps);
    s
}

impl TypeInstantiation {
    /// Generate a specialized function name
    /// Example: (identity, [Number]) → "identity_Number"
    pub fn specialized_name(&self) -> (s: String)
        ensures
            s@ == spec_specialized_name(self.function_name@, self.type_args@.map_values(|p: String| p@)),
    {
        if self.type_args.len() == 0 {
            self.function_name.clone()
        } else {
            let mut s = self.function_name.clone();
            push_str(&mut s, "_");
            let rest = join_with_underscores(&self.type_args);
            push_str(&mut s, rest.as_str());
            s
        }
    }
}

/// How a type annotation is spelled inside specialized names.
pub open spec fn annotation_name(ann: TypeAnnotation) -> Seq<char>
    decreases ann, 1nat,
{
    match ann {
        TypeAnnotation::Named(name) => name@,
        TypeAnnotation::Generic(name) => name@,
        TypeAnnotation::List(inner) => "List_"@ + annotation_name(*inner),
        TypeAnnotation::Parametrized { name, type_args } => name@ + "_"@ + join_underscore(annotation_names(type_args@)),
        TypeAnnotation::MapType => "Map"@,
        TypeAnnotation::Function { .. } => "Function"@,
        TypeAnnotation::Optional(inner) => "Optional_"@ + annotation_name(*inner),
        TypeAnnotation::Borrowed { lifetime, inner, mutable } => "Borrowed"@ + (match lifetime {
            Some(lt) => "_"@ + lt.name@,
            None => Seq::empty(),
        }) + (if mutable { "_mut"@ } else { Seq::empty() }) + "_"@ + annotation_name(*inner),
    }
}

/// The spelling of each annotation.
pub open spec fn annotation_names(anns: Seq<TypeAnnotation>) -> Seq<Seq<char>>
    decreases anns,
{
    if anns.len() == 0 {
        Seq::empty()
    } else {
        annotation_names(anns.drop_last()).push(annotation_name(anns.last()))
    }
}

proof fn lemma_annotation_names_len(anns: Seq<TypeAnnotation>)
    ensures
        annotation_names(anns).len() == anns.len(),
    decreases anns.len(),
{
    if anns.len() > 0 {
        lemma_annotation_names_len(anns.drop_last());
    }
}

/// Convert a type annotation to the string used in specialized names
/// (`List<Number>` → `List_Number`, `Pair<T, U>` → `Pair_T_U`).
pub fn type_annotation_to_string(ann: &TypeAnnotation) -> (s: String)
    ensures
        s@ == annotation_name(*ann),
    decreases ann, 1nat,
{
    match ann {
        TypeAnnotation::Named(name) => name.clone(),
        TypeAnnotation::Generic(name) => name.clone(),
        TypeAnnotation::List(inner) => {
            let mut s = String::from_str("List_");
            let i = type_annotation_to_string(inner);
            push_str(&mut s, i.as_str());
            s
        },
        TypeAnnotation::Parametrized { name, type_args } => {
            let mut s = name.clone();
            push_str(&mut s, "_");
            let ghost names = annotation_names(type_args@);
            let ghost head = s@;
            let mut i: usize = 0;
            while i < type_args.len()
                invariant
                    i <= type_args.len(),
                    *ann matches TypeAnnotation::Parametrized { type_args: ta, .. } && ta == *type_args,
                    names == annotation_names(type_args@),
                    s@ == head + join_underscore(annotation_names(type_args@.subrange(0, i as int))),
                decreases type_args.len() - i,
            {
                let ghost prev = annotation_names(type_args@.subrange(0, i as int));
                proof {
                    lemma_annotation_names_len(type_args@.subrange(0, i as int));
                }
                if i > 0 {
                    push_str(&mut s, "_");
                }
                proof {
                    assert(decreases_to!(*ann => type_args@[i as int]));
                }
                let part = type_annotation_to_string(&type_args[i]);
                push_str(&mut s, part.as_str());
                i = i + 1;
                assert(type_args@.subrange(0, i as int).drop_last() =~= type_args@.subrange(0, i - 1));
                let ghost cur = annotation_names(type_args@.subrange(0, i as int));
                assert(cur == prev.push(annotation_name(type_args@[i - 1])));
                assert(cur.drop_last() =~= prev);
                assert(s@ =~= head + join_underscore(cur));
            }
            assert(type_args@.subrange(0, i as int) =~= type_args@);
            s
        },
        TypeAnnotation::MapType => String::from_str("Map"),
        TypeAnnotation::Function { .. } => String::from_str("Function"),
        TypeAnnotation::Optional(inner) => {
            let mut s = String::from_str("Optional_");
            let i = type_annotation_to_string(inner);
            push_str(&mut s, i.as_str());
            s
        },
        TypeAnnotation::Borrowed { lifetime, inner, mutable } => {
            let mut s = String::from_str("Borrowed");
            match lifetime {
                Some(lt) => {
                    push_str(&mut s, "_");
                    push_str(&mut s, lt.name.as_str());
                },
                None => {},
            }
            if *mutable {
                push_str(&mut s, "_mut");
            }
            push_str(&mut s, "_");
            let i = type_annotation_to_string(inner);
            push_str(&mut s, i.as_str());
            s
        },
    }
}

/// The concrete type given for type parameter `name`: the first entry for
/// it in `subs`.
pub open spec fn lookup_sub(subs: Seq<(Seq<char>, Seq<char>)>, name: Seq<char>) -> Option<Seq<char>>
    decreases subs.len(),
{
    if subs.len() == 0 {
        None
    } else if subs[0].0 == name {
        Some(subs[0].1)
    } else {
        lookup_sub(subs.drop_first(), name)
    }
}

/// A type with each type parameter that has an entry in `subs` replaced by
/// the named type given there; other types are kept.
pub open spec fn subst_type(t: TypeView, subs: Seq<(Seq<char>, Seq<char>)>) -> TypeView
    decreases t, 1nat,
{
    match t {
        TypeView::Generic(n) => match lookup_sub(subs, n) {
            Some(c) => TypeView::Named(c),
            None => TypeView::Generic(n),
        },
        TypeView::List(inner) => TypeView::List(Box::new(subst_type(*inner, subs))),
        TypeView::Parametrized { name, type_args } => TypeView::Parametrized {
            name,
            type_args: subst_types(type_args, subs),
        },
        TypeView::Function { param_types, return_type } => TypeView::Function {
            param_types: subst_types(param_types, subs),
            return_type: Box::new(subst_type(*return_type, subs)),
        },
        TypeView::Optional(inner) => TypeView::Optional(Box::new(subst_type(*inner, subs))),
        TypeView::Borrowed { lifetime, inner, mutable } => TypeView::Borrowed {
            lifetime,
            inner: Box::new(subst_type(*inner, subs)),
            mutable,
        },
        _ => t,
    }
}

/// `subst_type` on each of a list of types.
pub open spec fn subst_types(ts: Seq<TypeView>, subs: Seq<(Seq<char>, Seq<char>)>) -> Seq<TypeView>
    decreases ts, 0nat,
{
    if ts.len() == 0 {
        Seq::empty()
    } else {
        subst_types(ts.drop_last(), subs).push(subst_type(ts.last(), subs))
    }
}

/// Views of type parameter substitutions.
pub open spec fn subs_view(subs: Seq<(String, String)>) -> Seq<(Seq<char>, Seq<char>)> {
    subs.map_values(|e: (String, String)| (e.0@, e.1@))
}

/// Index of the first substitution for `name`, if any.
fn find_sub(subs: &Vec<(String, String)>, name: &String) -> (r: Option<usize>)
    ensures
        match r {
            Some(i) => i < subs@.len() && subs@[i as int].0@ == name@ && lookup_sub(subs_view(subs@), name@) == Some(
                subs@[i as int].1@,
            ),
            None => lookup_sub(subs_view(subs@), name@) is None,
        },
{
    let ghost all = subs_view(subs@);
    let mut i: usize = 0;
    assert(all.skip(0) =~= all);
    while i < subs.len()
        invariant
            i <= subs@.len(),
            all == subs_view(subs@),
            lookup_sub(all, name@) == lookup_sub(all.skip(i as int), name@),
        decreases subs@.len() - i,
    {
        if text_eq(&subs[i].0, name) {
            assert(all.skip(i as int)[0] == all[i as int]);
            return Some(i);
        }
        assert(all.skip(i as int).drop_first() =~= all.skip(i + 1));
        i += 1;
    }
    None
}

/// Whether two texts are equal.
fn text_eq(a: &String, b: &String) -> (r: bool)
    ensures
        r == (a@ == b@),
{
    let n = a.as_str().unicode_len();
    if n != b.as_str().unicode_len() {
        return false;
    }
    let mut i: usize = 0;
    while i < n
        invariant
            i <= n == a@.len() == b@.len(),
            forall|j: int| 0 <= j < i ==> a@[j] == b@[j],
        decreases n - i,
    {
        if a.as_str().get_char(i) != b.as_str().get_char(i) {
            return false;
        }
        i += 1;
    }
    assert(a@ =~= b@);
    true
}

/// Substitute type parameters in a type annotation: a type parameter with
/// an entry in `substitutions` becomes the named type given there (see
/// `subst_type`).
pub fn substitute_type_annotation_helper(ann: &TypeAnnotation, substitutions: &Vec<(String, String)>) -> (r:
    TypeAnnotation)
    ensures
        type_view(r) == subst_type(type_view(*ann), subs_view(substitutions@)),
    decreases ann, 1nat,
{
    match ann {
        TypeAnnotation::Generic(name) => match find_sub(substitutions, name) {
            Some(i) => TypeAnnotation::Named(substitutions[i].1.clone()),
            None => TypeAnnotation::Generic(name.clone()),
        },
        TypeAnnotation::List(inner) => TypeAnnotation::List(
            Box::new(substitute_type_annotation_helper(inner, substitutions)),
        ),
        TypeAnnotation::Parametrized { name, type_args } => TypeAnnotation::Parametrized {
            name: name.clone(),
            type_args: substitute_all(ann, type_args, substitutions),
        },
        TypeAnnotation::Function { param_types, return_type } => TypeAnnotation::Function {
            param_types: substitute_all(ann, param_types, substitutions),
            return_type: Box::new(substitute_type_annotation_helper(return_type, substitutions)),
        },
        TypeAnnotation::Optional(inner) => TypeAnnotation::Optional(
            Box::new(substitute_type_annotation_helper(inner, substitutions)),
        ),
        TypeAnnotation::Borrowed { lifetime, inner, mutable } => TypeAnnotation::Borrowed {
            lifetime: match lifetime {
                Some(l) => Some(Lifetime { name: l.name.clone() }),
                None => None,
            },
            inner: Box::new(substitute_type_annotation_helper(inner, substitutions)),
            mutable: *mutable,
        },
        TypeAnnotation::Named(name) => TypeAnnotation::Named(name.clone()),
        TypeAnnotation::MapType => TypeAnnotation::MapType,
    }
}

/// `substitute_type_annotation_helper` on each type of `ts`, a list held
/// by `owner`.
fn substitute_all(owner: &TypeAnnotation, ts: &Vec<TypeAnnotation>, substitutions: &Vec<(String, String)>) -> (r: Vec<
    TypeAnnotation,
>)
    requires
        forall|i: int| 0 <= i < ts@.len() ==> decreases_to!(*owner => #[trigger] ts@[i]),
    ensures
        types_view(r@) == subst_types(types_view(ts@), subs_view(substitutions@)),
    decreases owner, 0nat,
{
    let mut out: Vec<TypeAnnotation> = Vec::new();
    let mut i: usize = 0;
    while i < ts.len()
        invariant
            i <= ts@.len(),
            forall|k: int| 0 <= k < ts@.len() ==> decreases_to!(*owner => #[trigger] ts@[k]),
            types_view(out@) == subst_types(types_view(ts@.take(i as int)), subs_view(substitutions@)),
        decreases ts@.len() - i,
    {
        let t = substitute_type_annotation_helper(&ts[i], substitutions);
        proof {
            assert(ts@.take(i + 1).drop_last() =~= ts@.take(i as int));
            assert(types_view(ts@.take(i as int)).push(type_view(ts@[i as int])).drop_last() =~= types_view(
                ts@.take(i as int),
            ));
            assert(out@.push(t).drop_last() =~= out@);
        }
        out.push(t);
        i += 1;
    }
    assert(ts@.take(ts@.len() as int) =~= ts@);
    out
}

/// How a type is spelled inside specialized names (`annotation_name` of
/// the type's value).
pub open spec fn view_name(t: TypeView) -> Seq<char>
    decreases t, 1nat,
{
    match t {
        TypeView::Named(name) => name,
        TypeView::Generic(name) => name,
        TypeView::List(inner) => "List_"@ + view_name(*inner),
        TypeView::Parametrized { name, type_args } => name + "_"@ + join_underscore(view_names(type_args)),
        TypeView::MapType => "Map"@,
        TypeView::Function { .. } => "Function"@,
        TypeView::Optional(inner) => "Optional_"@ + view_name(*inner),
        TypeView::Borrowed { lifetime, inner, mutable } => "Borrowed"@ + (match lifetime {
            Some(lt) => "_"@ + lt,
            None => Seq::empty(),
        }) + (if mutable { "_mut"@ } else { Seq::empty() }) + "_"@ + view_name(*inner),
    }
}

/// The spelling of each type.
pub open spec fn view_names(ts: Seq<TypeView>) -> Seq<Seq<char>>
    decreases ts, 0nat,
{
    if ts.len() == 0 {
        Seq::empty()
    } else {
        view_names(ts.drop_last()).push(view_name(ts.last()))
    }
}

/// An annotation is spelled as its value is.
proof fn lemma_annotation_name_view(a: TypeAnnotation)
    ensures
        annotation_name(a) == view_name(type_view(a)),
    decreases a, 1nat,
{
    match a {
        TypeAnnotation::List(inner) => lemma_annotation_name_view(*inner),
        TypeAnnotation::Optional(inner) => lemma_annotation_name_view(*inner),
        TypeAnnotation::Borrowed { inner, .. } => lemma_annotation_name_view(*inner),
        TypeAnnotation::Parametrized { type_args, .. } => {
            assert(decreases_to!(a => type_args));
            lemma_annotation_names_view(type_args@);
        },
        _ => {},
    }
}

/// Annotations are spelled as their values are.
proof fn lemma_annotation_names_view(ts: Seq<TypeAnnotation>)
    ensures
        annotation_names(ts) == view_names(types_view(ts)),
    decreases ts, 0nat,
{
    if ts.len() > 0 {
        lemma_annotation_names_view(ts.drop_last());
        lemma_annotation_name_view(ts.last());
        let vs = types_view(ts);
        assert(vs == types_view(ts.drop_last()).push(type_view(ts.last())));
        assert(vs.drop_last() =~= types_view(ts.drop_last()));
    }
}

/// An instantiation as a value: the generic function's name and the
/// spelling of each type argument.
pub type InstKey = (Seq<char>, Seq<Seq<char>>);

/// The value of an instantiation.
pub open spec fn key_view(i: TypeInstantiation) -> InstKey {
    (i.function_name@, names_view(i.type_args@))
}

/// The values of instantiations.
pub open spec fn keys_view(v: Seq<TypeInstantiation>) -> Seq<InstKey> {
    v.map_values(|i: TypeInstantiation| key_view(i))
}

/// Lexicographic order of lists of texts (the order of `Vec<String>`).
pub open spec fn texts_lt(a: Seq<Seq<char>>, b: Seq<Seq<char>>) -> bool
    decreases a.len(),
{
    if a.len() == 0 {
        b.len() > 0
    } else if b.len() == 0 {
        false
    } else if a[0] != b[0] {
        text_lt(a[0], b[0])
    } else {
        texts_lt(a.drop_first(), b.drop_first())
    }
}

/// The order of instantiations: by function name, then by type arguments
/// (the order that `derive(Ord)` gives the instantiation struct).
pub open spec fn key_lt(a: InstKey, b: InstKey) -> bool {
    text_lt(a.0, b.0) || (a.0 == b.0 && texts_lt(a.1, b.1))
}

/// An ordered set of instantiations after adding `k`: `k` goes before the
/// first key that does not come before it, unless it is already there.
pub open spec fn insert_key(acc: Seq<InstKey>, k: InstKey) -> Seq<InstKey>
    decreases acc.len(),
{
    if acc.len() == 0 {
        seq![k]
    } else if acc[0] == k {
        acc
    } else if key_lt(k, acc[0]) {
        seq![k] + acc
    } else {
        seq![acc[0]] + insert_key(acc.drop_first(), k)
    }
}

proof fn lemma_texts_lt_irreflexive(a: Seq<Seq<char>>)
    ensures
        !texts_lt(a, a),
    decreases a.len(),
{
    if a.len() > 0 {
        lemma_texts_lt_irreflexive(a.drop_first());
    }
}

proof fn lemma_texts_lt_asymmetric(a: Seq<Seq<char>>, b: Seq<Seq<char>>)
    requires
        texts_lt(a, b),
    ensures
        !texts_lt(b, a),
    decreases a.len(),
{
    if a.len() > 0 && b.len() > 0 {
        if a[0] != b[0] {
            lemma_text_lt_asymmetric(a[0], b[0]);
        } else {
            lemma_texts_lt_asymmetric(a.drop_first(), b.drop_first());
        }
    }
}

proof fn lemma_texts_lt_total(a: Seq<Seq<char>>, b: Seq<Seq<char>>)
    ensures
        a == b || texts_lt(a, b) || texts_lt(b, a),
    decreases a.len(),
{
    if a.len() > 0 && b.len() > 0 {
        if a[0] != b[0] {
            lemma_text_lt_total(a[0], b[0]);
        } else {
            lemma_texts_lt_total(a.drop_first(), b.drop_first());
            if a.drop_first() == b.drop_first() {
                assert(a =~= seq![a[0]] + a.drop_first());
                assert(b =~= seq![b[0]] + b.drop_first());
            }
        }
    } else if a.len() == 0 && b.len() == 0 {
        assert(a =~= b);
    }
}

proof fn lemma_key_lt_irreflexive(a: InstKey)
    ensures
        !key_lt(a, a),
{
    lemma_text_lt_irreflexive(a.0);
    lemma_texts_lt_irreflexive(a.1);
}

proof fn lemma_key_lt_asymmetric(a: InstKey, b: InstKey)
    requires
        key_lt(a, b),
    ensures
        !key_lt(b, a),
{
    if text_lt(a.0, b.0) {
        lemma_text_lt_asymmetric(a.0, b.0);
        if a.0 == b.0 {
            lemma_text_lt_irreflexive(a.0);
        }
    } else {
        lemma_text_lt_irreflexive(a.0);
        lemma_texts_lt_asymmetric(a.1, b.1);
    }
}

proof fn lemma_key_lt_total(a: InstKey, b: InstKey)
    ensures
        a == b || key_lt(a, b) || key_lt(b, a),
{
    lemma_text_lt_total(a.0, b.0);
    lemma_texts_lt_total(a.1, b.1);
}

proof fn lemma_texts_lt_transitive(a: Seq<Seq<char>>, b: Seq<Seq<char>>, c: Seq<Seq<char>>)
    requires
        texts_lt(a, b),
        texts_lt(b, c),
    ensures
        texts_lt(a, c),
    decreases a.len(),
{
    if a.len() > 0 && b.len() > 0 && c.len() > 0 {
        if a[0] == b[0] && b[0] == c[0] {
            lemma_texts_lt_transitive(a.drop_first(), b.drop_first(), c.drop_first());
        } else if a[0] != b[0] && b[0] != c[0] {
            lemma_text_lt_transitive(a[0], b[0], c[0]);
            if a[0] == c[0] {
                lemma_text_lt_asymmetric(a[0], b[0]);
            }
        }
    }
}

proof fn lemma_key_lt_transitive(a: InstKey, b: InstKey, c: InstKey)
    requires
        key_lt(a, b),
        key_lt(b, c),
    ensures
        key_lt(a, c),
{
    if text_lt(a.0, b.0) && text_lt(b.0, c.0) {
        lemma_text_lt_transitive(a.0, b.0, c.0);
    } else if a.0 == b.0 && b.0 == c.0 {
        lemma_texts_lt_transitive(a.1, b.1, c.1);
    }
}

/// Keys in strictly increasing order: an ordered set.
pub open spec fn keys_sorted(s: Seq<InstKey>) -> bool {
    forall|i: int, j: int| 0 <= i < j < s.len() ==> key_lt(#[trigger] s[i], #[trigger] s[j])
}

/// Adding a key to an ordered set gives an ordered set holding exactly the
/// old keys and the new one.
pub proof fn insert_key_law(acc: Seq<InstKey>, k: InstKey)
    requires
        keys_sorted(acc),
    ensures
        keys_sorted(insert_key(acc, k)),
        forall|x: InstKey| #[trigger] insert_key(acc, k).contains(x) <==> (acc.contains(x) || x == k),
    decreases acc.len(),
{
    let r = insert_key(acc, k);
    if acc.len() == 0 {
        assert forall|x: InstKey| #[trigger] r.contains(x) <==> (acc.contains(x) || x == k) by {
            if r.contains(x) {
                assert(r[0] == k);
            }
            if x == k {
                assert(r[0] == x);
            }
        }
    } else if acc[0] == k {
    } else if key_lt(k, acc[0]) {
        assert forall|i: int, j: int| 0 <= i < j < r.len() implies key_lt(#[trigger] r[i], #[trigger] r[j]) by {
            if i == 0 {
                if j > 1 {
                    lemma_key_lt_transitive(k, acc[0], acc[j - 1]);
                }
            } else {
                assert(r[i] == acc[i - 1] && r[j] == acc[j - 1]);
            }
        }
        assert forall|x: InstKey| #[trigger] r.contains(x) <==> (acc.contains(x) || x == k) by {
            if r.contains(x) {
                let i = choose|i: int| 0 <= i < r.len() && r[i] == x;
                if i > 0 {
                    assert(acc[i - 1] == x);
                }
            }
            if acc.contains(x) {
                let i = choose|i: int| 0 <= i < acc.len() && acc[i] == x;
                assert(r[i + 1] == x);
            }
            if x == k {
                assert(r[0] == x);
            }
        }
    } else {
        let rest = acc.drop_first();
        assert forall|i: int, j: int| 0 <= i < j < rest.len() implies key_lt(#[trigger] rest[i], #[trigger] rest[j]) by {
            assert(rest[i] == acc[i + 1] && rest[j] == acc[j + 1]);
        }
        insert_key_law(rest, k);
        let t = insert_key(rest, k);
        lemma_key_lt_total(k, acc[0]);
        assert(key_lt(acc[0], k));
        assert(r == seq![acc[0]] + t);
        assert forall|j: int| 0 <= j < t.len() implies key_lt(acc[0], #[trigger] t[j]) by {
            assert(t.contains(t[j]));
            if t[j] != k {
                assert(rest.contains(t[j]));
                let m = choose|m: int| 0 <= m < rest.len() && rest[m] == t[j];
                assert(acc[m + 1] == t[j]);
            }
        }
        assert forall|i: int, j: int| 0 <= i < j < r.len() implies key_lt(#[trigger] r[i], #[trigger] r[j]) by {
            if i == 0 {
                assert(r[j] == t[j - 1]);
            } else {
                assert(r[i] == t[i - 1] && r[j] == t[j - 1]);
            }
        }
        assert forall|x: InstKey| #[trigger] r.contains(x) <==> (acc.contains(x) || x == k) by {
            if r.contains(x) {
                let i = choose|i: int| 0 <= i < r.len() && r[i] == x;
                if i > 0 {
                    assert(t[i - 1] == x);
                    assert(t.contains(x));
                    if rest.contains(x) {
                        let m = choose|m: int| 0 <= m < rest.len() && rest[m] == x;
                        assert(acc[m + 1] == x);
                    }
                } else {
                    assert(acc[0] == x);
                }
            }
            if acc.contains(x) {
                let i = choose|i: int| 0 <= i < acc.len() && acc[i] == x;
                if i == 0 {
                    assert(r[0] == x);
                } else {
                    assert(rest[i - 1] == x);
                    assert(t.contains(x));
                    let m = choose|m: int| 0 <= m < t.len() && t[m] == x;
                    assert(r[m + 1] == x);
                }
            }
            if x == k {
                assert(t.contains(x));
                let m = choose|m: int| 0 <= m < t.len() && t[m] == x;
                assert(r[m + 1] == x);
            }
        }
    }
}

/// Adding a key that comes after exactly the first `p` keys.
proof fn lemma_insert_key_at(acc: Seq<InstKey>, k: InstKey, p: int)
    requires
        0 <= p <= acc.len(),
        forall|j: int| 0 <= j < p ==> key_lt(#[trigger] acc[j], k),
        p < acc.len() ==> !key_lt(acc[p], k),
    ensures
        insert_key(acc, k) == (if p < acc.len() && acc[p] == k {
            acc
        } else {
            acc.take(p) + seq![k] + acc.skip(p)
        }),
    decreases p,
{
    if p == 0 {
        if acc.len() == 0 {
            assert(acc.take(0) + seq![k] + acc.skip(0) =~= seq![k]);
        } else if acc[0] != k {
            lemma_key_lt_total(k, acc[0]);
            assert(acc.take(0) + seq![k] + acc.skip(0) =~= seq![k] + acc);
        }
    } else {
        assert(key_lt(acc[0], k));
        lemma_key_lt_irreflexive(k);
        lemma_key_lt_asymmetric(acc[0], k);
        let rest = acc.drop_first();
        assert forall|j: int| 0 <= j < p - 1 implies key_lt(#[trigger] rest[j], k) by {
            assert(rest[j] == acc[j + 1]);
        }
        lemma_insert_key_at(rest, k, p - 1);
        if p < acc.len() && acc[p] == k {
            assert(seq![acc[0]] + rest =~= acc);
        } else {
            assert(seq![acc[0]] + (rest.take(p - 1) + seq![k] + rest.skip(p - 1)) =~= acc.take(p) + seq![k] + acc.skip(p));
        }
    }
}

/// A generic function definition: a chant with type parameters.
pub open spec fn is_generic(n: NodeView) -> bool {
    n matches NodeView::ChantDef { type_params, .. } && type_params.len() > 0
}

/// The name a chant defines.
pub open spec fn def_name(n: NodeView) -> Option<Seq<char>> {
    match n {
        NodeView::ChantDef { name, .. } => Some(name),
        _ => None,
    }
}

/// The generic function definitions among `nodes`, in order.
pub open spec fn generic_defs(nodes: Seq<NodeView>) -> Seq<NodeView>
    decreases nodes.len(),
{
    if nodes.len() == 0 {
        Seq::empty()
    } else if is_generic(nodes.last()) {
        generic_defs(nodes.drop_last()).push(nodes.last())
    } else {
        generic_defs(nodes.drop_last())
    }
}

/// The definition in force for generic function `name`: the last one.
pub open spec fn generic_def(gens: Seq<NodeView>, name: Seq<char>) -> Option<NodeView>
    decreases gens.len(),
{
    if gens.len() == 0 {
        None
    } else if def_name(gens.last()) == Some(name) {
        Some(gens.last())
    } else {
        generic_def(gens.drop_last(), name)
    }
}

/// The instantiations in `acc` after those found in `n`: a call with type
/// arguments of a generic function named by an identifier adds its
/// instantiation; the search goes through call arguments, operands,
/// statement bodies and values, list elements, blocks and `?`.
pub open spec fn found_in(n: NodeView, gens: Seq<NodeView>, acc: Seq<InstKey>) -> Seq<InstKey>
    decreases n, 1nat,
{
    match n {
        NodeView::Call { callee, type_args, args, .. } => {
            let acc1 = match *callee {
                NodeView::Ident { name, .. } => if type_args.len() > 0 && generic_def(gens, name) is Some {
                    insert_key(acc, (name, view_names(type_args)))
                } else {
                    acc
                },
                _ => acc,
            };
            found_in_all(args, gens, acc1)
        },
        NodeView::BinaryOp { left, right, .. } => found_in(*right, gens, found_in(*left, gens, acc)),
        NodeView::UnaryOp { operand, .. } => found_in(*operand, gens, acc),
        NodeView::IfStmt { condition, then_branch, else_branch, .. } => {
            let a = found_in_all(then_branch, gens, found_in(*condition, gens, acc));
            match else_branch {
                Some(b) => found_in_all(b, gens, a),
                None => a,
            }
        },
        NodeView::WhileStmt { condition, body, .. } => found_in_all(body, gens, found_in(*condition, gens, acc)),
        NodeView::ForStmt { iterable, body, .. } => found_in_all(body, gens, found_in(*iterable, gens, acc)),
        NodeView::BindStmt { value, .. } => found_in(*value, gens, acc),
        NodeView::WeaveStmt { value, .. } => found_in(*value, gens, acc),
        NodeView::SetStmt { value, .. } => found_in(*value, gens, acc),
        NodeView::YieldStmt { value, .. } => found_in(*value, gens, acc),
        NodeView::ExprStmt { expr, .. } => found_in(*expr, gens, acc),
        NodeView::List { elements, .. } => found_in_all(elements, gens, acc),
        NodeView::ChantDef { body, .. } => found_in_all(body, gens, acc),
        NodeView::Block { statements, .. } => found_in_all(statements, gens, acc),
        NodeView::Try { expr, .. } => found_in(*expr, gens, acc),
        _ => acc,
    }
}

/// The instantiations after those found in each node, in order.
pub open spec fn found_in_all(ns: Seq<NodeView>, gens: Seq<NodeView>, acc: Seq<InstKey>) -> Seq<InstKey>
    decreases ns, 0nat,
{
    if ns.len() == 0 {
        acc
    } else {
        found_in(ns.last(), gens, found_in_all(ns.drop_last(), gens, acc))
    }
}

/// The substitutions of an instantiation: each type parameter with its type
/// argument, the last pair first, so that a later pair for a parameter wins.
pub open spec fn reversed_pairs(params: Seq<Seq<char>>, args: Seq<Seq<char>>) -> Seq<(Seq<char>, Seq<char>)> {
    let k = if params.len() < args.len() { params.len() } else { args.len() };
    Seq::new(k as nat, |j: int| (params[k - 1 - j], args[k - 1 - j]))
}

/// A parameter with the substitutions made in its type.
pub open spec fn specialize_param(p: ParamView, subs: Seq<(Seq<char>, Seq<char>)>) -> ParamView {
    ParamView {
        typ: match p.typ {
            Some(t) => Some(subst_type(t, subs)),
            None => None,
        },
        ..p
    }
}

/// The specialized version of a generic chant for instantiation `k`: the
/// specialized name, no type parameters, and the type arguments put for
/// the type parameters in the parameter and return types; the body is kept.
pub open spec fn specialize(def: NodeView, k: InstKey) -> NodeView {
    match def {
        NodeView::ChantDef { type_params, lifetime_params, params, return_type, body, span, .. } => {
            let subs = reversed_pairs(type_params, k.1);
            NodeView::ChantDef {
                name: spec_specialized_name(k.0, k.1),
                type_params: Seq::empty(),
                lifetime_params,
                params: params.map_values(|p: ParamView| specialize_param(p, subs)),
                return_type: match return_type {
                    Some(t) => Some(subst_type(t, subs)),
                    None => None,
                },
                body,
                span,
            }
        },
        _ => def,
    }
}

/// The specialized functions of the instantiations, in their order.
pub open spec fn specialized_all(keys: Seq<InstKey>, gens: Seq<NodeView>) -> Seq<NodeView>
    decreases keys.len(),
{
    if keys.len() == 0 {
        Seq::empty()
    } else {
        let prev = specialized_all(keys.drop_last(), gens);
        match generic_def(gens, keys.last().0) {
            Some(d) => prev.push(specialize(d, keys.last())),
            None => prev,
        }
    }
}

/// A node with each call of a known instantiation replaced by a call of
/// its specialized function (named at the call's span, with no type
/// arguments); calls, operators, bindings, assignments, yields, expression
/// statements, lists, blocks and `?` are rewritten inside, other nodes kept.
pub open spec fn transform(n: NodeView, insts: Seq<InstKey>) -> NodeView
    decreases n, 1nat,
{
    match n {
        NodeView::Call { callee, type_args, args, span } => {
            let kept_call = NodeView::Call {
                callee: Box::new(transform(*callee, insts)),
                type_args,
                args: transform_all(args, insts),
                span,
            };
            match *callee {
                NodeView::Ident { name, .. } => if type_args.len() > 0 && insts.contains((name, view_names(type_args))) {
                    NodeView::Call {
                        callee: Box::new(NodeView::Ident { name: spec_specialized_name(name, view_names(type_args)), span }),
                        type_args: Seq::empty(),
                        args: transform_all(args, insts),
                        span,
                    }
                } else {
                    kept_call
                },
                _ => kept_call,
            }
        },
        NodeView::BinaryOp { left, op, right, span } => NodeView::BinaryOp {
            left: Box::new(transform(*left, insts)),
            op,
            right: Box::new(transform(*right, insts)),
            span,
        },
        NodeView::UnaryOp { op, operand, span } => NodeView::UnaryOp {
            op,
            operand: Box::new(transform(*operand, insts)),
            span,
        },
        NodeView::BindStmt { name, typ, value, span } => NodeView::BindStmt {
            name,
            typ,
            value: Box::new(transform(*value, insts)),
            span,
        },
        NodeView::WeaveStmt { name, typ, value, span } => NodeView::WeaveStmt {
            name,
            typ,
            value: Box::new(transform(*value, insts)),
            span,
        },
        NodeView::SetStmt { target, value, span } => NodeView::SetStmt {
            target: Box::new(transform(*target, insts)),
            value: Box::new(transform(*value, insts)),
            span,
        },
        NodeView::YieldStmt { value, span } => NodeView::YieldStmt { value: Box::new(transform(*value, insts)), span },
        NodeView::ExprStmt { expr, span } => NodeView::ExprStmt { expr: Box::new(transform(*expr, insts)), span },
        NodeView::List { elements, span } => NodeView::List { elements: transform_all(elements, insts), span },
        NodeView::Block { statements, span } => NodeView::Block { statements: transform_all(statements, insts), span },
        NodeView::Try { expr, span } => NodeView::Try { expr: Box::new(transform(*expr, insts)), span },
        _ => n,
    }
}

/// `transform` on each node.
pub open spec fn transform_all(ns: Seq<NodeView>, insts: Seq<InstKey>) -> Seq<NodeView>
    decreases ns, 0nat,
{
    if ns.len() == 0 {
        Seq::empty()
    } else {
        transform_all(ns.drop_last(), insts).push(transform(ns.last(), insts))
    }
}

/// The nodes that are not generic definitions, transformed.
pub open spec fn kept(nodes: Seq<NodeView>, insts: Seq<InstKey>) -> Seq<NodeView>
    decreases nodes.len(),
{
    if nodes.len() == 0 {
        Seq::empty()
    } else if is_generic(nodes.last()) {
        kept(nodes.drop_last(), insts)
    } else {
        kept(nodes.drop_last(), insts).push(transform(nodes.last(), insts))
    }
}

/// The values of a list of nodes, one for each.
proof fn lemma_nodes_view_index(ns: Seq<AstNode>)
    ensures
        nodes_view(ns).len() == ns.len(),
        forall|i: int| 0 <= i < ns.len() ==> #[trigger] nodes_view(ns)[i] == node_view(ns[i]),
    decreases ns.len(),
{
    if ns.len() > 0 {
        lemma_nodes_view_index(ns.drop_last());
    }
}

/// Whether two lists of texts are equal.
fn texts_eq(a: &Vec<String>, b: &Vec<String>) -> (r: bool)
    ensures
        r == (names_view(a@) == names_view(b@)),
{
    if a.len() != b.len() {
        assert(names_view(a@).len() != names_view(b@).len());
        return false;
    }
    let mut i: usize = 0;
    while i < a.len()
        invariant
            i <= a@.len() == b@.len(),
            forall|j: int| 0 <= j < i ==> #[trigger] a@[j]@ == b@[j]@,
        decreases a@.len() - i,
    {
        if !text_eq(&a[i], &b[i]) {
            assert(names_view(a@)[i as int] != names_view(b@)[i as int]);
            return false;
        }
        i += 1;
    }
    assert(names_view(a@) =~= names_view(b@));
    true
}

/// Whether list `a` comes before list `b`.
fn texts_less(a: &Vec<String>, b: &Vec<String>) -> (r: bool)
    ensures
        r == texts_lt(names_view(a@), names_view(b@)),
{
    let ghost x = names_view(a@);
    let ghost y = names_view(b@);
    let mut i: usize = 0;
    assert(x.skip(0) =~= x && y.skip(0) =~= y);
    while i < a.len() && i < b.len()
        invariant
            i <= a@.len(),
            i <= b@.len(),
            x == names_view(a@),
            y == names_view(b@),
            texts_lt(x, y) == texts_lt(x.skip(i as int), y.skip(i as int)),
        decreases a@.len() - i,
    {
        assert(x.skip(i as int)[0] == a@[i as int]@);
        assert(y.skip(i as int)[0] == b@[i as int]@);
        if !text_eq(&a[i], &b[i]) {
            return less_than(&a[i], &b[i]);
        }
        assert(x.skip(i as int).drop_first() =~= x.skip(i + 1));
        assert(y.skip(i as int).drop_first() =~= y.skip(i + 1));
        i += 1;
    }
    a.len() < b.len()
}

/// Whether two instantiations are equal.
fn key_equal(a: &TypeInstantiation, b: &TypeInstantiation) -> (r: bool)
    ensures
        r == (key_view(*a) == key_view(*b)),
{
    text_eq(&a.function_name, &b.function_name) && texts_eq(&a.type_args, &b.type_args)
}

/// Whether instantiation `a` comes before `b`.
fn key_less(a: &TypeInstantiation, b: &TypeInstantiation) -> (r: bool)
    ensures
        r == key_lt(key_view(*a), key_view(*b)),
{
    if text_eq(&a.function_name, &b.function_name) {
        proof {
            lemma_text_lt_irreflexive(a.function_name@);
        }
        texts_less(&a.type_args, &b.type_args)
    } else {
        less_than(&a.function_name, &b.function_name)
    }
}

/// The spelling of each type of a list.
fn spell_types(ts: &Vec<TypeAnnotation>) -> (r: Vec<String>)
    ensures
        names_view(r@) == view_names(types_view(ts@)),
{
    let mut out: Vec<String> = Vec::new();
    let mut i: usize = 0;
    while i < ts.len()
        invariant
            i <= ts@.len(),
            names_view(out@) == view_names(types_view(ts@.take(i as int))),
        decreases ts@.len() - i,
    {
        let s = type_annotation_to_string(&ts[i]);
        proof {
            lemma_annotation_name_view(ts@[i as int]);
            let t = ts@.take(i + 1);
            assert(t.drop_last() =~= ts@.take(i as int));
            let tv = types_view(t);
            assert(tv.drop_last() =~= types_view(ts@.take(i as int)));
            assert(names_view(out@.push(s)) =~= names_view(out@).push(s@));
        }
        out.push(s);
        i += 1;
    }
    assert(ts@.take(i as int) =~= ts@);
    out
}

/// Monomorphizer transforms generic code into specialized versions
pub struct Monomorphizer {
    /// The instantiations found so far, ordered and without repeats.
    instantiations: Vec<TypeInstantiation>,
    /// The generic function definitions seen so far, in order.
    generic_functions: Vec<AstNode>,
}

impl Monomorphizer {
    /// The instantiations found so far, in order.
    pub closed spec fn insts(&self) -> Seq<InstKey> {
        keys_view(self.instantiations@)
    }

    /// The generic definitions seen so far, in order.
    pub closed spec fn generics(&self) -> Seq<NodeView> {
        nodes_view(self.generic_functions@)
    }

    pub fn new() -> (m: Monomorphizer)
        ensures
            m.insts() == Seq::<InstKey>::empty(),
            keys_sorted(m.insts()),
            m.generics() == Seq::<NodeView>::empty(),
    {
        let m = Monomorphizer { instantiations: Vec::new(), generic_functions: Vec::new() };
        assert(m.insts() =~= Seq::<InstKey>::empty());
        m
    }

    /// The index of the definition in force for generic function `name`.
    fn find_generic(&self, name: &String) -> (r: Option<usize>)
        ensures
            match r {
                Some(i) => i < self.generic_functions@.len() && generic_def(self.generics(), name@) == Some(
                    node_view(self.generic_functions@[i as int]),
                ),
                None => generic_def(self.generics(), name@) is None,
            },
    {
        let ghost g = self.generics();
        proof {
            lemma_nodes_view_index(self.generic_functions@);
            assert(g.take(g.len() as int) =~= g);
        }
        let mut i: usize = self.generic_functions.len();
        while i > 0
            invariant
                i <= self.generic_functions@.len() == g.len(),
                g == self.generics(),
                forall|j: int| 0 <= j < g.len() ==> #[trigger] g[j] == node_view(self.generic_functions@[j]),
                generic_def(g, name@) == generic_def(g.take(i as int), name@),
            decreases i,
        {
            i -= 1;
            assert(g.take(i + 1).drop_last() =~= g.take(i as int));
            assert(g.take(i + 1).last() == g[i as int]);
            let hit = match &self.generic_functions[i] {
                AstNode::ChantDef { name: n, .. } => text_eq(n, name),
                _ => false,
            };
            if hit {
                return Some(i);
            }
        }
        None
    }

    /// Add an instantiation to the ordered set.
    fn insert_inst(&mut self, k: TypeInstantiation)
        requires
            keys_sorted(old(self).insts()),
        ensures
            final(self).insts() == insert_key(old(self).insts(), key_view(k)),
            keys_sorted(final(self).insts()),
            final(self).generic_functions == old(self).generic_functions,
    {
        proof {
            insert_key_law(old(self).insts(), key_view(k));
        }
        let ghost acc = self.insts();
        let ghost kv = key_view(k);
        let mut p: usize = 0;
        while p < self.instantiations.len() && key_less(&self.instantiations[p], &k)
            invariant
                p <= self.instantiations@.len(),
                acc == self.insts(),
                kv == key_view(k),
                forall|j: int| 0 <= j < p ==> key_lt(#[trigger] acc[j], kv),
            decreases self.instantiations@.len() - p,
        {
            p += 1;
        }
        proof {
            lemma_insert_key_at(acc, kv, p as int);
        }
        if p < self.instantiations.len() && key_equal(&self.instantiations[p], &k) {
            return;
        }
        self.instantiations.insert(p, k);
        assert(self.insts() =~= acc.take(p as int) + seq![kv] + acc.skip(p as int));
    }
}

impl Default for Monomorphizer {
    fn default() -> (m: Monomorphizer)
        ensures
            m.insts() == Seq::<InstKey>::empty(),
            keys_sorted(m.insts()),
            m.generics() == Seq::<NodeView>::empty(),
    {
        Monomorphizer::new()
    }
}

impl Monomorphizer {
    /// Record the instantiations found in a node (see `found_in`).
    fn find_instantiations_in_node(&mut self, node: &AstNode)
        requires
            keys_sorted(old(self).insts()),
        ensures
            final(self).insts() == found_in(node_view(*node), old(self).generics(), old(self).insts()),
            keys_sorted(final(self).insts()),
            final(self).generic_functions == old(self).generic_functions,
        decreases node, 1nat,
    {
        match node {
            AstNode::Call { callee, type_args, args, .. } => {
                proof {
                    lemma_types_view(type_args@);
                }
                let ghost acc1 = match node_view(**callee) {
                    NodeView::Ident { name, .. } => if type_args@.len() > 0 && generic_def(old(self).generics(), name) is Some {
                        insert_key(old(self).insts(), (name, view_names(types_view(type_args@))))
                    } else {
                        old(self).insts()
                    },
                    _ => old(self).insts(),
                };
                if type_args.len() > 0 {
                    match &**callee {
                        AstNode::Ident { name, .. } => {
                            match self.find_generic(name) {
                                Some(_) => {
                                    let names = spell_types(type_args);
                                    self.insert_inst(TypeInstantiation { function_name: name.clone(), type_args: names });
                                },
                                None => {},
                            }
                        },
                        _ => {},
                    }
                }
                assert(self.insts() == acc1);
                self.find_instantiations_in_nodes(args);
            },
            AstNode::BinaryOp { left, right, .. } => {
                self.find_instantiations_in_node(left);
                self.find_instantiations_in_node(right);
            },
            AstNode::UnaryOp { operand, .. } => self.find_instantiations_in_node(operand),
            AstNode::IfStmt { condition, then_branch, else_branch, .. } => {
                self.find_instantiations_in_node(condition);
                self.find_instantiations_in_nodes(then_branch);
                match else_branch {
                    Some(b) => self.find_instantiations_in_nodes(b),
                    None => {},
                }
            },
            AstNode::WhileStmt { condition, body, .. } => {
                self.find_instantiations_in_node(condition);
                self.find_instantiations_in_nodes(body);
            },
            AstNode::ForStmt { iterable, body, .. } => {
                self.find_instantiations_in_node(iterable);
                self.find_instantiations_in_nodes(body);
            },
            AstNode::BindStmt { value, .. } => self.find_instantiations_in_node(value),
            AstNode::WeaveStmt { value, .. } => self.find_instantiations_in_node(value),
            AstNode::SetStmt { value, .. } => self.find_instantiations_in_node(value),
            AstNode::YieldStmt { value, .. } => self.find_instantiations_in_node(value),
            AstNode::ExprStmt { expr, .. } => self.find_instantiations_in_node(expr),
            AstNode::List { elements, .. } => self.find_instantiations_in_nodes(elements),
            AstNode::ChantDef { body, .. } => self.find_instantiations_in_nodes(body),
            AstNode::Block { statements, .. } => self.find_instantiations_in_nodes(statements),
            AstNode::Try { expr, .. } => self.find_instantiations_in_node(expr),
            _ => {},
        }
    }

    /// Record the instantiations found in each node (see `found_in_all`).
    fn find_instantiations_in_nodes(&mut self, nodes: &Vec<AstNode>)
        requires
            keys_sorted(old(self).insts()),
        ensures
            final(self).insts() == found_in_all(nodes_view(nodes@), old(self).generics(), old(self).insts()),
            keys_sorted(final(self).insts()),
            final(self).generic_functions == old(self).generic_functions,
        decreases nodes, 0nat,
    {
        let ghost nv = nodes_view(nodes@);
        let ghost gens = self.generics();
        proof {
            lemma_nodes_view_index(nodes@);
            assert(nv.take(0) =~= Seq::<NodeView>::empty());
        }
        let mut i: usize = 0;
        while i < nodes.len()
            invariant
                i <= nodes@.len() == nv.len(),
                nv == nodes_view(nodes@),
                forall|j: int| 0 <= j < nv.len() ==> #[trigger] nv[j] == node_view(nodes@[j]),
                gens == old(self).generics(),
                self.generic_functions == old(self).generic_functions,
                self.insts() == found_in_all(nv.take(i as int), gens, old(self).insts()),
                keys_sorted(self.insts()),
            decreases nodes@.len() - i,
        {
            self.find_instantiations_in_node(&nodes[i]);
            proof {
                assert(nv.take(i + 1).drop_last() =~= nv.take(i as int));
                assert(nv.take(i + 1).last() == nv[i as int]);
            }
            i += 1;
        }
        assert(nv.take(i as int) =~= nv);
    }

    /// The specialized version of generic chant `def` for `inst` (see
    /// `specialize`).
    fn specialize_function(&self, def: &AstNode, inst: &TypeInstantiation) -> (r: AstNode)
        ensures
            node_view(r) == specialize(node_view(*def), key_view(*inst)),
    {
        match def {
            AstNode::ChantDef { type_params, lifetime_params, params, return_type, body, span, .. } => {
                let k = if type_params.len() < inst.type_args.len() {
                    type_params.len()
                } else {
                    inst.type_args.len()
                };
                let ghost want = reversed_pairs(names_view(type_params@), names_view(inst.type_args@));
                let mut subs: Vec<(String, String)> = Vec::new();
                let mut j: usize = 0;
                while j < k
                    invariant
                        j <= k,
                        k <= type_params@.len(),
                        k <= inst.type_args@.len(),
                        want.len() == k,
                        want == reversed_pairs(names_view(type_params@), names_view(inst.type_args@)),
                        subs@.len() == j,
                        forall|m: int| 0 <= m < j ==> #[trigger] subs_view(subs@)[m] == want[m],
                    decreases k - j,
                {
                    let ghost before = subs@;
                    subs.push((type_params[k - 1 - j].clone(), inst.type_args[k - 1 - j].clone()));
                    proof {
                        assert forall|m: int| 0 <= m < j + 1 implies #[trigger] subs_view(subs@)[m] == want[m] by {
                            if m < j {
                                assert(subs@[m] == before[m]);
                                assert(subs_view(before)[m] == want[m]);
                            }
                        }
                    }
                    j += 1;
                }
                let ghost sv = subs_view(subs@);
                assert(sv =~= want);
                let mut ps: Vec<Parameter> = Vec::new();
                let mut i: usize = 0;
                while i < params.len()
                    invariant
                        i <= params@.len(),
                        sv == subs_view(subs@),
                        ps@.len() == i,
                        forall|m: int| 0 <= m < i ==> #[trigger] param_view(ps@[m]) == specialize_param(
                            param_view(params@[m]),
                            sv,
                        ),
                    decreases params@.len() - i,
                {
                    let p = &params[i];
                    let typ = match &p.typ {
                        Some(t) => Some(substitute_type_annotation_helper(t, &subs)),
                        None => None,
                    };
                    ps.push(Parameter {
                        name: p.name.clone(),
                        typ,
                        is_variadic: p.is_variadic,
                        borrow_mode: p.borrow_mode,
                        lifetime: copy_lifetime(&p.lifetime),
                    });
                    i += 1;
                }
                assert(params_view(ps@) =~= params_view(params@).map_values(|p: ParamView| specialize_param(p, sv)));
                let ret = match return_type {
                    Some(t) => Some(substitute_type_annotation_helper(t, &subs)),
                    None => None,
                };
                let name = inst.specialized_name();
                assert(inst.type_args@.map_values(|p: String| p@) =~= names_view(inst.type_args@));
                assert(names_view(Seq::<String>::empty()) =~= Seq::<Seq<char>>::empty());
                AstNode::ChantDef {
                    name,
                    type_params: Vec::new(),
                    lifetime_params: copy_lifetimes(lifetime_params),
                    params: ps,
                    return_type: ret,
                    body: copy_nodes(body),
                    span: *span,
                }
            },
            _ => copy_node(def),
        }
    }
}

impl Monomorphizer {
    /// Whether an instantiation has been found.
    fn has_instantiation(&self, k: &TypeInstantiation) -> (r: bool)
        ensures
            r == self.insts().contains(key_view(*k)),
    {
        let mut i: usize = 0;
        while i < self.instantiations.len()
            invariant
                i <= self.instantiations@.len(),
                forall|j: int| 0 <= j < i ==> #[trigger] self.insts()[j] != key_view(*k),
            decreases self.instantiations@.len() - i,
        {
            if key_equal(&self.instantiations[i], k) {
                assert(self.insts()[i as int] == key_view(*k));
                return true;
            }
            i += 1;
        }
        false
    }

    /// Transform a node, replacing generic calls with calls to specialized
    /// versions (see `transform`).
    fn transform_node(&self, node: &AstNode) -> (r: AstNode)
        ensures
            node_view(r) == transform(node_view(*node), self.insts()),
        decreases node, 1nat,
    {
        match node {
            AstNode::Call { callee, type_args, args, span } => {
                proof {
                    lemma_types_view(type_args@);
                }
                if type_args.len() > 0 {
                    match &**callee {
                        AstNode::Ident { name, span: callee_span } => {
                            assert(node_view(**callee) == NodeView::Ident { name: name@, span: *callee_span });
                            let names = spell_types(type_args);
                            let inst = TypeInstantiation { function_name: name.clone(), type_args: names };
                            if self.has_instantiation(&inst) {
                                let sname = inst.specialized_name();
                                assert(inst.type_args@.map_values(|p: String| p@) =~= names_view(inst.type_args@));
                                let no_args: Vec<TypeAnnotation> = Vec::new();
                                assert(types_view(no_args@) =~= Seq::<TypeView>::empty());
                                let ghost key = (name@, view_names(types_view(type_args@)));
                                assert(sname@ == spec_specialized_name(key.0, key.1));
                                assert(self.insts().contains(key));
                                let new_args = self.transform_nodes(args);
                                let c = AstNode::Ident { name: sname, span: *span };
                                assert(node_view(c) == NodeView::Ident { name: spec_specialized_name(key.0, key.1), span: *span });
                                let res = AstNode::Call {
                                    callee: Box::new(c),
                                    type_args: no_args,
                                    args: new_args,
                                    span: *span,
                                };
                                assert(node_view(res) == NodeView::Call {
                                    callee: Box::new(NodeView::Ident { name: spec_specialized_name(key.0, key.1), span: *span }),
                                    type_args: Seq::<TypeView>::empty(),
                                    args: transform_all(nodes_view(args@), self.insts()),
                                    span: *span,
                                });
                                return res;
                            }
                        },
                        _ => {},
                    }
                }
                AstNode::Call {
                    callee: Box::new(self.transform_node(callee)),
                    type_args: copy_types(type_args),
                    args: self.transform_nodes(args),
                    span: *span,
                }
            },
            AstNode::BinaryOp { left, op, right, span } => AstNode::BinaryOp {
                left: Box::new(self.transform_node(left)),
                op: *op,
                right: Box::new(self.transform_node(right)),
                span: *span,
            },
            AstNode::UnaryOp { op, operand, span } => AstNode::UnaryOp {
                op: *op,
                operand: Box::new(self.transform_node(operand)),
                span: *span,
            },
            AstNode::BindStmt { name, typ, value, span } => AstNode::BindStmt {
                name: name.clone(),
                typ: copy_opt_type(typ),
                value: Box::new(self.transform_node(value)),
                span: *span,
            },
            AstNode::WeaveStmt { name, typ, value, span } => AstNode::WeaveStmt {
                name: name.clone(),
                typ: copy_opt_type(typ),
                value: Box::new(self.transform_node(value)),
                span: *span,
            },
            AstNode::SetStmt { target, value, span } => AstNode::SetStmt {
                target: Box::new(self.transform_node(target)),
                value: Box::new(self.transform_node(value)),
                span: *span,
            },
            AstNode::YieldStmt { value, span } => AstNode::YieldStmt {
                value: Box::new(self.transform_node(value)),
                span: *span,
            },
            AstNode::ExprStmt { expr, span } => AstNode::ExprStmt {
                expr: Box::new(self.transform_node(expr)),
                span: *span,
            },
            AstNode::List { elements, span } => AstNode::List { elements: self.transform_nodes(elements), span: *span },
            AstNode::Block { statements, span } => AstNode::Block {
                statements: self.transform_nodes(statements),
                span: *span,
            },
            AstNode::Try { expr, span } => AstNode::Try { expr: Box::new(self.transform_node(expr)), span: *span },
            _ => copy_node(node),
        }
    }

    /// Transform each node of a list (see `transform_all`).
    fn transform_nodes(&self, nodes: &Vec<AstNode>) -> (r: Vec<AstNode>)
        ensures
            nodes_view(r@) == transform_all(nodes_view(nodes@), self.insts()),
        decreases nodes, 0nat,
    {
        let ghost nv = nodes_view(nodes@);
        proof {
            lemma_nodes_view_index(nodes@);
        }
        let mut out: Vec<AstNode> = Vec::new();
        let mut i: usize = 0;
        while i < nodes.len()
            invariant
                i <= nodes@.len() == nv.len(),
                nv == nodes_view(nodes@),
                forall|j: int| 0 <= j < nv.len() ==> #[trigger] nv[j] == node_view(nodes@[j]),
                nodes_view(out@) == transform_all(nv.take(i as int), self.insts()),
            decreases nodes@.len() - i,
        {
            let t = self.transform_node(&nodes[i]);
            let ghost before = out@;
            out.push(t);
            proof {
                assert(out@.drop_last() =~= before);
                assert(nv.take(i + 1).drop_last() =~= nv.take(i as int));
                assert(nv.take(i + 1).last() == nv[i as int]);
            }
            i += 1;
        }
        assert(nv.take(i as int) =~= nv);
        out
    }

    /// Monomorphize an AST: the specialized functions of all instantiations
    /// found so far, each once and in their order, then the nodes that are
    /// not generic definitions, with calls of instantiations replaced by
    /// calls of the specialized functions. Generic definitions and
    /// instantiations found here are kept for later calls.
    pub fn monomorphize(&mut self, nodes: &[AstNode]) -> (r: Vec<AstNode>)
        requires
            keys_sorted(old(self).insts()),
        ensures
            keys_sorted(final(self).insts()),
            final(self).generics() == old(self).generics() + generic_defs(nodes_view(nodes@)),
            final(self).insts() == found_in_all(nodes_view(nodes@), final(self).generics(), old(self).insts()),
            nodes_view(r@) == specialized_all(final(self).insts(), final(self).generics()) + kept(
                nodes_view(nodes@),
                final(self).insts(),
            ),
    {
        let ghost nv = nodes_view(nodes@);
        proof {
            lemma_nodes_view_index(nodes@);
            assert(nv.take(0) =~= Seq::<NodeView>::empty());
            assert(old(self).generics() + generic_defs(Seq::<NodeView>::empty()) =~= old(self).generics());
        }
        // Collect the generic function definitions.
        let mut i: usize = 0;
        while i < nodes.len()
            invariant
                i <= nodes@.len() == nv.len(),
                nv == nodes_view(nodes@),
                forall|j: int| 0 <= j < nv.len() ==> #[trigger] nv[j] == node_view(nodes@[j]),
                self.generics() == old(self).generics() + generic_defs(nv.take(i as int)),
                self.instantiations == old(self).instantiations,
            decreases nodes@.len() - i,
        {
            let generic = match &nodes[i] {
                AstNode::ChantDef { type_params, .. } => type_params.len() > 0,
                _ => false,
            };
            proof {
                assert(nv.take(i + 1).drop_last() =~= nv.take(i as int));
                assert(nv.take(i + 1).last() == nv[i as int]);
            }
            if generic {
                let c = copy_node(&nodes[i]);
                let ghost before = self.generic_functions@;
                self.generic_functions.push(c);
                proof {
                    assert(self.generic_functions@.drop_last() =~= before);
                    assert(self.generics() =~= old(self).generics() + generic_defs(nv.take(i + 1)));
                }
            } else {
                assert(generic_defs(nv.take(i + 1)) == generic_defs(nv.take(i as int)));
            }
            i += 1;
        }
        assert(nv.take(i as int) =~= nv);
        // Find the instantiations.
        let ghost gens = self.generics();
        let ghost start = self.insts();
        let mut i: usize = 0;
        while i < nodes.len()
            invariant
                i <= nodes@.len() == nv.len(),
                nv == nodes_view(nodes@),
                forall|j: int| 0 <= j < nv.len() ==> #[trigger] nv[j] == node_view(nodes@[j]),
                gens == self.generics(),
                start == old(self).insts(),
                self.insts() == found_in_all(nv.take(i as int), gens, start),
                keys_sorted(self.insts()),
            decreases nodes@.len() - i,
        {
            self.find_instantiations_in_node(&nodes[i]);
            proof {
                assert(nv.take(i + 1).drop_last() =~= nv.take(i as int));
                assert(nv.take(i + 1).last() == nv[i as int]);
            }
            i += 1;
        }
        assert(nv.take(i as int) =~= nv);
        // Generate the specialized functions.
        let ghost keys = self.insts();
        let mut result: Vec<AstNode> = Vec::new();
        let mut j: usize = 0;
        assert(keys.take(0) =~= Seq::<InstKey>::empty());
        while j < self.instantiations.len()
            invariant
                j <= self.instantiations@.len() == keys.len(),
                keys == self.insts(),
                gens == self.generics(),
                nodes_view(result@) == specialized_all(keys.take(j as int), gens),
            decreases self.instantiations@.len() - j,
        {
            proof {
                assert(keys.take(j + 1).drop_last() =~= keys.take(j as int));
                assert(keys.take(j + 1).last() == keys[j as int]);
                lemma_nodes_view_index(self.generic_functions@);
            }
            match self.find_generic(&self.instantiations[j].function_name) {
                Some(g) => {
                    let f = self.specialize_function(&self.generic_functions[g], &self.instantiations[j]);
                    let ghost before = result@;
                    result.push(f);
                    assert(result@.drop_last() =~= before);
                },
                None => {},
            }
            j += 1;
        }
        assert(keys.take(j as int) =~= keys);
        // Add the transformed nodes that are not generic definitions.
        let ghost spec_fns = nodes_view(result@);
        let mut i: usize = 0;
        assert(spec_fns + kept(nv.take(0), keys) =~= spec_fns);
        while i < nodes.len()
            invariant
                i <= nodes@.len() == nv.len(),
                nv == nodes_view(nodes@),
                forall|j: int| 0 <= j < nv.len() ==> #[trigger] nv[j] == node_view(nodes@[j]),
                keys == self.insts(),
                nodes_view(result@) == spec_fns + kept(nv.take(i as int), keys),
            decreases nodes@.len() - i,
        {
            let generic = match &nodes[i] {
                AstNode::ChantDef { type_params, .. } => type_params.len() > 0,
                _ => false,
            };
            proof {
                assert(nv.take(i + 1).drop_last() =~= nv.take(i as int));
                assert(nv.take(i + 1).last() == nv[i as int]);
            }
            if !generic {
                let t = self.transform_node(&nodes[i]);
                let ghost before = result@;
                result.push(t);
                proof {
                    assert(result@.drop_last() =~= before);
                    assert(nodes_view(result@) =~= spec_fns + kept(nv.take(i + 1), keys));
                }
            }
            i += 1;
        }
        assert(nv.take(i as int) =~= nv);
        result
    }
}

} // verus!
