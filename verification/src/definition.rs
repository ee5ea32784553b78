//! Go to definition: from a `[var(name)]` reference to the first
//! `{{{#define}}}` that defines the name.

use vstd::prelude::*;

use crate::ast::Span;
use crate::diagnostics::{contains_name, visited_view, visited_views, texts_of, VisitedElement, VisitedSpec};

verus! {

/// The name of the first variable reference, in visiting order, whose span
/// contains `byte_offset`.
pub open spec fn variable_at(visited: Seq<VisitedSpec>, byte_offset: int) -> Option<Seq<char>>
    decreases visited.len(),
{
    if visited.len() == 0 {
        None
    } else {
        match variable_at(visited.drop_last(), byte_offset) {
            Some(name) => Some(name),
            None => match visited.last() {
                VisitedSpec::Variable { span, name } => if span.start <= byte_offset
                    && byte_offset < span.end {
                    Some(name)
                } else {
                    None
                },
                _ => None,
            },
        }
    }
}

/// The span of the first definition, in visiting order, that defines
/// `target`.
pub open spec fn define_location(visited: Seq<VisitedSpec>, target: Seq<char>) -> Option<Span>
    decreases visited.len(),
{
    if visited.len() == 0 {
        None
    } else {
        match define_location(visited.drop_last(), target) {
            Some(span) => Some(span),
            None => match visited.last() {
                VisitedSpec::Define { span, names } => if names.contains(target) {
                    Some(span)
                } else {
                    None
                },
                _ => None,
            },
        }
    }
}

/// The view of an optional string.
pub open spec fn opt_name(o: Option<String>) -> Option<Seq<char>> {
    match o {
        Some(s) => Some(s@),
        None => None,
    }
}

/// The name of the variable reference at `byte_offset`, if any.
pub fn find_variable_at(visited: &Vec<VisitedElement>, byte_offset: usize) -> (r: Option<String>)
    ensures
        opt_name(r) == variable_at(visited_views(visited@), byte_offset as int),
{
    let ghost vs = visited_views(visited@);
    let mut i: usize = 0;
    while i < visited.len()
        invariant
            i <= visited.len(),
            vs == visited_views(visited@),
            variable_at(vs.take(i as int), byte_offset as int) is None,
        decreases visited.len() - i,
    {
        assert(vs.take(i + 1).drop_last() =~= vs.take(i as int));
        assert(vs.take(i + 1).last() == visited_view(visited@[i as int]));
        if let VisitedElement::Variable { span, name } = &visited[i] {
            if span.start <= byte_offset && byte_offset < span.end {
                proof {
                    lemma_variable_at_extends(vs, i as int + 1, byte_offset as int);
                }
                return Some(name.clone());
            }
        }
        i = i + 1;
    }
    assert(vs.take(i as int) =~= vs);
    None
}

/// Once a prefix has a variable at the offset, every longer prefix has the
/// same one.
proof fn lemma_variable_at_extends(visited: Seq<VisitedSpec>, n: int, byte_offset: int)
    requires
        0 <= n <= visited.len(),
        variable_at(visited.take(n), byte_offset) is Some,
    ensures
        variable_at(visited, byte_offset) == variable_at(visited.take(n), byte_offset),
    decreases visited.len() - n,
{
    if n < visited.len() {
        assert(visited.take(n + 1).drop_last() =~= visited.take(n));
        lemma_variable_at_extends(visited, n + 1, byte_offset);
    } else {
        assert(visited.take(n) =~= visited);
    }
}

/// Once a prefix has a definition of the target, every longer prefix has the
/// same one.
proof fn lemma_define_location_extends(visited: Seq<VisitedSpec>, n: int, target: Seq<char>)
    requires
        0 <= n <= visited.len(),
        define_location(visited.take(n), target) is Some,
    ensures
        define_location(visited, target) == define_location(visited.take(n), target),
    decreases visited.len() - n,
{
    if n < visited.len() {
        assert(visited.take(n + 1).drop_last() =~= visited.take(n));
        lemma_define_location_extends(visited, n + 1, target);
    } else {
        assert(visited.take(n) =~= visited);
    }
}

/// The span of the first definition of `target`, if any.
pub fn find_define_location(visited: &Vec<VisitedElement>, target: &str) -> (r: Option<Span>)
    ensures
        r == define_location(visited_views(visited@), target@),
{
    let ghost vs = visited_views(visited@);
    let mut i: usize = 0;
    while i < visited.len()
        invariant
            i <= visited.len(),
            vs == visited_views(visited@),
            define_location(vs.take(i as int), target@) is None,
        decreases visited.len() - i,
    {
        assert(vs.take(i + 1).drop_last() =~= vs.take(i as int));
        assert(vs.take(i + 1).last() == visited_view(visited@[i as int]));
        if let VisitedElement::Define { span, names } = &visited[i] {
            if contains_name(names, target) {
                assert(texts_of(names@) == names@.map_values(|n: String| n@));
                proof {
                    lemma_define_location_extends(vs, i as int + 1, target@);
                }
                return Some(*span);
            }
        }
        i = i + 1;
    }
    assert(vs.take(i as int) =~= vs);
    None
}

/// The definition site of the variable reference at `byte_offset`: the span
/// of the first definition of its name.
pub fn find_definition(visited: &Vec<VisitedElement>, byte_offset: usize) -> (r: Option<Span>)
    ensures
        r == match variable_at(visited_views(visited@), byte_offset as int) {
            Some(name) => define_location(visited_views(visited@), name),
            None => None,
        },
{
    match find_variable_at(visited, byte_offset) {
        Some(name) => find_define_location(visited, name.as_str()),
        None => None,
    }
}

} // verus!
