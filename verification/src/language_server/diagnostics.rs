//! Diagnostics and go-to-definition of the native language server, where a
//! `{{{#define}}}` defines the variable named by the text of its `#name`
//! parameter.

use vstd::prelude::*;

use crate::ast::{Element, Parameter, Span};
use crate::completion::DocumentState;
use crate::definition::{define_location, find_definition as find_visited_definition, variable_at};
use crate::diagnostics::{
    collect_diagnostics as collect_visited_diagnostics, diagnostic_view, document_diagnostics,
    texts_of, truncated, visited_of, visited_of_spec, visited_views, DiagnosticInfo,
    VisitedElement, VisitedSpec,
};
use crate::fmt::{chars_to_string, push_str};
use crate::text::str_eq;
use crate::walk::{derefs, pre_elements, preorder};

verus! {

/// Shortens a text for a diagnostic message, with line feeds escaped.
pub fn truncate(s: &str, max_len: usize) -> (r: String)
    ensures
        r@ == truncated(s@, max_len as nat),
{
    crate::diagnostics::truncate(s, max_len)
}

/// The text of the text elements of a parameter value, in order.
pub open spec fn text_content(es: Seq<Element>) -> Seq<char>
    decreases es.len(),
{
    if es.len() == 0 {
        seq![]
    } else {
        text_content(es.drop_last()) + match es.last() {
            Element::Text(t) => t.value@,
            _ => seq![],
        }
    }
}

/// The last parameter named `key`, if any.
pub open spec fn named_param(ps: Seq<Parameter>, key: Seq<char>) -> Option<Parameter>
    decreases ps.len(),
{
    if ps.len() == 0 {
        None
    } else if ps.last().name@ == key {
        Some(ps.last())
    } else {
        named_param(ps.drop_last(), key)
    }
}

/// The variable a definition with parameters `ps` defines: the text of its
/// `#name` parameter, when it has one and it is not empty.
pub open spec fn defined_by(ps: Seq<Parameter>) -> Seq<Seq<char>> {
    match named_param(ps, "name"@) {
        Some(p) => if text_content(p.value@).len() > 0 {
            seq![text_content(p.value@)]
        } else {
            seq![]
        },
        None => seq![],
    }
}

/// What the native server records of an element: as the editor tools do,
/// except that a definition defines the name its `#name` parameter gives.
pub open spec fn native_visited_of(e: Element) -> VisitedSpec {
    match e {
        Element::Define(l) => VisitedSpec::Define { span: l.span, names: defined_by(l.parameters@) },
        _ => visited_of_spec(e),
    }
}

/// What the native server reads of the elements, in pre-order.
pub open spec fn native_visited(es: Seq<Element>) -> Seq<VisitedSpec> {
    pre_elements(es, true).map_values(|e: Element| native_visited_of(e))
}

/// The text of the text elements of a parameter value.
fn text_content_of(es: &Vec<Element>) -> (r: Vec<char>)
    ensures
        r@ == text_content(es@),
{
    let mut out: Vec<char> = Vec::new();
    let mut i: usize = 0;
    while i < es.len()
        invariant
            i <= es.len(),
            out@ == text_content(es@.take(i as int)),
        decreases es.len() - i,
    {
        assert(es@.take(i + 1).drop_last() =~= es@.take(i as int));
        if let Element::Text(t) = &es[i] {
            push_str(&mut out, t.value.as_str());
        }
        assert(out@ =~= text_content(es@.take(i + 1)));
        i = i + 1;
    }
    assert(es@.take(i as int) =~= es@);
    out
}

/// The names a definition with parameters `ps` defines.
fn defined_by_of(ps: &Vec<Parameter>) -> (r: Vec<String>)
    ensures
        texts_of(r@) == defined_by(ps@),
{
    let mut k: usize = ps.len();
    assert(ps@.take(k as int) =~= ps@);
    while k > 0
        invariant
            k <= ps.len(),
            named_param(ps@, "name"@) == named_param(ps@.take(k as int), "name"@),
        decreases k,
    {
        assert(ps@.take(k as int).drop_last() =~= ps@.take(k - 1));
        if str_eq(ps[k - 1].name.as_str(), "name") {
            let text = text_content_of(&ps[k - 1].value);
            let mut r: Vec<String> = Vec::new();
            if text.len() > 0 {
                r.push(chars_to_string(&text));
            }
            assert(texts_of(r@) =~= defined_by(ps@));
            return r;
        }
        k = k - 1;
    }
    let r: Vec<String> = Vec::new();
    assert(texts_of(r@) =~= defined_by(ps@));
    r
}

/// Records an element as the native server reads it.
fn native_visited_element(e: &Element) -> (r: VisitedElement)
    ensures
        crate::diagnostics::visited_view(r) == native_visited_of(*e),
{
    match e {
        Element::Define(l) => VisitedElement::Define { span: l.span, names: defined_by_of(&l.parameters) },
        _ => visited_of(e),
    }
}

/// Records every element of a document, in pre-order, as the native server
/// reads it.
pub fn native_visit_elements(elements: &Vec<Element>) -> (r: Vec<VisitedElement>)
    ensures
        visited_views(r@) == native_visited(elements@),
{
    let nodes = preorder(elements, true);
    let ghost pre = derefs(nodes@);
    let mut out: Vec<VisitedElement> = Vec::new();
    let mut i: usize = 0;
    while i < nodes.len()
        invariant
            i <= nodes.len(),
            pre == derefs(nodes@),
            pre == pre_elements(elements@, true),
            visited_views(out@) == pre.take(i as int).map_values(|e: Element| native_visited_of(e)),
        decreases nodes.len() - i,
    {
        let v = native_visited_element(nodes[i]);
        let ghost before = out@;
        out.push(v);
        assert(pre[i as int] == *nodes@[i as int]);
        assert(visited_views(out@) =~= pre.take(i as int + 1).map_values(
            |e: Element| native_visited_of(e),
        )) by {
            assert(visited_views(before.push(v)) =~= visited_views(before).push(
                crate::diagnostics::visited_view(v),
            ));
            assert(pre.take(i as int + 1).map_values(|e: Element| native_visited_of(e)) =~= pre.take(
                i as int,
            ).map_values(|e: Element| native_visited_of(e)).push(native_visited_of(pre[i as int])));
        }
        i = i + 1;
    }
    assert(pre.take(nodes.len() as int) =~= pre);
    out
}

/// The diagnostics of a document for the native server: every parse error,
/// then every reference to a variable that no `#name` of a definition
/// names, in pre-order.
pub fn collect_diagnostics(state: &DocumentState) -> (r: Vec<DiagnosticInfo>)
    ensures
        r@.map_values(|d: DiagnosticInfo| diagnostic_view(d)) == document_diagnostics(
            native_visited(state.elements@),
        ),
        forall|i: int| 0 <= i < r@.len() ==> (#[trigger] r@[i]).source@ == "sevenmark"@,
{
    let visited = native_visit_elements(&state.elements);
    collect_visited_diagnostics(&visited)
}

/// The definition site of the variable reference at `byte_offset`: the span
/// of the first definition whose `#name` is the name of the first
/// reference there.
pub fn find_definition(state: &DocumentState, byte_offset: usize) -> (r: Option<Span>)
    ensures
        r == match variable_at(native_visited(state.elements@), byte_offset as int) {
            Some(name) => define_location(native_visited(state.elements@), name),
            None => None,
        },
{
    let visited = native_visit_elements(&state.elements);
    find_visited_definition(&visited, byte_offset)
}

} // verus!
