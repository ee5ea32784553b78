//! The editor tools over a document's elements: the elements visited in
//! pre-order, and what diagnostics, hover, go-to-definition, folding and
//! the symbol outline read of them.

use vstd::prelude::*;
use vstd::utf8::encode_utf8;

use crate::ast::{element_span, Element, Span};
use crate::definition::{define_location, find_definition, variable_at};
use crate::diagnostics::{
    collect_diagnostics, defined_names, defined_names_of, diagnostic_view, document_diagnostics, parameter_names, visited_of,
    visited_of_spec, visited_views, DiagnosticInfo, VisitedElement, VisitedSpec,
};
use crate::fmt::{chars_to_string, decimal, push_decimal, push_str};
use crate::folding::{element_fold_kind, fold_kind, FoldCandidate};
use crate::hover::{candidates_view, hover_content, hover_target_of, hover_text, target_of};
use crate::positions::{offset_position, offset_to_position};
use crate::symbols::{header_name, symbol_view, SymbolInfo, SymbolKind, TextRange};
use crate::completion::DocumentState;
use crate::hover::{best_hover, get_hover, choice_view};
use crate::folding::{collect_folding_ranges, folding_ranges_of};
use crate::replies::{
    array_text, diagnostic_reply, diagnostic_text, folding_reply, folding_text, hover_reply,
    hover_reply_text, json_array, location_reply, location_text, symbol_reply, symbol_text,
};
use crate::diagnostics::{texts_of, Severity};
use crate::walk::{derefs, pre_elements, preorder};
use crate::language_server::semantic_tokens::{
    collect_semantic_tokens, elements_tokens, encode_at, encode_tokens, in_position_order,
    sorted_by_start, starting_at, tokens_in_position_order, LocatedToken, SemanticToken,
};
use crate::rpc::{position_index, position_to_byte_offset};

verus! {

/// What diagnostics and go-to-definition read of the elements, in
/// pre-order (definitions entered).
pub open spec fn dfs_visited(es: Seq<Element>) -> Seq<VisitedSpec> {
    pre_elements(es, true).map_values(|e: Element| visited_of_spec(e))
}

/// Records every element of a document, in pre-order, for diagnostics and
/// go-to-definition.
pub fn visit_elements(elements: &Vec<Element>) -> (r: Vec<VisitedElement>)
    ensures
        visited_views(r@) == dfs_visited(elements@),
{
    let nodes = preorder(elements, true);
    let ghost pre = derefs(nodes@);
    let mut out: Vec<VisitedElement> = Vec::new();
    let mut i: usize = 0;
    while i < nodes.len()
        invariant
            i <= nodes.len(),
            pre == derefs(nodes@),
            pre == pre_elements(elements@, true),
            visited_views(out@) == pre.take(i as int).map_values(|e: Element| visited_of_spec(e)),
        decreases nodes.len() - i,
    {
        let v = visited_of(nodes[i]);
        let ghost before = out@;
        out.push(v);
        assert(pre[i as int] == *nodes@[i as int]);
        assert(visited_views(before.push(v)) =~= visited_views(before).push(
            crate::diagnostics::visited_view(v),
        ));
        assert(pre.take(i as int + 1).map_values(|e: Element| visited_of_spec(e)) =~= pre.take(
            i as int,
        ).map_values(|e: Element| visited_of_spec(e)).push(visited_of_spec(pre[i as int])));
        assert(visited_views(out@) =~= pre.take(i as int + 1).map_values(
            |e: Element| visited_of_spec(e),
        )) by {
            assert(out@ == before.push(v));
            assert(visited_views(before) == pre.take(i as int).map_values(
                |e: Element| visited_of_spec(e),
            ));
        }
        i = i + 1;
    }
    assert(pre.take(nodes.len() as int) =~= pre);
    out
}

/// The names the `{{{#define}}}` blocks of a document define: each
/// definition's parameter names, definitions in pre-order.
pub open spec fn define_keys(es: Seq<Element>) -> Seq<Seq<char>> {
    defined_names(dfs_visited(es))
}

/// Collects the names the definitions of a document define.
pub fn define_keys_of(elements: &Vec<Element>) -> (r: Vec<String>)
    ensures
        r@.map_values(|n: String| n@) == define_keys(elements@),
{
    let visited = visit_elements(elements);
    defined_names_of(&visited)
}

/// The diagnostics of a document: its parse errors, then its references to
/// undefined variables, in pre-order.
pub fn document_diagnostics_of(elements: &Vec<Element>) -> (r: Vec<DiagnosticInfo>)
    ensures
        r@.map_values(|d: DiagnosticInfo| diagnostic_view(d)) == document_diagnostics(
            dfs_visited(elements@),
        ),
        forall|i: int| 0 <= i < r@.len() ==> (#[trigger] r@[i]).source@ == "sevenmark"@,
{
    let visited = visit_elements(elements);
    collect_diagnostics(&visited)
}

/// The definition site of the variable reference at `byte_offset`: the
/// span of the first definition of the name of the first reference there.
pub fn definition_of(elements: &Vec<Element>, byte_offset: usize) -> (r: Option<Span>)
    ensures
        r == match variable_at(dfs_visited(elements@), byte_offset as int) {
            Some(name) => define_location(dfs_visited(elements@), name),
            None => None,
        },
{
    let visited = visit_elements(elements);
    find_definition(&visited, byte_offset)
}

/// What hover reads of an element: its span and hover text (code blocks
/// without their language, which the caller reads).
pub open spec fn hover_entry(e: Element) -> (Span, Option<Seq<char>>) {
    (element_span(e), hover_text(target_of(e, None)))
}

/// The hover candidates of a document: every element in pre-order, with
/// its span and hover text.
pub fn hover_candidates(elements: &Vec<Element>) -> (r: Vec<(Span, Option<String>)>)
    ensures
        candidates_view(r@) == pre_elements(elements@, true).map_values(|e: Element| hover_entry(e)),
{
    let nodes = preorder(elements, true);
    let ghost pre = derefs(nodes@);
    let mut out: Vec<(Span, Option<String>)> = Vec::new();
    let mut i: usize = 0;
    while i < nodes.len()
        invariant
            i <= nodes.len(),
            pre == derefs(nodes@),
            pre == pre_elements(elements@, true),
            candidates_view(out@) == pre.take(i as int).map_values(|e: Element| hover_entry(e)),
        decreases nodes.len() - i,
    {
        let e = nodes[i];
        let text = hover_content(&hover_target_of(e, None));
        let ghost before = out@;
        let span = e.span();
        out.push((span, text));
        assert(pre[i as int] == *nodes@[i as int]);
        assert(candidates_view(before.push((span, text))) =~= candidates_view(before).push(
            (span, crate::hover::opt_text(text)),
        ));
        assert(pre.take(i as int + 1).map_values(|e: Element| hover_entry(e)) =~= pre.take(
            i as int,
        ).map_values(|e: Element| hover_entry(e)).push(hover_entry(pre[i as int])));
        assert(candidates_view(out@) =~= pre.take(i as int + 1).map_values(
            |e: Element| hover_entry(e),
        )) by {
            assert(out@ == before.push((span, text)));
            assert(candidates_view(before) == pre.take(i as int).map_values(
                |e: Element| hover_entry(e),
            ));
        }
        i = i + 1;
    }
    assert(pre.take(nodes.len() as int) =~= pre);
    out
}

/// The folding candidates among elements: those that fold, with the lines
/// their spans start and end on.
pub open spec fn fold_candidates_of(s: Seq<char>, es: Seq<Element>) -> Seq<FoldCandidate>
    decreases es.len(),
{
    if es.len() == 0 {
        seq![]
    } else {
        let e = es.last();
        fold_candidates_of(s, es.drop_last()) + match element_fold_kind(e) {
            Some(kind) => seq![
                FoldCandidate {
                    kind,
                    start_line: offset_position(s, element_span(e).start as int).0,
                    end_line: offset_position(s, element_span(e).end as int).0,
                },
            ],
            None => seq![],
        }
    }
}

/// The elements of a document that fold, in pre-order, with their lines in
/// the text whose characters are `chars`.
pub fn fold_candidates(elements: &Vec<Element>, chars: &Vec<char>) -> (r: Vec<FoldCandidate>)
    ensures
        r@ == fold_candidates_of(chars@, pre_elements(elements@, true)),
{
    let nodes = preorder(elements, true);
    let ghost pre = derefs(nodes@);
    let mut out: Vec<FoldCandidate> = Vec::new();
    let mut i: usize = 0;
    while i < nodes.len()
        invariant
            i <= nodes.len(),
            pre == derefs(nodes@),
            pre == pre_elements(elements@, true),
            out@ == fold_candidates_of(chars@, pre.take(i as int)),
        decreases nodes.len() - i,
    {
        let e = nodes[i];
        assert(pre[i as int] == *e);
        assert(pre.take(i as int + 1).drop_last() =~= pre.take(i as int));
        assert(pre.take(i as int + 1).last() == *e);
        match fold_kind(e) {
            Some(kind) => {
                let span = e.span();
                let start = offset_to_position(chars, span.start);
                let end = offset_to_position(chars, span.end);
                out.push(FoldCandidate { kind, start_line: start.0, end_line: end.0 });
            },
            None => {},
        }
        assert(out@ =~= fold_candidates_of(chars@, pre.take(i as int + 1)));
        i = i + 1;
    }
    assert(pre.take(nodes.len() as int) =~= pre);
    out
}

/// The range of a span in the text `s`.
pub open spec fn span_range(s: Seq<char>, span: Span) -> TextRange {
    TextRange {
        start_line: offset_position(s, span.start as int).0,
        start_character: offset_position(s, span.start as int).1,
        end_line: offset_position(s, span.end as int).0,
        end_character: offset_position(s, span.end as int).1,
    }
}

/// The range of a span in the text whose characters are `chars`.
pub fn range_of(chars: &Vec<char>, span: Span) -> (r: TextRange)
    ensures
        r == span_range(chars@, span),
{
    let start = offset_to_position(chars, span.start);
    let end = offset_to_position(chars, span.end);
    TextRange { start_line: start.0, start_character: start.1, end_line: end.0, end_character: end.1 }
}

/// The plain text of elements: the text of their text elements, in
/// pre-order.
pub open spec fn plain_text(es: Seq<Element>) -> Seq<char>
    decreases es.len(),
{
    if es.len() == 0 {
        seq![]
    } else {
        plain_text(es.drop_last()) + match es.last() {
            Element::Text(t) => t.value@,
            _ => seq![],
        }
    }
}

/// The plain text of a list of elements: the text
/// of their text elements, in pre-order.
pub fn plain_text_of(elements: &Vec<Element>) -> (r: String)
    ensures
        r@ == plain_text(pre_elements(elements@, true)),
{
    let nodes = preorder(elements, true);
    let ghost pre = derefs(nodes@);
    let mut out: Vec<char> = Vec::new();
    let mut i: usize = 0;
    while i < nodes.len()
        invariant
            i <= nodes.len(),
            pre == derefs(nodes@),
            pre == pre_elements(elements@, true),
            out@ == plain_text(pre.take(i as int)),
        decreases nodes.len() - i,
    {
        let e = nodes[i];
        assert(pre[i as int] == *e);
        assert(pre.take(i as int + 1).drop_last() =~= pre.take(i as int));
        assert(pre.take(i as int + 1).last() == *e);
        match e {
            Element::Text(t) => push_str(&mut out, t.value.as_str()),
            _ => {},
        }
        assert(out@ =~= plain_text(pre.take(i as int + 1)));
        i = i + 1;
    }
    assert(pre.take(nodes.len() as int) =~= pre);
    chars_to_string(&out)
}

/// The symbols of elements (visited in pre-order, without entering
/// definitions): a header gives one named by its plain text (or its level
/// when that is empty) and detailed by its level; a definition gives one
/// per parameter name; each with the range of the element's span.
pub open spec fn element_symbols(text: Seq<char>, es: Seq<Element>) -> Seq<
    (Seq<char>, Seq<char>, SymbolKind, TextRange),
>
    decreases es.len(),
{
    if es.len() == 0 {
        seq![]
    } else {
        element_symbols(text, es.drop_last()) + match es.last() {
            Element::Header(h) => seq![
                (
                    header_name(plain_text(pre_elements(h.children@, true)), h.level as nat),
                    "Level "@ + decimal(h.level as nat),
                    SymbolKind::Text,
                    span_range(text, h.span),
                ),
            ],
            Element::Define(l) => parameter_names(l.parameters@).map_values(
                |n: Seq<char>| (n, "Define"@, SymbolKind::Variable, span_range(text, l.span)),
            ),
            _ => seq![],
        }
    }
}

/// The symbol outline of a document: its headers and definitions.
pub fn document_symbols_of(text: &str, elements: &Vec<Element>) -> (r: Vec<SymbolInfo>)
    ensures
        r@.map_values(|s: SymbolInfo| symbol_view(s)) == element_symbols(
            text@,
            pre_elements(elements@, false),
        ),
{
    let chars = crate::text::to_chars(text);
    let nodes = preorder(elements, false);
    let ghost pre = derefs(nodes@);
    let mut out: Vec<SymbolInfo> = Vec::new();
    let mut i: usize = 0;
    while i < nodes.len()
        invariant
            i <= nodes.len(),
            chars@ == text@,
            pre == derefs(nodes@),
            pre == pre_elements(elements@, false),
            out@.map_values(|s: SymbolInfo| symbol_view(s)) == element_symbols(
                text@,
                pre.take(i as int),
            ),
        decreases nodes.len() - i,
    {
        let e = nodes[i];
        assert(pre[i as int] == *e);
        assert(pre.take(i as int + 1).drop_last() =~= pre.take(i as int));
        assert(pre.take(i as int + 1).last() == *e);
        let ghost before = out@.map_values(|s: SymbolInfo| symbol_view(s));
        match e {
            Element::Header(h) => {
                let plain = plain_text_of(&h.children);
                let name = if plain.as_str().is_empty() {
                    let mut n: Vec<char> = Vec::new();
                    push_str(&mut n, "Header (level ");
                    push_decimal(&mut n, h.level);
                    push_str(&mut n, ")");
                    chars_to_string(&n)
                } else {
                    plain
                };
                let mut detail: Vec<char> = Vec::new();
                push_str(&mut detail, "Level ");
                push_decimal(&mut detail, h.level);
                let range = range_of(&chars, h.span);
                out.push(
                    SymbolInfo {
                        name,
                        detail: chars_to_string(&detail),
                        kind: SymbolKind::Text,
                        range,
                    },
                );
                assert(out@.map_values(|s: SymbolInfo| symbol_view(s)) =~= element_symbols(
                    text@,
                    pre.take(i as int + 1),
                ));
            },
            Element::Define(l) => {
                let range = range_of(&chars, l.span);
                let ghost names = parameter_names(l.parameters@);
                let mut k: usize = 0;
                while k < l.parameters.len()
                    invariant
                        k <= l.parameters.len(),
                        names == parameter_names(l.parameters@),
                        range == span_range(text@, l.span),
                        out@.map_values(|s: SymbolInfo| symbol_view(s)) == before + names.take(
                            k as int,
                        ).map_values(
                            |n: Seq<char>| (n, "Define"@, SymbolKind::Variable, range),
                        ),
                    decreases l.parameters.len() - k,
                {
                    let ghost prev = out@.map_values(|s: SymbolInfo| symbol_view(s));
                    out.push(
                        SymbolInfo {
                            name: l.parameters[k].name.clone(),
                            detail: String::from_str("Define"),
                            kind: SymbolKind::Variable,
                            range,
                        },
                    );
                    assert(names[k as int] == l.parameters@[k as int].name@);
                    assert(out@.map_values(|s: SymbolInfo| symbol_view(s)) =~= before
                        + names.take(k as int + 1).map_values(
                        |n: Seq<char>| (n, "Define"@, SymbolKind::Variable, range),
                    )) by {
                        assert(names.take(k as int + 1) =~= names.take(k as int).push(
                            names[k as int],
                        ));
                        assert(out@.map_values(|s: SymbolInfo| symbol_view(s)) =~= prev.push(
                            (names[k as int], "Define"@, SymbolKind::Variable, range),
                        ));
                    }
                    k = k + 1;
                }
                assert(names.take(l.parameters.len() as int) =~= names);
                assert(out@.map_values(|s: SymbolInfo| symbol_view(s)) =~= element_symbols(
                    text@,
                    pre.take(i as int + 1),
                ));
            },
            _ => {
                assert(out@.map_values(|s: SymbolInfo| symbol_view(s)) =~= element_symbols(
                    text@,
                    pre.take(i as int + 1),
                ));
            },
        }
        i = i + 1;
    }
    assert(pre.take(nodes.len() as int) =~= pre);
    out
}

/// The answer to a hover request at byte `offset` of a document: the hover
/// of the most specific element there with its range, or null.
pub open spec fn hover_answer_text(doc: DocumentState, offset: int) -> Seq<char> {
    match best_hover(pre_elements(doc.elements@, true).map_values(|e: Element| hover_entry(e)), offset) {
        Some((value, span)) => hover_reply_text(value, span_range(doc.text@, span)),
        None => "null"@,
    }
}

/// Answers a hover request at byte `offset` of a document.
pub fn hover_answer(doc: &DocumentState, offset: usize) -> (r: String)
    ensures
        r@ == hover_answer_text(*doc, offset as int),
{
    let cands = hover_candidates(&doc.elements);
    match get_hover(&cands, offset) {
        Some((value, span)) => {
            let chars = crate::text::to_chars(doc.text.as_str());
            let range = range_of(&chars, span);
            hover_reply(value.as_str(), range)
        },
        None => String::from_str("null"),
    }
}

/// The answer to a go-to-definition request at byte `offset` of the
/// document `uri`: the location of the definition, or null.
pub open spec fn definition_answer_text(uri: Seq<char>, doc: DocumentState, offset: int) -> Seq<char> {
    let visited = dfs_visited(doc.elements@);
    match variable_at(visited, offset) {
        Some(name) => match define_location(visited, name) {
            Some(span) => location_text(uri, span_range(doc.text@, span)),
            None => "null"@,
        },
        None => "null"@,
    }
}

/// Answers a go-to-definition request at byte `offset` of the document
/// `uri`.
pub fn definition_answer(uri: &str, doc: &DocumentState, offset: usize) -> (r: String)
    ensures
        r@ == definition_answer_text(uri@, *doc, offset as int),
{
    match definition_of(&doc.elements, offset) {
        Some(span) => {
            let chars = crate::text::to_chars(doc.text.as_str());
            let range = range_of(&chars, span);
            location_reply(uri, range)
        },
        None => String::from_str("null"),
    }
}

/// The answer to a folding-range request: the folding ranges, or null when
/// there are none.
pub open spec fn folding_answer_text(doc: DocumentState) -> Seq<char> {
    let ranges = folding_ranges_of(fold_candidates_of(doc.text@, pre_elements(doc.elements@, true)));
    if ranges.len() == 0 {
        "null"@
    } else {
        array_text(ranges.map_values(|c: FoldCandidate| folding_text(c)))
    }
}

/// Answers a folding-range request.
pub fn folding_answer(doc: &DocumentState) -> (r: String)
    ensures
        r@ == folding_answer_text(*doc),
{
    let chars = crate::text::to_chars(doc.text.as_str());
    let cands = fold_candidates(&doc.elements, &chars);
    let ranges = collect_folding_ranges(&cands);
    if ranges.len() == 0 {
        return String::from_str("null");
    }
    let mut parts: Vec<String> = Vec::new();
    let mut i: usize = 0;
    while i < ranges.len()
        invariant
            i <= ranges.len(),
            texts_of(parts@) == ranges@.take(i as int).map_values(|c: FoldCandidate| folding_text(c)),
        decreases ranges.len() - i,
    {
        let t = folding_reply(ranges[i]);
        let ghost before = parts@;
        parts.push(t);
        assert(texts_of(parts@) =~= ranges@.take(i as int + 1).map_values(
            |c: FoldCandidate| folding_text(c),
        )) by {
            assert(texts_of(parts@) =~= texts_of(before).push(t@));
            assert(ranges@.take(i as int + 1).map_values(|c: FoldCandidate| folding_text(c))
                =~= ranges@.take(i as int).map_values(|c: FoldCandidate| folding_text(c)).push(
                folding_text(ranges@[i as int]),
            ));
        }
        i = i + 1;
    }
    assert(ranges@.take(ranges.len() as int) =~= ranges@);
    json_array(&parts)
}

/// The answer to a document-symbol request: the symbols, or null when
/// there are none.
pub open spec fn symbols_answer_text(doc: DocumentState) -> Seq<char> {
    let syms = element_symbols(doc.text@, pre_elements(doc.elements@, false));
    if syms.len() == 0 {
        "null"@
    } else {
        array_text(syms.map_values(|x: (Seq<char>, Seq<char>, SymbolKind, TextRange)| symbol_text(x)))
    }
}

/// Answers a document-symbol request.
pub fn symbols_answer(doc: &DocumentState) -> (r: String)
    ensures
        r@ == symbols_answer_text(*doc),
{
    let syms = document_symbols_of(doc.text.as_str(), &doc.elements);
    let ghost views = syms@.map_values(|s: SymbolInfo| symbol_view(s));
    if syms.len() == 0 {
        return String::from_str("null");
    }
    let mut parts: Vec<String> = Vec::new();
    let mut i: usize = 0;
    while i < syms.len()
        invariant
            i <= syms.len(),
            views == syms@.map_values(|s: SymbolInfo| symbol_view(s)),
            texts_of(parts@) == views.take(i as int).map_values(
                |x: (Seq<char>, Seq<char>, SymbolKind, TextRange)| symbol_text(x),
            ),
        decreases syms.len() - i,
    {
        let t = symbol_reply(&syms[i]);
        let ghost before = parts@;
        parts.push(t);
        assert(texts_of(parts@) =~= views.take(i as int + 1).map_values(
            |x: (Seq<char>, Seq<char>, SymbolKind, TextRange)| symbol_text(x),
        )) by {
            assert(texts_of(parts@) =~= texts_of(before).push(t@));
            assert(views[i as int] == symbol_view(syms@[i as int]));
            assert(views.take(i as int + 1).map_values(
                |x: (Seq<char>, Seq<char>, SymbolKind, TextRange)| symbol_text(x),
            ) =~= views.take(i as int).map_values(
                |x: (Seq<char>, Seq<char>, SymbolKind, TextRange)| symbol_text(x),
            ).push(symbol_text(views[i as int])));
        }
        i = i + 1;
    }
    assert(views.take(syms.len() as int) =~= views);
    json_array(&parts)
}

/// A diagnostic of the document `text` with the range of its span and the
/// source `sevenmark`.
pub open spec fn diagnostic_entry(text: Seq<char>, d: (Span, Severity, Seq<char>)) -> Seq<char> {
    diagnostic_text(d.2, span_range(text, d.0), d.1, "sevenmark"@)
}

/// The diagnostics of a document (its text and elements) as a JSON array.
pub open spec fn diagnostics_array_text(text: Seq<char>, elements: Seq<Element>) -> Seq<char> {
    array_text(
        document_diagnostics(dfs_visited(elements)).map_values(
            |d: (Span, Severity, Seq<char>)| diagnostic_entry(text, d),
        ),
    )
}

/// Writes the diagnostics of a document as a JSON array.
pub fn diagnostics_array(doc: &DocumentState) -> (r: String)
    ensures
        r@ == diagnostics_array_text(doc.text@, doc.elements@),
{
    let chars = crate::text::to_chars(doc.text.as_str());
    let diags = document_diagnostics_of(&doc.elements);
    let ghost views = diags@.map_values(|d: DiagnosticInfo| diagnostic_view(d));
    let mut parts: Vec<String> = Vec::new();
    let mut i: usize = 0;
    while i < diags.len()
        invariant
            i <= diags.len(),
            chars@ == doc.text@,
            views == diags@.map_values(|d: DiagnosticInfo| diagnostic_view(d)),
            forall|k: int| 0 <= k < diags@.len() ==> (#[trigger] diags@[k]).source@ == "sevenmark"@,
            texts_of(parts@) == views.take(i as int).map_values(|d: (Span, Severity, Seq<char>)| diagnostic_entry(doc.text@, d)),
        decreases diags.len() - i,
    {
        let d = &diags[i];
        let range = range_of(&chars, d.span);
        let t = diagnostic_reply(d, range);
        let ghost before = parts@;
        parts.push(t);
        assert(texts_of(parts@) =~= views.take(i as int + 1).map_values(|d: (Span, Severity, Seq<char>)| diagnostic_entry(doc.text@, d))) by {
            assert(texts_of(parts@) =~= texts_of(before).push(t@));
            assert(views[i as int] == diagnostic_view(diags@[i as int]));
            assert(diags@[i as int].source@ == "sevenmark"@);
            assert(range == span_range(doc.text@, d.span));
            assert(t@ == diagnostic_entry(doc.text@, views[i as int]));
            assert(views.take(i as int + 1).map_values(|d: (Span, Severity, Seq<char>)| diagnostic_entry(doc.text@, d)) =~= views.take(i as int).map_values(|d: (Span, Severity, Seq<char>)| diagnostic_entry(doc.text@, d)).push(
                diagnostic_entry(doc.text@, views[i as int]),
            ));
        }
        i = i + 1;
    }
    assert(views.take(diags.len() as int) =~= views);
    json_array(&parts)
}

/// The byte at which line `line` of `text` starts (the end of the text when
/// it has fewer lines).
pub open spec fn line_start_byte(text: Seq<char>, line: nat) -> int {
    encode_utf8(text.take(position_index(text, 0, line, 0, 0))).len() as usize as int
}

/// The byte at which the content of line `line` ends: the start of the next
/// line, less its `\n` and a `\r` before it.
pub open spec fn content_end(text: Seq<char>, line: u32) -> int {
    let next = line_start_byte(text, if line < u32::MAX { (line + 1) as nat } else { line as nat });
    let b = encode_utf8(text);
    let e1 = if 0 < next <= b.len() && b[next - 1] == 10u8 { next - 1 } else { next };
    if 0 < e1 <= b.len() && b[e1 - 1] == 13u8 { e1 - 1 } else { e1 }
}

/// A token of bytes `t.0..t.1` located in `text`: its start and end
/// positions, and for a token over several lines where the content of its
/// first line ends (not past the token's end).
pub open spec fn locate(text: Seq<char>, t: (usize, usize, u32)) -> LocatedToken {
    let start = offset_position(text, t.0 as int);
    let end = offset_position(text, t.1 as int);
    LocatedToken {
        line: start.0,
        character: start.1,
        end_line: end.0,
        end_character: end.1,
        line_end_character: if start.0 == end.0 {
            end.1
        } else {
            let ce = content_end(text, start.0);
            offset_position(text, if ce < t.1 { ce } else { t.1 as int }).1
        },
        token_type: t.2,
    }
}

/// Locates a token in the document `text` (with characters `chars`).
fn locate_token(text: &str, chars: &Vec<char>, t: (usize, usize, u32)) -> (r: LocatedToken)
    requires
        chars@ == text@,
    ensures
        r == locate(text@, t),
{
    let start = offset_to_position(chars, t.0);
    let end = offset_to_position(chars, t.1);
    let line_end = if start.0 == end.0 {
        end.1
    } else {
        let next_line = if start.0 < u32::MAX { start.0 + 1 } else { start.0 };
        let next = position_to_byte_offset(text, next_line, 0);
        let b = text.as_bytes();
        let e1 = if 0 < next && next <= b.len() && b[next - 1] == 10u8 { next - 1 } else { next };
        let e2 = if 0 < e1 && e1 <= b.len() && b[e1 - 1] == 13u8 { e1 - 1 } else { e1 };
        let upto = if e2 < t.1 { e2 } else { t.1 };
        offset_to_position(chars, upto).1
    };
    LocatedToken {
        line: start.0,
        character: start.1,
        end_line: end.0,
        end_character: end.1,
        line_end_character: line_end,
        token_type: t.2,
    }
}

/// The five numbers of each encoded token, in order.
pub open spec fn data_parts(tokens: Seq<SemanticToken>) -> Seq<Seq<char>>
    decreases tokens.len(),
{
    if tokens.len() == 0 {
        seq![]
    } else {
        let t = tokens.last();
        data_parts(tokens.drop_last()) + seq![
            decimal(t.delta_line as nat),
            decimal(t.delta_start as nat),
            decimal(t.length as nat),
            decimal(t.token_type as nat),
            decimal(t.token_modifiers_bitset as nat),
        ]
    }
}

/// The semantic tokens of a document: `{"data":[..]}` with the encoded
/// tokens, or null when they do not come in position order.
pub open spec fn tokens_answer_of(text: Seq<char>, raw: Seq<(usize, usize, u32)>) -> Seq<char> {
    let located = raw.map_values(|t: (usize, usize, u32)| locate(text, t));
    if in_position_order(located) {
        "{\"data\":"@ + array_text(
            data_parts(Seq::new(located.len(), |i: int| encode_at(located, i))),
        ) + "}"@
    } else {
        "null"@
    }
}

/// `reply` answers a semantic-tokens request on `doc`: the tokens of its
/// elements sorted by start (tokens with equal starts in walk order),
/// located and encoded.
pub open spec fn tokens_answered(doc: DocumentState, reply: Seq<char>) -> bool {
    let all = elements_tokens(doc.elements@);
    exists|raw: Seq<(usize, usize, u32)>|
        #![trigger tokens_answer_of(doc.text@, raw)]
        raw.len() == all.len() && sorted_by_start(raw) && (forall|k: usize|
            #[trigger] starting_at(raw, k) == starting_at(all, k)) && reply == tokens_answer_of(
            doc.text@,
            raw,
        )
}

/// Answers a semantic-tokens request on a document.
pub fn tokens_answer(doc: &DocumentState) -> (r: String)
    ensures
        tokens_answered(*doc, r@),
{
    let chars = crate::text::to_chars(doc.text.as_str());
    let raw = collect_semantic_tokens(&doc.elements);
    let ghost located_spec = raw@.map_values(|t: (usize, usize, u32)| locate(doc.text@, t));
    let mut located: Vec<LocatedToken> = Vec::new();
    let mut i: usize = 0;
    while i < raw.len()
        invariant
            i <= raw.len(),
            chars@ == doc.text@,
            located_spec == raw@.map_values(|t: (usize, usize, u32)| locate(doc.text@, t)),
            located@ == located_spec.take(i as int),
        decreases raw.len() - i,
    {
        let t = locate_token(doc.text.as_str(), &chars, raw[i]);
        located.push(t);
        assert(located@ =~= located_spec.take(i as int + 1));
        i = i + 1;
    }
    assert(located@ =~= located_spec);
    let r = if !tokens_in_position_order(&located) {
        String::from_str("null")
    } else {
        let enc = encode_tokens(&located);
        assert(enc@ =~= Seq::new(located@.len(), |i: int| encode_at(located@, i)));
        let mut parts: Vec<String> = Vec::new();
        let mut j: usize = 0;
        while j < enc.len()
            invariant
                j <= enc.len(),
                texts_of(parts@) == data_parts(enc@.take(j as int)),
            decreases enc.len() - j,
        {
            let t = enc[j];
            let ghost before = texts_of(parts@);
            let mut n: Vec<char> = Vec::new();
            push_decimal(&mut n, t.delta_line as usize);
            parts.push(chars_to_string(&n));
            let mut n: Vec<char> = Vec::new();
            push_decimal(&mut n, t.delta_start as usize);
            parts.push(chars_to_string(&n));
            let mut n: Vec<char> = Vec::new();
            push_decimal(&mut n, t.length as usize);
            parts.push(chars_to_string(&n));
            let mut n: Vec<char> = Vec::new();
            push_decimal(&mut n, t.token_type as usize);
            parts.push(chars_to_string(&n));
            let mut n: Vec<char> = Vec::new();
            push_decimal(&mut n, t.token_modifiers_bitset as usize);
            parts.push(chars_to_string(&n));
            assert(enc@.take(j as int + 1).drop_last() =~= enc@.take(j as int));
            assert(enc@.take(j as int + 1).last() == t);
            assert(texts_of(parts@) =~= data_parts(enc@.take(j as int + 1)));
            j = j + 1;
        }
        assert(enc@.take(enc.len() as int) =~= enc@);
        let mut out: Vec<char> = Vec::new();
        push_str(&mut out, "{\"data\":");
        let arr = json_array(&parts);
        push_str(&mut out, arr.as_str());
        push_str(&mut out, "}");
        chars_to_string(&out)
    };
    assert(r@ == tokens_answer_of(doc.text@, raw@));
    r
}

} // verus!
