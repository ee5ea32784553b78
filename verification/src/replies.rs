//! The JSON text of the language server's answers on a document: ranges,
//! hovers, locations, folding ranges, symbols and diagnostics, objects with
//! their keys in increasing order as `serde_json` writes them.

use vstd::prelude::*;

use crate::diagnostics::{texts_of, DiagnosticInfo, Severity};
use crate::fmt::{chars_to_string, decimal, push_decimal, push_str};
use crate::folding::{FoldCandidate, FoldKind};
use crate::rpc::{json_quoted, push_quoted};
use crate::symbols::{SymbolInfo, SymbolKind, TextRange};

verus! {

/// The parts separated by commas.
pub open spec fn joined(parts: Seq<Seq<char>>) -> Seq<char>
    decreases parts.len(),
{
    if parts.len() == 0 {
        seq![]
    } else if parts.len() == 1 {
        parts[0]
    } else {
        joined(parts.drop_last()) + ","@ + parts.last()
    }
}

/// A JSON array of the parts.
pub open spec fn array_text(parts: Seq<Seq<char>>) -> Seq<char> {
    "["@ + joined(parts) + "]"@
}

/// Writes the parts as a JSON array.
pub fn json_array(parts: &Vec<String>) -> (r: String)
    ensures
        r@ == array_text(texts_of(parts@)),
{
    let ghost all = texts_of(parts@);
    let mut out: Vec<char> = Vec::new();
    push_str(&mut out, "[");
    let ghost start = out@;
    let mut i: usize = 0;
    while i < parts.len()
        invariant
            i <= parts.len(),
            all == texts_of(parts@),
            out@ == start + joined(all.take(i as int)),
        decreases parts.len() - i,
    {
        if i > 0 {
            push_str(&mut out, ",");
        }
        push_str(&mut out, parts[i].as_str());
        proof {
            assert(all.take(i as int + 1).drop_last() =~= all.take(i as int));
            assert(all[i as int] == parts@[i as int]@);
            if i == 0 {
                assert(all.take(0) =~= Seq::<Seq<char>>::empty());
            }
        }
        i = i + 1;
    }
    assert(all.take(parts.len() as int) =~= all);
    push_str(&mut out, "]");
    assert(out@ =~= array_text(all));
    chars_to_string(&out)
}

/// A position: `{"character":..,"line":..}`.
pub open spec fn position_text(line: u32, character: u32) -> Seq<char> {
    "{\"character\":"@ + decimal(character as nat) + ",\"line\":"@ + decimal(line as nat) + "}"@
}

/// A range: `{"end":..,"start":..}`.
pub open spec fn range_text(r: TextRange) -> Seq<char> {
    "{\"end\":"@ + position_text(r.end_line, r.end_character) + ",\"start\":"@ + position_text(
        r.start_line,
        r.start_character,
    ) + "}"@
}

fn push_position(out: &mut Vec<char>, line: u32, character: u32)
    ensures
        final(out)@ == old(out)@ + position_text(line, character),
{
    push_str(out, "{\"character\":");
    push_decimal(out, character as usize);
    push_str(out, ",\"line\":");
    push_decimal(out, line as usize);
    push_str(out, "}");
    assert(final(out)@ =~= old(out)@ + position_text(line, character));
}

/// Appends a range.
pub fn push_range(out: &mut Vec<char>, r: TextRange)
    ensures
        final(out)@ == old(out)@ + range_text(r),
{
    push_str(out, "{\"end\":");
    push_position(out, r.end_line, r.end_character);
    push_str(out, ",\"start\":");
    push_position(out, r.start_line, r.start_character);
    push_str(out, "}");
    assert(final(out)@ =~= old(out)@ + range_text(r));
}

/// A hover: the markdown text and the range of the element.
pub open spec fn hover_reply_text(value: Seq<char>, range: TextRange) -> Seq<char> {
    "{\"contents\":{\"kind\":\"markdown\",\"value\":"@ + json_quoted(value) + "},\"range\":"@
        + range_text(range) + "}"@
}

/// Writes a hover.
pub fn hover_reply(value: &str, range: TextRange) -> (r: String)
    ensures
        r@ == hover_reply_text(value@, range),
{
    let mut out: Vec<char> = Vec::new();
    push_str(&mut out, "{\"contents\":{\"kind\":\"markdown\",\"value\":");
    push_quoted(&mut out, value);
    push_str(&mut out, "},\"range\":");
    push_range(&mut out, range);
    push_str(&mut out, "}");
    assert(out@ =~= hover_reply_text(value@, range));
    chars_to_string(&out)
}

/// A location: a range in the document `uri`.
pub open spec fn location_text(uri: Seq<char>, range: TextRange) -> Seq<char> {
    "{\"range\":"@ + range_text(range) + ",\"uri\":"@ + json_quoted(uri) + "}"@
}

/// Writes a location.
pub fn location_reply(uri: &str, range: TextRange) -> (r: String)
    ensures
        r@ == location_text(uri@, range),
{
    let mut out: Vec<char> = Vec::new();
    push_str(&mut out, "{\"range\":");
    push_range(&mut out, range);
    push_str(&mut out, ",\"uri\":");
    push_quoted(&mut out, uri);
    push_str(&mut out, "}");
    assert(out@ =~= location_text(uri@, range));
    chars_to_string(&out)
}

/// A folding range: its lines and kind.
pub open spec fn folding_text(c: FoldCandidate) -> Seq<char> {
    "{\"endLine\":"@ + decimal(c.end_line as nat) + ",\"kind\":"@ + match c.kind {
        FoldKind::Region => "\"region\""@,
        FoldKind::Comment => "\"comment\""@,
    } + ",\"startLine\":"@ + decimal(c.start_line as nat) + "}"@
}

/// Writes a folding range.
pub fn folding_reply(c: FoldCandidate) -> (r: String)
    ensures
        r@ == folding_text(c),
{
    let mut out: Vec<char> = Vec::new();
    push_str(&mut out, "{\"endLine\":");
    push_decimal(&mut out, c.end_line as usize);
    push_str(&mut out, ",\"kind\":");
    match c.kind {
        FoldKind::Region => push_str(&mut out, "\"region\""),
        FoldKind::Comment => push_str(&mut out, "\"comment\""),
    }
    push_str(&mut out, ",\"startLine\":");
    push_decimal(&mut out, c.start_line as usize);
    push_str(&mut out, "}");
    assert(out@ =~= folding_text(c));
    chars_to_string(&out)
}

/// A document symbol: detail, kind (15 for a header's string, 13 for a
/// variable), name, and its range as both range and selection range.
pub open spec fn symbol_text(s: (Seq<char>, Seq<char>, SymbolKind, TextRange)) -> Seq<char> {
    "{\"detail\":"@ + json_quoted(s.1) + ",\"kind\":"@ + match s.2 {
        SymbolKind::Text => "15"@,
        SymbolKind::Variable => "13"@,
    } + ",\"name\":"@ + json_quoted(s.0) + ",\"range\":"@ + range_text(s.3)
        + ",\"selectionRange\":"@ + range_text(s.3) + "}"@
}

/// Writes a document symbol.
pub fn symbol_reply(s: &SymbolInfo) -> (r: String)
    ensures
        r@ == symbol_text(crate::symbols::symbol_view(*s)),
{
    let mut out: Vec<char> = Vec::new();
    push_str(&mut out, "{\"detail\":");
    push_quoted(&mut out, s.detail.as_str());
    push_str(&mut out, ",\"kind\":");
    match s.kind {
        SymbolKind::Text => push_str(&mut out, "15"),
        SymbolKind::Variable => push_str(&mut out, "13"),
    }
    push_str(&mut out, ",\"name\":");
    push_quoted(&mut out, s.name.as_str());
    push_str(&mut out, ",\"range\":");
    push_range(&mut out, s.range);
    push_str(&mut out, ",\"selectionRange\":");
    push_range(&mut out, s.range);
    push_str(&mut out, "}");
    assert(out@ =~= symbol_text(crate::symbols::symbol_view(*s)));
    chars_to_string(&out)
}

/// A diagnostic: its message, range, severity (1 for an error, 2 for a
/// warning) and source.
pub open spec fn diagnostic_text(message: Seq<char>, range: TextRange, severity: Severity, source: Seq<char>) -> Seq<char> {
    "{\"message\":"@ + json_quoted(message) + ",\"range\":"@ + range_text(range) + ",\"severity\":"@
        + match severity {
        Severity::Error => "1"@,
        Severity::Warning => "2"@,
    } + ",\"source\":"@ + json_quoted(source) + "}"@
}

/// Writes a diagnostic with the range of its span.
pub fn diagnostic_reply(d: &DiagnosticInfo, range: TextRange) -> (r: String)
    ensures
        r@ == diagnostic_text(d.message@, range, d.severity, d.source@),
{
    let mut out: Vec<char> = Vec::new();
    push_str(&mut out, "{\"message\":");
    push_quoted(&mut out, d.message.as_str());
    push_str(&mut out, ",\"range\":");
    push_range(&mut out, range);
    push_str(&mut out, ",\"severity\":");
    match d.severity {
        Severity::Error => push_str(&mut out, "1"),
        Severity::Warning => push_str(&mut out, "2"),
    }
    push_str(&mut out, ",\"source\":");
    push_quoted(&mut out, d.source.as_str());
    push_str(&mut out, "}");
    assert(out@ =~= diagnostic_text(d.message@, range, d.severity, d.source@));
    chars_to_string(&out)
}

} // verus!
