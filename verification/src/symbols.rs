//! Document symbols: the headers and the variable definitions of a document.

use vstd::prelude::*;

use crate::fmt::{chars_to_string, decimal, push_decimal, push_str};

verus! {

/// A range of the text in lines and characters.
#[derive(Clone, Copy, Debug, PartialEq, Eq, Structural)]
pub struct TextRange {
    pub start_line: u32,
    pub start_character: u32,
    pub end_line: u32,
    pub end_character: u32,
}

/// An element that gives symbols, in visiting order: a header with its level
/// and the plain text of its content, or a definition with the names it
/// defines.
pub enum SymbolSource {
    Header { range: TextRange, level: usize, text: String },
    Define { range: TextRange, names: Vec<String> },
}

/// The kind of a symbol.
#[derive(Clone, Copy, Debug, PartialEq, Eq, Structural)]
pub enum SymbolKind {
    Text,
    Variable,
}

/// A document symbol.
pub struct SymbolInfo {
    pub name: String,
    pub detail: String,
    pub kind: SymbolKind,
    pub range: TextRange,
}

/// The view of a symbol.
pub open spec fn symbol_view(s: SymbolInfo) -> (Seq<char>, Seq<char>, SymbolKind, TextRange) {
    (s.name@, s.detail@, s.kind, s.range)
}

/// The name of a header symbol: the header's text, or its level when the
/// text is empty.
pub open spec fn header_name(text: Seq<char>, level: nat) -> Seq<char> {
    if text.len() == 0 {
        "Header (level "@ + decimal(level) + ")"@
    } else {
        text
    }
}

/// The symbols of one source: a header gives one, named by its text and
/// detailed by its level; a definition gives one per defined name.
pub open spec fn source_symbols(s: SymbolSource) -> Seq<(Seq<char>, Seq<char>, SymbolKind, TextRange)> {
    match s {
        SymbolSource::Header { range, level, text } => seq![
            (header_name(text@, level as nat), "Level "@ + decimal(level as nat), SymbolKind::Text, range),
        ],
        SymbolSource::Define { range, names } => names@.map_values(
            |n: String| (n@, "Define"@, SymbolKind::Variable, range),
        ),
    }
}

/// The symbols of all sources, in order.
pub open spec fn document_symbols(sources: Seq<SymbolSource>) -> Seq<(Seq<char>, Seq<char>, SymbolKind, TextRange)>
    decreases sources.len(),
{
    if sources.len() == 0 {
        seq![]
    } else {
        document_symbols(sources.drop_last()) + source_symbols(sources.last())
    }
}

/// Collects the symbols of a document from its headers and definitions in
/// visiting order.
pub fn collect_document_symbols(sources: &Vec<SymbolSource>) -> (r: Vec<SymbolInfo>)
    ensures
        r@.map_values(|s: SymbolInfo| symbol_view(s)) == document_symbols(sources@),
{
    let mut symbols: Vec<SymbolInfo> = Vec::new();
    let mut i: usize = 0;
    while i < sources.len()
        invariant
            i <= sources.len(),
            symbols@.map_values(|s: SymbolInfo| symbol_view(s)) == document_symbols(
                sources@.take(i as int),
            ),
        decreases sources.len() - i,
    {
        assert(sources@.take(i + 1).drop_last() =~= sources@.take(i as int));
        assert(sources@.take(i + 1).last() == sources@[i as int]);
        let ghost before = symbols@.map_values(|s: SymbolInfo| symbol_view(s));
        match &sources[i] {
            SymbolSource::Header { range, level, text } => {
                let mut name: Vec<char> = Vec::new();
                if text.as_str().is_empty() {
                    push_str(&mut name, "Header (level ");
                    push_decimal(&mut name, *level);
                    push_str(&mut name, ")");
                } else {
                    push_str(&mut name, text.as_str());
                }
                let mut detail: Vec<char> = Vec::new();
                push_str(&mut detail, "Level ");
                push_decimal(&mut detail, *level);
                assert(name@ =~= header_name(text@, *level as nat));
                assert(detail@ =~= "Level "@ + decimal(*level as nat));
                let ghost prev = symbols@;
                symbols.push(
                    SymbolInfo {
                        name: chars_to_string(&name),
                        detail: chars_to_string(&detail),
                        kind: SymbolKind::Text,
                        range: *range,
                    },
                );
                assert(symbols@.map_values(|s: SymbolInfo| symbol_view(s)) =~= prev.map_values(
                    |s: SymbolInfo| symbol_view(s),
                ) + source_symbols(sources@[i as int]));
            },
            SymbolSource::Define { range, names } => {
                let ghost added = source_symbols(sources@[i as int]);
                let mut k: usize = 0;
                while k < names.len()
                    invariant
                        k <= names.len(),
                        added == names@.map_values(
                            |n: String| (n@, "Define"@, SymbolKind::Variable, *range),
                        ),
                        symbols@.map_values(|s: SymbolInfo| symbol_view(s)) == before + added.take(
                            k as int,
                        ),
                    decreases names.len() - k,
                {
                    let ghost prev = symbols@;
                    symbols.push(
                        SymbolInfo {
                            name: names[k].clone(),
                            detail: String::from_str("Define"),
                            kind: SymbolKind::Variable,
                            range: *range,
                        },
                    );
                    assert(symbols@.map_values(|s: SymbolInfo| symbol_view(s)) =~= prev.map_values(
                        |s: SymbolInfo| symbol_view(s),
                    ).push(added[k as int]));
                    assert(added.take(k + 1) =~= added.take(k as int).push(added[k as int]));
                    k = k + 1;
                }
                assert(added.take(k as int) =~= added);
            },
        }
        assert(symbols@.map_values(|s: SymbolInfo| symbol_view(s)) =~= document_symbols(
            sources@.take(i + 1),
        ));
        i = i + 1;
    }
    assert(sources@.take(i as int) =~= sources@);
    symbols
}

} // verus!
