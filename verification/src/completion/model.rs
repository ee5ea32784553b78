//! The completion items the engine produces.

use vstd::prelude::*;

verus! {

/// A cursor position in a document, carried through unread.
#[verifier::external_type_specification]
#[verifier::external_body]
pub struct ExPosition(ls_types::Position);

/// `ls_types::Position::new` makes a position of a line and a character. A
/// position is carried through unread, so nothing is stated of it.
pub assume_specification[ ls_types::Position::new ](line: u32, character: u32) -> ls_types::Position;

/// What a completion item stands for.
#[derive(Clone, Copy, Debug, PartialEq, Eq, Structural)]
pub enum CompletionItemKind {
    Function,
    Keyword,
    Reference,
    Snippet,
    Property,
    Variable,
}

/// How the editor interprets the inserted text.
#[derive(Clone, Copy, Debug, PartialEq, Eq, Structural)]
pub enum InsertTextFormat {
    PlainText,
    Snippet,
}

/// One completion suggestion.
#[derive(Clone, Debug)]
pub struct CompletionItem {
    pub label: String,
    pub kind: Option<CompletionItemKind>,
    pub detail: Option<String>,
    pub insert_text_format: Option<InsertTextFormat>,
    pub insert_text: Option<String>,
}

/// The mathematical content of a completion item.
#[verifier::ext_equal]
pub struct ItemSpec {
    pub label: Seq<char>,
    pub kind: Option<CompletionItemKind>,
    pub detail: Option<Seq<char>>,
    pub insert_text_format: Option<InsertTextFormat>,
    pub insert_text: Option<Seq<char>>,
}

/// The view of an optional string.
pub open spec fn opt_str(o: Option<String>) -> Option<Seq<char>> {
    match o {
        Some(s) => Some(s@),
        None => None,
    }
}

impl View for CompletionItem {
    type V = ItemSpec;

    open spec fn view(&self) -> ItemSpec {
        ItemSpec {
            label: self.label@,
            kind: self.kind,
            detail: opt_str(self.detail),
            insert_text_format: self.insert_text_format,
            insert_text: opt_str(self.insert_text),
        }
    }
}

/// The views of a list of items.
pub open spec fn items_view(items: Seq<CompletionItem>) -> Seq<ItemSpec> {
    items.map_values(|i: CompletionItem| i@)
}

/// A snippet item with a label, kind, description and snippet text.
pub open spec fn snippet_item(
    label: Seq<char>,
    kind: CompletionItemKind,
    detail: Seq<char>,
    snippet: Seq<char>,
) -> ItemSpec {
    ItemSpec {
        label,
        kind: Some(kind),
        detail: Some(detail),
        insert_text_format: Some(InsertTextFormat::Snippet),
        insert_text: Some(snippet),
    }
}

/// A table row: label, snippet, description.
pub type SnippetRow = (&'static str, &'static str, &'static str);

/// The view of a table of snippet rows.
pub open spec fn rows_view(rows: Seq<SnippetRow>) -> Seq<(Seq<char>, Seq<char>, Seq<char>)> {
    rows.map_values(|r: SnippetRow| (r.0@, r.1@, r.2@))
}

/// The items of a table of snippet rows, all of one kind.
pub open spec fn rows_items(
    rows: Seq<(Seq<char>, Seq<char>, Seq<char>)>,
    kind: CompletionItemKind,
) -> Seq<ItemSpec> {
    rows.map_values(|r: (Seq<char>, Seq<char>, Seq<char>)| snippet_item(r.0, kind, r.2, r.1))
}

/// Builds one snippet item.
pub fn make_snippet_item(
    label: &str,
    kind: CompletionItemKind,
    detail: &str,
    snippet: &str,
) -> (r: CompletionItem)
    ensures
        r@ == snippet_item(label@, kind, detail@, snippet@),
{
    CompletionItem {
        label: String::from_str(label),
        kind: Some(kind),
        detail: Some(String::from_str(detail)),
        insert_text_format: Some(InsertTextFormat::Snippet),
        insert_text: Some(String::from_str(snippet)),
    }
}

/// Turns a table of snippet rows into items of one kind.
pub fn items_from_rows(rows: &Vec<SnippetRow>, kind: CompletionItemKind) -> (r: Vec<
    CompletionItem,
>)
    ensures
        items_view(r@) == rows_items(rows_view(rows@), kind),
{
    let mut out: Vec<CompletionItem> = Vec::new();
    let mut i: usize = 0;
    while i < rows.len()
        invariant
            i <= rows.len(),
            items_view(out@) == rows_items(rows_view(rows@), kind).take(i as int),
        decreases rows.len() - i,
    {
        let (label, snippet, detail) = rows[i];
        let item = make_snippet_item(label, kind, detail, snippet);
        proof {
            assert(items_view(out@.push(item)) =~= items_view(out@).push(item@));
            assert(rows_items(rows_view(rows@), kind).take(i + 1) =~= rows_items(
                rows_view(rows@),
                kind,
            ).take(i as int).push(item@));
        }
        out.push(item);
        i = i + 1;
    }
    assert(rows_items(rows_view(rows@), kind).take(i as int) =~= rows_items(
        rows_view(rows@),
        kind,
    ));
    out
}

} // verus!
