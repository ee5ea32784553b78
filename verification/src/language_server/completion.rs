//! Completion of the native language server: fixed keyword lists after
//! `{{{#`, `[[` and `[`, and the defined variables after `[var(`.

use ls_types::Position;
use vstd::prelude::*;
use vstd::utf8::is_char_boundary;
use vstd::utf8::encode_utf8;

use crate::completion::model::{
    items_from_rows, items_view, rows_items, rows_view, CompletionItem, CompletionItemKind,
    ItemSpec, SnippetRow,
};
use crate::completion::{names_view, text_prefix, var_open, variable_item, DocumentState};
use crate::completion::context::{brace_hash, bracket_open};
use crate::document::{define_keys, define_keys_of};
use crate::text::{ends_with, ends_with_exec, str_eq, to_chars};

verus! {

/// The block keywords offered after `{{{#`.
pub open spec fn brace_keyword_table() -> Seq<(Seq<char>, Seq<char>, Seq<char>)> {
    seq![
        ("code"@, "code #lang=\"$1\"\n$0\n}}}"@, "Code block"@),
        ("table"@, "table\n$0\n}}}"@, "Table"@),
        ("list"@, "list\n$0\n}}}"@, "List"@),
        ("fold"@, "fold\n$0\n}}}"@, "Fold (collapsible)"@),
        ("style"@, "style #style=\"$1\"\n$0\n}}}"@, "Styled block"@),
        ("blockquote"@, "blockquote\n$0\n}}}"@, "Block quote"@),
        ("define"@, "define #$1=\"$2\"}}}"@, "Variable definition"@),
        ("if"@, "if $1 ::\n$0\n}}}"@, "Conditional block"@),
        ("include"@, "include $0}}}"@, "Document inclusion"@),
        ("category"@, "category $0}}}"@, "Category"@),
        ("redirect"@, "redirect $0}}}"@, "Redirect"@),
        ("ruby"@, "ruby #ruby=\"$1\" $0}}}"@, "Ruby annotation"@),
        ("footnote"@, "fn $0}}}"@, "Footnote"@),
    ]
}

fn brace_keyword_rows() -> (r: Vec<SnippetRow>)
    ensures
        rows_view(r@) == brace_keyword_table(),
{
    let r = vec![
        ("code", "code #lang=\"$1\"\n$0\n}}}", "Code block"),
        ("table", "table\n$0\n}}}", "Table"),
        ("list", "list\n$0\n}}}", "List"),
        ("fold", "fold\n$0\n}}}", "Fold (collapsible)"),
        ("style", "style #style=\"$1\"\n$0\n}}}", "Styled block"),
        ("blockquote", "blockquote\n$0\n}}}", "Block quote"),
        ("define", "define #$1=\"$2\"}}}", "Variable definition"),
        ("if", "if $1 ::\n$0\n}}}", "Conditional block"),
        ("include", "include $0}}}", "Document inclusion"),
        ("category", "category $0}}}", "Category"),
        ("redirect", "redirect $0}}}", "Redirect"),
        ("ruby", "ruby #ruby=\"$1\" $0}}}", "Ruby annotation"),
        ("footnote", "fn $0}}}", "Footnote"),
    ];
    assert(rows_view(r@) =~= brace_keyword_table());
    r
}

fn brace_keyword_completions(_pos: Position) -> (r: Vec<CompletionItem>)
    ensures
        items_view(r@) == rows_items(brace_keyword_table(), CompletionItemKind::Keyword),
{
    items_from_rows(&brace_keyword_rows(), CompletionItemKind::Keyword)
}

/// The elements offered after `[[`.
pub open spec fn bracket_table() -> Seq<(Seq<char>, Seq<char>, Seq<char>)> {
    seq![
        ("media"@, "#file=\"$1\" $0]]"@, "Media (internal file)"@),
        ("link"@, "$1]]"@, "Wiki link"@),
        ("youtube"@, "#youtube #id=\"$1\"]]"@, "YouTube embed"@),
        ("vimeo"@, "#vimeo #id=\"$1\"]]"@, "Vimeo embed"@),
        ("nicovideo"@, "#nicovideo #id=\"$1\"]]"@, "NicoVideo embed"@),
        ("spotify"@, "#spotify #id=\"$1\"]]"@, "Spotify embed"@),
        ("discord"@, "#discord #id=\"$1\"]]"@, "Discord embed"@),
    ]
}

fn bracket_rows() -> (r: Vec<SnippetRow>)
    ensures
        rows_view(r@) == bracket_table(),
{
    let r = vec![
        ("media", "#file=\"$1\" $0]]", "Media (internal file)"),
        ("link", "$1]]", "Wiki link"),
        ("youtube", "#youtube #id=\"$1\"]]", "YouTube embed"),
        ("vimeo", "#vimeo #id=\"$1\"]]", "Vimeo embed"),
        ("nicovideo", "#nicovideo #id=\"$1\"]]", "NicoVideo embed"),
        ("spotify", "#spotify #id=\"$1\"]]", "Spotify embed"),
        ("discord", "#discord #id=\"$1\"]]", "Discord embed"),
    ];
    assert(rows_view(r@) =~= bracket_table());
    r
}

fn bracket_completions(_pos: Position) -> (r: Vec<CompletionItem>)
    ensures
        items_view(r@) == rows_items(bracket_table(), CompletionItemKind::Reference),
{
    items_from_rows(&bracket_rows(), CompletionItemKind::Reference)
}

/// The macros offered after `[`.
pub open spec fn macro_table() -> Seq<(Seq<char>, Seq<char>, Seq<char>)> {
    seq![
        ("var"@, "var($1)]"@, "Variable reference"@),
        ("br"@, "br]"@, "Line break"@),
        ("null"@, "null]"@, "Null (no output)"@),
        ("fn"@, "fn]"@, "Footnote reference"@),
        ("now"@, "now]"@, "Current time"@),
        ("age"@, "age($1)]"@, "Age calculation"@),
    ]
}

fn macro_rows() -> (r: Vec<SnippetRow>)
    ensures
        rows_view(r@) == macro_table(),
{
    let r = vec![
        ("var", "var($1)]", "Variable reference"),
        ("br", "br]", "Line break"),
        ("null", "null]", "Null (no output)"),
        ("fn", "fn]", "Footnote reference"),
        ("now", "now]", "Current time"),
        ("age", "age($1)]", "Age calculation"),
    ];
    assert(rows_view(r@) =~= macro_table());
    r
}

fn macro_completions(_pos: Position) -> (r: Vec<CompletionItem>)
    ensures
        items_view(r@) == rows_items(macro_table(), CompletionItemKind::Function),
{
    items_from_rows(&macro_rows(), CompletionItemKind::Function)
}

/// The names in order of first occurrence, each once.
pub open spec fn first_occurrences(names: Seq<Seq<char>>) -> Seq<Seq<char>>
    decreases names.len(),
{
    if names.len() == 0 {
        seq![]
    } else {
        let kept = first_occurrences(names.drop_last());
        if kept.contains(names.last()) {
            kept
        } else {
            kept.push(names.last())
        }
    }
}

/// Every variable name the document's definitions define once, in order of
/// first definition.
pub fn variable_completions(state: &DocumentState) -> (r: Vec<CompletionItem>)
    ensures
        items_view(r@) == first_occurrences(define_keys(state.elements@)).map_values(
            |n: Seq<char>| variable_item(n),
        ),
{
    let keys = define_keys_of(&state.elements);
    assert(names_view(keys@) =~= define_keys(state.elements@));
    let names = &keys;
    let mut kept: Vec<String> = Vec::new();
    let mut k: usize = 0;
    while k < names.len()
        invariant
            k <= names.len(),
            names_view(kept@) == first_occurrences(names_view(names@).take(k as int)),
        decreases names.len() - k,
    {
        let ghost prev = names_view(names@).take(k as int);
        assert(names_view(names@).take(k + 1).drop_last() =~= prev);
        let name = &names[k];
        let mut seen = false;
        let mut j: usize = 0;
        while j < kept.len()
            invariant
                j <= kept.len(),
                seen == (exists|i: int| 0 <= i < j && #[trigger] names_view(kept@)[i] == name@),
            decreases kept.len() - j,
        {
            if str_eq(kept[j].as_str(), name.as_str()) {
                seen = true;
            }
            assert(names_view(kept@)[j as int] == kept@[j as int]@);
            j = j + 1;
        }
        assert(seen == names_view(kept@).contains(name@));
        if !seen {
            kept.push(name.clone());
            assert(names_view(kept@) =~= first_occurrences(names_view(names@).take(k + 1)));
        }
        k = k + 1;
    }
    assert(names_view(names@).take(k as int) =~= names_view(names@));
    let mut items: Vec<CompletionItem> = Vec::new();
    let mut i: usize = 0;
    while i < kept.len()
        invariant
            i <= kept.len(),
            items_view(items@) == names_view(kept@).take(i as int).map_values(
                |l: Seq<char>| variable_item(l),
            ),
        decreases kept.len() - i,
    {
        let item = CompletionItem {
            label: kept[i].clone(),
            kind: Some(CompletionItemKind::Variable),
            detail: None,
            insert_text_format: None,
            insert_text: None,
        };
        proof {
            assert(items_view(items@.push(item)) =~= items_view(items@).push(item@));
            assert(names_view(kept@).take(i + 1).map_values(|l: Seq<char>| variable_item(l))
                =~= names_view(kept@).take(i as int).map_values(
                |l: Seq<char>| variable_item(l),
            ).push(variable_item(names_view(kept@)[i as int])));
        }
        items.push(item);
        i = i + 1;
    }
    assert(names_view(kept@).take(i as int) =~= names_view(kept@));
    items
}

/// What is offered after `prefix`, unless it ends with `[var(`.
pub open spec fn keyword_items(prefix: Seq<char>) -> Seq<ItemSpec> {
    if ends_with(prefix, brace_hash()) {
        rows_items(brace_keyword_table(), CompletionItemKind::Keyword)
    } else if ends_with(prefix, bracket_open()) {
        rows_items(bracket_table(), CompletionItemKind::Reference)
    } else if ends_with(prefix, seq!['[']) {
        rows_items(macro_table(), CompletionItemKind::Function)
    } else {
        seq![]
    }
}

/// Returns the completion items for the cursor at UTF-8 byte offset
/// `byte_offset` of the document.
pub fn get_completions(state: &DocumentState, position: Position, byte_offset: usize) -> (r: Vec<
    CompletionItem,
>)
    requires
        is_char_boundary(encode_utf8(state.text@), byte_offset as int),
    ensures
        ({
            let prefix = text_prefix(state.text@, byte_offset as int);
            if ends_with(prefix, var_open()) {
                items_view(r@) == first_occurrences(define_keys(state.elements@)).map_values(
                    |n: Seq<char>| variable_item(n),
                )
            } else {
                items_view(r@) == keyword_items(prefix)
            }
        }),
{
    let (prefix, _) = state.text.as_str().split_at(byte_offset);
    proof {
        vstd::utf8::encode_utf8_decode_utf8(prefix@);
    }
    let chars = to_chars(prefix);
    let var_pat = ['[', 'v', 'a', 'r', '('];
    let brace_hash_pat = ['{', '{', '{', '#'];
    let bracket_pat = ['[', '['];
    let open_pat = ['['];
    assert(var_pat@ == var_open());
    assert(brace_hash_pat@ == brace_hash());
    assert(bracket_pat@ == bracket_open());
    assert(open_pat@ == seq!['[']);
    if ends_with_exec(chars.as_slice(), var_pat.as_slice()) {
        return variable_completions(state);
    }
    if ends_with_exec(chars.as_slice(), brace_hash_pat.as_slice()) {
        return brace_keyword_completions(position);
    }
    if ends_with_exec(chars.as_slice(), bracket_pat.as_slice()) {
        return bracket_completions(position);
    }
    if ends_with_exec(chars.as_slice(), open_pat.as_slice()) {
        return macro_completions(position);
    }
    let r = Vec::new();
    assert(items_view(r@) =~= seq![]);
    r
}

} // verus!
