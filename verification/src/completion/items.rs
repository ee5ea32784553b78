//! Fixed completion lists for brace, bracket and macro triggers.

use ls_types::Position;
use vstd::prelude::*;

use crate::text::str_eq;

use super::context::context_view;
use super::params::{
    ctx_is, ctx_is_exec, fold_inner_param_completions, generic_media_param_items,
    list_item_param_completions, styled_brace_hash_completions, styled_brace_hash_items,
    styled_param_items, table_cell_param_completions, table_cell_param_items,
    table_row_param_completions, table_row_param_items,
};
use super::model::{
    items_from_rows, items_view, rows_items, rows_view, CompletionItem, CompletionItemKind,
    ItemSpec, SnippetRow,
};

verus! {

/// The macros offered after `[`.
pub open spec fn macro_table() -> Seq<(Seq<char>, Seq<char>, Seq<char>)> {
    seq![
        ("var"@, "var($1)]"@, "Variable reference"@),
        ("br"@, "br]"@, "Line break"@),
        ("clear"@, "clear]"@, "Float clear"@),
        ("null"@, "null]"@, "Null (no output)"@),
        ("fn"@, "fn]"@, "Render collected footnotes"@),
        ("now"@, "now]"@, "Current time"@),
        ("age"@, "age($1)]"@, "Age calculation"@),
        ("anchor"@, "anchor($1)]"@, "Named anchor"@),
        ("date"@, "date]"@, "Current date"@),
        ("datetime"@, "datetime]"@, "Current date and time"@),
        ("dday"@, "dday($1)]"@, "D-day counter"@),
        ("pagecount"@, "pagecount]"@, "Total page count"@),
        ("toc"@, "toc]"@, "Table of contents"@),
    ]
}

fn macro_rows() -> (r: Vec<SnippetRow>)
    ensures
        rows_view(r@) == macro_table(),
{
    let r = vec![
        ("var", "var($1)]", "Variable reference"),
        ("br", "br]", "Line break"),
        ("clear", "clear]", "Float clear"),
        ("null", "null]", "Null (no output)"),
        ("fn", "fn]", "Render collected footnotes"),
        ("now", "now]", "Current time"),
        ("age", "age($1)]", "Age calculation"),
        ("anchor", "anchor($1)]", "Named anchor"),
        ("date", "date]", "Current date"),
        ("datetime", "datetime]", "Current date and time"),
        ("dday", "dday($1)]", "D-day counter"),
        ("pagecount", "pagecount]", "Total page count"),
        ("toc", "toc]", "Table of contents"),
    ];
    assert(rows_view(r@) =~= macro_table());
    r
}

/// Macro completions after `[`.
pub fn macro_completions(_pos: Position) -> (r: Vec<CompletionItem>)
    ensures
        items_view(r@) == rows_items(macro_table(), CompletionItemKind::Function),
{
    items_from_rows(&macro_rows(), CompletionItemKind::Function)
}

/// The block keywords offered after `{{{#`.
pub open spec fn brace_keyword_table() -> Seq<(Seq<char>, Seq<char>, Seq<char>)> {
    seq![
        ("code"@, "code #lang=\"$1\"\n$0\n}}}"@, "Code block"@),
        ("tex"@, "tex\n$0\n}}}"@, "TeX block"@),
        ("css"@, "css\n$0\n}}}"@, "CSS block"@),
        ("table"@, "table\n$0\n}}}"@, "Table"@),
        ("list"@, "list\n$0\n}}}"@, "List"@),
        ("fold"@, "fold\n$0\n}}}"@, "Fold (collapsible)"@),
        ("quote"@, "quote\n$0\n}}}"@, "Block quote"@),
        ("define"@, "define #$1=\"$2\"}}}"@, "Variable definition"@),
        ("if"@, "if $1 ::\n$0\n}}}"@, "Conditional block"@),
        ("include"@, "include $0}}}"@, "Document inclusion"@),
        ("category"@, "category $0}}}"@, "Category"@),
        ("redirect"@, "redirect $0}}}"@, "Redirect"@),
        ("ruby"@, "ruby #ruby=\"$1\" $0}}}"@, "Ruby annotation"@),
        ("fn"@, "fn $0}}}"@, "Footnote"@),
    ]
}

fn brace_keyword_rows() -> (r: Vec<SnippetRow>)
    ensures
        rows_view(r@) == brace_keyword_table(),
{
    let r = vec![
        ("code", "code #lang=\"$1\"\n$0\n}}}", "Code block"),
        ("tex", "tex\n$0\n}}}", "TeX block"),
        ("css", "css\n$0\n}}}", "CSS block"),
        ("table", "table\n$0\n}}}", "Table"),
        ("list", "list\n$0\n}}}", "List"),
        ("fold", "fold\n$0\n}}}", "Fold (collapsible)"),
        ("quote", "quote\n$0\n}}}", "Block quote"),
        ("define", "define #$1=\"$2\"}}}", "Variable definition"),
        ("if", "if $1 ::\n$0\n}}}", "Conditional block"),
        ("include", "include $0}}}", "Document inclusion"),
        ("category", "category $0}}}", "Category"),
        ("redirect", "redirect $0}}}", "Redirect"),
        ("ruby", "ruby #ruby=\"$1\" $0}}}", "Ruby annotation"),
        ("fn", "fn $0}}}", "Footnote"),
    ];
    assert(rows_view(r@) =~= brace_keyword_table());
    r
}

fn brace_keyword_completions() -> (r: Vec<CompletionItem>)
    ensures
        items_view(r@) == rows_items(brace_keyword_table(), CompletionItemKind::Keyword),
{
    items_from_rows(&brace_keyword_rows(), CompletionItemKind::Keyword)
}

/// The only block valid at the structural levels of tables and lists.
pub open spec fn brace_conditional_table() -> Seq<(Seq<char>, Seq<char>, Seq<char>)> {
    seq![
        ("if"@, "if $1 ::\n$0\n}}}"@, "Conditional block"@),
    ]
}

fn brace_conditional_rows() -> (r: Vec<SnippetRow>)
    ensures
        rows_view(r@) == brace_conditional_table(),
{
    let r = vec![
        ("if", "if $1 ::\n$0\n}}}", "Conditional block"),
    ];
    assert(rows_view(r@) =~= brace_conditional_table());
    r
}

fn brace_conditional_completions() -> (r: Vec<CompletionItem>)
    ensures
        items_view(r@) == rows_items(brace_conditional_table(), CompletionItemKind::Keyword),
{
    items_from_rows(&brace_conditional_rows(), CompletionItemKind::Keyword)
}

/// The media targets offered after `[[#` outside structural levels.
pub open spec fn generic_bracket_hash_table() -> Seq<(Seq<char>, Seq<char>, Seq<char>)> {
    seq![
        ("file"@, "file=\"$1\" $0]]"@, "File / image media"@),
        ("document"@, "document=\"$1\" $0]]"@, "Document link"@),
        ("category"@, "category=\"$1\"]]"@, "Category link"@),
        ("user"@, "user=\"$1\"]]"@, "User link"@),
        ("url"@, "url=\"$1\" $0]]"@, "External URL link"@),
        ("youtube"@, "youtube #id=\"$1\"]]"@, "YouTube embed"@),
        ("vimeo"@, "vimeo #id=\"$1\"]]"@, "Vimeo embed"@),
        ("nicovideo"@, "nicovideo #id=\"$1\"]]"@, "NicoVideo embed"@),
        ("spotify"@, "spotify $0]]"@, "Spotify embed"@),
        ("discord"@, "discord #id=\"$1\"]]"@, "Discord embed"@),
    ]
}

fn generic_bracket_hash_rows() -> (r: Vec<SnippetRow>)
    ensures
        rows_view(r@) == generic_bracket_hash_table(),
{
    let r = vec![
        ("file", "file=\"$1\" $0]]", "File / image media"),
        ("document", "document=\"$1\" $0]]", "Document link"),
        ("category", "category=\"$1\"]]", "Category link"),
        ("user", "user=\"$1\"]]", "User link"),
        ("url", "url=\"$1\" $0]]", "External URL link"),
        ("youtube", "youtube #id=\"$1\"]]", "YouTube embed"),
        ("vimeo", "vimeo #id=\"$1\"]]", "Vimeo embed"),
        ("nicovideo", "nicovideo #id=\"$1\"]]", "NicoVideo embed"),
        ("spotify", "spotify $0]]", "Spotify embed"),
        ("discord", "discord #id=\"$1\"]]", "Discord embed"),
    ];
    assert(rows_view(r@) =~= generic_bracket_hash_table());
    r
}

fn generic_bracket_hash_completions() -> (r: Vec<CompletionItem>)
    ensures
        items_view(r@) == rows_items(generic_bracket_hash_table(), CompletionItemKind::Reference),
{
    items_from_rows(&generic_bracket_hash_rows(), CompletionItemKind::Reference)
}

/// The row template offered after `[[` at a table's row level.
pub open spec fn table_row_table() -> Seq<(Seq<char>, Seq<char>, Seq<char>)> {
    seq![
        ("row"@, "$0]]"@, "Table row"@),
    ]
}

fn table_row_rows() -> (r: Vec<SnippetRow>)
    ensures
        rows_view(r@) == table_row_table(),
{
    let r = vec![
        ("row", "$0]]", "Table row"),
    ];
    assert(rows_view(r@) =~= table_row_table());
    r
}

fn table_row_completions() -> (r: Vec<CompletionItem>)
    ensures
        items_view(r@) == rows_items(table_row_table(), CompletionItemKind::Snippet),
{
    items_from_rows(&table_row_rows(), CompletionItemKind::Snippet)
}

/// The cell templates offered after `[[` at a table's cell level.
pub open spec fn table_cell_table() -> Seq<(Seq<char>, Seq<char>, Seq<char>)> {
    seq![
        ("cell"@, "$0]]"@, "Table cell"@),
        ("cell (x,y)"@, "#x=\"$1\" #y=\"$2\" $0]]"@, "Table cell with span"@),
    ]
}

fn table_cell_rows() -> (r: Vec<SnippetRow>)
    ensures
        rows_view(r@) == table_cell_table(),
{
    let r = vec![
        ("cell", "$0]]", "Table cell"),
        ("cell (x,y)", "#x=\"$1\" #y=\"$2\" $0]]", "Table cell with span"),
    ];
    assert(rows_view(r@) =~= table_cell_table());
    r
}

fn table_cell_completions() -> (r: Vec<CompletionItem>)
    ensures
        items_view(r@) == rows_items(table_cell_table(), CompletionItemKind::Snippet),
{
    items_from_rows(&table_cell_rows(), CompletionItemKind::Snippet)
}

/// The item template offered after `[[` at a list's item level.
pub open spec fn list_item_table() -> Seq<(Seq<char>, Seq<char>, Seq<char>)> {
    seq![
        ("item"@, "$0]]"@, "List item"@),
    ]
}

fn list_item_rows() -> (r: Vec<SnippetRow>)
    ensures
        rows_view(r@) == list_item_table(),
{
    let r = vec![
        ("item", "$0]]", "List item"),
    ];
    assert(rows_view(r@) =~= list_item_table());
    r
}

fn list_item_completions() -> (r: Vec<CompletionItem>)
    ensures
        items_view(r@) == rows_items(list_item_table(), CompletionItemKind::Snippet),
{
    items_from_rows(&list_item_rows(), CompletionItemKind::Snippet)
}

/// The section template offered after `[[` at a fold's section level.
pub open spec fn fold_section_table() -> Seq<(Seq<char>, Seq<char>, Seq<char>)> {
    seq![
        ("section"@, "$0]]"@, "Fold section (title or content)"@),
    ]
}

fn fold_section_rows() -> (r: Vec<SnippetRow>)
    ensures
        rows_view(r@) == fold_section_table(),
{
    let r = vec![
        ("section", "$0]]", "Fold section (title or content)"),
    ];
    assert(rows_view(r@) =~= fold_section_table());
    r
}

fn fold_section_completions() -> (r: Vec<CompletionItem>)
    ensures
        items_view(r@) == rows_items(fold_section_table(), CompletionItemKind::Snippet),
{
    items_from_rows(&fold_section_rows(), CompletionItemKind::Snippet)
}

/// The context is the block `kw` at any bracket depth.
pub open spec fn ctx_in(ctx: Option<(Seq<char>, nat)>, kw: Seq<char>) -> bool {
    ctx matches Some((k, _)) && k == kw
}

fn ctx_in_exec(ctx: Option<(&str, usize)>, kw: &str) -> (r: bool)
    ensures
        r == ctx_in(context_view(ctx), kw@),
{
    match ctx {
        Some((k, _)) => str_eq(k, kw),
        None => false,
    }
}

/// A table at its row or cell structural level, or a list at its item
/// structural level, where only `{{{#if` is valid.
pub open spec fn structural_level(ctx: Option<(Seq<char>, nat)>) -> bool {
    match ctx {
        Some((k, d)) => (k == "table"@ && d < 2) || (k == "list"@ && d < 1),
        None => false,
    }
}

/// What `{{{#` offers in context `ctx`.
pub open spec fn brace_hash_items(ctx: Option<(Seq<char>, nat)>) -> Seq<ItemSpec> {
    if structural_level(ctx) {
        rows_items(brace_conditional_table(), CompletionItemKind::Keyword)
    } else {
        rows_items(brace_keyword_table(), CompletionItemKind::Keyword) + styled_brace_hash_items()
    }
}

/// `{{{#` trigger: which brace elements are valid here?
pub fn brace_hash_completions(ctx: Option<(&str, usize)>) -> (r: Vec<CompletionItem>)
    ensures
        items_view(r@) == brace_hash_items(context_view(ctx)),
{
    let structural = match ctx {
        Some((k, d)) => (d < 2 && str_eq(k, "table")) || (d < 1 && str_eq(k, "list")),
        None => false,
    };
    if structural {
        brace_conditional_completions()
    } else {
        let mut items = brace_keyword_completions();
        let mut styled = styled_brace_hash_completions();
        let ghost a = items@;
        let ghost b = styled@;
        items.append(&mut styled);
        assert(items_view(items@) =~= items_view(a) + items_view(b));
        items
    }
}

/// What `[[` offers in context `ctx`: templates at structural levels only.
pub open spec fn bracket_items(ctx: Option<(Seq<char>, nat)>) -> Seq<ItemSpec> {
    if ctx_is(ctx, "table"@, 1) {
        rows_items(table_row_table(), CompletionItemKind::Snippet)
    } else if ctx_is(ctx, "table"@, 2) {
        rows_items(table_cell_table(), CompletionItemKind::Snippet)
    } else if ctx_is(ctx, "list"@, 1) {
        rows_items(list_item_table(), CompletionItemKind::Snippet)
    } else if ctx_is(ctx, "fold"@, 1) {
        rows_items(fold_section_table(), CompletionItemKind::Snippet)
    } else {
        seq![]
    }
}

/// `[[` trigger: structural contexts only.
///
/// At content levels a bare `[[text]]` (no `#` parameters) renders as empty
/// HTML, so nothing is offered there; `[[#` serves links and media.
pub fn bracket_completions_ctx(ctx: Option<(&str, usize)>, _pos: Position) -> (r: Vec<
    CompletionItem,
>)
    ensures
        items_view(r@) == bracket_items(context_view(ctx)),
{
    if ctx_is_exec(ctx, "table", 1) {
        table_row_completions()
    } else if ctx_is_exec(ctx, "table", 2) {
        table_cell_completions()
    } else if ctx_is_exec(ctx, "list", 1) {
        list_item_completions()
    } else if ctx_is_exec(ctx, "fold", 1) {
        fold_section_completions()
    } else {
        let r = Vec::new();
        assert(items_view(r@) =~= seq![]);
        r
    }
}

/// What `[[#` offers in context `ctx`.
pub open spec fn bracket_hash_items(ctx: Option<(Seq<char>, nat)>) -> Seq<ItemSpec> {
    if ctx_is(ctx, "table"@, 1) {
        table_row_param_items()
    } else if ctx_is(ctx, "table"@, 2) {
        table_cell_param_items()
    } else if ctx_in(ctx, "table"@) {
        rows_items(generic_bracket_hash_table(), CompletionItemKind::Reference)
    } else if ctx_is(ctx, "list"@, 1) {
        styled_param_items()
    } else if ctx_in(ctx, "list"@) {
        rows_items(generic_bracket_hash_table(), CompletionItemKind::Reference)
    } else if ctx_is(ctx, "fold"@, 1) {
        styled_param_items()
    } else {
        rows_items(generic_bracket_hash_table(), CompletionItemKind::Reference)
    }
}

/// `[[#` trigger: media targets, or element-specific parameters at
/// structural levels.
pub fn bracket_hash_completions_ctx(ctx: Option<(&str, usize)>, _pos: Position) -> (r: Vec<
    CompletionItem,
>)
    ensures
        items_view(r@) == bracket_hash_items(context_view(ctx)),
{
    if ctx_is_exec(ctx, "table", 1) {
        table_row_param_completions()
    } else if ctx_is_exec(ctx, "table", 2) {
        table_cell_param_completions()
    } else if ctx_in_exec(ctx, "table") {
        generic_bracket_hash_completions()
    } else if ctx_is_exec(ctx, "list", 1) {
        list_item_param_completions()
    } else if ctx_in_exec(ctx, "list") {
        generic_bracket_hash_completions()
    } else if ctx_is_exec(ctx, "fold", 1) {
        fold_inner_param_completions()
    } else {
        generic_bracket_hash_completions()
    }
}

} // verus!
