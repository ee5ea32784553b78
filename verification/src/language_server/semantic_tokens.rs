//! Semantic tokens: one token per node of the document tree that carries a
//! span, then the tokens sorted by position and delta-encoded for the client.

use vstd::prelude::*;

use crate::ast::{
    element_span, ConditionalListItems, ConditionalTableCells, ConditionalTableRows, Element,
    Expression, FoldInner, ListContentItem, ListItem, Parameter, Span, TableCell, TableCellItem,
    TableRow, TableRowItem,
};

verus! {

/// Token types of the structural sub-elements and of conditions.
pub open spec fn parameter_type() -> u32 { 37 }
pub open spec fn table_row_type() -> u32 { 38 }
pub open spec fn table_cell_type() -> u32 { 39 }
pub open spec fn conditional_rows_type() -> u32 { 40 }
pub open spec fn conditional_cells_type() -> u32 { 41 }
pub open spec fn list_item_type() -> u32 { 42 }
pub open spec fn conditional_items_type() -> u32 { 43 }
pub open spec fn fold_inner_type() -> u32 { 44 }
pub open spec fn logical_operator_type() -> u32 { 55 }
pub open spec fn comparison_operator_type() -> u32 { 56 }

/// A token covering a whole span.
pub open spec fn span_token(s: Span, ty: u32) -> Seq<(usize, usize, u32)> {
    seq![(s.start, s.end, ty)]
}

/// The end of an opening delimiter of `len` bytes, kept within the span.
pub open spec fn open_end(s: Span, len: nat) -> int {
    if s.start + len <= s.end {
        s.start + len
    } else {
        s.end as int
    }
}

/// The tokens of a brace-delimited node: one for its opening delimiter of
/// `len` bytes and, when it lies after that, one for the closing `}}}`.
pub open spec fn delimiter_tokens(s: Span, len: nat, ty: u32) -> Seq<(usize, usize, u32)> {
    let oe = open_end(s, len);
    seq![(s.start, oe as usize, ty)] + if s.end >= 3 && s.end - 3 > oe {
        seq![((s.end - 3) as usize, s.end, ty)]
    } else {
        seq![]
    }
}

/// The opening delimiter of brace-delimited elements.
pub open spec fn brace_opening(e: Element) -> Option<Seq<char>> {
    match e {
        Element::Literal(_) => Some("{{{"@),
        Element::Table(_) => Some("{{{#table"@),
        Element::List(_) => Some("{{{#list"@),
        Element::Fold(_) => Some("{{{#fold"@),
        Element::Styled(_) => Some("{{{#style"@),
        Element::Code(_) => Some("{{{#code"@),
        Element::Define(_) => Some("{{{#define"@),
        Element::If(_) => Some("{{{#if"@),
        Element::Include(_) => Some("{{{#include"@),
        Element::Category(_) => Some("{{{#category"@),
        Element::Redirect(_) => Some("{{{#redirect"@),
        Element::BlockQuote(_) => Some("{{{#blockquote"@),
        Element::Ruby(_) => Some("{{{#ruby"@),
        Element::Footnote(_) => Some("{{{#fn"@),
        _ => None,
    }
}

/// The token types of the legend, by index: one per element kind, then the
/// structural sub-elements, the condition nodes and the operators.
pub open spec fn token_type_names() -> Seq<Seq<char>> {
    seq![
        "text"@,
        "comment"@,
        "escape"@,
        "error"@,
        "literal"@,
        "define"@,
        "styled"@,
        "table"@,
        "list"@,
        "fold"@,
        "blockQuote"@,
        "ruby"@,
        "footnote"@,
        "code"@,
        "tex"@,
        "include"@,
        "category"@,
        "redirect"@,
        "media"@,
        "externalMedia"@,
        "null"@,
        "footnoteRef"@,
        "timeNow"@,
        "age"@,
        "variable"@,
        "mention"@,
        "bold"@,
        "italic"@,
        "strikethrough"@,
        "underline"@,
        "superscript"@,
        "subscript"@,
        "softBreak"@,
        "hardBreak"@,
        "hLine"@,
        "header"@,
        "if"@,
        "parameter"@,
        "tableRow"@,
        "tableCell"@,
        "conditionalTableRows"@,
        "conditionalTableCells"@,
        "listItem"@,
        "conditionalListItems"@,
        "foldInner"@,
        "exprOr"@,
        "exprAnd"@,
        "exprNot"@,
        "exprComparison"@,
        "exprFunctionCall"@,
        "exprStringLiteral"@,
        "exprNumberLiteral"@,
        "exprBoolLiteral"@,
        "exprNull"@,
        "exprGroup"@,
        "logicalOperator"@,
        "comparisonOperator"@,
    ]
}

/// The names of the token types, in legend order.
pub fn legend() -> (r: Vec<&'static str>)
    ensures
        r@.map_values(|n: &str| n@) == token_type_names(),
{
    let r = vec![
        "text",
        "comment",
        "escape",
        "error",
        "literal",
        "define",
        "styled",
        "table",
        "list",
        "fold",
        "blockQuote",
        "ruby",
        "footnote",
        "code",
        "tex",
        "include",
        "category",
        "redirect",
        "media",
        "externalMedia",
        "null",
        "footnoteRef",
        "timeNow",
        "age",
        "variable",
        "mention",
        "bold",
        "italic",
        "strikethrough",
        "underline",
        "superscript",
        "subscript",
        "softBreak",
        "hardBreak",
        "hLine",
        "header",
        "if",
        "parameter",
        "tableRow",
        "tableCell",
        "conditionalTableRows",
        "conditionalTableCells",
        "listItem",
        "conditionalListItems",
        "foldInner",
        "exprOr",
        "exprAnd",
        "exprNot",
        "exprComparison",
        "exprFunctionCall",
        "exprStringLiteral",
        "exprNumberLiteral",
        "exprBoolLiteral",
        "exprNull",
        "exprGroup",
        "logicalOperator",
        "comparisonOperator",
    ];
    assert(r@.map_values(|n: &str| n@) =~= token_type_names());
    r
}

/// The legend name of the token type of an element.
pub open spec fn element_type_name(e: Element) -> Seq<char> {
    match e {
        Element::Text(_) => "text"@,
        Element::Comment(_) => "comment"@,
        Element::Escape(_) => "escape"@,
        Element::Error(_) => "error"@,
        Element::Literal(_) => "literal"@,
        Element::Define(_) => "define"@,
        Element::Styled(_) => "styled"@,
        Element::Table(_) => "table"@,
        Element::List(_) => "list"@,
        Element::Fold(_) => "fold"@,
        Element::BlockQuote(_) => "blockQuote"@,
        Element::Ruby(_) => "ruby"@,
        Element::Footnote(_) => "footnote"@,
        Element::Code(_) => "code"@,
        Element::TeX(_) => "tex"@,
        Element::Include(_) => "include"@,
        Element::Category(_) => "category"@,
        Element::Redirect(_) => "redirect"@,
        Element::Media(_) => "media"@,
        Element::ExternalMedia(_) => "externalMedia"@,
        Element::Null(_) => "null"@,
        Element::FootnoteRef(_) => "footnoteRef"@,
        Element::TimeNow(_) => "timeNow"@,
        Element::Age(_) => "age"@,
        Element::Variable(_) => "variable"@,
        Element::Mention(_) => "mention"@,
        Element::Bold(_) => "bold"@,
        Element::Italic(_) => "italic"@,
        Element::Strikethrough(_) => "strikethrough"@,
        Element::Underline(_) => "underline"@,
        Element::Superscript(_) => "superscript"@,
        Element::Subscript(_) => "subscript"@,
        Element::SoftBreak(_) => "softBreak"@,
        Element::HardBreak(_) => "hardBreak"@,
        Element::HLine(_) => "hLine"@,
        Element::Header(_) => "header"@,
        Element::If(_) => "if"@,
    }
}

/// The token type of an element: the index of its name in the legend.
pub fn element_token_type(element: &Element) -> (r: u32)
    ensures
        r == element_type(*element),
        r < token_type_names().len(),
        token_type_names()[r as int] == element_type_name(*element),
{
    match element {
        Element::Text(_) => 0,
        Element::Comment(_) => 1,
        Element::Escape(_) => 2,
        Element::Error(_) => 3,
        Element::Literal(_) => 4,
        Element::Define(_) => 5,
        Element::Styled(_) => 6,
        Element::Table(_) => 7,
        Element::List(_) => 8,
        Element::Fold(_) => 9,
        Element::BlockQuote(_) => 10,
        Element::Ruby(_) => 11,
        Element::Footnote(_) => 12,
        Element::Code(_) => 13,
        Element::TeX(_) => 14,
        Element::Include(_) => 15,
        Element::Category(_) => 16,
        Element::Redirect(_) => 17,
        Element::Media(_) => 18,
        Element::ExternalMedia(_) => 19,
        Element::Null(_) => 20,
        Element::FootnoteRef(_) => 21,
        Element::TimeNow(_) => 22,
        Element::Age(_) => 23,
        Element::Variable(_) => 24,
        Element::Mention(_) => 25,
        Element::Bold(_) => 26,
        Element::Italic(_) => 27,
        Element::Strikethrough(_) => 28,
        Element::Underline(_) => 29,
        Element::Superscript(_) => 30,
        Element::Subscript(_) => 31,
        Element::SoftBreak(_) => 32,
        Element::HardBreak(_) => 33,
        Element::HLine(_) => 34,
        Element::Header(_) => 35,
        Element::If(_) => 36,
    }
}

/// The length in bytes of the opening delimiter of a brace-delimited
/// element (`{{{` or `{{{#` and its keyword); nothing for other elements.
pub fn brace_open_len(element: &Element) -> (r: Option<usize>)
    ensures
        match brace_opening(*element) {
            Some(o) => r is Some && r->0 as nat == o.len(),
            None => r is None,
        },
{
    proof {
        reveal_strlit("{{{");
        reveal_strlit("{{{#table");
        reveal_strlit("{{{#list");
        reveal_strlit("{{{#fold");
        reveal_strlit("{{{#style");
        reveal_strlit("{{{#code");
        reveal_strlit("{{{#define");
        reveal_strlit("{{{#if");
        reveal_strlit("{{{#include");
        reveal_strlit("{{{#category");
        reveal_strlit("{{{#redirect");
        reveal_strlit("{{{#blockquote");
        reveal_strlit("{{{#ruby");
        reveal_strlit("{{{#fn");
    }
    match element {
        Element::Literal(_) => Some(3),
        Element::Table(_) => Some(9),
        Element::List(_) => Some(8),
        Element::Fold(_) => Some(8),
        Element::Styled(_) => Some(9),
        Element::Code(_) => Some(8),
        Element::Define(_) => Some(10),
        Element::If(_) => Some(6),
        Element::Include(_) => Some(11),
        Element::Category(_) => Some(12),
        Element::Redirect(_) => Some(12),
        Element::BlockQuote(_) => Some(14),
        Element::Ruby(_) => Some(8),
        Element::Footnote(_) => Some(6),
        _ => None,
    }
}

/// The token type of an element.
pub open spec fn element_type(e: Element) -> u32 {
    match e {
        Element::Text(_) => 0,
        Element::Comment(_) => 1,
        Element::Escape(_) => 2,
        Element::Error(_) => 3,
        Element::Literal(_) => 4,
        Element::Define(_) => 5,
        Element::Styled(_) => 6,
        Element::Table(_) => 7,
        Element::List(_) => 8,
        Element::Fold(_) => 9,
        Element::BlockQuote(_) => 10,
        Element::Ruby(_) => 11,
        Element::Footnote(_) => 12,
        Element::Code(_) => 13,
        Element::TeX(_) => 14,
        Element::Include(_) => 15,
        Element::Category(_) => 16,
        Element::Redirect(_) => 17,
        Element::Media(_) => 18,
        Element::ExternalMedia(_) => 19,
        Element::Null(_) => 20,
        Element::FootnoteRef(_) => 21,
        Element::TimeNow(_) => 22,
        Element::Age(_) => 23,
        Element::Variable(_) => 24,
        Element::Mention(_) => 25,
        Element::Bold(_) => 26,
        Element::Italic(_) => 27,
        Element::Strikethrough(_) => 28,
        Element::Underline(_) => 29,
        Element::Superscript(_) => 30,
        Element::Subscript(_) => 31,
        Element::SoftBreak(_) => 32,
        Element::HardBreak(_) => 33,
        Element::HLine(_) => 34,
        Element::Header(_) => 35,
        Element::If(_) => 36,
    }
}

/// The tokens an element gives itself: none for text, which keeps the
/// default color; the opening and closing delimiters of brace-delimited
/// elements; the whole span of other elements.
pub open spec fn own_tokens(e: Element) -> Seq<(usize, usize, u32)> {
    if e is Text {
        seq![]
    } else {
        match brace_opening(e) {
            Some(o) => delimiter_tokens(element_span(e), o.len(), element_type(e)),
            None => span_token(element_span(e), element_type(e)),
        }
    }
}

/// The tokens of a sequence of elements, in order.
pub open spec fn elements_tokens(es: Seq<Element>) -> Seq<(usize, usize, u32)>
    decreases es,
{
    if es.len() == 0 {
        seq![]
    } else {
        elements_tokens(es.drop_last()) + element_tokens(es[es.len() - 1])
    }
}

/// The tokens of parameters: each parameter's span, then its value.
pub open spec fn parameters_tokens(ps: Seq<Parameter>) -> Seq<(usize, usize, u32)>
    decreases ps,
{
    if ps.len() == 0 {
        seq![]
    } else {
        let p = ps[ps.len() - 1];
        parameters_tokens(ps.drop_last()) + span_token(p.span, parameter_type())
            + elements_tokens(p.value@)
    }
}

/// The tokens of an element and everything in it: its own tokens, then its
/// parameters, then the condition of `if`, then its children and
/// sub-structures.
pub open spec fn element_tokens(e: Element) -> Seq<(usize, usize, u32)>
    decreases e,
{
    own_tokens(e) + match e {
        Element::Literal(c) => elements_tokens(c.children@),
        Element::Category(c) => elements_tokens(c.children@),
        Element::Bold(c) => elements_tokens(c.children@),
        Element::Italic(c) => elements_tokens(c.children@),
        Element::Strikethrough(c) => elements_tokens(c.children@),
        Element::Underline(c) => elements_tokens(c.children@),
        Element::Superscript(c) => elements_tokens(c.children@),
        Element::Subscript(c) => elements_tokens(c.children@),
        Element::Header(h) => elements_tokens(h.children@),
        Element::Styled(c) => parameters_tokens(c.parameters@) + elements_tokens(c.children@),
        Element::BlockQuote(c) => parameters_tokens(c.parameters@) + elements_tokens(c.children@),
        Element::Ruby(c) => parameters_tokens(c.parameters@) + elements_tokens(c.children@),
        Element::Footnote(c) => parameters_tokens(c.parameters@) + elements_tokens(c.children@),
        Element::Include(c) => parameters_tokens(c.parameters@) + elements_tokens(c.children@),
        Element::Redirect(c) => parameters_tokens(c.parameters@) + elements_tokens(c.children@),
        Element::Media(c) => parameters_tokens(c.parameters@) + elements_tokens(c.children@),
        Element::Define(l) => parameters_tokens(l.parameters@),
        Element::Code(l) => parameters_tokens(l.parameters@),
        Element::ExternalMedia(x) => parameters_tokens(x.parameters@),
        Element::Table(t) => parameters_tokens(t.parameters@) + row_items_tokens(t.children@),
        Element::List(l) => parameters_tokens(l.parameters@) + list_contents_tokens(l.children@),
        Element::Fold(f) => parameters_tokens(f.parameters@) + fold_inner_tokens(f.summary)
            + fold_inner_tokens(f.details),
        Element::If(i) => expression_tokens(i.condition) + elements_tokens(i.children@),
        _ => seq![],
    }
}

/// The tokens of the entries of a table.
pub open spec fn row_items_tokens(items: Seq<TableRowItem>) -> Seq<(usize, usize, u32)>
    decreases items,
{
    if items.len() == 0 {
        seq![]
    } else {
        row_items_tokens(items.drop_last()) + match items[items.len() - 1] {
            TableRowItem::Row(r) => row_tokens(r),
            TableRowItem::Conditional(c) => conditional_rows_tokens(c),
        }
    }
}

/// The tokens of rows.
pub open spec fn rows_tokens(rows: Seq<TableRow>) -> Seq<(usize, usize, u32)>
    decreases rows,
{
    if rows.len() == 0 {
        seq![]
    } else {
        rows_tokens(rows.drop_last()) + row_tokens(rows[rows.len() - 1])
    }
}

/// The tokens of a row: its span, its parameters, its entries.
pub open spec fn row_tokens(r: TableRow) -> Seq<(usize, usize, u32)>
    decreases r,
{
    span_token(r.span, table_row_type()) + parameters_tokens(r.parameters@) + cell_items_tokens(
        r.children@,
    )
}

/// The tokens of conditional rows: their delimiters, condition and rows.
pub open spec fn conditional_rows_tokens(c: ConditionalTableRows) -> Seq<(usize, usize, u32)>
    decreases c,
{
    delimiter_tokens(c.span, 6, conditional_rows_type()) + expression_tokens(c.condition)
        + rows_tokens(c.rows@)
}

/// The tokens of the entries of a row.
pub open spec fn cell_items_tokens(items: Seq<TableCellItem>) -> Seq<(usize, usize, u32)>
    decreases items,
{
    if items.len() == 0 {
        seq![]
    } else {
        cell_items_tokens(items.drop_last()) + match items[items.len() - 1] {
            TableCellItem::Cell(c) => cell_tokens(c),
            TableCellItem::Conditional(c) => conditional_cells_tokens(c),
        }
    }
}

/// The tokens of cells.
pub open spec fn cells_tokens(cells: Seq<TableCell>) -> Seq<(usize, usize, u32)>
    decreases cells,
{
    if cells.len() == 0 {
        seq![]
    } else {
        cells_tokens(cells.drop_last()) + cell_tokens(cells[cells.len() - 1])
    }
}

/// The tokens of a cell: its span, parameters, `x`, `y` and content.
pub open spec fn cell_tokens(c: TableCell) -> Seq<(usize, usize, u32)>
    decreases c,
{
    span_token(c.span, table_cell_type()) + parameters_tokens(c.parameters@) + elements_tokens(
        c.x@,
    ) + elements_tokens(c.y@) + elements_tokens(c.children@)
}

/// The tokens of conditional cells: their delimiters, condition and cells.
pub open spec fn conditional_cells_tokens(c: ConditionalTableCells) -> Seq<(usize, usize, u32)>
    decreases c,
{
    delimiter_tokens(c.span, 6, conditional_cells_type()) + expression_tokens(c.condition)
        + cells_tokens(c.cells@)
}

/// The tokens of the entries of a list.
pub open spec fn list_contents_tokens(items: Seq<ListContentItem>) -> Seq<(usize, usize, u32)>
    decreases items,
{
    if items.len() == 0 {
        seq![]
    } else {
        list_contents_tokens(items.drop_last()) + match items[items.len() - 1] {
            ListContentItem::Item(li) => list_item_tokens(li),
            ListContentItem::Conditional(c) => conditional_items_tokens(c),
        }
    }
}

/// The tokens of list items.
pub open spec fn list_items_tokens(items: Seq<ListItem>) -> Seq<(usize, usize, u32)>
    decreases items,
{
    if items.len() == 0 {
        seq![]
    } else {
        list_items_tokens(items.drop_last()) + list_item_tokens(items[items.len() - 1])
    }
}

/// The tokens of a list item: its span, parameters and content.
pub open spec fn list_item_tokens(li: ListItem) -> Seq<(usize, usize, u32)>
    decreases li,
{
    span_token(li.span, list_item_type()) + parameters_tokens(li.parameters@) + elements_tokens(
        li.children@,
    )
}

/// The tokens of conditional list items: delimiters, condition and items.
pub open spec fn conditional_items_tokens(c: ConditionalListItems) -> Seq<(usize, usize, u32)>
    decreases c,
{
    delimiter_tokens(c.span, 6, conditional_items_type()) + expression_tokens(c.condition)
        + list_items_tokens(c.items@)
}

/// The tokens of the summary or details of a fold.
pub open spec fn fold_inner_tokens(f: FoldInner) -> Seq<(usize, usize, u32)>
    decreases f,
{
    span_token(f.span, fold_inner_type()) + parameters_tokens(f.parameters@) + elements_tokens(
        f.children@,
    )
}

/// The tokens of condition nodes.
pub open spec fn expressions_tokens(xs: Seq<Expression>) -> Seq<(usize, usize, u32)>
    decreases xs,
{
    if xs.len() == 0 {
        seq![]
    } else {
        expressions_tokens(xs.drop_last()) + expression_tokens(xs[xs.len() - 1])
    }
}

/// The tokens of a condition: each node's span with its own type, the
/// operators, then the operands in order.
pub open spec fn expression_tokens(x: Expression) -> Seq<(usize, usize, u32)>
    decreases x,
{
    match x {
        Expression::Or { span, operator, left, right } => span_token(span, 45) + span_token(
            operator,
            logical_operator_type(),
        ) + expression_tokens(*left) + expression_tokens(*right),
        Expression::And { span, operator, left, right } => span_token(span, 46) + span_token(
            operator,
            logical_operator_type(),
        ) + expression_tokens(*left) + expression_tokens(*right),
        Expression::Not { span, operator, inner } => span_token(span, 47) + span_token(
            operator,
            logical_operator_type(),
        ) + expression_tokens(*inner),
        Expression::Comparison { span, operator, left, right } => span_token(span, 48)
            + span_token(operator, comparison_operator_type()) + expression_tokens(*left)
            + expression_tokens(*right),
        Expression::FunctionCall { span, arguments } => span_token(span, 49) + expressions_tokens(
            arguments@,
        ),
        Expression::StringLiteral { span, value } => span_token(span, 50) + elements_tokens(
            value@,
        ),
        Expression::NumberLiteral { span } => span_token(span, 51),
        Expression::BoolLiteral { span } => span_token(span, 52),
        Expression::Null { span } => span_token(span, 53),
        Expression::Group { span, inner } => span_token(span, 54) + expression_tokens(*inner),
        Expression::Element(e) => element_tokens(*e),
    }
}

/// Every token has a type of the legend other than text (legend index 0).
pub open spec fn legend_typed(ts: Seq<(usize, usize, u32)>) -> bool {
    forall|i: int| 0 <= i < ts.len() ==> 0 < #[trigger] ts[i].2 && ts[i].2 < 57
}

/// Joining tokens with legend types gives tokens with legend types.
pub broadcast proof fn lemma_typed_concat(a: Seq<(usize, usize, u32)>, b: Seq<(usize, usize, u32)>)
    requires
        legend_typed(a),
        legend_typed(b),
    ensures
        #[trigger] legend_typed(a + b),
{
    assert forall|i: int| 0 <= i < (a + b).len() implies 0 < #[trigger] (a + b)[i].2 && (a
        + b)[i].2 < 57 by {
        if i < a.len() {
            assert((a + b)[i] == a[i]);
        } else {
            assert((a + b)[i] == b[i - a.len()]);
        }
    }
}

proof fn lemma_own_typed(e: Element)
    ensures
        legend_typed(own_tokens(e)),
{
    broadcast use lemma_typed_concat;

    if !(e is Text) {
        match brace_opening(e) {
            Some(o) => {
                let s = element_span(e);
                let oe = open_end(s, o.len());
                assert(legend_typed(seq![(s.start, oe as usize, element_type(e))]));
                if s.end >= 3 && s.end - 3 > oe {
                    assert(legend_typed(seq![((s.end - 3) as usize, s.end, element_type(e))]));
                } else {
                    assert(legend_typed(Seq::<(usize, usize, u32)>::empty()));
                }
            },
            None => {},
        }
    }
}

proof fn lemma_delimiters_typed(s: Span, len: nat, ty: u32)
    requires
        0 < ty < 57,
    ensures
        legend_typed(delimiter_tokens(s, len, ty)),
{
    broadcast use lemma_typed_concat;

    let oe = open_end(s, len);
    assert(legend_typed(seq![(s.start, oe as usize, ty)]));
    assert(legend_typed(seq![((s.end - 3) as usize, s.end, ty)]));
    assert(legend_typed(Seq::<(usize, usize, u32)>::empty()));
}

proof fn lemma_elements_typed(es: Seq<Element>)
    ensures
        legend_typed(elements_tokens(es)),
    decreases es,
{
    broadcast use lemma_typed_concat;

    if es.len() > 0 {
        lemma_elements_typed(es.drop_last());
        lemma_element_typed(es[es.len() - 1]);
    }
}

proof fn lemma_parameters_typed(ps: Seq<Parameter>)
    ensures
        legend_typed(parameters_tokens(ps)),
    decreases ps,
{
    broadcast use lemma_typed_concat;

    if ps.len() > 0 {
        let p = ps[ps.len() - 1];
        lemma_parameters_typed(ps.drop_last());
        lemma_elements_typed(p.value@);
        assert(legend_typed(span_token(p.span, parameter_type())));
    }
}

proof fn lemma_element_typed(e: Element)
    ensures
        legend_typed(element_tokens(e)),
    decreases e,
{
    broadcast use lemma_typed_concat;

    lemma_own_typed(e);
    match e {
        Element::Literal(c) => lemma_elements_typed(c.children@),
        Element::Category(c) => lemma_elements_typed(c.children@),
        Element::Bold(c) => lemma_elements_typed(c.children@),
        Element::Italic(c) => lemma_elements_typed(c.children@),
        Element::Strikethrough(c) => lemma_elements_typed(c.children@),
        Element::Underline(c) => lemma_elements_typed(c.children@),
        Element::Superscript(c) => lemma_elements_typed(c.children@),
        Element::Subscript(c) => lemma_elements_typed(c.children@),
        Element::Header(h) => lemma_elements_typed(h.children@),
        Element::Styled(c) | Element::BlockQuote(c) | Element::Ruby(c) | Element::Footnote(c)
        | Element::Include(c) | Element::Redirect(c) | Element::Media(c) => {
            lemma_parameters_typed(c.parameters@);
            lemma_elements_typed(c.children@);
        },
        Element::Define(l) | Element::Code(l) => {
            lemma_parameters_typed(l.parameters@);
        },
        Element::ExternalMedia(x) => {
            lemma_parameters_typed(x.parameters@);
        },
        Element::Table(t) => {
            lemma_parameters_typed(t.parameters@);
            lemma_row_items_typed(t.children@);
        },
        Element::List(l) => {
            lemma_parameters_typed(l.parameters@);
            lemma_list_contents_typed(l.children@);
        },
        Element::Fold(f) => {
            lemma_parameters_typed(f.parameters@);
            lemma_fold_inner_typed(f.summary);
            lemma_fold_inner_typed(f.details);
        },
        Element::If(i) => {
            lemma_expression_typed(i.condition);
            lemma_elements_typed(i.children@);
        },
        _ => {
            assert(legend_typed(Seq::<(usize, usize, u32)>::empty()));
        },
    }
}

proof fn lemma_row_items_typed(items: Seq<TableRowItem>)
    ensures
        legend_typed(row_items_tokens(items)),
    decreases items,
{
    broadcast use lemma_typed_concat;

    if items.len() > 0 {
        lemma_row_items_typed(items.drop_last());
        match items[items.len() - 1] {
            TableRowItem::Row(r) => lemma_row_typed(r),
            TableRowItem::Conditional(c) => lemma_conditional_rows_typed(c),
        }
    }
}

proof fn lemma_rows_typed(rows: Seq<TableRow>)
    ensures
        legend_typed(rows_tokens(rows)),
    decreases rows,
{
    broadcast use lemma_typed_concat;

    if rows.len() > 0 {
        lemma_rows_typed(rows.drop_last());
        lemma_row_typed(rows[rows.len() - 1]);
    }
}

proof fn lemma_row_typed(r: TableRow)
    ensures
        legend_typed(row_tokens(r)),
    decreases r,
{
    broadcast use lemma_typed_concat;

    assert(legend_typed(span_token(r.span, table_row_type())));
    lemma_parameters_typed(r.parameters@);
    lemma_cell_items_typed(r.children@);
}

proof fn lemma_conditional_rows_typed(c: ConditionalTableRows)
    ensures
        legend_typed(conditional_rows_tokens(c)),
    decreases c,
{
    broadcast use lemma_typed_concat;

    lemma_delimiters_typed(c.span, 6, conditional_rows_type());
    lemma_expression_typed(c.condition);
    lemma_rows_typed(c.rows@);
}

proof fn lemma_cell_items_typed(items: Seq<TableCellItem>)
    ensures
        legend_typed(cell_items_tokens(items)),
    decreases items,
{
    broadcast use lemma_typed_concat;

    if items.len() > 0 {
        lemma_cell_items_typed(items.drop_last());
        match items[items.len() - 1] {
            TableCellItem::Cell(c) => lemma_cell_typed(c),
            TableCellItem::Conditional(c) => lemma_conditional_cells_typed(c),
        }
    }
}

proof fn lemma_cells_typed(cells: Seq<TableCell>)
    ensures
        legend_typed(cells_tokens(cells)),
    decreases cells,
{
    broadcast use lemma_typed_concat;

    if cells.len() > 0 {
        lemma_cells_typed(cells.drop_last());
        lemma_cell_typed(cells[cells.len() - 1]);
    }
}

proof fn lemma_cell_typed(c: TableCell)
    ensures
        legend_typed(cell_tokens(c)),
    decreases c,
{
    broadcast use lemma_typed_concat;

    assert(legend_typed(span_token(c.span, table_cell_type())));
    lemma_parameters_typed(c.parameters@);
    lemma_elements_typed(c.x@);
    lemma_elements_typed(c.y@);
    lemma_elements_typed(c.children@);
}

proof fn lemma_conditional_cells_typed(c: ConditionalTableCells)
    ensures
        legend_typed(conditional_cells_tokens(c)),
    decreases c,
{
    broadcast use lemma_typed_concat;

    lemma_delimiters_typed(c.span, 6, conditional_cells_type());
    lemma_expression_typed(c.condition);
    lemma_cells_typed(c.cells@);
}

proof fn lemma_list_contents_typed(items: Seq<ListContentItem>)
    ensures
        legend_typed(list_contents_tokens(items)),
    decreases items,
{
    broadcast use lemma_typed_concat;

    if items.len() > 0 {
        lemma_list_contents_typed(items.drop_last());
        match items[items.len() - 1] {
            ListContentItem::Item(li) => lemma_list_item_typed(li),
            ListContentItem::Conditional(c) => lemma_conditional_items_typed(c),
        }
    }
}

proof fn lemma_list_items_typed(items: Seq<ListItem>)
    ensures
        legend_typed(list_items_tokens(items)),
    decreases items,
{
    broadcast use lemma_typed_concat;

    if items.len() > 0 {
        lemma_list_items_typed(items.drop_last());
        lemma_list_item_typed(items[items.len() - 1]);
    }
}

proof fn lemma_list_item_typed(li: ListItem)
    ensures
        legend_typed(list_item_tokens(li)),
    decreases li,
{
    broadcast use lemma_typed_concat;

    assert(legend_typed(span_token(li.span, list_item_type())));
    lemma_parameters_typed(li.parameters@);
    lemma_elements_typed(li.children@);
}

proof fn lemma_conditional_items_typed(c: ConditionalListItems)
    ensures
        legend_typed(conditional_items_tokens(c)),
    decreases c,
{
    broadcast use lemma_typed_concat;

    lemma_delimiters_typed(c.span, 6, conditional_items_type());
    lemma_expression_typed(c.condition);
    lemma_list_items_typed(c.items@);
}

proof fn lemma_fold_inner_typed(f: FoldInner)
    ensures
        legend_typed(fold_inner_tokens(f)),
    decreases f,
{
    broadcast use lemma_typed_concat;

    assert(legend_typed(span_token(f.span, fold_inner_type())));
    lemma_parameters_typed(f.parameters@);
    lemma_elements_typed(f.children@);
}

proof fn lemma_expressions_typed(xs: Seq<Expression>)
    ensures
        legend_typed(expressions_tokens(xs)),
    decreases xs,
{
    broadcast use lemma_typed_concat;

    if xs.len() > 0 {
        lemma_expressions_typed(xs.drop_last());
        lemma_expression_typed(xs[xs.len() - 1]);
    }
}

proof fn lemma_expression_typed(x: Expression)
    ensures
        legend_typed(expression_tokens(x)),
    decreases x,
{
    broadcast use lemma_typed_concat;

    match x {
        Expression::Or { span, operator, left, right } => {
            assert(legend_typed(span_token(span, 45)));
            assert(legend_typed(span_token(operator, logical_operator_type())));
            lemma_expression_typed(*left);
            lemma_expression_typed(*right);
        },
        Expression::And { span, operator, left, right } => {
            assert(legend_typed(span_token(span, 46)));
            assert(legend_typed(span_token(operator, logical_operator_type())));
            lemma_expression_typed(*left);
            lemma_expression_typed(*right);
        },
        Expression::Not { span, operator, inner } => {
            assert(legend_typed(span_token(span, 47)));
            assert(legend_typed(span_token(operator, logical_operator_type())));
            lemma_expression_typed(*inner);
        },
        Expression::Comparison { span, operator, left, right } => {
            assert(legend_typed(span_token(span, 48)));
            assert(legend_typed(span_token(operator, comparison_operator_type())));
            lemma_expression_typed(*left);
            lemma_expression_typed(*right);
        },
        Expression::FunctionCall { span, arguments } => {
            assert(legend_typed(span_token(span, 49)));
            lemma_expressions_typed(arguments@);
        },
        Expression::StringLiteral { span, value } => {
            assert(legend_typed(span_token(span, 50)));
            lemma_elements_typed(value@);
        },
        Expression::NumberLiteral { span } => {
            assert(legend_typed(span_token(span, 51)));
        },
        Expression::BoolLiteral { span } => {
            assert(legend_typed(span_token(span, 52)));
        },
        Expression::Null { span } => {
            assert(legend_typed(span_token(span, 53)));
        },
        Expression::Group { span, inner } => {
            assert(legend_typed(span_token(span, 54)));
            lemma_expression_typed(*inner);
        },
        Expression::Element(e) => lemma_element_typed(*e),
    }
}

/// Every element is marked with the legend type named after its own kind,
/// and parameters, table rows and cells, conditional rows, cells and items,
/// list items and fold sections with theirs.
pub proof fn lemma_element_types_name_their_kind(e: Element)
    ensures
        element_type(e) < token_type_names().len(),
        e is Text ==> token_type_names()[element_type(e) as int] == "text"@,
        e is Comment ==> token_type_names()[element_type(e) as int] == "comment"@,
        e is Escape ==> token_type_names()[element_type(e) as int] == "escape"@,
        e is Error ==> token_type_names()[element_type(e) as int] == "error"@,
        e is Literal ==> token_type_names()[element_type(e) as int] == "literal"@,
        e is Define ==> token_type_names()[element_type(e) as int] == "define"@,
        e is Styled ==> token_type_names()[element_type(e) as int] == "styled"@,
        e is Table ==> token_type_names()[element_type(e) as int] == "table"@,
        e is List ==> token_type_names()[element_type(e) as int] == "list"@,
        e is Fold ==> token_type_names()[element_type(e) as int] == "fold"@,
        e is BlockQuote ==> token_type_names()[element_type(e) as int] == "blockQuote"@,
        e is Ruby ==> token_type_names()[element_type(e) as int] == "ruby"@,
        e is Footnote ==> token_type_names()[element_type(e) as int] == "footnote"@,
        e is Code ==> token_type_names()[element_type(e) as int] == "code"@,
        e is TeX ==> token_type_names()[element_type(e) as int] == "tex"@,
        e is Include ==> token_type_names()[element_type(e) as int] == "include"@,
        e is Category ==> token_type_names()[element_type(e) as int] == "category"@,
        e is Redirect ==> token_type_names()[element_type(e) as int] == "redirect"@,
        e is Media ==> token_type_names()[element_type(e) as int] == "media"@,
        e is ExternalMedia ==> token_type_names()[element_type(e) as int] == "externalMedia"@,
        e is Null ==> token_type_names()[element_type(e) as int] == "null"@,
        e is FootnoteRef ==> token_type_names()[element_type(e) as int] == "footnoteRef"@,
        e is TimeNow ==> token_type_names()[element_type(e) as int] == "timeNow"@,
        e is Age ==> token_type_names()[element_type(e) as int] == "age"@,
        e is Variable ==> token_type_names()[element_type(e) as int] == "variable"@,
        e is Mention ==> token_type_names()[element_type(e) as int] == "mention"@,
        e is Bold ==> token_type_names()[element_type(e) as int] == "bold"@,
        e is Italic ==> token_type_names()[element_type(e) as int] == "italic"@,
        e is Strikethrough ==> token_type_names()[element_type(e) as int] == "strikethrough"@,
        e is Underline ==> token_type_names()[element_type(e) as int] == "underline"@,
        e is Superscript ==> token_type_names()[element_type(e) as int] == "superscript"@,
        e is Subscript ==> token_type_names()[element_type(e) as int] == "subscript"@,
        e is SoftBreak ==> token_type_names()[element_type(e) as int] == "softBreak"@,
        e is HardBreak ==> token_type_names()[element_type(e) as int] == "hardBreak"@,
        e is HLine ==> token_type_names()[element_type(e) as int] == "hLine"@,
        e is Header ==> token_type_names()[element_type(e) as int] == "header"@,
        e is If ==> token_type_names()[element_type(e) as int] == "if"@,
        token_type_names()[parameter_type() as int] == "parameter"@,
        token_type_names()[table_row_type() as int] == "tableRow"@,
        token_type_names()[table_cell_type() as int] == "tableCell"@,
        token_type_names()[conditional_rows_type() as int] == "conditionalTableRows"@,
        token_type_names()[conditional_cells_type() as int] == "conditionalTableCells"@,
        token_type_names()[list_item_type() as int] == "listItem"@,
        token_type_names()[conditional_items_type() as int] == "conditionalListItems"@,
        token_type_names()[fold_inner_type() as int] == "foldInner"@,
        token_type_names()[logical_operator_type() as int] == "logicalOperator"@,
        token_type_names()[comparison_operator_type() as int] == "comparisonOperator"@,
{
}

/// `t` covers span `s` with the legend type named `name`.
pub open spec fn names_type(t: (usize, usize, u32), s: Span, name: Seq<char>) -> bool {
    &&& t.0 == s.start
    &&& t.1 == s.end
    &&& t.2 < token_type_names().len()
    &&& token_type_names()[t.2 as int] == name
}

/// Every node of a condition is marked first over its whole span with the
/// legend type of its own kind (`exprOr`, `exprAnd`, `exprNot`, ...), and
/// the operator of a logical or comparison node next, with the logical or
/// comparison operator type.
pub proof fn lemma_condition_nodes_have_their_own_types(x: Expression)
    ensures
        x matches Expression::Or { span, operator, .. } ==> expression_tokens(x).len() >= 2
            && names_type(expression_tokens(x)[0], span, "exprOr"@) && names_type(
            expression_tokens(x)[1],
            operator,
            "logicalOperator"@,
        ),
        x matches Expression::And { span, operator, .. } ==> expression_tokens(x).len() >= 2
            && names_type(expression_tokens(x)[0], span, "exprAnd"@) && names_type(
            expression_tokens(x)[1],
            operator,
            "logicalOperator"@,
        ),
        x matches Expression::Not { span, operator, .. } ==> expression_tokens(x).len() >= 2
            && names_type(expression_tokens(x)[0], span, "exprNot"@) && names_type(
            expression_tokens(x)[1],
            operator,
            "logicalOperator"@,
        ),
        x matches Expression::Comparison { span, operator, .. } ==> expression_tokens(x).len()
            >= 2 && names_type(expression_tokens(x)[0], span, "exprComparison"@) && names_type(
            expression_tokens(x)[1],
            operator,
            "comparisonOperator"@,
        ),
        x matches Expression::FunctionCall { span, .. } ==> expression_tokens(x).len() >= 1
            && names_type(expression_tokens(x)[0], span, "exprFunctionCall"@),
        x matches Expression::StringLiteral { span, .. } ==> expression_tokens(x).len() >= 1
            && names_type(expression_tokens(x)[0], span, "exprStringLiteral"@),
        x matches Expression::NumberLiteral { span } ==> expression_tokens(x).len() == 1
            && names_type(expression_tokens(x)[0], span, "exprNumberLiteral"@),
        x matches Expression::BoolLiteral { span } ==> expression_tokens(x).len() == 1
            && names_type(expression_tokens(x)[0], span, "exprBoolLiteral"@),
        x matches Expression::Null { span } ==> expression_tokens(x).len() == 1 && names_type(
            expression_tokens(x)[0],
            span,
            "exprNull"@,
        ),
        x matches Expression::Group { span, .. } ==> expression_tokens(x).len() >= 1
            && names_type(expression_tokens(x)[0], span, "exprGroup"@),
{
}

/// No semantic token has the text type, and every token's type is an
/// index of the legend.
pub proof fn lemma_tokens_have_legend_types(elements: Seq<Element>)
    ensures
        legend_typed(elements_tokens(elements)),
        token_type_names().len() == 57,
{
    lemma_elements_typed(elements);
}

/// Appends the delimiter tokens of a brace-delimited node.
#[verifier::spinoff_prover]
fn push_delimiters(raw: &mut Vec<(usize, usize, u32)>, s: Span, len: usize, ty: u32)
    ensures
        final(raw)@ == old(raw)@ + delimiter_tokens(s, len as nat, ty),
{
    let oe = if len <= s.end && s.start <= s.end - len {
        s.start + len
    } else {
        s.end
    };
    raw.push((s.start, oe, ty));
    if s.end >= 3 {
        let close_start = s.end - 3;
        if close_start > oe {
            raw.push((close_start, s.end, ty));
        }
    }
    assert(final(raw)@ =~= old(raw)@ + delimiter_tokens(s, len as nat, ty));
}

/// Appends the tokens of a sequence of elements.
#[verifier::spinoff_prover]
fn walk_elements(elements: &Vec<Element>, raw: &mut Vec<(usize, usize, u32)>)
    ensures
        final(raw)@ == old(raw)@ + elements_tokens(elements@),
    decreases elements,
{
    let ghost start = raw@;
    let mut i: usize = 0;
    while i < elements.len()
        invariant
            i <= elements.len(),
            raw@ == start + elements_tokens(elements@.take(i as int)),
        decreases elements.len() - i,
    {
        proof {
            vstd::std_specs::vec::axiom_vec_index_decreases(*elements, i as int);
            assert(elements@.take(i + 1).drop_last() =~= elements@.take(i as int));
            assert(elements@.take(i + 1)[i as int] == elements@[i as int]);
        }
        walk_element(&elements[i], raw);
        assert(raw@ =~= start + elements_tokens(elements@.take(i + 1)));
        i = i + 1;
    }
    assert(elements@.take(i as int) =~= elements@);
}

/// Appends the tokens of parameters.
#[verifier::spinoff_prover]
fn walk_parameters(params: &Vec<Parameter>, raw: &mut Vec<(usize, usize, u32)>)
    ensures
        final(raw)@ == old(raw)@ + parameters_tokens(params@),
    decreases params,
{
    let ghost start = raw@;
    let mut i: usize = 0;
    while i < params.len()
        invariant
            i <= params.len(),
            raw@ == start + parameters_tokens(params@.take(i as int)),
        decreases params.len() - i,
    {
        proof {
            vstd::std_specs::vec::axiom_vec_index_decreases(*params, i as int);
            assert(params@.take(i + 1).drop_last() =~= params@.take(i as int));
            assert(params@.take(i + 1)[i as int] == params@[i as int]);
        }
        let p = &params[i];
        raw.push((p.span.start, p.span.end, 37));
        walk_elements(&p.value, raw);
        assert(raw@ =~= start + parameters_tokens(params@.take(i + 1)));
        i = i + 1;
    }
    assert(params@.take(i as int) =~= params@);
}

/// Appends the tokens an element gives itself.
#[verifier::spinoff_prover]
fn push_own_tokens(element: &Element, raw: &mut Vec<(usize, usize, u32)>)
    ensures
        final(raw)@ == old(raw)@ + own_tokens(*element),
{
    if let Element::Text(_) = element {
        assert(own_tokens(*element) =~= seq![]);
        assert(raw@ =~= old(raw)@ + own_tokens(*element));
        return;
    }
    assert(!(*element is Text));
    let span = element.span();
    let token_type = element_token_type(element);
    match brace_open_len(element) {
        Some(len) => {
            proof {
                let o = brace_opening(*element)->0;
                assert(brace_opening(*element) == Some(o));
                assert(len as nat == o.len());
                assert(own_tokens(*element) == delimiter_tokens(span, o.len(), token_type));
            }
            push_delimiters(raw, span, len, token_type);
        },
        None => {
            assert(brace_opening(*element) is None);
            assert(own_tokens(*element) == span_token(span, token_type));
            raw.push((span.start, span.end, token_type));
            assert(raw@ =~= old(raw)@ + own_tokens(*element));
        },
    }
}

/// Appends the tokens of an element and of everything in it.
#[verifier::spinoff_prover]
fn walk_element(element: &Element, raw: &mut Vec<(usize, usize, u32)>)
    ensures
        final(raw)@ == old(raw)@ + element_tokens(*element),
    decreases element,
{
    let ghost start = raw@;
    push_own_tokens(element, raw);
    match element {
        Element::Literal(c) | Element::Category(c) | Element::Bold(c) | Element::Italic(c)
        | Element::Strikethrough(c) | Element::Underline(c) | Element::Superscript(c)
        | Element::Subscript(c) => {
            walk_elements(&c.children, raw);
        },
        Element::Header(h) => {
            walk_elements(&h.children, raw);
        },
        Element::Styled(c) | Element::BlockQuote(c) | Element::Ruby(c) | Element::Footnote(c)
        | Element::Include(c) | Element::Redirect(c) | Element::Media(c) => {
            walk_parameters(&c.parameters, raw);
            walk_elements(&c.children, raw);
        },
        Element::Define(l) | Element::Code(l) => {
            walk_parameters(&l.parameters, raw);
        },
        Element::ExternalMedia(x) => {
            walk_parameters(&x.parameters, raw);
        },
        Element::Table(t) => {
            walk_parameters(&t.parameters, raw);
            walk_row_items(&t.children, raw);
        },
        Element::List(l) => {
            walk_parameters(&l.parameters, raw);
            walk_list_contents(&l.children, raw);
        },
        Element::Fold(f) => {
            walk_parameters(&f.parameters, raw);
            walk_fold_inner(&f.summary, raw);
            walk_fold_inner(&f.details, raw);
        },
        Element::If(i) => {
            walk_expression(&i.condition, raw);
            walk_elements(&i.children, raw);
        },
        _ => {},
    }
    assert(raw@ =~= start + element_tokens(*element));
}

/// Appends the tokens of the entries of a table.
#[verifier::spinoff_prover]
fn walk_row_items(items: &Vec<TableRowItem>, raw: &mut Vec<(usize, usize, u32)>)
    ensures
        final(raw)@ == old(raw)@ + row_items_tokens(items@),
    decreases items,
{
    let ghost start = raw@;
    let mut i: usize = 0;
    while i < items.len()
        invariant
            i <= items.len(),
            raw@ == start + row_items_tokens(items@.take(i as int)),
        decreases items.len() - i,
    {
        proof {
            vstd::std_specs::vec::axiom_vec_index_decreases(*items, i as int);
            assert(items@.take(i + 1).drop_last() =~= items@.take(i as int));
            assert(items@.take(i + 1)[i as int] == items@[i as int]);
        }
        match &items[i] {
            TableRowItem::Row(r) => walk_table_row(r, raw),
            TableRowItem::Conditional(c) => walk_conditional_table_rows(c, raw),
        }
        assert(raw@ =~= start + row_items_tokens(items@.take(i + 1)));
        i = i + 1;
    }
    assert(items@.take(i as int) =~= items@);
}

/// Appends the tokens of a table row.
#[verifier::spinoff_prover]
fn walk_table_row(row: &TableRow, raw: &mut Vec<(usize, usize, u32)>)
    ensures
        final(raw)@ == old(raw)@ + row_tokens(*row),
    decreases row,
{
    let ghost start = raw@;
    raw.push((row.span.start, row.span.end, 38));
    walk_parameters(&row.parameters, raw);
    walk_cell_items(&row.children, raw);
    assert(raw@ =~= start + row_tokens(*row));
}

/// Appends the tokens of rows.
#[verifier::spinoff_prover]
fn walk_table_rows(rows: &Vec<TableRow>, raw: &mut Vec<(usize, usize, u32)>)
    ensures
        final(raw)@ == old(raw)@ + rows_tokens(rows@),
    decreases rows,
{
    let ghost start = raw@;
    let mut i: usize = 0;
    while i < rows.len()
        invariant
            i <= rows.len(),
            raw@ == start + rows_tokens(rows@.take(i as int)),
        decreases rows.len() - i,
    {
        proof {
            vstd::std_specs::vec::axiom_vec_index_decreases(*rows, i as int);
            assert(rows@.take(i + 1).drop_last() =~= rows@.take(i as int));
            assert(rows@.take(i + 1)[i as int] == rows@[i as int]);
        }
        walk_table_row(&rows[i], raw);
        assert(raw@ =~= start + rows_tokens(rows@.take(i + 1)));
        i = i + 1;
    }
    assert(rows@.take(i as int) =~= rows@);
}

/// Appends the tokens of conditional rows.
#[verifier::spinoff_prover]
fn walk_conditional_table_rows(cond: &ConditionalTableRows, raw: &mut Vec<(usize, usize, u32)>)
    ensures
        final(raw)@ == old(raw)@ + conditional_rows_tokens(*cond),
    decreases cond,
{
    let ghost start = raw@;
    push_delimiters(raw, cond.span, 6, 40);
    walk_expression(&cond.condition, raw);
    walk_table_rows(&cond.rows, raw);
    assert(raw@ =~= start + conditional_rows_tokens(*cond));
}

/// Appends the tokens of the entries of a row.
#[verifier::spinoff_prover]
fn walk_cell_items(items: &Vec<TableCellItem>, raw: &mut Vec<(usize, usize, u32)>)
    ensures
        final(raw)@ == old(raw)@ + cell_items_tokens(items@),
    decreases items,
{
    let ghost start = raw@;
    let mut i: usize = 0;
    while i < items.len()
        invariant
            i <= items.len(),
            raw@ == start + cell_items_tokens(items@.take(i as int)),
        decreases items.len() - i,
    {
        proof {
            vstd::std_specs::vec::axiom_vec_index_decreases(*items, i as int);
            assert(items@.take(i + 1).drop_last() =~= items@.take(i as int));
            assert(items@.take(i + 1)[i as int] == items@[i as int]);
        }
        match &items[i] {
            TableCellItem::Cell(c) => walk_table_cell(c, raw),
            TableCellItem::Conditional(c) => walk_conditional_table_cells(c, raw),
        }
        assert(raw@ =~= start + cell_items_tokens(items@.take(i + 1)));
        i = i + 1;
    }
    assert(items@.take(i as int) =~= items@);
}

/// Appends the tokens of a table cell.
#[verifier::spinoff_prover]
fn walk_table_cell(cell: &TableCell, raw: &mut Vec<(usize, usize, u32)>)
    ensures
        final(raw)@ == old(raw)@ + cell_tokens(*cell),
    decreases cell,
{
    let ghost start = raw@;
    let ghost head = span_token(cell.span, table_cell_type());
    let ghost params = parameters_tokens(cell.parameters@);
    let ghost xs = elements_tokens(cell.x@);
    let ghost ys = elements_tokens(cell.y@);
    raw.push((cell.span.start, cell.span.end, 39));
    assert(raw@ =~= start + head);
    walk_parameters(&cell.parameters, raw);
    assert(raw@ =~= start + (head + params));
    walk_elements(&cell.x, raw);
    assert(raw@ =~= start + (head + params + xs));
    walk_elements(&cell.y, raw);
    assert(raw@ =~= start + (head + params + xs + ys));
    walk_elements(&cell.children, raw);
    assert(raw@ =~= start + cell_tokens(*cell));
}

/// Appends the tokens of cells.
#[verifier::spinoff_prover]
fn walk_table_cells(cells: &Vec<TableCell>, raw: &mut Vec<(usize, usize, u32)>)
    ensures
        final(raw)@ == old(raw)@ + cells_tokens(cells@),
    decreases cells,
{
    let ghost start = raw@;
    let mut i: usize = 0;
    while i < cells.len()
        invariant
            i <= cells.len(),
            raw@ == start + cells_tokens(cells@.take(i as int)),
        decreases cells.len() - i,
    {
        proof {
            vstd::std_specs::vec::axiom_vec_index_decreases(*cells, i as int);
            assert(cells@.take(i + 1).drop_last() =~= cells@.take(i as int));
            assert(cells@.take(i + 1)[i as int] == cells@[i as int]);
        }
        walk_table_cell(&cells[i], raw);
        assert(raw@ =~= start + cells_tokens(cells@.take(i + 1)));
        i = i + 1;
    }
    assert(cells@.take(i as int) =~= cells@);
}

/// Appends the tokens of conditional cells.
#[verifier::spinoff_prover]
fn walk_conditional_table_cells(cond: &ConditionalTableCells, raw: &mut Vec<(usize, usize, u32)>)
    ensures
        final(raw)@ == old(raw)@ + conditional_cells_tokens(*cond),
    decreases cond,
{
    let ghost start = raw@;
    push_delimiters(raw, cond.span, 6, 41);
    walk_expression(&cond.condition, raw);
    walk_table_cells(&cond.cells, raw);
    assert(raw@ =~= start + conditional_cells_tokens(*cond));
}

/// Appends the tokens of the entries of a list.
#[verifier::spinoff_prover]
fn walk_list_contents(items: &Vec<ListContentItem>, raw: &mut Vec<(usize, usize, u32)>)
    ensures
        final(raw)@ == old(raw)@ + list_contents_tokens(items@),
    decreases items,
{
    let ghost start = raw@;
    let mut i: usize = 0;
    while i < items.len()
        invariant
            i <= items.len(),
            raw@ == start + list_contents_tokens(items@.take(i as int)),
        decreases items.len() - i,
    {
        proof {
            vstd::std_specs::vec::axiom_vec_index_decreases(*items, i as int);
            assert(items@.take(i + 1).drop_last() =~= items@.take(i as int));
            assert(items@.take(i + 1)[i as int] == items@[i as int]);
        }
        match &items[i] {
            ListContentItem::Item(li) => walk_list_item(li, raw),
            ListContentItem::Conditional(c) => walk_conditional_list_items(c, raw),
        }
        assert(raw@ =~= start + list_contents_tokens(items@.take(i + 1)));
        i = i + 1;
    }
    assert(items@.take(i as int) =~= items@);
}

/// Appends the tokens of a list item.
#[verifier::spinoff_prover]
fn walk_list_item(li: &ListItem, raw: &mut Vec<(usize, usize, u32)>)
    ensures
        final(raw)@ == old(raw)@ + list_item_tokens(*li),
    decreases li,
{
    let ghost start = raw@;
    raw.push((li.span.start, li.span.end, 42));
    walk_parameters(&li.parameters, raw);
    walk_elements(&li.children, raw);
    assert(raw@ =~= start + list_item_tokens(*li));
}

/// Appends the tokens of list items.
#[verifier::spinoff_prover]
fn walk_list_items(items: &Vec<ListItem>, raw: &mut Vec<(usize, usize, u32)>)
    ensures
        final(raw)@ == old(raw)@ + list_items_tokens(items@),
    decreases items,
{
    let ghost start = raw@;
    let mut i: usize = 0;
    while i < items.len()
        invariant
            i <= items.len(),
            raw@ == start + list_items_tokens(items@.take(i as int)),
        decreases items.len() - i,
    {
        proof {
            vstd::std_specs::vec::axiom_vec_index_decreases(*items, i as int);
            assert(items@.take(i + 1).drop_last() =~= items@.take(i as int));
            assert(items@.take(i + 1)[i as int] == items@[i as int]);
        }
        walk_list_item(&items[i], raw);
        assert(raw@ =~= start + list_items_tokens(items@.take(i + 1)));
        i = i + 1;
    }
    assert(items@.take(i as int) =~= items@);
}

/// Appends the tokens of conditional list items.
#[verifier::spinoff_prover]
fn walk_conditional_list_items(cond: &ConditionalListItems, raw: &mut Vec<(usize, usize, u32)>)
    ensures
        final(raw)@ == old(raw)@ + conditional_items_tokens(*cond),
    decreases cond,
{
    let ghost start = raw@;
    push_delimiters(raw, cond.span, 6, 43);
    walk_expression(&cond.condition, raw);
    walk_list_items(&cond.items, raw);
    assert(raw@ =~= start + conditional_items_tokens(*cond));
}

/// Appends the tokens of the summary or details of a fold.
#[verifier::spinoff_prover]
fn walk_fold_inner(inner: &FoldInner, raw: &mut Vec<(usize, usize, u32)>)
    ensures
        final(raw)@ == old(raw)@ + fold_inner_tokens(*inner),
    decreases inner,
{
    let ghost start = raw@;
    raw.push((inner.span.start, inner.span.end, 44));
    walk_parameters(&inner.parameters, raw);
    walk_elements(&inner.children, raw);
    assert(raw@ =~= start + fold_inner_tokens(*inner));
}

/// Appends the tokens of condition nodes.
#[verifier::spinoff_prover]
fn walk_expressions(xs: &Vec<Expression>, raw: &mut Vec<(usize, usize, u32)>)
    ensures
        final(raw)@ == old(raw)@ + expressions_tokens(xs@),
    decreases xs,
{
    let ghost start = raw@;
    let mut i: usize = 0;
    while i < xs.len()
        invariant
            i <= xs.len(),
            raw@ == start + expressions_tokens(xs@.take(i as int)),
        decreases xs.len() - i,
    {
        proof {
            vstd::std_specs::vec::axiom_vec_index_decreases(*xs, i as int);
            assert(xs@.take(i + 1).drop_last() =~= xs@.take(i as int));
            assert(xs@.take(i + 1)[i as int] == xs@[i as int]);
        }
        walk_expression(&xs[i], raw);
        assert(raw@ =~= start + expressions_tokens(xs@.take(i + 1)));
        i = i + 1;
    }
    assert(xs@.take(i as int) =~= xs@);
}

/// Appends the tokens of a condition.
#[verifier::spinoff_prover]
fn walk_expression(expr: &Expression, raw: &mut Vec<(usize, usize, u32)>)
    ensures
        final(raw)@ == old(raw)@ + expression_tokens(*expr),
    decreases expr,
{
    let ghost start = raw@;
    match expr {
        Expression::Or { span, operator, left, right } => {
            raw.push((span.start, span.end, 45));
            raw.push((operator.start, operator.end, 55));
            walk_expression(left, raw);
            walk_expression(right, raw);
        },
        Expression::And { span, operator, left, right } => {
            raw.push((span.start, span.end, 46));
            raw.push((operator.start, operator.end, 55));
            walk_expression(left, raw);
            walk_expression(right, raw);
        },
        Expression::Not { span, operator, inner } => {
            raw.push((span.start, span.end, 47));
            raw.push((operator.start, operator.end, 55));
            walk_expression(inner, raw);
        },
        Expression::Comparison { span, operator, left, right } => {
            raw.push((span.start, span.end, 48));
            raw.push((operator.start, operator.end, 56));
            walk_expression(left, raw);
            walk_expression(right, raw);
        },
        Expression::FunctionCall { span, arguments } => {
            raw.push((span.start, span.end, 49));
            walk_expressions(arguments, raw);
        },
        Expression::StringLiteral { span, value } => {
            raw.push((span.start, span.end, 50));
            walk_elements(value, raw);
        },
        Expression::NumberLiteral { span } => {
            raw.push((span.start, span.end, 51));
        },
        Expression::BoolLiteral { span } => {
            raw.push((span.start, span.end, 52));
        },
        Expression::Null { span } => {
            raw.push((span.start, span.end, 53));
        },
        Expression::Group { span, inner } => {
            raw.push((span.start, span.end, 54));
            walk_expression(inner, raw);
        },
        Expression::Element(e) => {
            walk_element(e, raw);
        },
    }
    assert(raw@ =~= start + expression_tokens(*expr));
}

/// The tokens of a document's elements, in document-tree order: every node
/// with a span gives its token, text excepted.
pub fn collect_raw_tokens(elements: &Vec<Element>) -> (r: Vec<(usize, usize, u32)>)
    ensures
        r@ == elements_tokens(elements@),
{
    let mut raw: Vec<(usize, usize, u32)> = Vec::new();
    walk_elements(elements, &mut raw);
    assert(raw@ =~= elements_tokens(elements@));
    raw
}

/// Tokens that start at byte `k`.
pub open spec fn starts_at(k: usize) -> spec_fn((usize, usize, u32)) -> bool {
    |t: (usize, usize, u32)| t.0 == k
}

/// The tokens of `s` that start at byte `k`, in their order in `s`.
pub open spec fn starting_at(s: Seq<(usize, usize, u32)>, k: usize) -> Seq<(usize, usize, u32)> {
    s.filter(starts_at(k))
}

/// Tokens in increasing order of their start.
pub open spec fn sorted_by_start(s: Seq<(usize, usize, u32)>) -> bool {
    forall|i: int, j: int| 0 <= i < j < s.len() ==> #[trigger] s[i].0 <= #[trigger] s[j].0
}

/// Inserting a token before every token that starts after it adds it at the
/// end of its own start group and changes no other group.
proof fn lemma_insert_keeps_groups(s: Seq<(usize, usize, u32)>, p: int, x: (usize, usize, u32), k: usize)
    requires
        0 <= p <= s.len(),
        forall|j: int| p <= j < s.len() ==> #[trigger] s[j].0 > x.0,
    ensures
        starting_at(s.insert(p, x), k) == if x.0 == k {
            starting_at(s, k).push(x)
        } else {
            starting_at(s, k)
        },
{
    let pred = starts_at(k);
    let a = s.take(p);
    let b = s.skip(p);
    assert(s.insert(p, x) =~= (a + seq![x]) + b);
    assert(s =~= a + b);
    Seq::filter_distributes_over_add(a + seq![x], b, pred);
    Seq::filter_distributes_over_add(a, seq![x], pred);
    Seq::filter_distributes_over_add(a, b, pred);
    assert(seq![x] =~= Seq::<(usize, usize, u32)>::empty().push(x));
    Seq::<(usize, usize, u32)>::empty().lemma_filter_push(x, pred);
    assert(Seq::<(usize, usize, u32)>::empty().filter(pred) =~= Seq::<(usize, usize, u32)>::empty());
    if x.0 == k {
        assert(b.all(|y: (usize, usize, u32)| !pred(y))) by {
            assert forall|j: int| 0 <= j < b.len() implies !pred(#[trigger] b[j]) by {
                assert(b[j] == s[p + j]);
            }
        }
        b.lemma_all_neg_filter_empty(pred);
        assert(b.filter(pred) =~= Seq::<(usize, usize, u32)>::empty());
        assert(starting_at(s.insert(p, x), k) =~= starting_at(s, k).push(x));
    } else {
        assert(starting_at(s.insert(p, x), k) =~= starting_at(s, k));
    }
}

/// The tokens sorted by start, as a stable sort leaves them: tokens that
/// start at the same byte keep their order.
pub fn sort_by_start(raw: &Vec<(usize, usize, u32)>) -> (r: Vec<(usize, usize, u32)>)
    ensures
        r@.len() == raw@.len(),
        sorted_by_start(r@),
        forall|k: usize| #[trigger] starting_at(r@, k) == starting_at(raw@, k),
{
    let mut out: Vec<(usize, usize, u32)> = Vec::new();
    let mut i: usize = 0;
    while i < raw.len()
        invariant
            i <= raw.len(),
            out@.len() == i,
            sorted_by_start(out@),
            forall|k: usize| #[trigger] starting_at(out@, k) == starting_at(raw@.take(i as int), k),
        decreases raw.len() - i,
    {
        let x = raw[i];
        let mut p = out.len();
        while p > 0 && out[p - 1].0 > x.0
            invariant
                p <= out.len(),
                forall|j: int| p <= j < out.len() ==> #[trigger] out@[j].0 > x.0,
            decreases p,
        {
            p = p - 1;
        }
        let ghost before = out@;
        proof {
            assert forall|j: int| 0 <= j < p implies #[trigger] before[j].0 <= x.0 by {
                assert(before[j].0 <= before[p - 1].0);
            }
            assert(raw@.take(i + 1) =~= raw@.take(i as int).push(x));
            assert forall|k: usize| #[trigger] starting_at(before.insert(p as int, x), k) == starting_at(
                raw@.take(i + 1),
                k,
            ) by {
                lemma_insert_keeps_groups(before, p as int, x, k);
                raw@.take(i as int).lemma_filter_push(x, starts_at(k));
            }
        }
        out.insert(p, x);
        proof {
            assert forall|a: int, b: int| 0 <= a < b < out@.len() implies #[trigger] out@[a].0
                <= #[trigger] out@[b].0 by {
                if b < p {
                } else if b == p {
                    assert(before[a].0 <= x.0);
                } else if a < p {
                    assert(out@[b] == before[b - 1]);
                    assert(before[a].0 <= x.0);
                } else if a == p {
                    assert(out@[b] == before[b - 1]);
                } else {
                    assert(out@[a] == before[a - 1]);
                    assert(out@[b] == before[b - 1]);
                }
            }
        }
        i = i + 1;
    }
    assert(raw@.take(i as int) =~= raw@);
    out
}

/// The tokens of a document, sorted by start (tokens starting at the same
/// byte stay in document-tree order): the first half of the semantic tokens
/// of a document, before positions are looked up and deltas encoded.
pub fn collect_semantic_tokens(elements: &Vec<Element>) -> (r: Vec<(usize, usize, u32)>)
    ensures
        r@.len() == elements_tokens(elements@).len(),
        sorted_by_start(r@),
        forall|k: usize| #[trigger] starting_at(r@, k) == starting_at(elements_tokens(elements@), k),
        legend_typed(r@),
{
    let raw = collect_raw_tokens(elements);
    let r = sort_by_start(&raw);
    proof {
        let ts = elements_tokens(elements@);
        lemma_elements_typed(elements@);
        assert forall|i: int| 0 <= i < r@.len() implies 0 < #[trigger] r@[i].2 && r@[i].2 < 57 by {
            let x = r@[i];
            r@.lemma_filter_contains(starts_at(x.0), i);
            assert(starting_at(r@, x.0) == starting_at(ts, x.0));
            ts.lemma_filter_contains_rev(starts_at(x.0), x);
            let j = choose|j: int| 0 <= j < ts.len() && ts[j] == x;
            assert(0 < ts[j].2 && ts[j].2 < 57);
        }
    }
    r
}

/// A token with the line and character of its start and end, as the
/// document's line index gives them, and the character at which the content
/// of its first line ends (looked at when the token spans lines).
#[derive(Clone, Copy, Debug, PartialEq, Eq)]
pub struct LocatedToken {
    pub line: u32,
    pub character: u32,
    pub end_line: u32,
    pub end_character: u32,
    pub line_end_character: u32,
    pub token_type: u32,
}

/// A token in the relative encoding of the protocol.
#[derive(Clone, Copy, Debug, PartialEq, Eq)]
pub struct SemanticToken {
    pub delta_line: u32,
    pub delta_start: u32,
    pub length: u32,
    pub token_type: u32,
    pub token_modifiers_bitset: u32,
}

/// The length of a token: up to its end on a single line; for a token that
/// spans lines, up to the end of the content of its first line, at least 1.
pub open spec fn token_length(t: LocatedToken) -> u32 {
    if t.line == t.end_line {
        (t.end_character - t.character) as u32
    } else if t.line_end_character > t.character {
        (t.line_end_character - t.character) as u32
    } else {
        1
    }
}

/// Token `i` relative to the one before it (or to the start of the text):
/// the line delta, and the start relative to the previous token's start on
/// the same line or to the start of the line.
pub open spec fn encode_at(ts: Seq<LocatedToken>, i: int) -> SemanticToken {
    let t = ts[i];
    let prev_line: u32 = if i == 0 { 0 } else { ts[i - 1].line };
    let prev_char: u32 = if i == 0 { 0 } else { ts[i - 1].character };
    SemanticToken {
        delta_line: (t.line - prev_line) as u32,
        delta_start: if t.line == prev_line {
            (t.character - prev_char) as u32
        } else {
            t.character
        },
        length: token_length(t),
        token_type: t.token_type,
        token_modifiers_bitset: 0,
    }
}

/// The tokens come in order of position, and a single-line token does not
/// end before it starts.
pub open spec fn in_position_order(ts: Seq<LocatedToken>) -> bool {
    &&& forall|i: int|
        0 <= i < ts.len() && #[trigger] ts[i].line == ts[i].end_line ==> ts[i].character
            <= ts[i].end_character
    &&& forall|i: int|
        0 < i < ts.len() ==> ts[i - 1].line <= #[trigger] ts[i].line && (ts[i - 1].line
            == ts[i].line ==> ts[i - 1].character <= ts[i].character)
}

/// Do the tokens come in order of position?
pub fn tokens_in_position_order(located: &Vec<LocatedToken>) -> (r: bool)
    ensures
        r == in_position_order(located@),
{
    let mut i: usize = 0;
    while i < located.len()
        invariant
            i <= located.len(),
            forall|j: int|
                0 <= j < i && #[trigger] located@[j].line == located@[j].end_line
                    ==> located@[j].character <= located@[j].end_character,
            forall|j: int|
                0 < j < i ==> located@[j - 1].line <= #[trigger] located@[j].line && (located@[j
                    - 1].line == located@[j].line ==> located@[j - 1].character
                    <= located@[j].character),
        decreases located.len() - i,
    {
        let t = located[i];
        if t.line == t.end_line && t.character > t.end_character {
            return false;
        }
        if i > 0 {
            let p = located[i - 1];
            if p.line > t.line || (p.line == t.line && p.character > t.character) {
                return false;
            }
        }
        i = i + 1;
    }
    true
}

/// Delta-encodes located tokens for the protocol.
pub fn encode_tokens(located: &Vec<LocatedToken>) -> (r: Vec<SemanticToken>)
    requires
        in_position_order(located@),
    ensures
        r@.len() == located@.len(),
        forall|i: int| 0 <= i < r@.len() ==> #[trigger] r@[i] == encode_at(located@, i),
{
    let mut tokens: Vec<SemanticToken> = Vec::new();
    let mut prev_line: u32 = 0;
    let mut prev_char: u32 = 0;
    let mut i: usize = 0;
    while i < located.len()
        invariant
            i <= located.len(),
            in_position_order(located@),
            tokens@.len() == i,
            forall|j: int| 0 <= j < i ==> #[trigger] tokens@[j] == encode_at(located@, j),
            i == 0 ==> prev_line == 0 && prev_char == 0,
            i > 0 ==> prev_line == located@[i - 1].line && prev_char == located@[i - 1].character,
        decreases located.len() - i,
    {
        let t = located[i];
        proof {
            if i > 0 {
                assert(located@[i - 1].line <= located@[i as int].line);
            }
            if t.line == t.end_line {
                assert(located@[i as int].line == located@[i as int].end_line);
            }
        }
        let length = if t.line == t.end_line {
            t.end_character - t.character
        } else if t.line_end_character > t.character {
            t.line_end_character - t.character
        } else {
            1
        };
        let delta_line = t.line - prev_line;
        let delta_start = if delta_line == 0 {
            t.character - prev_char
        } else {
            t.character
        };
        tokens.push(
            SemanticToken {
                delta_line,
                delta_start,
                length,
                token_type: t.token_type,
                token_modifiers_bitset: 0,
            },
        );
        prev_line = t.line;
        prev_char = t.character;
        i = i + 1;
    }
    tokens
}

/// The absolute line and character of token `i`, as a client rebuilds them
/// from the relative encoding.
pub open spec fn decoded_position(tokens: Seq<SemanticToken>, i: int) -> (int, int)
    decreases i + 1,
{
    if i < 0 {
        (0, 0)
    } else {
        let prev = decoded_position(tokens, i - 1);
        let t = tokens[i];
        if t.delta_line == 0 {
            (prev.0, prev.1 + t.delta_start)
        } else {
            (prev.0 + t.delta_line, t.delta_start as int)
        }
    }
}

/// The relative encoding loses nothing: decoding it gives back the line and
/// character of every token.
pub proof fn lemma_encoding_decodes(located: Seq<LocatedToken>, tokens: Seq<SemanticToken>, i: int)
    requires
        in_position_order(located),
        tokens.len() == located.len(),
        forall|j: int| 0 <= j < tokens.len() ==> #[trigger] tokens[j] == encode_at(located, j),
        0 <= i < located.len(),
    ensures
        decoded_position(tokens, i) == (located[i].line as int, located[i].character as int),
    decreases i,
{
    let t = tokens[i];
    let l = located[i];
    assert(t == encode_at(located, i));
    let prev_line: int = if i == 0 { 0 } else { located[i - 1].line as int };
    let prev_char: int = if i == 0 { 0 } else { located[i - 1].character as int };
    if i > 0 {
        lemma_encoding_decodes(located, tokens, i - 1);
        assert(located[i - 1].line <= l.line);
        assert(located[i - 1].line == l.line ==> located[i - 1].character <= l.character);
    } else {
        assert(decoded_position(tokens, -1) == (0int, 0int));
    }
    assert(decoded_position(tokens, i - 1) == (prev_line, prev_char));
    assert(t.delta_line == l.line - prev_line);
    if l.line == prev_line {
        assert(t.delta_start == l.character - prev_char);
    } else {
        assert(t.delta_start == l.character);
    }
}

} // verus!
