//! The parsed shape of a SevenMark document as the editor tooling reads it:
//! every node with its byte span, its parameters and its children.

use vstd::prelude::*;

use crate::hover::MentionKind;

verus! {

/// A byte range of the source text.
#[derive(Clone, Copy, Debug, PartialEq, Eq)]
pub struct Span {
    pub start: usize,
    pub end: usize,
}

/// Text as written in the document (plain text, or the character after a
/// backslash escape): its span and its value.
pub struct TextElement {
    pub span: Span,
    pub value: String,
}

/// An `[age(date)]` macro: its span and the date it counts from.
pub struct AgeElement {
    pub span: Span,
    pub date: String,
}

/// A `#name="value"` parameter: its span, its name and the elements of its
/// value.
pub struct Parameter {
    pub span: Span,
    pub name: String,
    pub value: Vec<Element>,
}

/// A `[var(name)]` reference to a variable.
pub struct VariableElement {
    pub span: Span,
    pub name: String,
}

/// A header of a level, with its content.
pub struct HeaderElement {
    pub span: Span,
    pub level: usize,
    pub children: Vec<Element>,
}

/// A TeX formula, shown as a block or inline.
pub struct TeXElement {
    pub span: Span,
    pub is_block: bool,
}

/// A mention of a user or a discussion by its id.
pub struct MentionElement {
    pub span: Span,
    pub kind: MentionKind,
    pub id: String,
}

/// Media embedded from an outside provider, with its parameters.
pub struct ExternalMediaElement {
    pub span: Span,
    pub provider: String,
    pub parameters: Vec<Parameter>,
}

/// Text the parser could not read, with the text itself.
pub struct ErrorElement {
    pub span: Span,
    pub value: String,
}

/// An element with children only.
pub struct Container {
    pub span: Span,
    pub children: Vec<Element>,
}

/// An element with parameters and children.
pub struct ParamContainer {
    pub span: Span,
    pub parameters: Vec<Parameter>,
    pub children: Vec<Element>,
}

/// An element with parameters and no child elements.
pub struct ParamLeaf {
    pub span: Span,
    pub parameters: Vec<Parameter>,
}

/// A table cell: its parameters, its `x`/`y` span expressions and content.
pub struct TableCell {
    pub span: Span,
    pub parameters: Vec<Parameter>,
    pub x: Vec<Element>,
    pub y: Vec<Element>,
    pub children: Vec<Element>,
}

/// Cells shown when a condition holds.
pub struct ConditionalTableCells {
    pub span: Span,
    pub condition: Expression,
    pub cells: Vec<TableCell>,
}

/// An entry of a table row.
pub enum TableCellItem {
    Cell(TableCell),
    Conditional(ConditionalTableCells),
}

/// A table row.
pub struct TableRow {
    pub span: Span,
    pub parameters: Vec<Parameter>,
    pub children: Vec<TableCellItem>,
}

/// Rows shown when a condition holds.
pub struct ConditionalTableRows {
    pub span: Span,
    pub condition: Expression,
    pub rows: Vec<TableRow>,
}

/// An entry of a table.
pub enum TableRowItem {
    Row(TableRow),
    Conditional(ConditionalTableRows),
}

/// A `{{{#table}}}` element.
pub struct TableElement {
    pub span: Span,
    pub parameters: Vec<Parameter>,
    pub children: Vec<TableRowItem>,
}

/// A list item.
pub struct ListItem {
    pub span: Span,
    pub parameters: Vec<Parameter>,
    pub children: Vec<Element>,
}

/// List items shown when a condition holds.
pub struct ConditionalListItems {
    pub span: Span,
    pub condition: Expression,
    pub items: Vec<ListItem>,
}

/// An entry of a list.
pub enum ListContentItem {
    Item(ListItem),
    Conditional(ConditionalListItems),
}

/// A `{{{#list}}}` element, with the kind of its numbering.
pub struct ListElement {
    pub span: Span,
    pub kind: String,
    pub parameters: Vec<Parameter>,
    pub children: Vec<ListContentItem>,
}

/// The summary or the details of a fold.
pub struct FoldInner {
    pub span: Span,
    pub parameters: Vec<Parameter>,
    pub children: Vec<Element>,
}

/// A `{{{#fold}}}` element.
pub struct FoldElement {
    pub span: Span,
    pub parameters: Vec<Parameter>,
    pub summary: FoldInner,
    pub details: FoldInner,
}

/// A `{{{#if}}}` element.
pub struct IfElement {
    pub span: Span,
    pub condition: Expression,
    pub children: Vec<Element>,
}

/// A node of a condition: the span of the node and, for operators, of the
/// operator itself.
pub enum Expression {
    Or { span: Span, operator: Span, left: Box<Expression>, right: Box<Expression> },
    And { span: Span, operator: Span, left: Box<Expression>, right: Box<Expression> },
    Not { span: Span, operator: Span, inner: Box<Expression> },
    Comparison { span: Span, operator: Span, left: Box<Expression>, right: Box<Expression> },
    FunctionCall { span: Span, arguments: Vec<Expression> },
    StringLiteral { span: Span, value: Vec<Element> },
    NumberLiteral { span: Span },
    BoolLiteral { span: Span },
    Null { span: Span },
    Group { span: Span, inner: Box<Expression> },
    Element(Box<Element>),
}

/// An element of a document.
pub enum Element {
    Text(TextElement),
    Comment(Span),
    Escape(TextElement),
    Error(ErrorElement),
    Literal(Container),
    Define(ParamLeaf),
    Styled(ParamContainer),
    Table(TableElement),
    List(ListElement),
    Fold(FoldElement),
    BlockQuote(ParamContainer),
    Ruby(ParamContainer),
    Footnote(ParamContainer),
    Code(ParamLeaf),
    TeX(TeXElement),
    Include(ParamContainer),
    Category(Container),
    Redirect(ParamContainer),
    Media(ParamContainer),
    ExternalMedia(ExternalMediaElement),
    Null(Span),
    FootnoteRef(Span),
    TimeNow(Span),
    Age(AgeElement),
    Variable(VariableElement),
    Mention(MentionElement),
    Bold(Container),
    Italic(Container),
    Strikethrough(Container),
    Underline(Container),
    Superscript(Container),
    Subscript(Container),
    SoftBreak(Span),
    HardBreak(Span),
    HLine(Span),
    Header(HeaderElement),
    If(IfElement),
}

/// The span of an element.
pub open spec fn element_span(e: Element) -> Span {
    match e {
        Element::Text(t) | Element::Escape(t) => t.span,
        Element::Age(a) => a.span,
        Element::Comment(s) | Element::Null(s)
        | Element::FootnoteRef(s) | Element::TimeNow(s) | Element::SoftBreak(s)
        | Element::HardBreak(s) | Element::HLine(s) => s,
        Element::TeX(t) => t.span,
        Element::Mention(m) => m.span,
        Element::Header(h) => h.span,
        Element::ExternalMedia(x) => x.span,
        Element::Error(e) => e.span,
        Element::Variable(v) => v.span,
        Element::Literal(c) | Element::Category(c) | Element::Bold(c) | Element::Italic(c)
        | Element::Strikethrough(c) | Element::Underline(c) | Element::Superscript(c)
        | Element::Subscript(c) => c.span,
        Element::Styled(c) | Element::BlockQuote(c) | Element::Ruby(c) | Element::Footnote(c)
        | Element::Include(c) | Element::Redirect(c) | Element::Media(c) => c.span,
        Element::Define(l) | Element::Code(l) => l.span,
        Element::Table(t) => t.span,
        Element::List(l) => l.span,
        Element::Fold(f) => f.span,
        Element::If(i) => i.span,
    }
}

impl Element {
    /// The span of the element.
    pub fn span(&self) -> (r: Span)
        ensures
            r == element_span(*self),
    {
        match self {
            Element::Text(t) | Element::Escape(t) => t.span,
            Element::Age(a) => a.span,
            Element::Comment(s) | Element::Null(s)
            | Element::FootnoteRef(s) | Element::TimeNow(s)
            | Element::SoftBreak(s) | Element::HardBreak(s) | Element::HLine(s) => *s,
            Element::TeX(t) => t.span,
            Element::Mention(m) => m.span,
            Element::Header(h) => h.span,
            Element::ExternalMedia(x) => x.span,
            Element::Error(e) => e.span,
            Element::Variable(v) => v.span,
            Element::Literal(c) | Element::Category(c) | Element::Bold(c) | Element::Italic(c)
            | Element::Strikethrough(c) | Element::Underline(c) | Element::Superscript(c)
            | Element::Subscript(c) => c.span,
            Element::Styled(c) | Element::BlockQuote(c) | Element::Ruby(c)
            | Element::Footnote(c) | Element::Include(c) | Element::Redirect(c)
            | Element::Media(c) => c.span,
            Element::Define(l) | Element::Code(l) => l.span,
            Element::Table(t) => t.span,
            Element::List(l) => l.span,
            Element::Fold(f) => f.span,
            Element::If(i) => i.span,
        }
    }
}

} // verus!
