//! What the HTML renderer makes of one element: which wrapper its children
//! go in, and the decisions (classes, styles, numbering, alignment, embed
//! address, footnote reference) that the wrapper carries. Children are
//! rendered in turn by the caller, inside the wrapper.

use vstd::prelude::*;

use crate::ast::{element_span, Element, Span};
use crate::embed::{
    embed_of, embed_provider, embed_url, embed_view, provider_of, unknown_provider_message,
};
use crate::hover::MentionKind;
use crate::list::{list_numbering, numbering_of, numbering_view, ListNumbering};
use crate::media::media_alt;
use crate::parameters::{
    build_dark_style_declarations, build_style_declarations, dark_style_declarations,
    extra_class, get_param, opt_view, param_class, param_value, parameters_of, parameters_view,
    raw_style, style_declarations, Parameters,
};
use crate::render_context::RenderContext;
use crate::table::{align_of, table_align, width_declaration_of, wrapper_width_declaration, TableAlign};

verus! {

/// Elements whose children are rendered inside a plain wrapper.
#[derive(Clone, Copy, Debug, PartialEq, Eq, Structural)]
pub enum Wrapper {
    Bold,
    Italic,
    Strikethrough,
    Underline,
    Superscript,
    Subscript,
    Literal,
    /// An inclusion: its children render with soft breaks allowed again.
    Include,
    /// A footnote inside a footnote: its children render as they are, with
    /// soft breaks suppressed.
    NestedFootnote,
}

/// The look a block asks for: the user's extra classes and the light and
/// dark inline styles of its parameters (before sanitizing).
pub struct Look {
    pub extra_class: Option<String>,
    pub style: Option<String>,
    pub dark_style: Option<String>,
}

/// What the renderer makes of one element.
pub enum ElementRendering {
    /// Nothing is shown.
    Nothing,
    /// Text shown as it is, marked with its byte span.
    Text { span: Span, value: String },
    /// Text the parser could not read, shown as an error.
    ParseError { value: String },
    /// The children inside a plain wrapper.
    Wrapped { wrapper: Wrapper, span: Span },
    /// The children in a block quote.
    BlockQuote { span: Span, look: Look },
    /// The children in a styled span.
    Styled { span: Span, look: Look },
    /// The children with a ruby annotation.
    Ruby { span: Span, look: Look, ruby: String },
    /// A fold: summary and details, soft breaks suppressed.
    Fold { span: Span, look: Look },
    /// A code block in the given language.
    Code { span: Span, look: Look, language: Option<String> },
    /// A TeX formula, as a block or inline.
    TeX { span: Span, is_block: bool },
    /// A list, numbered or not, soft breaks suppressed.
    List { span: Span, numbering: ListNumbering, look: Look },
    /// A table, soft breaks suppressed.
    Table {
        span: Span,
        look: Look,
        align: Option<TableAlign>,
        width: Option<String>,
        caption: Option<String>,
        sortable: bool,
    },
    /// A media element: its style, alt text and whether it has a caption;
    /// `media::media_markup` decides its markup from the resolved file and
    /// link.
    Media { span: Span, style: Option<String>, alt: String, has_caption: bool },
    /// An embedded player with its address (or the reason there is none).
    Embed { span: Span, url: Option<Result<String, String>> },
    /// An embed of an unknown provider, shown as an error message.
    UnknownEmbed { span: Span, message: String },
    /// A footnote reference: the name and display text that
    /// `RenderContext::reference_footnote` registers.
    Footnote { span: Span, name: Option<String>, display: Option<String> },
    /// The footnotes collected so far.
    FootnoteList,
    LineBreak,
    HorizontalLine,
    TimeNow,
    Age { date: String },
    Variable { span: Span, name: String },
    Mention { kind: MentionKind, id: String },
}

/// `look` is what the parameters `params` ask for.
pub open spec fn look_is(look: Look, params: Seq<(Seq<char>, Seq<char>)>) -> bool {
    &&& opt_view(look.extra_class) == extra_class(params)
    &&& opt_view(look.style) == raw_style(style_declarations(params))
    &&& opt_view(look.dark_style) == raw_style(dark_style_declarations(params))
}

/// The text of parameter `key`, empty without one.
pub open spec fn param_or_empty(params: Seq<(Seq<char>, Seq<char>)>, key: Seq<char>) -> Seq<char> {
    match param_value(params, key) {
        Some(v) => v,
        None => seq![],
    }
}

/// `r` is what the renderer makes of `e`, inside a footnote or not and with
/// soft breaks suppressed or not. Comments, headers (rendered by their
/// section), categories, redirects, definitions, conditionals and nulls
/// show nothing; a hard break is a line break and a soft break is one only
/// where soft breaks are not suppressed; a footnote inside a footnote shows
/// its content only.
pub open spec fn rendering_is(
    r: ElementRendering,
    e: Element,
    in_footnote: bool,
    suppressed: bool,
) -> bool {
    match e {
        Element::Text(t) | Element::Escape(t) => r matches ElementRendering::Text { span, value }
            && span == t.span && value@ == t.value@,
        Element::Error(x) => r matches ElementRendering::ParseError { value } && value@ == x.value@,
        Element::Bold(c) => r == (ElementRendering::Wrapped { wrapper: Wrapper::Bold, span: c.span }),
        Element::Italic(c) => r == (ElementRendering::Wrapped { wrapper: Wrapper::Italic, span: c.span }),
        Element::Strikethrough(c) => r == (ElementRendering::Wrapped {
            wrapper: Wrapper::Strikethrough,
            span: c.span,
        }),
        Element::Underline(c) => r == (ElementRendering::Wrapped {
            wrapper: Wrapper::Underline,
            span: c.span,
        }),
        Element::Superscript(c) => r == (ElementRendering::Wrapped {
            wrapper: Wrapper::Superscript,
            span: c.span,
        }),
        Element::Subscript(c) => r == (ElementRendering::Wrapped {
            wrapper: Wrapper::Subscript,
            span: c.span,
        }),
        Element::Literal(c) => r == (ElementRendering::Wrapped { wrapper: Wrapper::Literal, span: c.span }),
        Element::Include(c) => r == (ElementRendering::Wrapped { wrapper: Wrapper::Include, span: c.span }),
        Element::BlockQuote(c) => r matches ElementRendering::BlockQuote { span, look }
            && span == c.span && look_is(look, parameters_view(c.parameters@)),
        Element::Styled(c) => r matches ElementRendering::Styled { span, look } && span == c.span
            && look_is(look, parameters_view(c.parameters@)),
        Element::Ruby(c) => r matches ElementRendering::Ruby { span, look, ruby } && span == c.span
            && look_is(look, parameters_view(c.parameters@))
            && ruby@ == param_or_empty(parameters_view(c.parameters@), "ruby"@),
        Element::Fold(f) => r matches ElementRendering::Fold { span, look } && span == f.span
            && look_is(look, parameters_view(f.parameters@)),
        Element::Code(l) => r matches ElementRendering::Code { span, look, language } && span == l.span
            && look_is(look, parameters_view(l.parameters@))
            && opt_view(language) == param_value(parameters_view(l.parameters@), "lang"@),
        Element::TeX(t) => r == (ElementRendering::TeX { span: t.span, is_block: t.is_block }),
        Element::List(l) => r matches ElementRendering::List { span, numbering, look }
            && span == l.span && numbering_view(numbering) == numbering_of(l.kind@)
            && look_is(look, parameters_view(l.parameters@)),
        Element::Table(t) => {
            let p = parameters_view(t.parameters@);
            r matches ElementRendering::Table { span, look, align, width, caption, sortable }
                && span == t.span && look_is(look, p) && align == align_of(p)
                && opt_view(width) == width_declaration_of(p)
                && opt_view(caption) == param_value(p, "caption"@)
                && sortable == (param_value(p, "sortable"@) is Some)
        },
        Element::Media(c) => {
            let p = parameters_view(c.parameters@);
            r matches ElementRendering::Media { span, style, alt, has_caption } && span == c.span
                && opt_view(style) == raw_style(style_declarations(p)) && alt@ == media_alt(p)
                && has_caption == (c.children@.len() > 0)
        },
        Element::ExternalMedia(x) => match provider_of(x.provider@) {
            Some(provider) => r matches ElementRendering::Embed { span, url } && span == x.span
                && embed_view(url) == embed_of(provider, parameters_view(x.parameters@)),
            None => r matches ElementRendering::UnknownEmbed { span, message } && span == x.span
                && message@ == "Unknown external media provider: "@ + x.provider@,
        },
        Element::Footnote(c) => if in_footnote {
            r == (ElementRendering::Wrapped { wrapper: Wrapper::NestedFootnote, span: c.span })
        } else {
            let p = parameters_view(c.parameters@);
            r matches ElementRendering::Footnote { span, name, display } && span == c.span
                && opt_view(name) == param_value(p, "name"@)
                && opt_view(display) == param_value(p, "display"@)
        },
        Element::FootnoteRef(_) => r is FootnoteList,
        Element::SoftBreak(_) => if suppressed {
            r is Nothing
        } else {
            r is LineBreak
        },
        Element::HardBreak(_) => r is LineBreak,
        Element::HLine(_) => r is HorizontalLine,
        Element::TimeNow(_) => r is TimeNow,
        Element::Age(a) => r matches ElementRendering::Age { date } && date@ == a.date@,
        Element::Variable(v) => r matches ElementRendering::Variable { span, name } && span == v.span
            && name@ == v.name@,
        Element::Mention(m) => r matches ElementRendering::Mention { kind, id } && kind == m.kind
            && id@ == m.id@,
        Element::Comment(_) | Element::Header(_) | Element::Category(_) | Element::Redirect(_)
        | Element::Define(_) | Element::If(_) | Element::Null(_) => r is Nothing,
    }
}

/// Each kind of element renders as its own kind: the inline formats,
/// literals and inclusions as a wrapper of their own kind over their span;
/// text and escapes as their text; blocks as their block; metadata as
/// nothing; a hard break always and a soft break exactly where soft breaks
/// are not suppressed as a line break; a footnote as a reference, or inside
/// a footnote as its bare content.
pub proof fn lemma_each_element_renders_as_its_kind(
    r: ElementRendering,
    e: Element,
    in_footnote: bool,
    suppressed: bool,
)
    requires
        rendering_is(r, e, in_footnote, suppressed),
    ensures
        e is Bold ==> r == (ElementRendering::Wrapped { wrapper: Wrapper::Bold, span: element_span(e) }),
        e is Italic ==> r == (ElementRendering::Wrapped { wrapper: Wrapper::Italic, span: element_span(e) }),
        e is Strikethrough ==> r == (ElementRendering::Wrapped { wrapper: Wrapper::Strikethrough, span: element_span(e) }),
        e is Underline ==> r == (ElementRendering::Wrapped { wrapper: Wrapper::Underline, span: element_span(e) }),
        e is Superscript ==> r == (ElementRendering::Wrapped { wrapper: Wrapper::Superscript, span: element_span(e) }),
        e is Subscript ==> r == (ElementRendering::Wrapped { wrapper: Wrapper::Subscript, span: element_span(e) }),
        e is Literal ==> r == (ElementRendering::Wrapped { wrapper: Wrapper::Literal, span: element_span(e) }),
        e is Include ==> r == (ElementRendering::Wrapped { wrapper: Wrapper::Include, span: element_span(e) }),
        e matches Element::Text(t) ==> (r matches ElementRendering::Text { span, value } && span
            == t.span && value@ == t.value@),
        e matches Element::Escape(t) ==> (r matches ElementRendering::Text { span, value } && span
            == t.span && value@ == t.value@),
        e matches Element::Error(x) ==> (r matches ElementRendering::ParseError { value } && value@
            == x.value@),
        e is BlockQuote ==> r is BlockQuote,
        e is Styled ==> r is Styled,
        e is Ruby ==> r is Ruby,
        e is Fold ==> r is Fold,
        e is Code ==> r is Code,
        e matches Element::TeX(t) ==> r == (ElementRendering::TeX { span: t.span, is_block: t.is_block }),
        e is List ==> r is List,
        e is Table ==> r is Table,
        e is Media ==> r is Media,
        e is ExternalMedia ==> (r is Embed || r is UnknownEmbed),
        e is Footnote && in_footnote ==> r == (ElementRendering::Wrapped {
            wrapper: Wrapper::NestedFootnote,
            span: element_span(e),
        }),
        e is Footnote && !in_footnote ==> r is Footnote,
        e is FootnoteRef ==> r is FootnoteList,
        e is HardBreak ==> r is LineBreak,
        e is SoftBreak ==> (r is LineBreak <==> !suppressed) && (r is Nothing <==> suppressed),
        e is HLine ==> r is HorizontalLine,
        e is TimeNow ==> r is TimeNow,
        e matches Element::Age(a) ==> (r matches ElementRendering::Age { date } && date@ == a.date@),
        e matches Element::Variable(v) ==> (r matches ElementRendering::Variable { span, name }
            && span == v.span && name@ == v.name@),
        e matches Element::Mention(m) ==> (r matches ElementRendering::Mention { kind, id } && kind
            == m.kind && id@ == m.id@),
        e is Comment || e is Header || e is Category || e is Redirect || e is Define || e is If
            || e is Null ==> r is Nothing,
{
}

/// The look the parameters ask for.
fn look_of(params: &Parameters) -> (r: Look)
    ensures
        look_is(r, params@),
{
    Look {
        extra_class: param_class(params),
        style: build_style_declarations(params),
        dark_style: build_dark_style_declarations(params),
    }
}

/// The text of parameter `key`, empty without one.
fn param_or_empty_of(params: &Parameters, key: &str) -> (r: String)
    ensures
        r@ == param_or_empty(params@, key@),
{
    match get_param(params, key) {
        Some(v) => v,
        None => {
            proof {
                reveal_strlit("");
            }
            String::new()
        },
    }
}

/// What the renderer makes of `el` in the context `ctx`.
#[verifier::rlimit(60)]
pub fn element_rendering<C>(el: &Element, ctx: &RenderContext<C>) -> (r: ElementRendering)
    ensures
        rendering_is(r, *el, ctx.in_footnote, ctx.suppress_soft_breaks_depth > 0),
{
    match el {
        Element::Text(t) | Element::Escape(t) => ElementRendering::Text {
            span: t.span,
            value: t.value.clone(),
        },
        Element::Error(x) => ElementRendering::ParseError { value: x.value.clone() },
        Element::Bold(c) => ElementRendering::Wrapped { wrapper: Wrapper::Bold, span: c.span },
        Element::Italic(c) => ElementRendering::Wrapped { wrapper: Wrapper::Italic, span: c.span },
        Element::Strikethrough(c) => ElementRendering::Wrapped {
            wrapper: Wrapper::Strikethrough,
            span: c.span,
        },
        Element::Underline(c) => ElementRendering::Wrapped { wrapper: Wrapper::Underline, span: c.span },
        Element::Superscript(c) => ElementRendering::Wrapped {
            wrapper: Wrapper::Superscript,
            span: c.span,
        },
        Element::Subscript(c) => ElementRendering::Wrapped { wrapper: Wrapper::Subscript, span: c.span },
        Element::Literal(c) => ElementRendering::Wrapped { wrapper: Wrapper::Literal, span: c.span },
        Element::Include(c) => ElementRendering::Wrapped { wrapper: Wrapper::Include, span: c.span },
        Element::BlockQuote(c) => {
            let p = parameters_of(&c.parameters);
            ElementRendering::BlockQuote { span: c.span, look: look_of(&p) }
        },
        Element::Styled(c) => {
            let p = parameters_of(&c.parameters);
            ElementRendering::Styled { span: c.span, look: look_of(&p) }
        },
        Element::Ruby(c) => {
            let p = parameters_of(&c.parameters);
            let ruby = param_or_empty_of(&p, "ruby");
            ElementRendering::Ruby { span: c.span, look: look_of(&p), ruby }
        },
        Element::Fold(f) => {
            let p = parameters_of(&f.parameters);
            ElementRendering::Fold { span: f.span, look: look_of(&p) }
        },
        Element::Code(l) => {
            let p = parameters_of(&l.parameters);
            ElementRendering::Code { span: l.span, look: look_of(&p), language: get_param(&p, "lang") }
        },
        Element::TeX(t) => ElementRendering::TeX { span: t.span, is_block: t.is_block },
        Element::List(l) => {
            let p = parameters_of(&l.parameters);
            ElementRendering::List {
                span: l.span,
                numbering: list_numbering(l.kind.as_str()),
                look: look_of(&p),
            }
        },
        Element::Table(t) => {
            let p = parameters_of(&t.parameters);
            let sortable = get_param(&p, "sortable").is_some();
            ElementRendering::Table {
                span: t.span,
                look: look_of(&p),
                align: table_align(&p),
                width: wrapper_width_declaration(&p),
                caption: get_param(&p, "caption"),
                sortable,
            }
        },
        Element::Media(c) => {
            let p = parameters_of(&c.parameters);
            let alt = param_or_empty_of(&p, "file");
            proof {
                reveal_strlit("");
                assert(""@ =~= Seq::<char>::empty());
                assert(param_or_empty(p@, "file"@) == media_alt(p@));
            }
            ElementRendering::Media {
                span: c.span,
                style: build_style_declarations(&p),
                alt,
                has_caption: c.children.len() > 0,
            }
        },
        Element::ExternalMedia(x) => match embed_provider(x.provider.as_str()) {
            Some(provider) => {
                let p = parameters_of(&x.parameters);
                ElementRendering::Embed { span: x.span, url: embed_url(provider, &p) }
            },
            None => ElementRendering::UnknownEmbed {
                span: x.span,
                message: unknown_provider_message(x.provider.as_str()),
            },
        },
        Element::Footnote(c) => if ctx.in_footnote {
            ElementRendering::Wrapped { wrapper: Wrapper::NestedFootnote, span: c.span }
        } else {
            let p = parameters_of(&c.parameters);
            ElementRendering::Footnote {
                span: c.span,
                name: get_param(&p, "name"),
                display: get_param(&p, "display"),
            }
        },
        Element::FootnoteRef(_) => ElementRendering::FootnoteList,
        Element::SoftBreak(_) => if ctx.is_soft_break_suppressed() {
            ElementRendering::Nothing
        } else {
            ElementRendering::LineBreak
        },
        Element::HardBreak(_) => ElementRendering::LineBreak,
        Element::HLine(_) => ElementRendering::HorizontalLine,
        Element::TimeNow(_) => ElementRendering::TimeNow,
        Element::Age(a) => ElementRendering::Age { date: a.date.clone() },
        Element::Variable(v) => ElementRendering::Variable { span: v.span, name: v.name.clone() },
        Element::Mention(m) => ElementRendering::Mention { kind: m.kind, id: m.id.clone() },
        Element::Comment(_) | Element::Header(_) | Element::Category(_) | Element::Redirect(_)
        | Element::Define(_) | Element::If(_) | Element::Null(_) => ElementRendering::Nothing,
    }
}

} // verus!
