use sevenmark::ast::{
    AgeElement, Container, Element, ListElement, ParamContainer, ParamLeaf, Parameter, Span,
    TableElement, TextElement, VariableElement,
};
use sevenmark::completion::DocumentState;
use sevenmark::diagnostics::Severity;
use sevenmark::language_server::diagnostics::{collect_diagnostics, find_definition};
use sevenmark::list::ListNumbering;
use sevenmark::render_context::RenderContext;
use sevenmark::rendering::{element_rendering, ElementRendering, Wrapper};
use sevenmark::table::TableAlign;
use sevenmark::toc_label::{toc_label, toc_label_parts, LabelPart, LabelTag};

fn sp(start: usize, end: usize) -> Span {
    Span { start, end }
}

fn txt(start: usize, value: &str) -> Element {
    Element::Text(TextElement { span: sp(start, start + value.len()), value: value.to_string() })
}

fn param(name: &str, value: &str) -> Parameter {
    Parameter { span: sp(0, 0), name: name.to_string(), value: vec![txt(0, value)] }
}

fn text_of(p: &LabelPart) -> Option<&str> {
    match p {
        LabelPart::Text(s) => Some(s.as_str()),
        _ => None,
    }
}

// ---------------------------------------------------------------------------
// Table-of-contents labels
// ---------------------------------------------------------------------------

#[test]
fn toc_label_keeps_inline_markup_and_drops_media_widgets() {
    // ## **Intro** [[#file="a.png" caption]] [var(x)]{{{#code x}}}
    let children = vec![
        Element::Bold(Container { span: sp(3, 12), children: vec![txt(5, "Intro")] }),
        Element::Media(ParamContainer {
            span: sp(13, 40),
            parameters: vec![param("file", "a.png")],
            children: vec![txt(31, "caption")],
        }),
        Element::SoftBreak(sp(40, 41)),
        Element::Variable(VariableElement { span: sp(41, 49), name: "x".to_string() }),
        Element::Code(ParamLeaf { span: sp(49, 63), parameters: vec![] }),
    ];
    let parts = toc_label(&children);
    assert_eq!(parts.len(), 6);
    assert!(matches!(&parts[0], LabelPart::Open(LabelTag::Bold)));
    assert_eq!(text_of(&parts[1]), Some("Intro"));
    assert!(matches!(&parts[2], LabelPart::Close));
    assert_eq!(text_of(&parts[3]), Some("caption"));
    assert!(matches!(&parts[4], LabelPart::Space));
    assert!(matches!(&parts[5], LabelPart::Variable(n) if n == "x"));
}

#[test]
fn toc_label_of_styled_and_ruby_carries_their_look() {
    let styled = Element::Styled(ParamContainer {
        span: sp(0, 30),
        parameters: vec![param("color", "red"), param("class", " big ")],
        children: vec![txt(20, "t")],
    });
    let parts = toc_label_parts(&styled);
    assert_eq!(parts.len(), 3);
    match &parts[0] {
        LabelPart::Open(LabelTag::Styled { extra_class, style, dark_style }) => {
            assert_eq!(extra_class.as_deref(), Some("big"));
            assert_eq!(style.as_deref(), Some("color:red"));
            assert!(dark_style.is_none());
        }
        _ => panic!("expected a styled span"),
    }
    let ruby = Element::Ruby(ParamContainer {
        span: sp(0, 30),
        parameters: vec![param("ruby", "かん")],
        children: vec![txt(20, "漢")],
    });
    let parts = toc_label_parts(&ruby);
    match &parts[0] {
        LabelPart::Open(LabelTag::Ruby { ruby, .. }) => assert_eq!(ruby, "かん"),
        _ => panic!("expected a ruby annotation"),
    }
    assert_eq!(text_of(&parts[1]), Some("漢"));
    let age = Element::Age(AgeElement { span: sp(0, 17), date: "2000-01-01".to_string() });
    assert!(matches!(&toc_label_parts(&age)[0], LabelPart::Age(d) if d == "2000-01-01"));
    assert!(toc_label_parts(&Element::Comment(sp(0, 5))).is_empty());
}

// ---------------------------------------------------------------------------
// What the renderer makes of one element
// ---------------------------------------------------------------------------

#[test]
fn soft_breaks_render_only_where_not_suppressed() {
    let mut ctx: RenderContext<Vec<Element>> = RenderContext::new();
    let soft = Element::SoftBreak(sp(0, 1));
    assert!(matches!(element_rendering(&soft, &ctx), ElementRendering::LineBreak));
    ctx.enter_suppress_soft_breaks();
    assert!(matches!(element_rendering(&soft, &ctx), ElementRendering::Nothing));
    assert!(matches!(element_rendering(&Element::HardBreak(sp(0, 1)), &ctx), ElementRendering::LineBreak));
}

#[test]
fn metadata_elements_render_nothing() {
    let ctx: RenderContext<Vec<Element>> = RenderContext::new();
    for el in [Element::Comment(sp(0, 4)), Element::Null(sp(0, 6)), Element::Define(ParamLeaf { span: sp(0, 9), parameters: vec![] })] {
        assert!(matches!(element_rendering(&el, &ctx), ElementRendering::Nothing));
    }
    let bold = Element::Bold(Container { span: sp(0, 8), children: vec![txt(2, "bold")] });
    assert!(matches!(element_rendering(&bold, &ctx), ElementRendering::Wrapped { wrapper: Wrapper::Bold, .. }));
}

#[test]
fn table_and_list_carry_their_decisions() {
    let ctx: RenderContext<Vec<Element>> = RenderContext::new();
    let table = Element::Table(TableElement {
        span: sp(0, 40),
        parameters: vec![param("align", " Right "), param("caption", "Cap"), param("sortable", "")],
        children: vec![],
    });
    match element_rendering(&table, &ctx) {
        ElementRendering::Table { align, caption, sortable, width, .. } => {
            assert_eq!(align, Some(TableAlign::Right));
            assert_eq!(caption.as_deref(), Some("Cap"));
            assert!(sortable);
            assert!(width.is_none());
        }
        _ => panic!("expected a table"),
    }
    let list = Element::List(ListElement { span: sp(0, 20), kind: "a".to_string(), parameters: vec![], children: vec![] });
    match element_rendering(&list, &ctx) {
        ElementRendering::List { numbering: ListNumbering::Ordered { type_attr }, .. } => {
            assert_eq!(type_attr.as_deref(), Some("a"))
        }
        _ => panic!("expected an ordered list"),
    }
}

#[test]
fn footnote_gives_its_name_or_nests() {
    let mut ctx: RenderContext<Vec<Element>> = RenderContext::new();
    let footnote = Element::Footnote(ParamContainer {
        span: sp(0, 20),
        parameters: vec![param("name", "a")],
        children: vec![txt(14, "note")],
    });
    match element_rendering(&footnote, &ctx) {
        ElementRendering::Footnote { name, display, .. } => {
            assert_eq!(name.as_deref(), Some("a"));
            assert!(display.is_none());
        }
        _ => panic!("expected a footnote reference"),
    }
    ctx.in_footnote = true;
    assert!(matches!(
        element_rendering(&footnote, &ctx),
        ElementRendering::Wrapped { wrapper: Wrapper::NestedFootnote, .. }
    ));
}

// ---------------------------------------------------------------------------
// The native server: a definition defines the name of its `#name` parameter
// ---------------------------------------------------------------------------

#[test]
fn native_define_is_named_by_its_name_parameter() {
    // {{{#define #name="x" #value="1"}}}[var(x)][var(value)]
    let text = "{{{#define #name=\"x\" #value=\"1\"}}}[var(x)][var(value)]";
    let elements = vec![
        Element::Define(ParamLeaf {
            span: sp(0, 34),
            parameters: vec![param("name", "x"), param("value", "1")],
        }),
        Element::Variable(VariableElement { span: sp(34, 42), name: "x".to_string() }),
        Element::Variable(VariableElement { span: sp(42, 54), name: "value".to_string() }),
    ];
    let state = DocumentState::new(text.to_string()).with_elements(elements);
    let diags = collect_diagnostics(&state);
    assert_eq!(diags.len(), 1);
    assert_eq!(diags[0].severity, Severity::Warning);
    assert_eq!(diags[0].message, "Undefined variable: value");
    assert_eq!(diags[0].source, "sevenmark");
    assert_eq!(find_definition(&state, 36), Some(sp(0, 34)));
    assert_eq!(find_definition(&state, 45), None);
}
