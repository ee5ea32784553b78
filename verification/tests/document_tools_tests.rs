use sevenmark::ast::{
    ErrorElement, ExternalMediaElement, HeaderElement, MentionElement, TeXElement, VariableElement,
    ConditionalTableRows, Container, Element, Expression, FoldElement, FoldInner, IfElement,
    ListContentItem, ListElement, ListItem, ParamContainer, ParamLeaf, Parameter, Span, TableCell,
    TableCellItem, TableElement, TableRow, TableRowItem, TextElement,
};
use sevenmark::definition::{find_define_location, find_definition, find_variable_at};
use sevenmark::diagnostics::{collect_diagnostics, visited_of, Severity, VisitedElement};
use sevenmark::folding::{collect_folding_ranges, fold_kind, FoldCandidate, FoldKind};
use sevenmark::hover::{hover_content, hover_target_of, get_hover, HoverTarget, MentionKind};
use sevenmark::language_server::semantic_tokens::{
    brace_open_len, collect_raw_tokens, collect_semantic_tokens, element_token_type,
    encode_tokens, legend, sort_by_start, tokens_in_position_order, LocatedToken, SemanticToken,
};
use sevenmark::symbols::{collect_document_symbols, SymbolKind, SymbolSource, TextRange};

fn sp(start: usize, end: usize) -> Span {
    Span { start, end }
}

fn txt(start: usize, end: usize, value: &str) -> Element {
    Element::Text(TextElement { span: sp(start, end), value: value.to_string() })
}

fn container(start: usize, end: usize, children: Vec<Element>) -> Container {
    Container { span: sp(start, end), children }
}

// ---------------------------------------------------------------------------
// Semantic tokens
// ---------------------------------------------------------------------------

#[test]
fn plain_text_gives_no_tokens() {
    let elements = vec![txt(0, 11, "hello world")];
    assert!(collect_raw_tokens(&elements).is_empty());
    assert!(collect_semantic_tokens(&elements).is_empty());
}

#[test]
fn bold_gives_one_bold_token() {
    let elements = vec![Element::Bold(container(0, 8, vec![txt(2, 6, "text")]))];
    assert_eq!(collect_raw_tokens(&elements), vec![(0, 8, 26)]);
}

#[test]
fn legend_names_each_element_type() {
    let names = legend();
    assert_eq!(names.len(), 57);
    assert_eq!(names[0], "text");
    assert_eq!(names[26], "bold");
    assert_eq!(names[36], "if");
    assert_eq!(names[37], "parameter");
    assert_eq!(names[56], "comparisonOperator");
    let bold = Element::Bold(container(0, 1, vec![]));
    assert_eq!(names[element_token_type(&bold) as usize], "bold");
    let header = Element::Header(HeaderElement { span: sp(0, 1), level: 1, children: vec![] });
    assert_eq!(names[element_token_type(&header) as usize], "header");
}

#[test]
fn brace_elements_have_opening_lengths() {
    let leaf = || ParamLeaf { span: sp(0, 20), parameters: vec![] };
    assert_eq!(brace_open_len(&Element::Literal(container(0, 6, vec![]))), Some(3));
    assert_eq!(brace_open_len(&Element::Define(leaf())), Some(10));
    assert_eq!(brace_open_len(&Element::Code(leaf())), Some(8));
    assert_eq!(
        brace_open_len(&Element::ExternalMedia(ExternalMediaElement {
            span: sp(0, 20),
            provider: "youtube".to_string(),
            parameters: vec![],
        })),
        None
    );
    assert_eq!(brace_open_len(&Element::Bold(container(0, 6, vec![]))), None);
}

#[test]
fn define_gives_delimiters_and_parameter_tokens() {
    // {{{#define #a="1"}}}
    let define = Element::Define(ParamLeaf {
        span: sp(0, 20),
        parameters: vec![Parameter { span: sp(11, 17), name: "a".to_string(), value: vec![txt(14, 15, "1")] }],
    });
    assert_eq!(
        collect_raw_tokens(&vec![define]),
        vec![(0, 10, 5), (17, 20, 5), (11, 17, 37)]
    );
}

#[test]
fn short_brace_element_gives_only_an_opening_token() {
    // a span too short for a separate closing token
    let literal = Element::Literal(container(5, 8, vec![]));
    assert_eq!(collect_raw_tokens(&vec![literal]), vec![(5, 8, 4)]);
    let fold = Element::Fold(FoldElement {
        span: sp(0, 4),
        parameters: vec![],
        summary: FoldInner { span: sp(1, 2), parameters: vec![], children: vec![] },
        details: FoldInner { span: sp(2, 3), parameters: vec![], children: vec![] },
    });
    assert_eq!(collect_raw_tokens(&vec![fold]), vec![(0, 4, 9), (1, 2, 44), (2, 3, 44)]);
}

#[test]
fn table_tokens_are_sorted_by_start() {
    let table = Element::Table(TableElement {
        span: sp(0, 30),
        parameters: vec![],
        children: vec![TableRowItem::Row(TableRow {
            span: sp(10, 25),
            parameters: vec![],
            children: vec![TableCellItem::Cell(TableCell {
                span: sp(12, 20),
                parameters: vec![],
                x: vec![],
                y: vec![],
                children: vec![txt(14, 18, "text")],
            })],
        })],
    });
    let elements = vec![table];
    assert_eq!(
        collect_raw_tokens(&elements),
        vec![(0, 9, 7), (27, 30, 7), (10, 25, 38), (12, 20, 39)]
    );
    assert_eq!(
        collect_semantic_tokens(&elements),
        vec![(0, 9, 7), (10, 25, 38), (12, 20, 39), (27, 30, 7)]
    );
}

#[test]
fn conditional_rows_and_expressions_are_walked() {
    let condition = Expression::Comparison {
        span: sp(7, 13),
        operator: sp(9, 11),
        left: Box::new(Expression::NumberLiteral { span: sp(7, 8) }),
        right: Box::new(Expression::Null { span: sp(12, 13) }),
    };
    let table = Element::Table(TableElement {
        span: sp(0, 40),
        parameters: vec![],
        children: vec![TableRowItem::Conditional(ConditionalTableRows {
            span: sp(1, 35),
            condition,
            rows: vec![],
        })],
    });
    assert_eq!(
        collect_raw_tokens(&vec![table]),
        vec![
            (0, 9, 7),
            (37, 40, 7),
            (1, 7, 40),
            (32, 35, 40),
            (7, 13, 48),
            (9, 11, 56),
            (7, 8, 51),
            (12, 13, 53),
        ]
    );
}

#[test]
fn if_element_walks_condition_then_children() {
    let condition = Expression::Not {
        span: sp(7, 12),
        operator: sp(7, 8),
        inner: Box::new(Expression::Element(Box::new(Element::Variable(VariableElement { span: sp(8, 12), name: "x".to_string() })))),
    };
    let element = Element::If(IfElement {
        span: sp(0, 25),
        condition,
        children: vec![Element::Italic(container(15, 20, vec![]))],
    });
    assert_eq!(
        collect_raw_tokens(&vec![element]),
        vec![(0, 6, 36), (22, 25, 36), (7, 12, 47), (7, 8, 55), (8, 12, 24), (15, 20, 27)]
    );
}

#[test]
fn list_items_and_styled_parameters() {
    let list = Element::List(ListElement {
        span: sp(0, 30),
        kind: "1".to_string(),
        parameters: vec![Parameter { span: sp(9, 14), name: "1".to_string(), value: vec![] }],
        children: vec![ListContentItem::Item(ListItem {
            span: sp(15, 25),
            parameters: vec![],
            children: vec![Element::Styled(ParamContainer {
                span: sp(16, 24),
                parameters: vec![],
                children: vec![],
            })],
        })],
    });
    assert_eq!(
        collect_raw_tokens(&vec![list]),
        vec![(0, 8, 8), (27, 30, 8), (9, 14, 37), (15, 25, 42), (16, 24, 6)]
    );
}

#[test]
fn sort_by_start_is_stable() {
    let raw = vec![(5, 9, 1), (0, 3, 2), (5, 6, 3), (0, 1, 4), (2, 2, 5)];
    assert_eq!(
        sort_by_start(&raw),
        vec![(0, 3, 2), (0, 1, 4), (2, 2, 5), (5, 9, 1), (5, 6, 3)]
    );
}

fn located(line: u32, character: u32, end_line: u32, end_character: u32, line_end: u32) -> LocatedToken {
    LocatedToken {
        line,
        character,
        end_line,
        end_character,
        line_end_character: line_end,
        token_type: 26,
    }
}

#[test]
fn tokens_are_delta_encoded() {
    let tokens = vec![
        located(0, 2, 0, 6, 0),
        located(0, 8, 0, 10, 0),
        located(2, 4, 2, 5, 0),
        located(2, 6, 4, 1, 9),
        located(5, 3, 6, 0, 2),
    ];
    assert!(tokens_in_position_order(&tokens));
    let encoded = encode_tokens(&tokens);
    let triple = |t: &SemanticToken| (t.delta_line, t.delta_start, t.length);
    let got: Vec<(u32, u32, u32)> = encoded.iter().map(triple).collect();
    assert_eq!(got, vec![(0, 2, 4), (0, 6, 2), (2, 4, 1), (0, 2, 3), (3, 3, 1)]);
    assert!(encoded.iter().all(|t| t.token_type == 26 && t.token_modifiers_bitset == 0));
}

#[test]
fn out_of_order_tokens_are_detected() {
    assert!(tokens_in_position_order(&vec![]));
    assert!(!tokens_in_position_order(&vec![located(1, 0, 1, 2, 0), located(0, 0, 0, 1, 0)]));
    assert!(!tokens_in_position_order(&vec![located(0, 5, 0, 6, 0), located(0, 4, 0, 6, 0)]));
    assert!(!tokens_in_position_order(&vec![located(0, 5, 0, 4, 0)]));
}

// ---------------------------------------------------------------------------
// Hover
// ---------------------------------------------------------------------------

#[test]
fn hover_texts() {
    assert_eq!(hover_content(&HoverTarget::Bold), Some("**Bold**".to_string()));
    assert_eq!(
        hover_content(&HoverTarget::Header { level: 2 }),
        Some("**Header** (level 2)".to_string())
    );
    assert_eq!(
        hover_content(&HoverTarget::Code { lang: Some("rust".to_string()) }),
        Some("**Code** (lang: `rust`)".to_string())
    );
    assert_eq!(
        hover_content(&HoverTarget::Code { lang: Some(String::new()) }),
        Some("**Code**".to_string())
    );
    assert_eq!(hover_content(&HoverTarget::Code { lang: None }), Some("**Code**".to_string()));
    assert_eq!(
        hover_content(&HoverTarget::TeX { is_block: true }),
        Some("**TeX** (block)".to_string())
    );
    assert_eq!(
        hover_content(&HoverTarget::Variable { name: "myvar".to_string() }),
        Some("**Variable**: `myvar`".to_string())
    );
    assert_eq!(
        hover_content(&HoverTarget::Mention { kind: MentionKind::Discussion, id: "42".to_string() }),
        Some("**Mention** (discussion): `42`".to_string())
    );
    assert_eq!(
        hover_content(&HoverTarget::List { kind: "ordered".to_string() }),
        Some("**List** (ordered)".to_string())
    );
    assert_eq!(hover_content(&HoverTarget::Text), None);
    assert_eq!(hover_content(&HoverTarget::HLine), None);
}

#[test]
fn error_hover_shows_at_most_forty_characters() {
    let long = "x".repeat(50);
    assert_eq!(
        hover_content(&HoverTarget::Error { value: long }),
        Some(format!("**Error**: `{}`", "x".repeat(40)))
    );
    assert_eq!(
        hover_content(&HoverTarget::Error { value: "가나".to_string() }),
        Some("**Error**: `가나`".to_string())
    );
}

#[test]
fn innermost_element_with_hover_wins() {
    let candidates = vec![
        (sp(0, 20), Some("outer".to_string())),
        (sp(2, 10), None),
        (sp(3, 9), Some("inner".to_string())),
        (sp(4, 10), Some("same length, later".to_string())),
        (sp(12, 14), Some("elsewhere".to_string())),
    ];
    assert_eq!(get_hover(&candidates, 5), Some(("inner".to_string(), sp(3, 9))));
    assert_eq!(get_hover(&candidates, 1), Some(("outer".to_string(), sp(0, 20))));
    assert_eq!(get_hover(&candidates, 20), None);
    assert_eq!(get_hover(&vec![], 0), None);
}

// ---------------------------------------------------------------------------
// Diagnostics and definitions
// ---------------------------------------------------------------------------

fn sample_document() -> Vec<VisitedElement> {
    vec![
        VisitedElement::Variable { span: sp(0, 10), name: "later".to_string() },
        VisitedElement::Error { span: sp(11, 14), value: "bad\ninput".to_string() },
        VisitedElement::Other,
        VisitedElement::Define { span: sp(15, 40), names: vec!["later".to_string(), "x".to_string()] },
        VisitedElement::Variable { span: sp(41, 50), name: "missing".to_string() },
        VisitedElement::Define { span: sp(51, 70), names: vec!["x".to_string()] },
    ]
}

#[test]
fn diagnostics_list_errors_then_undefined_variables() {
    let d = collect_diagnostics(&sample_document());
    assert_eq!(d.len(), 2);
    assert_eq!(d[0].span, sp(11, 14));
    assert_eq!(d[0].severity, Severity::Error);
    assert_eq!(d[0].message, "Parse error: bad\\ninput");
    assert_eq!(d[1].span, sp(41, 50));
    assert_eq!(d[1].severity, Severity::Warning);
    assert_eq!(d[1].message, "Undefined variable: missing");
}

#[test]
fn clean_document_has_no_diagnostics() {
    let doc = vec![
        VisitedElement::Define { span: sp(0, 5), names: vec!["a".to_string()] },
        VisitedElement::Variable { span: sp(6, 9), name: "a".to_string() },
    ];
    assert!(collect_diagnostics(&doc).is_empty());
    assert!(collect_diagnostics(&vec![]).is_empty());
}

#[test]
fn parse_error_text_is_truncated() {
    let doc = vec![VisitedElement::Error { span: sp(0, 1), value: "e".repeat(100) }];
    let d = collect_diagnostics(&doc);
    assert_eq!(d[0].message, format!("Parse error: {}…", "e".repeat(80)));
}

#[test]
fn definition_of_variable_under_cursor() {
    let doc = sample_document();
    assert_eq!(find_variable_at(&doc, 3), Some("later".to_string()));
    assert_eq!(find_variable_at(&doc, 10), None);
    assert_eq!(find_define_location(&doc, "x"), Some(sp(15, 40)));
    assert_eq!(find_define_location(&doc, "missing"), None);
    assert_eq!(find_definition(&doc, 3), Some(sp(15, 40)));
    assert_eq!(find_definition(&doc, 45), None);
    assert_eq!(find_definition(&doc, 12), None);
}

// ---------------------------------------------------------------------------
// Folding and symbols
// ---------------------------------------------------------------------------

#[test]
fn fold_kinds_of_elements() {
    assert_eq!(fold_kind(&Element::Comment(sp(0, 1))), Some(FoldKind::Comment));
    assert_eq!(fold_kind(&Element::Literal(container(0, 1, vec![]))), Some(FoldKind::Region));
    assert_eq!(fold_kind(&Element::Bold(container(0, 1, vec![]))), None);
}

#[test]
fn only_multi_line_elements_fold() {
    let cands = vec![
        FoldCandidate { kind: FoldKind::Region, start_line: 0, end_line: 3 },
        FoldCandidate { kind: FoldKind::Region, start_line: 4, end_line: 4 },
        FoldCandidate { kind: FoldKind::Comment, start_line: 5, end_line: 7 },
    ];
    assert_eq!(collect_folding_ranges(&cands), vec![cands[0], cands[2]]);
}

#[test]
fn symbols_of_headers_and_definitions() {
    let r = TextRange { start_line: 0, start_character: 0, end_line: 0, end_character: 5 };
    let sources = vec![
        SymbolSource::Header { range: r, level: 2, text: "Intro".to_string() },
        SymbolSource::Header { range: r, level: 3, text: String::new() },
        SymbolSource::Define { range: r, names: vec!["a".to_string(), "b".to_string()] },
    ];
    let symbols = collect_document_symbols(&sources);
    let names: Vec<(String, String, SymbolKind)> = symbols
        .into_iter()
        .map(|s| (s.name, s.detail, s.kind))
        .collect();
    assert_eq!(
        names,
        vec![
            ("Intro".to_string(), "Level 2".to_string(), SymbolKind::Text),
            ("Header (level 3)".to_string(), "Level 3".to_string(), SymbolKind::Text),
            ("a".to_string(), "Define".to_string(), SymbolKind::Variable),
            ("b".to_string(), "Define".to_string(), SymbolKind::Variable),
        ]
    );
}

#[test]
fn delta_encoding_decodes_to_the_token_positions() {
    let tokens = vec![
        located(0, 2, 0, 6, 0),
        located(0, 8, 0, 10, 0),
        located(3, 1, 3, 5, 0),
        located(3, 1, 3, 2, 0),
        located(7, 0, 9, 4, 3),
    ];
    let encoded = encode_tokens(&tokens);
    let mut line = 0u32;
    let mut character = 0u32;
    for (t, located_token) in encoded.iter().zip(tokens.iter()) {
        if t.delta_line == 0 {
            character += t.delta_start;
        } else {
            line += t.delta_line;
            character = t.delta_start;
        }
        assert_eq!((line, character), (located_token.line, located_token.character));
    }
}

// ---------------------------------------------------------------------------
// Scenarios on documents, written as the trees the parser gives for them
// ---------------------------------------------------------------------------

fn token_types(elements: &Vec<Element>) -> Vec<u32> {
    collect_semantic_tokens(elements).iter().map(|t| t.2).collect()
}

#[test]
fn plain_text_produces_no_tokens() {
    // hello
    let elements = vec![txt(0, 5, "hello")];
    assert!(collect_semantic_tokens(&elements).is_empty(), "plain text should produce no tokens");
}

#[test]
fn bold_produces_bold_token_only() {
    // **bold**
    let elements = vec![Element::Bold(container(0, 8, vec![txt(2, 6, "text")]))];
    let types = token_types(&elements);
    assert!(types.iter().any(|&t| t == 26), "expected bold token (type 26)");
    assert!(!types.iter().any(|&t| t == 0), "text tokens should not be emitted");
}

#[test]
fn define_produces_define_and_parameter_tokens() {
    // {{{#define #x="v"}}}
    let elements = vec![Element::Define(ParamLeaf {
        span: sp(0, 20),
        parameters: vec![Parameter { span: sp(11, 17), name: "x".to_string(), value: vec![txt(15, 16, "1")] }],
    })];
    let types = token_types(&elements);
    assert!(types.iter().any(|&t| t == 5), "expected define token (type 5)");
    assert!(types.iter().any(|&t| t == 37), "expected parameter token (type 37)");
}

#[test]
fn header_span_covers_full_line() {
    // ## Hello
    let elements = vec![Element::Header(HeaderElement { span: sp(0, 8), level: 2, children: vec![txt(3, 8, "Hello")] })];
    let h = collect_semantic_tokens(&elements).into_iter().find(|t| t.2 == 35).unwrap();
    let token = LocatedToken {
        line: 0,
        character: h.0 as u32,
        end_line: 0,
        end_character: h.1 as u32,
        line_end_character: 8,
        token_type: h.2,
    };
    let encoded = encode_tokens(&vec![token]);
    assert_eq!(encoded[0].length, 8, "'## Hello' should be 8 chars");

    // ## Hello\nsome text: the header's span takes in the line break
    let elements2 = vec![
        Element::Header(HeaderElement { span: sp(0, 9), level: 2, children: vec![txt(3, 8, "Hello")] }),
        txt(9, 18, "some text"),
    ];
    let h2 = collect_semantic_tokens(&elements2).into_iter().find(|t| t.2 == 35).unwrap();
    assert_eq!((h2.0, h2.1), (0, 9));
    let token2 = LocatedToken {
        line: 0,
        character: 0,
        end_line: 1,
        end_character: 0,
        line_end_character: 8,
        token_type: h2.2,
    };
    let encoded2 = encode_tokens(&vec![token2]);
    assert_eq!(encoded2[0].length, 8, "'## Hello' with newline should still be 8 chars");
}

fn cell(start: usize, text_at: usize) -> TableCellItem {
    TableCellItem::Cell(TableCell {
        span: sp(start, start + 5),
        parameters: vec![],
        x: vec![],
        y: vec![],
        children: vec![txt(text_at, text_at + 1, "text")],
    })
}

#[test]
fn table_with_conditional_rows() {
    // {{{#table\n[[ [[a]] [[b]] ]]\n{{{#if true ::\n[[ [[c]] ]]\n}}}\n}}}
    let table = Element::Table(TableElement {
        span: sp(0, 62),
        parameters: vec![],
        children: vec![
            TableRowItem::Row(TableRow {
                span: sp(10, 27),
                parameters: vec![],
                children: vec![cell(13, 15), cell(19, 21)],
            }),
            TableRowItem::Conditional(ConditionalTableRows {
                span: sp(28, 58),
                condition: Expression::BoolLiteral { span: sp(35, 39) },
                rows: vec![TableRow { span: sp(43, 54), parameters: vec![], children: vec![cell(46, 48)] }],
            }),
        ],
    });
    let types = token_types(&vec![table]);
    let table_count = types.iter().filter(|&&t| t == 7).count();
    assert_eq!(table_count, 2, "expected 2 table tokens (open+close), got {table_count}");
    assert!(types.contains(&38), "expected tableRow token");
    assert!(types.contains(&39), "expected tableCell token");
    assert!(types.contains(&40), "expected conditionalTableRows token");
}

#[test]
fn if_produces_if_and_expression_tokens() {
    // {{{#if true :: content}}}
    let element = Element::If(IfElement {
        span: sp(0, 25),
        condition: Expression::BoolLiteral { span: sp(7, 11) },
        children: vec![txt(15, 22, "text")],
    });
    let types = token_types(&vec![element]);
    assert!(types.iter().any(|&t| t == 36), "expected if token (type 36)");
    assert!(types.len() >= 2, "expected at least 2 tokens, got {}", types.len());
}

#[test]
fn bold_hover() {
    // **bold text**
    let candidates = vec![
        (sp(0, 13), hover_content(&HoverTarget::Bold)),
        (sp(2, 11), hover_content(&HoverTarget::Text)),
    ];
    let val = get_hover(&candidates, 3).map(|h| h.0);
    assert_eq!(val.as_deref(), Some("**Bold**"));
}

#[test]
fn code_with_lang_hover() {
    // {{{#code #lang="rust"\nfn main() {}\n}}}
    let candidates = vec![(
        sp(0, 39),
        hover_content(&HoverTarget::Code { lang: Some("rust".to_string()) }),
    )];
    let val = get_hover(&candidates, 0).map(|h| h.0);
    assert!(val.is_some());
    let val = val.unwrap();
    assert!(val.contains("Code"), "expected Code hover, got: {val}");
    assert!(val.contains("rust"), "expected lang info, got: {val}");
}

#[test]
fn variable_hover() {
    // [var(myvar)]
    let candidates = vec![(
        sp(0, 12),
        hover_content(&HoverTarget::Variable { name: "myvar".to_string() }),
    )];
    let val = get_hover(&candidates, 5).map(|h| h.0);
    assert!(val.is_some());
    assert!(val.as_ref().unwrap().contains("myvar"), "expected variable name, got: {}", val.unwrap());
}

#[test]
fn plain_text_no_hover() {
    // hello world
    let candidates = vec![(sp(0, 11), hover_content(&HoverTarget::Text))];
    assert!(get_hover(&candidates, 3).is_none());
}

#[test]
fn var_with_define_returns_location() {
    // {{{#define #x="v"}}}[var(x)]
    let doc = vec![
        VisitedElement::Define { span: sp(0, 20), names: vec!["x".to_string()] },
        VisitedElement::Variable { span: sp(20, 28), name: "x".to_string() },
    ];
    let loc = find_definition(&doc, 20 + 5);
    assert!(loc.is_some(), "expected definition location");
    assert_eq!(loc, Some(sp(0, 20)));
}

#[test]
fn var_without_define_returns_none() {
    // [var(x)]
    let doc = vec![VisitedElement::Variable { span: sp(0, 8), name: "x".to_string() }];
    assert!(find_definition(&doc, 5).is_none());
}

#[test]
fn cursor_not_on_variable_returns_none() {
    // hello world
    let doc = vec![VisitedElement::Other];
    assert!(find_definition(&doc, 3).is_none());
}

#[test]
fn clean_document_no_diagnostics() {
    // hello world
    let doc = vec![VisitedElement::Other];
    assert!(collect_diagnostics(&doc).is_empty());
}

#[test]
fn undefined_variable_warning() {
    // [var(x)]
    let doc = vec![VisitedElement::Variable { span: sp(0, 8), name: "x".to_string() }];
    let diags = collect_diagnostics(&doc);
    let warning = diags.iter().find(|d| d.severity == Severity::Warning);
    assert!(warning.is_some(), "expected a WARNING diagnostic");
    let warning = warning.unwrap();
    assert!(warning.message.contains("Undefined variable"));
    assert!(warning.message.contains("x"));
}

#[test]
fn defined_variable_no_warning() {
    // {{{#define #x="v"}}}[var(x)]
    let doc = vec![
        VisitedElement::Define { span: sp(0, 20), names: vec!["x".to_string()] },
        VisitedElement::Variable { span: sp(20, 28), name: "x".to_string() },
    ];
    let diags = collect_diagnostics(&doc);
    assert!(diags.iter().all(|d| d.severity != Severity::Warning), "expected no warnings");
}

#[test]
fn parser_error_diagnostic() {
    // {{{ (an unclosed brace block)
    let doc = vec![VisitedElement::Error { span: sp(0, 3), value: "{{{".to_string() }];
    let diags = collect_diagnostics(&doc);
    assert!(diags.iter().any(|d| d.severity == Severity::Error), "expected at least one ERROR diagnostic");
}

#[test]
fn multiline_code_block_produces_folding_range() {
    // {{{#code\nline1\nline2\n}}}
    let code = Element::Code(ParamLeaf { span: sp(0, 25), parameters: vec![] });
    let cands = vec![FoldCandidate { kind: fold_kind(&code).unwrap(), start_line: 0, end_line: 3 }];
    let ranges = collect_folding_ranges(&cands);
    assert!(!ranges.is_empty(), "expected at least one folding range");
    assert_eq!(ranges[0].kind, FoldKind::Region);
    assert!(ranges[0].end_line > ranges[0].start_line);
}

#[test]
fn single_line_block_no_folding_range() {
    // {{{#code}}}
    let code = Element::Code(ParamLeaf { span: sp(0, 11), parameters: vec![] });
    let cands = vec![FoldCandidate { kind: fold_kind(&code).unwrap(), start_line: 0, end_line: 0 }];
    let ranges = collect_folding_ranges(&cands);
    assert!(
        ranges.iter().all(|r| r.kind != FoldKind::Region),
        "expected no folding ranges for single-line block"
    );
}

#[test]
fn multiline_comment_produces_comment_folding() {
    // text /* comment\nline 2\nline 3 */ after
    let comment = Element::Comment(sp(5, 33));
    let cands = vec![FoldCandidate { kind: fold_kind(&comment).unwrap(), start_line: 0, end_line: 2 }];
    let ranges = collect_folding_ranges(&cands);
    let comment_ranges: Vec<_> = ranges.iter().filter(|r| r.kind == FoldKind::Comment).collect();
    assert!(!comment_ranges.is_empty(), "expected comment folding range");
    assert!(comment_ranges[0].end_line > comment_ranges[0].start_line);
}

#[test]
fn tokens_never_have_the_text_type_and_stay_in_the_legend() {
    let table = Element::Table(TableElement {
        span: sp(0, 62),
        parameters: vec![],
        children: vec![TableRowItem::Row(TableRow {
            span: sp(10, 27),
            parameters: vec![],
            children: vec![cell(13, 15)],
        })],
    });
    let elements = vec![txt(0, 1, "text"), table, Element::Bold(container(63, 70, vec![txt(65, 68, "text")]))];
    let n = legend().len() as u32;
    for t in collect_semantic_tokens(&elements) {
        assert!(t.2 != 0 && t.2 < n);
    }
}

#[test]
fn elements_are_recorded_for_diagnostics_and_definitions() {
    // {{{#define #x="v" #y="w"}}}[var(x)]{{{
    let define = Element::Define(ParamLeaf {
        span: sp(0, 26),
        parameters: vec![
            Parameter { span: sp(11, 17), name: "x".to_string(), value: vec![txt(15, 16, "1")] },
            Parameter { span: sp(18, 24), name: "y".to_string(), value: vec![txt(22, 23, "2")] },
        ],
    });
    let variable = Element::Variable(VariableElement { span: sp(26, 34), name: "x".to_string() });
    let error = Element::Error(ErrorElement { span: sp(34, 37), value: "{{{".to_string() });
    let doc: Vec<VisitedElement> =
        [define, variable, error, txt(37, 38, "text")].iter().map(visited_of).collect();
    assert!(matches!(&doc[0], VisitedElement::Define { span, names } if *span == sp(0, 26) && names == &vec!["x".to_string(), "y".to_string()]));
    assert!(matches!(&doc[1], VisitedElement::Variable { name, .. } if name == "x"));
    assert!(matches!(&doc[2], VisitedElement::Error { value, .. } if value == "{{{"));
    assert!(matches!(&doc[3], VisitedElement::Other));
    let d = collect_diagnostics(&doc);
    assert_eq!(d.len(), 1);
    assert_eq!(d[0].message, "Parse error: {{{");
    assert_eq!(find_definition(&doc, 30), Some(sp(0, 26)));
}

#[test]
fn elements_are_read_for_hover() {
    let header = Element::Header(HeaderElement { span: sp(0, 8), level: 3, children: vec![] });
    assert_eq!(hover_content(&hover_target_of(&header, None)), Some("**Header** (level 3)".to_string()));
    let tex = Element::TeX(TeXElement { span: sp(0, 5), is_block: false });
    assert_eq!(hover_content(&hover_target_of(&tex, None)), Some("**TeX** (inline)".to_string()));
    let mention = Element::Mention(MentionElement { span: sp(0, 5), kind: MentionKind::User, id: "u1".to_string() });
    assert_eq!(hover_content(&hover_target_of(&mention, None)), Some("**Mention** (user): `u1`".to_string()));
    let code = Element::Code(ParamLeaf { span: sp(0, 39), parameters: vec![] });
    assert_eq!(
        hover_content(&hover_target_of(&code, Some("rust".to_string()))),
        Some("**Code** (lang: `rust`)".to_string())
    );
    let media = Element::ExternalMedia(ExternalMediaElement { span: sp(0, 9), provider: "vimeo".to_string(), parameters: vec![] });
    assert_eq!(hover_content(&hover_target_of(&media, None)), Some("**External Media**: `vimeo`".to_string()));
    assert_eq!(hover_content(&hover_target_of(&txt(0, 1, "text"), None)), None);
}
