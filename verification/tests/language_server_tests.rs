use ls_types::Position;
use sevenmark::completion::DocumentState;
use sevenmark::language_server::completion::{get_completions, variable_completions};
use sevenmark::language_server::diagnostics::truncate;
use sevenmark::sanitize::{
    is_allowed_property, visit_property, visit_rule, visit_selector_list, ImageValue, NodeAction,
    PropertySecurityScan, RuleKind, SelectorComponent,
};
use sevenmark::server_state::{route_message, LspState, Route};
use sevenmark::str_map::StrMap;
use sevenmark::ast::{
    Container, Element, ErrorElement, HeaderElement, ParamLeaf, Parameter, Span, TextElement,
    VariableElement,
};
use sevenmark::document::{document_diagnostics_of, visit_elements};
use sevenmark::diagnostics::{Severity, VisitedElement};

fn make_state(text: &str) -> DocumentState {
    DocumentState::new(text.to_string())
}

/// A `{{{#define #name="value" ...}}}` element starting at `start` of the
/// text, with the given `(name, value)` parameters written one after another.
fn define(start: usize, params: &[(&str, &str)]) -> Element {
    let mut at = start + 10;
    let mut parameters = Vec::new();
    for (name, value) in params {
        let pstart = at + 1;
        let vstart = pstart + 1 + name.len() + 2;
        let pend = vstart + value.len() + 1;
        parameters.push(Parameter {
            span: Span { start: pstart, end: pend },
            name: name.to_string(),
            value: vec![Element::Text(TextElement {
                span: Span { start: vstart, end: vstart + value.len() },
                value: value.to_string(),
            })],
        });
        at = pend;
    }
    Element::Define(ParamLeaf { span: Span { start, end: at + 3 }, parameters })
}

fn labels_of(text: &str, state: &DocumentState) -> Vec<String> {
    let byte_offset = text.len();
    let pos = Position::new(0, byte_offset as u32);
    get_completions(state, pos, byte_offset)
        .into_iter()
        .map(|c| c.label)
        .collect()
}

// ---------------------------------------------------------------------------
// Completion of the native language server
// ---------------------------------------------------------------------------

#[test]
fn var_prefix_with_define_suggests_variable() {
    let text = "{{{#define #myvar=\"v\"}}}[var(";
    let state = make_state(text).with_elements(vec![define(0, &[("myvar", "v")])]);
    let byte_offset = text.len();
    let pos = Position::new(0, byte_offset as u32);
    let completions = get_completions(&state, pos, byte_offset);
    assert!(!completions.is_empty(), "expected variable completions");
    assert!(completions.iter().any(|c| c.label == "myvar"));
}

#[test]
fn brace_prefix_suggests_keywords() {
    let text = "{{{#";
    let state = make_state(text);
    let labels = labels_of(text, &state);
    assert!(!labels.is_empty());
    assert!(labels.contains(&"code".to_string()), "expected 'code' in {labels:?}");
    assert!(labels.contains(&"table".to_string()), "expected 'table' in {labels:?}");
    assert!(labels.contains(&"list".to_string()), "expected 'list' in {labels:?}");
    assert!(
        !labels.contains(&"literal".to_string()),
        "did not expect invalid 'literal' brace keyword completion in {labels:?}"
    );
}

#[test]
fn bracket_prefix_suggests_macros() {
    let text = "hello [";
    let state = make_state(text);
    let labels = labels_of(text, &state);
    assert!(!labels.is_empty(), "expected macro completions");
    assert!(labels.contains(&"var".to_string()), "expected 'var' in {labels:?}");
    assert!(labels.contains(&"br".to_string()), "expected 'br' in {labels:?}");
}

#[test]
fn double_bracket_suggests_media() {
    let text = "hello [[";
    let state = make_state(text);
    let labels = labels_of(text, &state);
    assert!(!labels.is_empty(), "expected bracket completions");
    assert!(labels.contains(&"media".to_string()), "expected 'media' in {labels:?}");
    assert!(labels.contains(&"youtube".to_string()), "expected 'youtube' in {labels:?}");
    assert!(labels.contains(&"link".to_string()), "expected 'link' in {labels:?}");
}

#[test]
fn no_trigger_empty_completions() {
    let text = "hello world";
    let state = make_state(text);
    assert!(labels_of(text, &state).is_empty());
}

#[test]
fn variable_completions_keep_first_occurrence_order() {
    // {{{#define #b="1" #a="2"}}}{{{#define #b="3"}}}
    let text = "{{{#define #b=\"1\" #a=\"2\"}}}{{{#define #b=\"3\"}}}";
    let state = make_state(text).with_elements(vec![
        define(0, &[("b", "1"), ("a", "2")]),
        define(28, &[("b", "3")]),
    ]);
    let labels: Vec<String> = variable_completions(&state).into_iter().map(|c| c.label).collect();
    assert_eq!(labels, vec!["b".to_string(), "a".to_string()]);
}

#[test]
fn cursor_in_the_middle_only_sees_the_prefix() {
    let text = "[[ plain";
    let state = make_state(text);
    let pos = Position::new(0, 2);
    let labels: Vec<String> = get_completions(&state, pos, 2).into_iter().map(|c| c.label).collect();
    assert!(labels.contains(&"media".to_string()));
}

#[test]
fn language_server_truncate_matches_message_rules() {
    assert_eq!(truncate("x\ny", 80), "x\\ny");
    assert_eq!(truncate("abcd", 2), "ab…");
}

// ---------------------------------------------------------------------------
// Message routing and document state
// ---------------------------------------------------------------------------

#[test]
fn known_methods_are_routed() {
    assert_eq!(route_message("initialize", true), Route::Initialize);
    assert_eq!(route_message("initialized", false), Route::Initialized);
    assert_eq!(route_message("shutdown", true), Route::Shutdown);
    assert_eq!(route_message("textDocument/didOpen", false), Route::DidOpen);
    assert_eq!(route_message("textDocument/didChange", false), Route::DidChange);
    assert_eq!(route_message("textDocument/didClose", false), Route::DidClose);
    assert_eq!(route_message("textDocument/completion", true), Route::Completion);
    assert_eq!(route_message("textDocument/hover", true), Route::Hover);
    assert_eq!(route_message("textDocument/definition", true), Route::Definition);
    assert_eq!(
        route_message("textDocument/semanticTokens/full", true),
        Route::SemanticTokensFull
    );
    assert_eq!(route_message("textDocument/foldingRange", true), Route::FoldingRange);
    assert_eq!(route_message("textDocument/documentSymbol", true), Route::DocumentSymbol);
}

#[test]
fn unknown_request_is_method_not_found_and_unknown_notification_ignored() {
    assert_eq!(route_message("foo/bar", true), Route::MethodNotFound);
    assert_eq!(route_message("foo/bar", false), Route::Ignore);
    assert_eq!(route_message("Initialize", true), Route::MethodNotFound);
}

#[test]
fn document_read_after_change_and_close() {
    let mut state = LspState::new();
    assert!(state.document("file:///a").is_none());
    assert!(state.on_change("file:///a".to_string(), Some(1), make_state("one")));
    assert_eq!(state.document("file:///a").unwrap().text, "one");
    assert!(state.on_change("file:///a".to_string(), Some(2), make_state("two")));
    assert_eq!(state.document("file:///a").unwrap().text, "two");
    state.close_document("file:///a");
    assert!(state.document("file:///a").is_none());
}

#[test]
fn stale_change_is_ignored() {
    let mut state = LspState::new();
    assert!(state.on_change("u".to_string(), Some(5), make_state("new")));
    assert!(!state.on_change("u".to_string(), Some(4), make_state("old")));
    assert_eq!(state.document("u").unwrap().text, "new");
    assert!(state.on_change("u".to_string(), Some(5), make_state("same version")));
    assert_eq!(state.document("u").unwrap().text, "same version");
    assert!(state.on_change("u".to_string(), None, make_state("unversioned")));
    assert_eq!(state.document("u").unwrap().text, "unversioned");
    assert!(!state.on_change("u".to_string(), Some(1), make_state("older")));
}

#[test]
fn closing_forgets_version() {
    let mut state = LspState::new();
    assert!(state.on_change("u".to_string(), Some(9), make_state("a")));
    state.close_document("u");
    assert!(state.on_change("u".to_string(), Some(1), make_state("b")));
    assert_eq!(state.document("u").unwrap().text, "b");
}

#[test]
fn str_map_insert_get_remove() {
    let mut m: StrMap<i32> = StrMap::new();
    assert_eq!(m.get("a"), None);
    m.insert("a".to_string(), 1);
    m.insert("b".to_string(), 2);
    m.insert("a".to_string(), 3);
    assert_eq!(m.get("a"), Some(&3));
    assert_eq!(m.get("b"), Some(&2));
    m.remove("a");
    assert_eq!(m.get("a"), None);
    assert_eq!(m.get("b"), Some(&2));
    m.remove("zzz");
    assert_eq!(m.get("b"), Some(&2));
}

// ---------------------------------------------------------------------------
// CSS policy decisions
// ---------------------------------------------------------------------------

#[test]
fn property_allow_list() {
    assert!(is_allowed_property("color"));
    assert!(is_allowed_property("font-size"));
    assert!(is_allowed_property("gap"));
    assert!(!is_allowed_property("position"));
    assert!(!is_allowed_property("z-index"));
    assert!(!is_allowed_property("pointer-events"));
    assert!(!is_allowed_property("Color"));
    assert!(!is_allowed_property(""));
}

#[test]
fn security_scan_flags_dynamic_values() {
    let mut scan = PropertySecurityScan::default();
    assert!(!scan.is_dangerous());
    scan.visit_function("rgb");
    assert!(!scan.is_dangerous());
    scan.visit_function("ExPrEsSiOn");
    assert!(scan.has_expression && scan.is_dangerous());

    let mut scan = PropertySecurityScan::default();
    scan.visit_variable();
    assert!(scan.has_var && scan.is_dangerous());

    let mut scan = PropertySecurityScan::default();
    scan.visit_environment_variable();
    assert!(scan.has_env && scan.is_dangerous());

    let mut scan = PropertySecurityScan::default();
    scan.visit_url();
    assert!(scan.has_url && scan.is_dangerous());
}

#[test]
fn security_scan_of_images() {
    let mut scan = PropertySecurityScan::default();
    scan.scan_image(&ImageValue::Gradient);
    scan.scan_image(&ImageValue::NoImage);
    assert!(!scan.is_dangerous());
    scan.scan_image(&ImageValue::ImageSet(vec![
        ImageValue::Gradient,
        ImageValue::ImageSet(vec![ImageValue::Url]),
    ]));
    assert!(scan.has_url);
}

#[test]
fn rules_other_than_style_media_supports_and_nesting_are_dropped() {
    assert_eq!(visit_rule(RuleKind::Style), NodeAction::Continue);
    assert_eq!(visit_rule(RuleKind::Media), NodeAction::Continue);
    assert_eq!(visit_rule(RuleKind::Supports), NodeAction::Continue);
    assert_eq!(visit_rule(RuleKind::Nesting), NodeAction::Continue);
    assert_eq!(visit_rule(RuleKind::NestedDeclarations), NodeAction::Continue);
    assert_eq!(visit_rule(RuleKind::Other), NodeAction::Drop);
}

#[test]
fn selectors_need_a_class_and_no_tag_id_or_universal() {
    let class = SelectorComponent::Class;
    let nesting = SelectorComponent::Nesting;
    let id = SelectorComponent::Id;
    let tag = SelectorComponent::LocalName;
    let universal = SelectorComponent::ExplicitUniversalType;
    let other = SelectorComponent::Other;
    assert_eq!(visit_selector_list(&vec![vec![class]]), NodeAction::Continue);
    assert_eq!(visit_selector_list(&vec![vec![class, other, class]]), NodeAction::Continue);
    assert_eq!(visit_selector_list(&vec![vec![nesting, other]]), NodeAction::Continue);
    assert_eq!(visit_selector_list(&vec![vec![tag]]), NodeAction::Drop);
    assert_eq!(visit_selector_list(&vec![vec![universal]]), NodeAction::Drop);
    assert_eq!(visit_selector_list(&vec![vec![id]]), NodeAction::Drop);
    assert_eq!(visit_selector_list(&vec![vec![class], vec![tag]]), NodeAction::Drop);
    assert_eq!(visit_selector_list(&vec![vec![class, other, tag]]), NodeAction::Drop);
    assert_eq!(visit_selector_list(&vec![vec![other]]), NodeAction::Drop);
}

#[test]
fn properties_are_kept_only_when_allowed_plain_and_static() {
    let clean = PropertySecurityScan::default();
    assert_eq!(visit_property(false, "color", &clean), NodeAction::Continue);
    assert_eq!(visit_property(true, "color", &clean), NodeAction::Drop);
    assert_eq!(visit_property(false, "position", &clean), NodeAction::Drop);
    let mut with_url = PropertySecurityScan::default();
    with_url.visit_url();
    assert_eq!(visit_property(false, "background", &with_url), NodeAction::Drop);
}

fn open_message(uri: &str, version: i32, text: &str) -> String {
    format!(
        "{{\"jsonrpc\":\"2.0\",\"method\":\"textDocument/didOpen\",\"params\":{{\"textDocument\":{{\"uri\":{},\"languageId\":\"sevenmark\",\"version\":{},\"text\":{}}}}}}}",
        serde_json::to_string(uri).unwrap(),
        version,
        serde_json::to_string(text).unwrap()
    )
}

#[test]
fn initialize_returns_capabilities() {
    let mut state = LspState::new();
    let msg = r#"{"jsonrpc":"2.0","id":1,"method":"initialize","params":{}}"#;
    let result = state.handle_message(msg);
    assert!(result.response.is_some());
    let resp: serde_json::Value = serde_json::from_str(&result.response.unwrap()).unwrap();
    assert!(resp.get("result").is_some());
    let caps = &resp["result"]["capabilities"];
    assert!(caps["textDocumentSync"].is_object());
    assert!(caps["completionProvider"].is_object());
    assert!(caps["hoverProvider"].is_boolean());
    assert_eq!(resp["id"], 1);
    assert_eq!(caps["semanticTokensProvider"]["legend"]["tokenTypes"].as_array().unwrap().len(), 57);
}

#[test]
fn did_open_publishes_diagnostics() {
    let mut state = LspState::new();
    let result = state.handle_message(&open_message("file:///test.sm", 1, "hello world"));
    assert!(result.response.is_none());
    assert_eq!(result.notifications.len(), 1);
    let notif: serde_json::Value = serde_json::from_str(&result.notifications[0]).unwrap();
    assert_eq!(notif["method"], "textDocument/publishDiagnostics");
    assert_eq!(notif["params"]["uri"], "file:///test.sm");
    assert_eq!(notif["params"]["version"], 1);
    assert_eq!(state.document("file:///test.sm").unwrap().text, "hello world");
}

#[test]
fn unknown_method_returns_error() {
    let mut state = LspState::new();
    let msg = r#"{"jsonrpc":"2.0","id":1,"method":"foo/bar","params":{}}"#;
    let result = state.handle_message(msg);
    assert!(result.response.is_some());
    let resp: serde_json::Value = serde_json::from_str(&result.response.unwrap()).unwrap();
    assert!(resp.get("error").is_some());
    assert_eq!(resp["error"]["code"], -32601);
    assert_eq!(resp["error"]["message"], "Method not found: foo/bar");
    assert_eq!(route_message("foo/bar", true), Route::MethodNotFound);
}

#[test]
fn did_close_clears_diagnostics() {
    let mut state = LspState::new();
    state.handle_message(&open_message("file:///test.sm", 1, "[var(x)]"));
    let close = r#"{"jsonrpc":"2.0","method":"textDocument/didClose","params":{"textDocument":{"uri":"file:///test.sm"}}}"#;
    let result = state.handle_message(close);
    assert_eq!(result.notifications.len(), 1);
    let notif: serde_json::Value = serde_json::from_str(&result.notifications[0]).unwrap();
    let diags = &notif["params"]["diagnostics"];
    assert!(diags.as_array().unwrap().is_empty());
    assert!(state.document("file:///test.sm").is_none());
}

#[test]
fn malformed_json_is_a_parse_error() {
    let mut state = LspState::new();
    let result = state.handle_message("{not json");
    let resp: serde_json::Value = serde_json::from_str(&result.response.unwrap()).unwrap();
    assert_eq!(resp["error"]["code"], -32700);
    assert!(resp["id"].is_null());
    assert!(resp["error"]["message"].as_str().unwrap().starts_with("Parse error: "));
    assert!(result.notifications.is_empty());
}

#[test]
fn unknown_notification_and_stale_change_get_no_reply() {
    let mut state = LspState::new();
    let r = state.handle_message(r#"{"jsonrpc":"2.0","method":"foo/bar"}"#);
    assert!(r.response.is_none() && r.notifications.is_empty());
    state.handle_message(&open_message("file:///u", 5, "new"));
    let change = r#"{"jsonrpc":"2.0","method":"textDocument/didChange","params":{"textDocument":{"uri":"file:///u","version":4},"contentChanges":[{"text":"old"}]}}"#;
    let r = state.handle_message(change);
    assert!(r.response.is_none() && r.notifications.is_empty());
    assert_eq!(state.document("file:///u").unwrap().text, "new");
    let change = r#"{"jsonrpc":"2.0","method":"textDocument/didChange","params":{"textDocument":{"uri":"file:///u","version":6},"contentChanges":[{"text":"a"},{"text":"b"}]}}"#;
    let r = state.handle_message(change);
    assert_eq!(r.notifications.len(), 1);
    assert_eq!(state.document("file:///u").unwrap().text, "b");
}

#[test]
fn completion_request_answers_with_items() {
    let mut state = LspState::new();
    state.handle_message(&open_message("file:///u", 1, "x {{{#"));
    let req = r#"{"jsonrpc":"2.0","id":"c1","method":"textDocument/completion","params":{"textDocument":{"uri":"file:///u"},"position":{"line":0,"character":6}}}"#;
    let resp: serde_json::Value =
        serde_json::from_str(&state.handle_message(req).response.unwrap()).unwrap();
    assert_eq!(resp["id"], "c1");
    let items = resp["result"].as_array().unwrap();
    assert!(items.iter().any(|i| i["label"] == "code" && i["kind"] == 14));
    let req = r#"{"jsonrpc":"2.0","id":2,"method":"textDocument/completion","params":{"textDocument":{"uri":"file:///u"},"position":{"line":0,"character":1}}}"#;
    let resp: serde_json::Value =
        serde_json::from_str(&state.handle_message(req).response.unwrap()).unwrap();
    assert!(resp["result"].is_null());
}

fn request(id: u32, method: &str, uri: &str, position: Option<(u32, u32)>) -> String {
    let pos = match position {
        Some((l, c)) => format!(",\"position\":{{\"line\":{l},\"character\":{c}}}"),
        None => String::new(),
    };
    format!(
        "{{\"jsonrpc\":\"2.0\",\"id\":{id},\"method\":\"{method}\",\"params\":{{\"textDocument\":{{\"uri\":\"{uri}\"}}{pos}}}}}"
    )
}

fn result_of(state: &mut LspState, msg: &str) -> serde_json::Value {
    let resp: serde_json::Value = serde_json::from_str(&state.handle_message(msg).response.unwrap()).unwrap();
    resp["result"].clone()
}

#[test]
fn hover_on_bold() {
    let mut state = LspState::new();
    state.handle_message(&open_message("file:///test.sm", 1, "**bold**"));
    state.set_elements(
        "file:///test.sm",
        vec![Element::Bold(Container { span: Span { start: 0, end: 8 }, children: vec![Element::Text(TextElement { span: Span { start: 2, end: 6 }, value: "bold".to_string() })] })],
    );
    let result = result_of(&mut state, &request(2, "textDocument/hover", "file:///test.sm", Some((0, 3))));
    let content = result["contents"]["value"].as_str().unwrap();
    assert!(content.contains("Bold"));
    assert_eq!(result["contents"]["kind"], "markdown");
    assert_eq!(result["range"]["start"]["character"], 0);
    assert_eq!(result["range"]["end"]["character"], 8);
}

#[test]
fn document_features_answer_from_the_elements() {
    let sp = |start, end| Span { start, end };
    // ## Intro\n{{{#define #x="v"}}}[var(x)][var(y)]\n/* a\nb */
    let text = "## Intro\n{{{#define #x=\"v\"}}}[var(x)][var(y)]\n/* a\nb */";
    let mut state = LspState::new();
    state.handle_message(&open_message("file:///u", 1, text));
    let elements = vec![
        Element::Header(HeaderElement { span: sp(0, 9), level: 2, children: vec![Element::Text(TextElement { span: sp(3, 8), value: "Intro".to_string() })] }),
        Element::Define(ParamLeaf {
            span: sp(9, 29),
            parameters: vec![Parameter { span: sp(20, 26), name: "x".to_string(), value: vec![Element::Text(TextElement { span: sp(24, 25), value: "v".to_string() })] }],
        }),
        Element::Variable(VariableElement { span: sp(29, 37), name: "x".to_string() }),
        Element::Variable(VariableElement { span: sp(37, 45), name: "y".to_string() }),
        Element::Comment(sp(46, 54)),
        Element::Error(ErrorElement { span: sp(54, 54), value: "e".to_string() }),
        Element::Bold(Container { span: sp(54, 54), children: vec![] }),
    ];
    state.set_elements("file:///u", elements);
    let def = result_of(&mut state, &request(3, "textDocument/definition", "file:///u", Some((1, 25))));
    assert_eq!(def["uri"], "file:///u");
    assert_eq!(def["range"]["start"]["line"], 1);
    assert_eq!(def["range"]["start"]["character"], 0);
    let none = result_of(&mut state, &request(4, "textDocument/definition", "file:///u", Some((1, 30))));
    assert!(none.is_null());
    let folds = result_of(&mut state, &request(5, "textDocument/foldingRange", "file:///u", None));
    let folds = folds.as_array().unwrap();
    assert_eq!(folds.len(), 1);
    assert_eq!(folds[0]["kind"], "comment");
    assert_eq!((folds[0]["startLine"].clone(), folds[0]["endLine"].clone()), (2.into(), 3.into()));
    let syms = result_of(&mut state, &request(6, "textDocument/documentSymbol", "file:///u", None));
    let syms = syms.as_array().unwrap();
    assert_eq!(syms.len(), 2);
    assert_eq!(syms[0]["name"], "Intro");
    assert_eq!(syms[0]["detail"], "Level 2");
    assert_eq!(syms[0]["kind"], 15);
    assert_eq!(syms[1]["name"], "x");
    assert_eq!(syms[1]["kind"], 13);
    let tokens = result_of(&mut state, &request(7, "textDocument/semanticTokens/full", "file:///u", None));
    let data = tokens["data"].as_array().unwrap();
    assert_eq!(data.len() % 5, 0);
    assert!(!data.is_empty());
    // the header token: line 0, start 0, covering "## Intro"
    assert_eq!((data[0].clone(), data[1].clone(), data[2].clone(), data[3].clone()), (0.into(), 0.into(), 8.into(), 35.into()));
}

#[test]
fn diagnostics_come_from_the_elements_in_preorder() {
    let sp = |start, end| Span { start, end };
    let elements = vec![
        Element::Bold(Container {
            span: sp(0, 20),
            children: vec![Element::Variable(VariableElement { span: sp(2, 10), name: "x".to_string() })],
        }),
        Element::Error(ErrorElement { span: sp(20, 23), value: "{{{".to_string() }),
    ];
    let visited = visit_elements(&elements);
    assert_eq!(visited.len(), 3);
    assert!(matches!(visited[1], VisitedElement::Variable { .. }));
    let d = document_diagnostics_of(&elements);
    assert_eq!(d.len(), 2);
    assert_eq!((d[0].severity, d[0].message.as_str()), (Severity::Error, "Parse error: {{{"));
    assert_eq!((d[1].severity, d[1].message.as_str()), (Severity::Warning, "Undefined variable: x"));
    assert!(d.iter().all(|x| x.source == "sevenmark"));
}

#[test]
fn did_open_with_an_unparsable_uri_is_ignored() {
    let mut state = LspState::new();
    let result = state.handle_message(&open_message("not a uri", 1, "hello"));
    assert!(result.response.is_none());
    assert!(result.notifications.is_empty());
    assert!(state.document("not a uri").is_none());
}
