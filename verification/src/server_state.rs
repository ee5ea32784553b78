//! Transport-agnostic language-server state: the open documents, their
//! versions, and which handler a JSON-RPC method goes to.

use vstd::prelude::*;

use crate::completion::model::{items_view, CompletionItem, ItemSpec};
use crate::completion::{
    completion_items, get_completions, is_variable_items, text_prefix, var_open,
    DocumentState,
};
use crate::fmt::{chars_to_string, push_str};
use crate::language_server::semantic_tokens::{legend, token_type_names};
use crate::rpc::{
    decode_message, decode_params, decoded_message, decoded_params, decoded_view, error_text,
    item_text, items_joined, items_text, json_quoted, push_format_field, push_kind_field, push_quoted_field,
    make_diagnostics_notification, make_error_response, make_response, names_joined,
    diagnostics_notification, position_index, position_to_byte_offset, push_quoted,
    response_text, IncomingMessage, MessageView, ParamsView,
};
use crate::str_map::StrMap;
use crate::ast::Element;
use crate::document::{
    define_keys, definition_answer, definition_answer_text, diagnostics_array, diagnostics_array_text,
    folding_answer, folding_answer_text, hover_answer, hover_answer_text, symbols_answer,
    symbols_answer_text, tokens_answer, tokens_answered,
};
use crate::text::{ends_with, str_eq};
use vstd::utf8::{encode_utf8, is_char_boundary};

verus! {

/// The handler a JSON-RPC message goes to.
#[derive(Clone, Copy, Debug, PartialEq, Eq, Structural)]
pub enum Route {
    Initialize,
    Initialized,
    Shutdown,
    DidOpen,
    DidChange,
    DidClose,
    Completion,
    Hover,
    Definition,
    SemanticTokensFull,
    FoldingRange,
    DocumentSymbol,
    /// An unknown request: answered with a "method not found" error.
    MethodNotFound,
    /// An unknown notification: ignored.
    Ignore,
}

/// The route of `method` (a request when `has_id`).
pub open spec fn route_of(method: Seq<char>, has_id: bool) -> Route {
    if method == "initialize"@ {
        Route::Initialize
    } else if method == "initialized"@ {
        Route::Initialized
    } else if method == "shutdown"@ {
        Route::Shutdown
    } else if method == "textDocument/didOpen"@ {
        Route::DidOpen
    } else if method == "textDocument/didChange"@ {
        Route::DidChange
    } else if method == "textDocument/didClose"@ {
        Route::DidClose
    } else if method == "textDocument/completion"@ {
        Route::Completion
    } else if method == "textDocument/hover"@ {
        Route::Hover
    } else if method == "textDocument/definition"@ {
        Route::Definition
    } else if method == "textDocument/semanticTokens/full"@ {
        Route::SemanticTokensFull
    } else if method == "textDocument/foldingRange"@ {
        Route::FoldingRange
    } else if method == "textDocument/documentSymbol"@ {
        Route::DocumentSymbol
    } else if has_id {
        Route::MethodNotFound
    } else {
        Route::Ignore
    }
}

/// Which handler a message with `method` goes to; `has_id` tells a request
/// from a notification.
pub fn route_message(method: &str, has_id: bool) -> (r: Route)
    ensures
        r == route_of(method@, has_id),
{
    if str_eq(method, "initialize") {
        Route::Initialize
    } else if str_eq(method, "initialized") {
        Route::Initialized
    } else if str_eq(method, "shutdown") {
        Route::Shutdown
    } else if str_eq(method, "textDocument/didOpen") {
        Route::DidOpen
    } else if str_eq(method, "textDocument/didChange") {
        Route::DidChange
    } else if str_eq(method, "textDocument/didClose") {
        Route::DidClose
    } else if str_eq(method, "textDocument/completion") {
        Route::Completion
    } else if str_eq(method, "textDocument/hover") {
        Route::Hover
    } else if str_eq(method, "textDocument/definition") {
        Route::Definition
    } else if str_eq(method, "textDocument/semanticTokens/full") {
        Route::SemanticTokensFull
    } else if str_eq(method, "textDocument/foldingRange") {
        Route::FoldingRange
    } else if str_eq(method, "textDocument/documentSymbol") {
        Route::DocumentSymbol
    } else if has_id {
        Route::MethodNotFound
    } else {
        Route::Ignore
    }
}

/// The open documents by URI, with the last version seen of each.
pub struct LspState {
    documents: StrMap<DocumentState>,
    document_versions: StrMap<i32>,
}

/// A change with `version` is stale when the document has a recorded version
/// above it.
pub open spec fn is_stale(recorded: Option<i32>, version: Option<i32>) -> bool {
    match (recorded, version) {
        (Some(p), Some(v)) => v < p,
        _ => false,
    }
}

/// Recorded versions never go back: a change with a version is recorded only
/// when no newer version of the document was recorded before.
pub proof fn lemma_recorded_versions_never_decrease(recorded: Option<i32>, version: i32)
    ensures
        !is_stale(recorded, Some(version)) ==> match recorded {
            Some(p) => p <= version,
            None => true,
        },
        is_stale(recorded, Some(version)) <==> (recorded is Some && version < recorded->0),
{
}

impl LspState {
    pub closed spec fn wf(&self) -> bool {
        self.documents.wf() && self.document_versions.wf()
    }

    /// The open documents.
    pub closed spec fn documents(&self) -> Map<Seq<char>, DocumentState> {
        self.documents.map()
    }

    /// The last version seen of each document.
    pub closed spec fn versions(&self) -> Map<Seq<char>, i32> {
        self.document_versions.map()
    }

    /// The recorded version of `uri`, if any.
    pub open spec fn recorded_version(&self, uri: Seq<char>) -> Option<i32> {
        if self.versions().contains_key(uri) {
            Some(self.versions()[uri])
        } else {
            None
        }
    }

    /// No open documents.
    pub fn new() -> (r: Self)
        ensures
            r.wf(),
            r.documents() == Map::<Seq<char>, DocumentState>::empty(),
            r.versions() == Map::<Seq<char>, i32>::empty(),
    {
        LspState { documents: StrMap::new(), document_versions: StrMap::new() }
    }

    /// The open document `uri`, if any.
    pub fn document(&self, uri: &str) -> (r: Option<&DocumentState>)
        requires
            self.wf(),
        ensures
            match r {
                Some(d) => self.documents().contains_key(uri@) && *d == self.documents()[uri@],
                None => !self.documents().contains_key(uri@),
            },
    {
        self.documents.get(uri)
    }

    /// Records the new content of `uri` (opened or changed) unless the change
    /// is stale. Returns whether it was recorded.
    pub fn on_change(&mut self, uri: String, version: Option<i32>, state: DocumentState) -> (r: bool)
        requires
            old(self).wf(),
        ensures
            final(self).wf(),
            r == !is_stale(old(self).recorded_version(uri@), version),
            !r ==> final(self).documents() == old(self).documents() && final(self).versions()
                == old(self).versions(),
            r ==> final(self).documents() == old(self).documents().insert(uri@, state),
            r ==> final(self).versions() == match version {
                Some(v) => old(self).versions().insert(uri@, v),
                None => old(self).versions(),
            },
    {
        if let Some(v) = version {
            if let Some(prev) = self.document_versions.get(uri.as_str()) {
                if v < *prev {
                    return false;
                }
            }
        }
        match version {
            Some(v) => {
                self.document_versions.insert(uri.clone(), v);
            },
            None => {},
        }
        self.documents.insert(uri, state);
        true
    }

    /// Forgets document `uri` and its version.
    pub fn close_document(&mut self, uri: &str)
        requires
            old(self).wf(),
        ensures
            final(self).wf(),
            final(self).documents() == old(self).documents().remove(uri@),
            final(self).versions() == old(self).versions().remove(uri@),
    {
        self.documents.remove(uri);
        self.document_versions.remove(uri);
    }
}

/// The result of handling one message: the response, present for a request
/// with an `id`, and the notifications the server pushes.
pub struct HandleResult {
    pub response: Option<String>,
    pub notifications: Vec<String>,
}

/// The response and the notifications as texts.
pub open spec fn result_view(r: HandleResult) -> (Option<Seq<char>>, Seq<Seq<char>>) {
    (
        match r.response {
            Some(t) => Some(t@),
            None => None,
        },
        r.notifications@.map_values(|n: String| n@),
    )
}

/// No response and no notification.
pub open spec fn no_reply() -> (Option<Seq<char>>, Seq<Seq<char>>) {
    (None, seq![])
}

/// A response with `result` when the message has an `id`, nothing else.
pub open spec fn answer(id: Option<Seq<char>>, result: Seq<char>) -> (
    Option<Seq<char>>,
    Seq<Seq<char>>,
) {
    (
        match id {
            Some(i) => Some(response_text(i, result)),
            None => None,
        },
        seq![],
    )
}

/// The texts of the open documents.
pub open spec fn texts(docs: Map<Seq<char>, DocumentState>) -> Map<Seq<char>, Seq<char>> {
    docs.map_values(|d: DocumentState| d.text@)
}

/// The recorded version of `uri` in `versions`.
pub open spec fn version_in(versions: Map<Seq<char>, i32>, uri: Seq<char>) -> Option<i32> {
    if versions.contains_key(uri) {
        Some(versions[uri])
    } else {
        None
    }
}

/// The method of a message (empty when absent).
pub open spec fn method_of(m: MessageView) -> Seq<char> {
    match m.method {
        Some(x) => x,
        None => ""@,
    }
}

/// The decoded `params` of a message.
pub open spec fn params_of(m: MessageView) -> Option<ParamsView> {
    match m.params {
        Some(p) => decoded_params(p),
        None => None,
    }
}

/// A version that fits an `i32`.
pub open spec fn version_fits(v: Option<i64>) -> bool {
    v is Some && i32::MIN <= v->0 <= i32::MAX
}

/// The document that `textDocument/didOpen` opens: its uri, version and
/// text, when `textDocument` has all of them and a `languageId`.
pub open spec fn open_fields(p: Option<ParamsView>) -> Option<(Seq<char>, i32, Seq<char>)> {
    match p {
        Some(f) => if f.uri is Some && f.language_id is Some && version_fits(f.version)
            && f.text is Some {
            Some((f.uri->0, f.version->0 as i32, f.text->0))
        } else {
            None
        },
        None => None,
    }
}

/// The change that `textDocument/didChange` makes: its uri, version and the
/// texts of its content changes, when all of them are there.
pub open spec fn change_fields(p: Option<ParamsView>) -> Option<(Seq<char>, i32, Seq<Option<Seq<char>>>)> {
    match p {
        Some(f) => if f.uri is Some && version_fits(f.version) && f.changes is Some && (forall|
            i: int,
        |
            0 <= i < f.changes->0.len() ==> (#[trigger] f.changes->0[i]) is Some) {
            Some((f.uri->0, f.version->0 as i32, f.changes->0))
        } else {
            None
        },
        None => None,
    }
}

/// The uri of the document a message names.
pub open spec fn uri_field(p: Option<ParamsView>) -> Option<Seq<char>> {
    match p {
        Some(f) => f.uri,
        None => None,
    }
}

/// The document and position of a completion request, when the position's
/// line and character fit a `u32`.
pub open spec fn position_fields(p: Option<ParamsView>) -> Option<(Seq<char>, u32, u32)> {
    match p {
        Some(f) => if f.uri is Some && f.line is Some && f.character is Some && f.line->0
            <= u32::MAX && f.character->0 <= u32::MAX {
            Some((f.uri->0, f.line->0 as u32, f.character->0 as u32))
        } else {
            None
        },
        None => None,
    }
}

/// The result of the `initialize` request: the server's capabilities and
/// name.
pub open spec fn initialize_text() -> Seq<char> {
    "{\"capabilities\":{\"completionProvider\":{\"triggerCharacters\":[\"[\",\"#\",\"(\"]},\"definitionProvider\":true,\"documentSymbolProvider\":true,\"foldingRangeProvider\":true,\"hoverProvider\":true,\"semanticTokensProvider\":{\"full\":true,\"legend\":{\"tokenModifiers\":[],\"tokenTypes\":["@
        + names_joined(token_type_names())
        + "]}},\"textDocumentSync\":{\"change\":1,\"openClose\":true}},\"serverInfo\":{\"name\":\"sevenmark-language-server\",\"version\":\"0.1.0\"}}"@
}

/// The byte offset of a completion position in a document.
pub open spec fn completion_offset(text: Seq<char>, line: u32, character: u32) -> int {
    encode_utf8(text.take(position_index(text, 0, line as nat, 0, character as nat))).len()
        as usize as int
}

/// `items` are what completion offers at byte `offset` of `doc`.
pub open spec fn offered(doc: DocumentState, offset: int, items: Seq<ItemSpec>) -> bool {
    let prefix = text_prefix(doc.text@, offset);
    if ends_with(prefix, var_open()) {
        is_variable_items(items, define_keys(doc.elements@))
    } else {
        items == completion_items(prefix)
    }
}

/// The reply to a completion request for the request `id` with the
/// position fields `pos`: null when the position is missing, names no
/// open document or falls inside a character, else the items offered
/// there (null when there are none).
pub open spec fn completion_answered(
    docs: Map<Seq<char>, DocumentState>,
    id: Option<Seq<char>>,
    pos: Option<(Seq<char>, u32, u32)>,
    reply: (Option<Seq<char>>, Seq<Seq<char>>),
) -> bool {
    match pos {
        Some((uri, line, character)) => if docs.contains_key(uri) {
            let doc = docs[uri];
            let offset = completion_offset(doc.text@, line, character);
            if is_char_boundary(encode_utf8(doc.text@), offset) {
                exists|items: Seq<ItemSpec>|
                    #[trigger] offered(doc, offset, items) && reply == answer(
                        id,
                        if items.len() == 0 {
                            "null"@
                        } else {
                            items_text(items)
                        },
                    )
            } else {
                reply == answer(id, "null"@)
            }
        } else {
            reply == answer(id, "null"@)
        },
        None => reply == answer(id, "null"@),
    }
}

/// A document change for `uri` at `version` to `text`: a stale change is
/// dropped with no reply; any other is recorded and answered with a
/// diagnostics notification for the document at that version.
pub open spec fn change_handled(
    docs: Map<Seq<char>, Seq<char>>,
    versions: Map<Seq<char>, i32>,
    uri: Seq<char>,
    version: i32,
    text: Seq<char>,
    reply: (Option<Seq<char>>, Seq<Seq<char>>),
    docs2: Map<Seq<char>, Seq<char>>,
    versions2: Map<Seq<char>, i32>,
) -> bool {
    if is_stale(version_in(versions, uri), Some(version)) {
        reply == no_reply() && docs2 == docs && versions2 == versions
    } else {
        &&& reply == (
            None::<Seq<char>>,
            seq![
                diagnostics_notification(
                    uri,
                    Some(version),
                    diagnostics_array_text(text, Seq::<Element>::empty()),
                ),
            ],
        )
        &&& docs2 == docs.insert(uri, text)
        &&& versions2 == versions.insert(uri, version)
    }
}

/// How one decoded message is answered and what it does to the open
/// documents (their texts) and their versions.
pub open spec fn handled(
    docs: Map<Seq<char>, DocumentState>,
    versions: Map<Seq<char>, i32>,
    m: Result<MessageView, Seq<char>>,
    reply: (Option<Seq<char>>, Seq<Seq<char>>),
    docs2: Map<Seq<char>, Seq<char>>,
    versions2: Map<Seq<char>, i32>,
) -> bool {
    let unchanged = docs2 == texts(docs) && versions2 == versions;
    match m {
        Err(e) => unchanged && reply == (
            Some(error_text("null"@, "-32700"@, "Parse error: "@ + e)),
            Seq::<Seq<char>>::empty(),
        ),
        Ok(msg) => {
            let id = msg.id;
            let p = params_of(msg);
            match route_of(method_of(msg), id is Some) {
                Route::Initialize => unchanged && reply == answer(id, initialize_text()),
                Route::Initialized | Route::Ignore => unchanged && reply == no_reply(),
                Route::Shutdown => unchanged && reply == answer(id, "null"@),
                Route::Hover => unchanged && reply == answer(
                    id,
                    match position_fields(p) {
                        Some((uri, line, character)) => if docs.contains_key(uri) {
                            hover_answer_text(
                                docs[uri],
                                completion_offset(docs[uri].text@, line, character),
                            )
                        } else {
                            "null"@
                        },
                        None => "null"@,
                    },
                ),
                Route::Definition => unchanged && reply == answer(
                    id,
                    match position_fields(p) {
                        Some((uri, line, character)) => if docs.contains_key(uri) {
                            definition_answer_text(
                                uri,
                                docs[uri],
                                completion_offset(docs[uri].text@, line, character),
                            )
                        } else {
                            "null"@
                        },
                        None => "null"@,
                    },
                ),
                Route::FoldingRange => unchanged && reply == answer(
                    id,
                    match uri_field(p) {
                        Some(uri) => if docs.contains_key(uri) {
                            folding_answer_text(docs[uri])
                        } else {
                            "null"@
                        },
                        None => "null"@,
                    },
                ),
                Route::DocumentSymbol => unchanged && reply == answer(
                    id,
                    match uri_field(p) {
                        Some(uri) => if docs.contains_key(uri) {
                            symbols_answer_text(docs[uri])
                        } else {
                            "null"@
                        },
                        None => "null"@,
                    },
                ),
                Route::SemanticTokensFull => unchanged && match uri_field(p) {
                    Some(uri) => if docs.contains_key(uri) {
                        exists|t: Seq<char>| #[trigger] tokens_answered(docs[uri], t) && reply == answer(id, t)
                    } else {
                        reply == answer(id, "null"@)
                    },
                    None => reply == answer(id, "null"@),
                },
                Route::Completion => unchanged && completion_answered(
                    docs,
                    id,
                    position_fields(p),
                    reply,
                ),
                Route::MethodNotFound => unchanged && reply == (
                    Some(
                        error_text(
                            id->0,
                            "-32601"@,
                            "Method not found: "@ + method_of(msg),
                        ),
                    ),
                    Seq::<Seq<char>>::empty(),
                ),
                Route::DidOpen => match open_fields(p) {
                    Some((uri, version, text)) => change_handled(
                        texts(docs),
                        versions,
                        uri,
                        version,
                        text,
                        reply,
                        docs2,
                        versions2,
                    ),
                    None => unchanged && reply == no_reply(),
                },
                Route::DidChange => match change_fields(p) {
                    Some((uri, version, changes)) => if changes.len() == 0 {
                        unchanged && reply == no_reply()
                    } else {
                        change_handled(
                            texts(docs),
                            versions,
                            uri,
                            version,
                            changes.last()->0,
                            reply,
                            docs2,
                            versions2,
                        )
                    },
                    None => unchanged && reply == no_reply(),
                },
                Route::DidClose => match uri_field(p) {
                    Some(uri) => {
                        &&& docs2 == texts(docs).remove(uri)
                        &&& versions2 == versions.remove(uri)
                        &&& reply == (
                            None::<Seq<char>>,
                            seq![diagnostics_notification(uri, None, "[]"@)],
                        )
                    },
                    None => unchanged && reply == no_reply(),
                },
            }
        },
    }
}

/// Writes the result of the `initialize` request.
fn initialize_result() -> (r: String)
    ensures
        r@ == initialize_text(),
{
    let mut out: Vec<char> = Vec::new();
    push_str(
        &mut out,
        "{\"capabilities\":{\"completionProvider\":{\"triggerCharacters\":[\"[\",\"#\",\"(\"]},\"definitionProvider\":true,\"documentSymbolProvider\":true,\"foldingRangeProvider\":true,\"hoverProvider\":true,\"semanticTokensProvider\":{\"full\":true,\"legend\":{\"tokenModifiers\":[],\"tokenTypes\":[",
    );
    let ghost start = out@;
    let names = legend();
    let ghost all = names@.map_values(|n: &str| n@);
    let mut i: usize = 0;
    while i < names.len()
        invariant
            i <= names.len(),
            all == names@.map_values(|n: &str| n@),
            out@ == start + names_joined(all.take(i as int)),
        decreases names.len() - i,
    {
        if i > 0 {
            push_str(&mut out, ",");
        }
        push_quoted(&mut out, names[i]);
        proof {
            let t = all.take(i as int + 1);
            assert(t.drop_last() =~= all.take(i as int));
            if i == 0 {
                assert(all.take(0) =~= Seq::<Seq<char>>::empty());
            }
        }
        i = i + 1;
    }
    assert(all.take(names.len() as int) =~= all);
    push_str(
        &mut out,
        "]}},\"textDocumentSync\":{\"change\":1,\"openClose\":true}},\"serverInfo\":{\"name\":\"sevenmark-language-server\",\"version\":\"0.1.0\"}}",
    );
    assert(out@ =~= initialize_text());
    chars_to_string(&out)
}

/// Appends a completion item as a JSON object.
fn push_item(out: &mut Vec<char>, item: &CompletionItem)
    ensures
        final(out)@ == old(out)@ + item_text(item@),
{
    push_str(out, "{");
    push_quoted_field(out, "\"detail\":", &item.detail);
    push_quoted_field(out, "\"insertText\":", &item.insert_text);
    push_format_field(out, item.insert_text_format);
    push_kind_field(out, item.kind);
    push_str(out, "\"label\":");
    push_quoted(out, item.label.as_str());
    push_str(out, "}");
    assert(final(out)@ =~= old(out)@ + item_text(item@));
}

/// Whether every content change has a text.
fn all_texts_present(changes: &Vec<Option<String>>) -> (r: bool)
    ensures
        r == forall|i: int| 0 <= i < changes@.len() ==> (#[trigger] changes@[i]) is Some,
{
    let mut k: usize = 0;
    while k < changes.len()
        invariant
            k <= changes.len(),
            forall|i: int| 0 <= i < k ==> (#[trigger] changes@[i]) is Some,
        decreases changes.len() - k,
    {
        if changes[k].is_none() {
            return false;
        }
        k = k + 1;
    }
    true
}

/// Writes the result of a completion request: the items as a JSON array,
/// or null when there are none.
fn completion_result(items: &Vec<CompletionItem>) -> (r: String)
    ensures
        r@ == if items@.len() == 0 {
            "null"@
        } else {
            items_text(items_view(items@))
        },
{
    if items.len() == 0 {
        return String::from_str("null");
    }
    let ghost all = items_view(items@);
    let mut out: Vec<char> = Vec::new();
    push_str(&mut out, "[");
    let ghost start = out@;
    let mut i: usize = 0;
    while i < items.len()
        invariant
            i <= items.len(),
            all == items_view(items@),
            out@ == start + items_joined(all.take(i as int)),
        decreases items.len() - i,
    {
        if i > 0 {
            push_str(&mut out, ",");
        }
        push_item(&mut out, &items[i]);
        proof {
            let t = all.take(i as int + 1);
            assert(t.drop_last() =~= all.take(i as int));
            if i == 0 {
                assert(all.take(0) =~= Seq::<ItemSpec>::empty());
            }
        }
        i = i + 1;
    }
    assert(all.take(items.len() as int) =~= all);
    push_str(&mut out, "]");
    assert(out@ =~= items_text(all));
    chars_to_string(&out)
}

/// No response and no notification.
fn empty_result() -> (r: HandleResult)
    ensures
        result_view(r) == no_reply(),
{
    let r = HandleResult { response: None, notifications: Vec::new() };
    assert(result_view(r).1 =~= Seq::<Seq<char>>::empty());
    r
}

/// A response with `result` when there is an `id`.
fn answer_with(id: &Option<String>, result: &str) -> (r: HandleResult)
    ensures
        result_view(r) == answer(crate::rpc::opt_text(*id), result@),
{
    let response = match id {
        Some(i) => Some(make_response(i.as_str(), result)),
        None => None,
    };
    let r = HandleResult { response, notifications: Vec::new() };
    assert(result_view(r).1 =~= Seq::<Seq<char>>::empty());
    r
}

/// A version that fits an `i32`.
fn fitting_version(v: Option<i64>) -> (r: Option<i32>)
    ensures
        r is Some == version_fits(v),
        r is Some ==> r->0 == v->0,
{
    match v {
        Some(n) => if n >= i32::MIN as i64 && n <= i32::MAX as i64 {
            Some(n as i32)
        } else {
            None
        },
        None => None,
    }
}


/// The document and position of a request.
fn position_of(p: &Option<crate::rpc::ParamFields>) -> (r: Option<(&String, u32, u32)>)
    ensures
        match r {
            Some((u, l, c)) => position_fields(crate::rpc::params_view(*p)) == Some((u@, l, c)),
            None => position_fields(crate::rpc::params_view(*p)) is None,
        },
{
    match p {
        Some(f) => match (&f.uri, f.line, f.character) {
            (Some(u), Some(l), Some(c)) => if l > u32::MAX as u64 || c > u32::MAX as u64 {
                None
            } else {
                Some((u, l as u32, c as u32))
            },
            _ => None,
        },
        None => None,
    }
}

/// The document a request names.
fn uri_of(p: &Option<crate::rpc::ParamFields>) -> (r: Option<&String>)
    ensures
        match r {
            Some(u) => uri_field(crate::rpc::params_view(*p)) == Some(u@),
            None => uri_field(crate::rpc::params_view(*p)) is None,
        },
{
    match p {
        Some(f) => match &f.uri {
            Some(u) => Some(u),
            None => None,
        },
        None => None,
    }
}

impl LspState {
    /// Answers a hover (or, with `definition`, a go-to-definition) request.
    fn handle_at_position(&self, id: &Option<String>, p: &Option<crate::rpc::ParamFields>, definition: bool) -> (r: HandleResult)
        requires
            self.wf(),
        ensures
            result_view(r) == answer(
                crate::rpc::opt_text(*id),
                match position_fields(crate::rpc::params_view(*p)) {
                    Some((uri, line, character)) => if self.documents().contains_key(uri) {
                        if definition {
                            definition_answer_text(
                                uri,
                                self.documents()[uri],
                                completion_offset(self.documents()[uri].text@, line, character),
                            )
                        } else {
                            hover_answer_text(
                                self.documents()[uri],
                                completion_offset(self.documents()[uri].text@, line, character),
                            )
                        }
                    } else {
                        "null"@
                    },
                    None => "null"@,
                },
            ),
    {
        match position_of(p) {
            Some((uri, line, character)) => match self.document(uri.as_str()) {
                Some(doc) => {
                    let offset = position_to_byte_offset(doc.text.as_str(), line, character);
                    let result = if definition {
                        definition_answer(uri.as_str(), doc, offset)
                    } else {
                        hover_answer(doc, offset)
                    };
                    answer_with(id, result.as_str())
                },
                None => answer_with(id, "null"),
            },
            None => answer_with(id, "null"),
        }
    }

    /// Answers a folding-range (`kind` 0) or document-symbol (`kind` 1)
    /// request.
    fn handle_outline(&self, id: &Option<String>, p: &Option<crate::rpc::ParamFields>, symbols: bool) -> (r: HandleResult)
        requires
            self.wf(),
        ensures
            result_view(r) == answer(
                crate::rpc::opt_text(*id),
                match uri_field(crate::rpc::params_view(*p)) {
                    Some(uri) => if self.documents().contains_key(uri) {
                        if symbols {
                            symbols_answer_text(self.documents()[uri])
                        } else {
                            folding_answer_text(self.documents()[uri])
                        }
                    } else {
                        "null"@
                    },
                    None => "null"@,
                },
            ),
    {
        match uri_of(p) {
            Some(uri) => match self.document(uri.as_str()) {
                Some(doc) => {
                    let result = if symbols {
                        symbols_answer(doc)
                    } else {
                        folding_answer(doc)
                    };
                    answer_with(id, result.as_str())
                },
                None => answer_with(id, "null"),
            },
            None => answer_with(id, "null"),
        }
    }

    /// Answers a semantic-tokens request.
    fn handle_tokens(&self, id: &Option<String>, p: &Option<crate::rpc::ParamFields>) -> (r: HandleResult)
        requires
            self.wf(),
        ensures
            match uri_field(crate::rpc::params_view(*p)) {
                Some(uri) => if self.documents().contains_key(uri) {
                    exists|t: Seq<char>|
                        #[trigger] tokens_answered(self.documents()[uri], t) && result_view(r)
                            == answer(crate::rpc::opt_text(*id), t)
                } else {
                    result_view(r) == answer(crate::rpc::opt_text(*id), "null"@)
                },
                None => result_view(r) == answer(crate::rpc::opt_text(*id), "null"@),
            },
    {
        match uri_of(p) {
            Some(uri) => match self.document(uri.as_str()) {
                Some(doc) => {
                    let result = tokens_answer(doc);
                    let r = answer_with(id, result.as_str());
                    assert(tokens_answered(self.documents()[uri@], result@));
                    r
                },
                None => answer_with(id, "null"),
            },
            None => answer_with(id, "null"),
        }
    }
}

impl LspState {
    /// Records a document change (opened or changed) unless it is stale,
    /// answering a recorded one with a diagnostics notification.
    fn apply_change(&mut self, uri: String, version: i32, text: String) -> (r: HandleResult)
        requires
            old(self).wf(),
        ensures
            final(self).wf(),
            change_handled(
                texts(old(self).documents()),
                old(self).versions(),
                uri@,
                version,
                text@,
                result_view(r),
                texts(final(self).documents()),
                final(self).versions(),
            ),
    {
        let ghost u = uri@;
        let ghost t = text@;
        let state = DocumentState::new(text);
        let diags = diagnostics_array(&state);
        assert(state.elements@ =~= Seq::<Element>::empty());
        let note = make_diagnostics_notification(uri.as_str(), Some(version), diags.as_str());
        let recorded = self.on_change(uri, Some(version), state);
        proof {
            assert(old(self).recorded_version(u) == version_in(old(self).versions(), u));
        }
        if !recorded {
            return empty_result();
        }
        assert(texts(self.documents()) =~= texts(old(self).documents()).insert(u, t));
        let r = HandleResult { response: None, notifications: vec![note] };
        assert(result_view(r).1 =~= seq![
            diagnostics_notification(
                u,
                Some(version),
                diagnostics_array_text(t, Seq::<Element>::empty()),
            ),
        ]);
        r
    }

    /// Answers a completion request.
    fn handle_completion(&self, id: &Option<String>, p: &Option<crate::rpc::ParamFields>) -> (r: HandleResult)
        requires
            self.wf(),
        ensures
            completion_answered(
                self.documents(),
                crate::rpc::opt_text(*id),
                position_fields(crate::rpc::params_view(*p)),
                result_view(r),
            ),
    {
        let f = match p {
            Some(f) => f,
            None => return answer_with(id, "null"),
        };
        let (uri, line, character) = match (&f.uri, f.line, f.character) {
            (Some(u), Some(l), Some(c)) => {
                if l > u32::MAX as u64 || c > u32::MAX as u64 {
                    return answer_with(id, "null");
                }
                (u, l as u32, c as u32)
            },
            _ => return answer_with(id, "null"),
        };
        let doc = match self.document(uri.as_str()) {
            Some(d) => d,
            None => return answer_with(id, "null"),
        };
        let offset = position_to_byte_offset(doc.text.as_str(), line, character);
        if !doc.text.as_str().is_char_boundary(offset) {
            return answer_with(id, "null");
        }
        let items = get_completions(doc, ls_types::Position::new(line, character), offset);
        let result = completion_result(&items);
        let r = answer_with(id, result.as_str());
        proof {
            let ds = self.documents();
            let off = completion_offset(doc.text@, line, character);
            assert(off == offset as int);
            assert(offered(ds[uri@], off, items_view(items@)));
        }
        r
    }

    /// Answers one decoded message and updates the open documents.
    pub fn handle_decoded(&mut self, msg: Result<IncomingMessage, String>) -> (r: HandleResult)
        requires
            old(self).wf(),
        ensures
            final(self).wf(),
            handled(
                old(self).documents(),
                old(self).versions(),
                decoded_view(msg),
                result_view(r),
                texts(final(self).documents()),
                final(self).versions(),
            ),
    {
        let m = match msg {
            Ok(m) => m,
            Err(e) => {
                let mut text: Vec<char> = Vec::new();
                push_str(&mut text, "Parse error: ");
                push_str(&mut text, e.as_str());
                let message = chars_to_string(&text);
                let response = make_error_response("null", "-32700", message.as_str());
                let r = HandleResult { response: Some(response), notifications: Vec::new() };
                assert(result_view(r).1 =~= Seq::<Seq<char>>::empty());
                return r;
            },
        };
        let method: &str = match &m.method {
            Some(x) => x.as_str(),
            None => "",
        };
        let p = match &m.params {
            Some(t) => decode_params(t.as_str()),
            None => None,
        };
        let ghost pv = crate::rpc::params_view(p);
        assert(pv == params_of(m@));
        match route_message(method, m.id.is_some()) {
            Route::Initialize => {
                let init = initialize_result();
                answer_with(&m.id, init.as_str())
            },
            Route::Initialized | Route::Ignore => empty_result(),
            Route::Shutdown => answer_with(&m.id, "null"),
            Route::Hover => self.handle_at_position(&m.id, &p, false),
            Route::Definition => self.handle_at_position(&m.id, &p, true),
            Route::FoldingRange => self.handle_outline(&m.id, &p, false),
            Route::DocumentSymbol => self.handle_outline(&m.id, &p, true),
            Route::SemanticTokensFull => self.handle_tokens(&m.id, &p),
            Route::Completion => self.handle_completion(&m.id, &p),
            Route::MethodNotFound => {
                let mut text: Vec<char> = Vec::new();
                push_str(&mut text, "Method not found: ");
                push_str(&mut text, method);
                let message = chars_to_string(&text);
                let id = match &m.id {
                    Some(i) => i.as_str(),
                    None => "null",
                };
                let response = make_error_response(id, "-32601", message.as_str());
                let r = HandleResult { response: Some(response), notifications: Vec::new() };
                assert(result_view(r).1 =~= Seq::<Seq<char>>::empty());
                r
            },
            Route::DidOpen => {
                let f = match p {
                    Some(f) => f,
                    None => return empty_result(),
                };
                match (f.uri, f.language_id, fitting_version(f.version), f.text) {
                    (Some(uri), Some(_), Some(version), Some(text)) => self.apply_change(uri, version, text),
                    _ => empty_result(),
                }
            },
            Route::DidChange => {
                let f = match p {
                    Some(f) => f,
                    None => return empty_result(),
                };
                let ghost fv = f@;
                match (f.uri, fitting_version(f.version), f.changes) {
                    (Some(uri), Some(version), Some(changes)) => {
                        let ghost cv = changes@.map_values(|t: Option<String>| crate::rpc::opt_text(t));
                        if !all_texts_present(&changes) {
                            proof {
                                let i = choose|i: int| 0 <= i < changes@.len() && !(changes@[i] is Some);
                                assert(!(cv[i] is Some));
                            }
                            return empty_result();
                        }
                        assert forall|i: int| 0 <= i < cv.len() implies (#[trigger] cv[i]) is Some by {
                            assert(changes@[i] is Some);
                        }
                        if changes.len() == 0 {
                            return empty_result();
                        }
                        let last = changes.len() - 1;
                        let text = match &changes[last] {
                            Some(t) => t.clone(),
                            None => return empty_result(),
                        };
                        assert(cv.last() == Some(text@));
                        self.apply_change(uri, version, text)
                    },
                    _ => empty_result(),
                }
            },
            Route::DidClose => {
                let uri = match p {
                    Some(f) => match f.uri {
                        Some(u) => u,
                        None => return empty_result(),
                    },
                    None => return empty_result(),
                };
                self.close_document(uri.as_str());
                assert(texts(self.documents()) =~= texts(old(self).documents()).remove(uri@));
                let note = make_diagnostics_notification(uri.as_str(), None, "[]");
                let r = HandleResult { response: None, notifications: vec![note] };
                assert(result_view(r).1 =~= seq![diagnostics_notification(uri@, None, "[]"@)]);
                r
            },
        }
    }

    /// Handles one JSON-RPC message (a request or a notification): returns
    /// the response and the notifications to push, and updates the open
    /// documents.
    pub fn handle_message(&mut self, json: &str) -> (r: HandleResult)
        requires
            old(self).wf(),
        ensures
            final(self).wf(),
            handled(
                old(self).documents(),
                old(self).versions(),
                decoded_message(json@),
                result_view(r),
                texts(final(self).documents()),
                final(self).versions(),
            ),
    {
        let msg = decode_message(json);
        self.handle_decoded(msg)
    }
}

impl LspState {
    /// Records the elements the parser read of the open document `uri`
    /// (nothing when it is not open); its text and version stay.
    pub fn set_elements(&mut self, uri: &str, elements: Vec<Element>)
        requires
            old(self).wf(),
        ensures
            final(self).wf(),
            final(self).versions() == old(self).versions(),
            texts(final(self).documents()) == texts(old(self).documents()),
            final(self).documents().dom() == old(self).documents().dom(),
            forall|u: Seq<char>|
                #![trigger final(self).documents()[u]]
                final(self).documents().contains_key(u) && u != uri@ ==> final(self).documents()[u]
                    == old(self).documents()[u],
            old(self).documents().contains_key(uri@) ==> final(self).documents()[uri@].elements
                == elements,
    {
        let updated = match self.document(uri) {
            Some(doc) => Some(DocumentState { text: doc.text.clone(), elements }),
            None => None,
        };
        match updated {
            Some(d) => {
                let ghost old_docs = self.documents();
                self.documents.insert(String::from_str(uri), d);
                assert(texts(self.documents()) =~= texts(old_docs));
                assert(self.documents().dom() =~= old_docs.dom());
            },
            None => {},
        }
    }
}

} // verus!
