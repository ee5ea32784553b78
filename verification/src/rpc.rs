//! JSON-RPC messages of the language server: what the server reads of an
//! incoming message, the JSON text of its replies, and protocol positions.
//!
//! Objects are written with their keys in increasing order, as `serde_json`
//! writes a `Value` object.

use ls_types::Uri;
use vstd::prelude::*;

use crate::completion::model::{CompletionItemKind, InsertTextFormat, ItemSpec};
use crate::fmt::{decimal, digit_char, push_decimal, push_str};
use vstd::utf8::encode_utf8;

verus! {

/// What the server reads of the top level of an incoming message.
pub struct IncomingMessage {
    /// `method`, when it is a string.
    pub method: Option<String>,
    /// The JSON text of `id`, when present.
    pub id: Option<String>,
    /// The JSON text of `params`, when present.
    pub params: Option<String>,
}

/// The mathematical content of an incoming message.
pub struct MessageView {
    pub method: Option<Seq<char>>,
    pub id: Option<Seq<char>>,
    pub params: Option<Seq<char>>,
}

/// The view of an optional string.
pub open spec fn opt_text(o: Option<String>) -> Option<Seq<char>> {
    match o {
        Some(s) => Some(s@),
        None => None,
    }
}

impl View for IncomingMessage {
    type V = MessageView;

    open spec fn view(&self) -> MessageView {
        MessageView { method: opt_text(self.method), id: opt_text(self.id), params: opt_text(self.params) }
    }
}

/// The view of a decoding outcome: the message, or the parser's error text.
pub open spec fn decoded_view(r: Result<IncomingMessage, String>) -> Result<MessageView, Seq<char>> {
    match r {
        Ok(m) => Ok(m@),
        Err(e) => Err(e@),
    }
}

/// What `serde_json` makes of a message text: its `method`, `id` and
/// `params`, or the text of its parse error.
pub uninterp spec fn decoded_message(json: Seq<char>) -> Result<MessageView, Seq<char>>;

/// Parses a message with `serde_json::from_str` into a `serde_json::Value`
/// and picks `method` (when a string), and the JSON text of `id` and of
/// `params`; on a parse error, the error's text. The result is named, not
/// stated: it is the same for the same text.
#[verifier::external_body]
pub(crate) fn decode_message(json: &str) -> (r: Result<IncomingMessage, String>)
    ensures
        decoded_view(r) == decoded_message(json@),
{
    let v: serde_json::Value = match serde_json::from_str(json) {
        Ok(v) => v,
        Err(e) => return Err(e.to_string()),
    };
    Ok(IncomingMessage {
        method: v["method"].as_str().map(String::from),
        id: v.get("id").map(|i| i.to_string()),
        params: v.get("params").map(|p| p.to_string()),
    })
}

/// What the handlers read of the `params` of a message.
pub struct ParamFields {
    /// `textDocument.uri`
    pub uri: Option<String>,
    /// `textDocument.languageId`
    pub language_id: Option<String>,
    /// `textDocument.version`, when an integer
    pub version: Option<i64>,
    /// `textDocument.text`
    pub text: Option<String>,
    /// The `text` of each entry of `contentChanges`, when it is an array.
    pub changes: Option<Vec<Option<String>>>,
    /// `position.line`, when a non-negative integer
    pub line: Option<u64>,
    /// `position.character`, when a non-negative integer
    pub character: Option<u64>,
}

/// The mathematical content of the fields of `params`.
pub struct ParamsView {
    pub uri: Option<Seq<char>>,
    pub language_id: Option<Seq<char>>,
    pub version: Option<i64>,
    pub text: Option<Seq<char>>,
    pub changes: Option<Seq<Option<Seq<char>>>>,
    pub line: Option<u64>,
    pub character: Option<u64>,
}

/// The view of the texts of the content changes.
pub open spec fn changes_view(c: Option<Vec<Option<String>>>) -> Option<Seq<Option<Seq<char>>>> {
    match c {
        Some(v) => Some(v@.map_values(|t: Option<String>| opt_text(t))),
        None => None,
    }
}

impl View for ParamFields {
    type V = ParamsView;

    open spec fn view(&self) -> ParamsView {
        ParamsView {
            uri: opt_text(self.uri),
            language_id: opt_text(self.language_id),
            version: self.version,
            text: opt_text(self.text),
            changes: changes_view(self.changes),
            line: self.line,
            character: self.character,
        }
    }
}

/// The view of decoded parameters.
pub open spec fn params_view(p: Option<ParamFields>) -> Option<ParamsView> {
    match p {
        Some(f) => Some(f@),
        None => None,
    }
}

/// What `serde_json` makes of the JSON text of `params`, with a `uri` that
/// `ls_types::Uri` parses.
pub uninterp spec fn decoded_params(params: Seq<char>) -> Option<ParamsView>;

/// Parses the JSON text of `params` with `serde_json::from_str` and picks
/// the fields the handlers read (`None` where a field is absent or of
/// another JSON type, and a `uri` also where `ls_types::Uri` does not parse
/// it). The result is named, not stated.
#[verifier::external_body]
pub(crate) fn decode_params(params: &str) -> (r: Option<ParamFields>)
    ensures
        params_view(r) == decoded_params(params@),
{
    let p: serde_json::Value = serde_json::from_str(params).ok()?;
    let (d, at) = (&p["textDocument"], &p["position"]);
    let changes = p["contentChanges"].as_array();
    Some(ParamFields {
        uri: d["uri"].as_str().and_then(|u| u.parse().ok()).map(|u: Uri| u.to_string()),
        language_id: d["languageId"].as_str().map(String::from),
        version: d["version"].as_i64(),
        text: d["text"].as_str().map(String::from),
        changes: changes.map(|cs| cs.iter().map(|c| c["text"].as_str().map(String::from)).collect()),
        line: at["line"].as_u64(),
        character: at["character"].as_u64(),
    })
}

/// How `serde_json` writes a character inside a string literal: `"` and
/// `\\` and the control characters escaped (`\\b`, `\\t`, `\\n`, `\\f`,
/// `\\r`, others as `\\u00` and two lower-case hex digits), every other
/// character as it is.
pub open spec fn json_char(c: char) -> Seq<char> {
    if c == '"' {
        seq!['\\', '"']
    } else if c == '\\' {
        seq!['\\', '\\']
    } else if c == '\u{8}' {
        seq!['\\', 'b']
    } else if c == '\t' {
        seq!['\\', 't']
    } else if c == '\n' {
        seq!['\\', 'n']
    } else if c == '\u{c}' {
        seq!['\\', 'f']
    } else if c == '\r' {
        seq!['\\', 'r']
    } else if (c as u32) < 0x20 {
        seq![
            '\\',
            'u',
            '0',
            '0',
            digit_char((c as u32 / 16) as nat),
            digit_char((c as u32 % 16) as nat),
        ]
    } else {
        seq![c]
    }
}

/// The characters of a text as they stand inside a JSON string literal.
pub open spec fn json_escaped(s: Seq<char>) -> Seq<char>
    decreases s.len(),
{
    if s.len() == 0 {
        seq![]
    } else {
        json_escaped(s.drop_last()) + json_char(s.last())
    }
}

/// The JSON string literal of a text, as `serde_json::to_string` writes it.
pub open spec fn json_quoted(s: Seq<char>) -> Seq<char> {
    seq!['"'] + json_escaped(s) + seq!['"']
}

/// Writes `s` as a JSON string literal with `serde_json::to_string`, which
/// cannot fail on a `str`: quotes around the text, with `"`, `\\` and the
/// control characters escaped as its escape table gives them.
#[verifier::external_body]
pub(crate) fn quote_json(s: &str) -> (r: String)
    ensures
        r@ == json_quoted(s@),
{
    serde_json::to_string(s).unwrap()
}

/// Appends the JSON string literal of `s` to `out`.
pub fn push_quoted(out: &mut Vec<char>, s: &str)
    ensures
        final(out)@ == old(out)@ + json_quoted(s@),
{
    let q = quote_json(s);
    push_str(out, q.as_str());
}

/// The decimal text of an integer, with a minus sign when negative.
pub open spec fn int_text(v: int) -> Seq<char> {
    if v < 0 {
        seq!['-'] + decimal((-v) as nat)
    } else {
        decimal(v as nat)
    }
}

/// Appends the decimal text of `v` to `out`.
pub fn push_i32(out: &mut Vec<char>, v: i32)
    ensures
        final(out)@ == old(out)@ + int_text(v as int),
{
    if v < 0 {
        out.push('-');
        let m: i64 = -(v as i64);
        push_decimal(out, m as usize);
        assert(final(out)@ =~= old(out)@ + int_text(v as int));
    } else {
        push_decimal(out, v as usize);
    }
}

/// A JSON-RPC response carrying `result` for the request `id`.
pub open spec fn response_text(id: Seq<char>, result: Seq<char>) -> Seq<char> {
    "{\"id\":"@ + id + ",\"jsonrpc\":\"2.0\",\"result\":"@ + result + "}"@
}

/// A JSON-RPC error response with `code` (its decimal text) and `message`.
pub open spec fn error_text(id: Seq<char>, code: Seq<char>, message: Seq<char>) -> Seq<char> {
    "{\"error\":{\"code\":"@ + code + ",\"message\":"@ + json_quoted(message) + "},\"id\":"@ + id
        + ",\"jsonrpc\":\"2.0\"}"@
}

/// A `textDocument/publishDiagnostics` notification for `uri` with the
/// diagnostics `diagnostics` (a JSON array), with the document's version
/// when there is one.
pub open spec fn diagnostics_notification(uri: Seq<char>, version: Option<i32>, diagnostics: Seq<char>) -> Seq<char> {
    "{\"jsonrpc\":\"2.0\",\"method\":\"textDocument/publishDiagnostics\",\"params\":{\"diagnostics\":"@
        + diagnostics + ",\"uri\":"@ + json_quoted(uri) + match version {
        Some(v) => ",\"version\":"@ + int_text(v as int),
        None => ""@,
    } + "}}"@
}

/// Writes the diagnostics notification for `uri`.
pub fn make_diagnostics_notification(uri: &str, version: Option<i32>, diagnostics: &str) -> (r: String)
    ensures
        r@ == diagnostics_notification(uri@, version, diagnostics@),
{
    let mut out: Vec<char> = Vec::new();
    push_str(
        &mut out,
        "{\"jsonrpc\":\"2.0\",\"method\":\"textDocument/publishDiagnostics\",\"params\":{\"diagnostics\":",
    );
    push_str(&mut out, diagnostics);
    push_str(&mut out, ",\"uri\":");
    push_quoted(&mut out, uri);
    match version {
        Some(v) => {
            push_str(&mut out, ",\"version\":");
            push_i32(&mut out, v);
        },
        None => {
            push_str(&mut out, "");
        },
    }
    push_str(&mut out, "}}");
    assert(out@ =~= diagnostics_notification(uri@, version, diagnostics@));
    crate::fmt::chars_to_string(&out)
}

/// Writes a response carrying `result` for the request `id`.
pub fn make_response(id: &str, result: &str) -> (r: String)
    ensures
        r@ == response_text(id@, result@),
{
    let mut out: Vec<char> = Vec::new();
    push_str(&mut out, "{\"id\":");
    push_str(&mut out, id);
    push_str(&mut out, ",\"jsonrpc\":\"2.0\",\"result\":");
    push_str(&mut out, result);
    push_str(&mut out, "}");
    assert(out@ =~= response_text(id@, result@));
    crate::fmt::chars_to_string(&out)
}

/// Writes an error response with `code` and `message` for the request `id`.
pub fn make_error_response(id: &str, code: &str, message: &str) -> (r: String)
    ensures
        r@ == error_text(id@, code@, message@),
{
    let mut out: Vec<char> = Vec::new();
    push_str(&mut out, "{\"error\":{\"code\":");
    push_str(&mut out, code);
    push_str(&mut out, ",\"message\":");
    push_quoted(&mut out, message);
    push_str(&mut out, "},\"id\":");
    push_str(&mut out, id);
    push_str(&mut out, ",\"jsonrpc\":\"2.0\"}");
    assert(out@ =~= error_text(id@, code@, message@));
    crate::fmt::chars_to_string(&out)
}

/// The protocol number of a completion item kind.
pub open spec fn kind_number(k: CompletionItemKind) -> Seq<char> {
    match k {
        CompletionItemKind::Function => "3"@,
        CompletionItemKind::Keyword => "14"@,
        CompletionItemKind::Reference => "18"@,
        CompletionItemKind::Snippet => "15"@,
        CompletionItemKind::Property => "10"@,
        CompletionItemKind::Variable => "6"@,
    }
}

/// The protocol number of an insert text format.
pub open spec fn format_number(f: InsertTextFormat) -> Seq<char> {
    match f {
        InsertTextFormat::PlainText => "1"@,
        InsertTextFormat::Snippet => "2"@,
    }
}

/// `key` and the JSON string literal of `v` followed by a comma, when
/// present.
pub open spec fn quoted_field(key: Seq<char>, v: Option<Seq<char>>) -> Seq<char> {
    match v {
        Some(t) => key + json_quoted(t) + ","@,
        None => ""@,
    }
}

/// The `insertTextFormat` member followed by a comma, when present.
pub open spec fn format_field(f: Option<InsertTextFormat>) -> Seq<char> {
    match f {
        Some(f) => "\"insertTextFormat\":"@ + format_number(f) + ","@,
        None => ""@,
    }
}

/// The `kind` member followed by a comma, when present.
pub open spec fn kind_field(k: Option<CompletionItemKind>) -> Seq<char> {
    match k {
        Some(k) => "\"kind\":"@ + kind_number(k) + ","@,
        None => ""@,
    }
}

/// A completion item as a JSON object: `detail`, `insertText`,
/// `insertTextFormat` and `kind` when present, then `label`.
pub open spec fn item_text(i: ItemSpec) -> Seq<char> {
    "{"@ + quoted_field("\"detail\":"@, i.detail) + quoted_field("\"insertText\":"@, i.insert_text)
        + format_field(i.insert_text_format) + kind_field(i.kind) + "\"label\":"@ + json_quoted(
        i.label,
    ) + "}"@
}

/// Appends `key` and the JSON string literal of `v` and a comma, when
/// present.
pub fn push_quoted_field(out: &mut Vec<char>, key: &str, v: &Option<String>)
    ensures
        final(out)@ == old(out)@ + quoted_field(key@, opt_text(*v)),
{
    match v {
        Some(t) => {
            push_str(out, key);
            push_quoted(out, t.as_str());
            push_str(out, ",");
            assert(final(out)@ =~= old(out)@ + quoted_field(key@, opt_text(*v)));
        },
        None => {
            push_str(out, "");
        },
    }
}

/// Appends the `insertTextFormat` member, when present.
pub fn push_format_field(out: &mut Vec<char>, f: Option<InsertTextFormat>)
    ensures
        final(out)@ == old(out)@ + format_field(f),
{
    match f {
        Some(f) => {
            push_str(out, "\"insertTextFormat\":");
            match f {
                InsertTextFormat::PlainText => push_str(out, "1"),
                InsertTextFormat::Snippet => push_str(out, "2"),
            }
            push_str(out, ",");
            assert(final(out)@ =~= old(out)@ + format_field(Some(f)));
        },
        None => {
            push_str(out, "");
        },
    }
}

/// Appends the `kind` member, when present.
pub fn push_kind_field(out: &mut Vec<char>, k: Option<CompletionItemKind>)
    ensures
        final(out)@ == old(out)@ + kind_field(k),
{
    match k {
        Some(k) => {
            push_str(out, "\"kind\":");
            match k {
                CompletionItemKind::Function => push_str(out, "3"),
                CompletionItemKind::Keyword => push_str(out, "14"),
                CompletionItemKind::Reference => push_str(out, "18"),
                CompletionItemKind::Snippet => push_str(out, "15"),
                CompletionItemKind::Property => push_str(out, "10"),
                CompletionItemKind::Variable => push_str(out, "6"),
            }
            push_str(out, ",");
            assert(final(out)@ =~= old(out)@ + kind_field(Some(k)));
        },
        None => {
            push_str(out, "");
        },
    }
}

/// The items, separated by commas.
pub open spec fn items_joined(items: Seq<ItemSpec>) -> Seq<char>
    decreases items.len(),
{
    if items.len() == 0 {
        seq![]
    } else if items.len() == 1 {
        item_text(items[0])
    } else {
        items_joined(items.drop_last()) + ","@ + item_text(items.last())
    }
}

/// The completion items as a JSON array.
pub open spec fn items_text(items: Seq<ItemSpec>) -> Seq<char> {
    "["@ + items_joined(items) + "]"@
}

/// The JSON string literals of `names`, separated by commas.
pub open spec fn names_joined(names: Seq<Seq<char>>) -> Seq<char>
    decreases names.len(),
{
    if names.len() == 0 {
        seq![]
    } else if names.len() == 1 {
        json_quoted(names[0])
    } else {
        names_joined(names.drop_last()) + ","@ + json_quoted(names.last())
    }
}

/// The width of a character in UTF-16 code units.
pub open spec fn utf16_width(c: char) -> nat {
    if (c as u32) < 0x10000 {
        1
    } else {
        2
    }
}

/// The character index of a protocol position, scanning `s` from `i` with
/// `lines` line breaks still to pass and `units` UTF-16 code units already
/// counted on the target line: lines end at `\n`, and a position past the
/// end of its line (or of the text) stands for that end.
pub open spec fn position_index(s: Seq<char>, i: int, lines: nat, units: nat, character: nat) -> int
    decreases s.len() - i,
{
    if i >= s.len() || i < 0 {
        s.len() as int
    } else if lines > 0 {
        if s[i] == '\n' {
            position_index(s, i + 1, (lines - 1) as nat, 0, character)
        } else {
            position_index(s, i + 1, lines, 0, character)
        }
    } else if s[i] == '\n' || units >= character {
        i
    } else {
        position_index(s, i + 1, 0, units + utf16_width(s[i]), character)
    }
}

proof fn lemma_position_index_bounds(s: Seq<char>, i: int, lines: nat, units: nat, character: nat)
    requires
        0 <= i <= s.len(),
    ensures
        i <= position_index(s, i, lines, units, character) <= s.len(),
    decreases s.len() - i,
{
    if i < s.len() {
        if lines > 0 {
            if s[i] == '\n' {
                lemma_position_index_bounds(s, i + 1, (lines - 1) as nat, 0, character);
            } else {
                lemma_position_index_bounds(s, i + 1, lines, 0, character);
            }
        } else if !(s[i] == '\n' || units >= character) {
            lemma_position_index_bounds(s, i + 1, 0, units + utf16_width(s[i]), character);
        }
    }
}

/// The UTF-8 byte offset of the protocol position (`line`, `character`) in
/// `text`: the length in bytes of the characters before `position_index`.
pub fn position_to_byte_offset(text: &str, line: u32, character: u32) -> (r: usize)
    ensures
        r == encode_utf8(text@.take(position_index(text@, 0, line as nat, 0, character as nat))).len() as usize,
{
    let chars = crate::text::to_chars(text);
    let ghost s = chars@;
    let mut i: usize = 0;
    let mut lines: u32 = line;
    let mut units: u64 = 0;
    proof {
        lemma_position_index_bounds(s, 0, line as nat, 0, character as nat);
    }
    while i < chars.len()
        invariant
            s == chars@,
            s == text@,
            i <= chars.len(),
            units <= character as u64 + 2,
            position_index(s, i as int, lines as nat, units as nat, character as nat)
                == position_index(s, 0, line as nat, 0, character as nat),
        ensures
            i <= chars.len(),
            position_index(s, 0, line as nat, 0, character as nat) == i as int,
        decreases chars.len() - i,
    {
        let c = chars[i];
        if lines == 0 && (c == '\n' || units >= character as u64) {
            break;
        }
        if lines > 0 {
            if c == '\n' {
                lines = lines - 1;
            }
            units = 0;
        } else {
            units = units + if (c as u32) < 0x10000 {
                1
            } else {
                2
            };
        }
        i = i + 1;
    }
    let mut prefix: Vec<char> = Vec::new();
    let mut j: usize = 0;
    while j < i
        invariant
            j <= i <= chars.len(),
            s == chars@,
            prefix@ == s.take(j as int),
        decreases i - j,
    {
        prefix.push(chars[j]);
        assert(prefix@ =~= s.take(j as int + 1));
        j = j + 1;
    }
    let before = crate::fmt::chars_to_string(&prefix);
    before.as_str().len()
}

} // verus!
