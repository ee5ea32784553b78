//! Hover text: a short markdown description of the element under the cursor.

use vstd::prelude::*;

use crate::ast::{Element, Span};
use crate::fmt::{chars_to_string, decimal, push_decimal, push_str};

verus! {

/// Whom a mention refers to.
#[derive(Clone, Copy, Debug, PartialEq, Eq, Structural)]
pub enum MentionKind {
    User,
    Discussion,
}

/// An element as hover reads it: its kind and the values shown for it.
/// `lang` is the plain text of a code block's `#lang` parameter, when given.
#[allow(inconsistent_fields)]
pub enum HoverTarget {
    Header { level: usize },
    Bold,
    Italic,
    Strikethrough,
    Underline,
    Superscript,
    Subscript,
    Code { lang: Option<String> },
    TeX { is_block: bool },
    Variable { name: String },
    Define,
    Include,
    Category,
    Redirect,
    Media,
    ExternalMedia { provider: String },
    Table,
    List { kind: String },
    Fold,
    BlockQuote,
    Styled,
    Literal,
    Ruby,
    Footnote,
    If,
    Mention { kind: MentionKind, id: String },
    Error { value: String },
    Text,
    Comment,
    Escape,
    Null,
    FootnoteRef,
    TimeNow,
    Age,
    SoftBreak,
    HardBreak,
    HLine,
}

/// The first `n` characters of `s` (all of them when it is shorter).
pub open spec fn first_chars(s: Seq<char>, n: nat) -> Seq<char> {
    if s.len() <= n {
        s
    } else {
        s.take(n as int)
    }
}

/// The hover markdown of an element; leaf elements without anything to say
/// (text, comments, escapes, breaks, rules, footnote references, dates and
/// the null element) have none.
pub open spec fn hover_text(t: HoverTarget) -> Option<Seq<char>> {
    match t {
        HoverTarget::Header { level } => Some("**Header** (level "@ + decimal(level as nat) + ")"@),
        HoverTarget::Bold => Some("**Bold**"@),
        HoverTarget::Italic => Some("**Italic**"@),
        HoverTarget::Strikethrough => Some("**Strikethrough**"@),
        HoverTarget::Underline => Some("**Underline**"@),
        HoverTarget::Superscript => Some("**Superscript**"@),
        HoverTarget::Subscript => Some("**Subscript**"@),
        HoverTarget::Code { lang } => match lang {
            Some(l) => if l@.len() > 0 {
                Some("**Code** (lang: `"@ + l@ + "`)"@)
            } else {
                Some("**Code**"@)
            },
            None => Some("**Code**"@),
        },
        HoverTarget::TeX { is_block } => if is_block {
            Some("**TeX** (block)"@)
        } else {
            Some("**TeX** (inline)"@)
        },
        HoverTarget::Variable { name } => Some("**Variable**: `"@ + name@ + "`"@),
        HoverTarget::Define => Some("**Define** - variable definition"@),
        HoverTarget::Include => Some("**Include** - document inclusion"@),
        HoverTarget::Category => Some("**Category**"@),
        HoverTarget::Redirect => Some("**Redirect**"@),
        HoverTarget::Media => Some("**Media** `[[...]]`"@),
        HoverTarget::ExternalMedia { provider } => Some("**External Media**: `"@ + provider@ + "`"@),
        HoverTarget::Table => Some("**Table**"@),
        HoverTarget::List { kind } => Some("**List** ("@ + kind@ + ")"@),
        HoverTarget::Fold => Some("**Fold** - collapsible block"@),
        HoverTarget::BlockQuote => Some("**Block Quote**"@),
        HoverTarget::Styled => Some("**Styled** - custom styled block"@),
        HoverTarget::Literal => Some("**Literal** - raw output"@),
        HoverTarget::Ruby => Some("**Ruby** - ruby annotation"@),
        HoverTarget::Footnote => Some("**Footnote**"@),
        HoverTarget::If => Some("**If** - conditional block"@),
        HoverTarget::Mention { kind, id } => Some(
            "**Mention** ("@ + match kind {
                MentionKind::User => "user"@,
                MentionKind::Discussion => "discussion"@,
            } + "): `"@ + id@ + "`"@,
        ),
        HoverTarget::Error { value } => Some("**Error**: `"@ + first_chars(value@, 40) + "`"@),
        _ => None,
    }
}

/// The view of an optional string.
pub open spec fn opt_text(o: Option<String>) -> Option<Seq<char>> {
    match o {
        Some(s) => Some(s@),
        None => None,
    }
}

/// Joins pieces into a string.
fn concat3(a: &str, b: &str, c: &str) -> (r: String)
    ensures
        r@ == a@ + b@ + c@,
{
    let mut out: Vec<char> = Vec::new();
    push_str(&mut out, a);
    push_str(&mut out, b);
    push_str(&mut out, c);
    assert(out@ =~= a@ + b@ + c@);
    chars_to_string(&out)
}

/// Generates the markdown hover text of an element.
pub fn hover_content(element: &HoverTarget) -> (r: Option<String>)
    ensures
        opt_text(r) == hover_text(*element),
{
    match element {
        HoverTarget::Header { level } => {
            let mut out: Vec<char> = Vec::new();
            push_str(&mut out, "**Header** (level ");
            push_decimal(&mut out, *level);
            push_str(&mut out, ")");
            assert(out@ =~= "**Header** (level "@ + decimal(*level as nat) + ")"@);
            Some(chars_to_string(&out))
        },
        HoverTarget::Bold => Some(String::from_str("**Bold**")),
        HoverTarget::Italic => Some(String::from_str("**Italic**")),
        HoverTarget::Strikethrough => Some(String::from_str("**Strikethrough**")),
        HoverTarget::Underline => Some(String::from_str("**Underline**")),
        HoverTarget::Superscript => Some(String::from_str("**Superscript**")),
        HoverTarget::Subscript => Some(String::from_str("**Subscript**")),
        HoverTarget::Code { lang } => match lang {
            Some(l) => {
                if !l.as_str().is_empty() {
                    Some(concat3("**Code** (lang: `", l.as_str(), "`)"))
                } else {
                    Some(String::from_str("**Code**"))
                }
            },
            None => Some(String::from_str("**Code**")),
        },
        HoverTarget::TeX { is_block } => if *is_block {
            Some(String::from_str("**TeX** (block)"))
        } else {
            Some(String::from_str("**TeX** (inline)"))
        },
        HoverTarget::Variable { name } => Some(concat3("**Variable**: `", name.as_str(), "`")),
        HoverTarget::Define => Some(String::from_str("**Define** - variable definition")),
        HoverTarget::Include => Some(String::from_str("**Include** - document inclusion")),
        HoverTarget::Category => Some(String::from_str("**Category**")),
        HoverTarget::Redirect => Some(String::from_str("**Redirect**")),
        HoverTarget::Media => Some(String::from_str("**Media** `[[...]]`")),
        HoverTarget::ExternalMedia { provider } => Some(
            concat3("**External Media**: `", provider.as_str(), "`"),
        ),
        HoverTarget::Table => Some(String::from_str("**Table**")),
        HoverTarget::List { kind } => Some(concat3("**List** (", kind.as_str(), ")")),
        HoverTarget::Fold => Some(String::from_str("**Fold** - collapsible block")),
        HoverTarget::BlockQuote => Some(String::from_str("**Block Quote**")),
        HoverTarget::Styled => Some(String::from_str("**Styled** - custom styled block")),
        HoverTarget::Literal => Some(String::from_str("**Literal** - raw output")),
        HoverTarget::Ruby => Some(String::from_str("**Ruby** - ruby annotation")),
        HoverTarget::Footnote => Some(String::from_str("**Footnote**")),
        HoverTarget::If => Some(String::from_str("**If** - conditional block")),
        HoverTarget::Mention { kind, id } => {
            let who = match kind {
                MentionKind::User => "user",
                MentionKind::Discussion => "discussion",
            };
            let mut out: Vec<char> = Vec::new();
            push_str(&mut out, "**Mention** (");
            push_str(&mut out, who);
            push_str(&mut out, "): `");
            push_str(&mut out, id.as_str());
            push_str(&mut out, "`");
            assert(out@ =~= "**Mention** ("@ + who@ + "): `"@ + id@ + "`"@);
            Some(chars_to_string(&out))
        },
        HoverTarget::Error { value } => {
            let chars = crate::text::to_chars(value.as_str());
            let mut out: Vec<char> = Vec::new();
            push_str(&mut out, "**Error**: `");
            let ghost head = out@;
            let mut i: usize = 0;
            while i < chars.len() && i < 40
                invariant
                    i <= chars.len(),
                    i <= 40,
                    chars@ == value@,
                    out@ == head + chars@.take(i as int),
                decreases chars.len() - i,
            {
                out.push(chars[i]);
                i = i + 1;
                assert(out@ =~= head + chars@.take(i as int));
            }
            assert(chars@.take(i as int) =~= first_chars(value@, 40));
            push_str(&mut out, "`");
            assert(out@ =~= "**Error**: `"@ + first_chars(value@, 40) + "`"@);
            Some(chars_to_string(&out))
        },
        _ => None,
    }
}

/// Chooses the hover of the most specific element at `byte_offset`: among
/// the elements in visiting order whose span contains the offset and that
/// have hover text, the first of the shortest span. Returns that text and
/// span.
pub open spec fn best_hover(candidates: Seq<(Span, Option<Seq<char>>)>, byte_offset: int) -> Option<
    (Seq<char>, Span),
>
    decreases candidates.len(),
{
    if candidates.len() == 0 {
        None
    } else {
        let rest = best_hover(candidates.drop_last(), byte_offset);
        let (span, text) = candidates.last();
        let shorter = match rest {
            Some((_, best_span)) => span.end - span.start < best_span.end - best_span.start,
            None => true,
        };
        if span.start <= byte_offset && byte_offset < span.end && text is Some && shorter {
            Some((text->0, span))
        } else {
            rest
        }
    }
}

/// The view of a hover candidate.
pub open spec fn candidates_view(c: Seq<(Span, Option<String>)>) -> Seq<(Span, Option<Seq<char>>)> {
    c.map_values(|x: (Span, Option<String>)| (x.0, opt_text(x.1)))
}

/// The view of a chosen hover.
pub open spec fn choice_view(c: Option<(String, Span)>) -> Option<(Seq<char>, Span)> {
    match c {
        Some((s, span)) => Some((s@, span)),
        None => None,
    }
}

/// Picks the hover of the most specific element at `byte_offset` from the
/// elements of a document in visiting order, each with its span and hover
/// text.
pub fn get_hover(candidates: &Vec<(Span, Option<String>)>, byte_offset: usize) -> (r: Option<
    (String, Span),
>)
    ensures
        choice_view(r) == best_hover(candidates_view(candidates@), byte_offset as int),
{
    let mut best: Option<(String, Span)> = None;
    let mut i: usize = 0;
    while i < candidates.len()
        invariant
            i <= candidates.len(),
            choice_view(best) == best_hover(
                candidates_view(candidates@).take(i as int),
                byte_offset as int,
            ),
            match best {
                Some((_, b)) => b.start <= byte_offset && byte_offset < b.end,
                None => true,
            },
        decreases candidates.len() - i,
    {
        let ghost prefix = candidates_view(candidates@).take(i + 1);
        assert(prefix.drop_last() =~= candidates_view(candidates@).take(i as int));
        assert(prefix.last() == (candidates@[i as int].0, opt_text(candidates@[i as int].1)));
        let span = candidates[i].0;
        if span.start <= byte_offset && byte_offset < span.end {
            if let Some(content) = &candidates[i].1 {
                let len = span.end - span.start;
                let better = match &best {
                    None => true,
                    Some((_, b)) => len < b.end - b.start,
                };
                if better {
                    best = Some((content.clone(), span));
                }
            }
        }
        i = i + 1;
    }
    assert(candidates_view(candidates@).take(i as int) =~= candidates_view(candidates@));
    best
}

/// Does a hover candidate cover `byte_offset` and have text?
pub open spec fn offers_hover(c: (Span, Option<Seq<char>>), byte_offset: int) -> bool {
    c.0.start <= byte_offset && byte_offset < c.0.end && c.1 is Some
}

/// The chosen hover is the one of the innermost element: it comes from a
/// candidate that covers the offset, no covering candidate with text has a
/// shorter span, and there is a hover exactly when some candidate offers one.
pub proof fn lemma_best_hover_is_innermost(c: Seq<(Span, Option<Seq<char>>)>, byte_offset: int)
    ensures
        match best_hover(c, byte_offset) {
            Some((text, span)) => {
                &&& exists|i: int|
                    0 <= i < c.len() && #[trigger] c[i] == (span, Some(text)) && offers_hover(
                        c[i],
                        byte_offset,
                    )
                &&& forall|j: int|
                    0 <= j < c.len() && offers_hover(#[trigger] c[j], byte_offset) ==> span.end
                        - span.start <= c[j].0.end - c[j].0.start
            },
            None => forall|j: int| 0 <= j < c.len() ==> !offers_hover(#[trigger] c[j], byte_offset),
        },
    decreases c.len(),
{
    if c.len() > 0 {
        let p = c.drop_last();
        lemma_best_hover_is_innermost(p, byte_offset);
        let n = c.len() - 1;
        match best_hover(p, byte_offset) {
            Some((t, s)) => {
                let i = choose|i: int|
                    0 <= i < p.len() && #[trigger] p[i] == (s, Some(t)) && offers_hover(
                        p[i],
                        byte_offset,
                    );
                assert(c[i] == p[i]);
                assert forall|j: int|
                    0 <= j < c.len() && offers_hover(#[trigger] c[j], byte_offset) implies match best_hover(
                    c,
                    byte_offset,
                ) {
                    Some((_, bs)) => bs.end - bs.start <= c[j].0.end - c[j].0.start,
                    None => false,
                } by {
                    if j < n {
                        assert(p[j] == c[j]);
                    }
                }
            },
            None => {
                assert forall|j: int| 0 <= j < n implies !offers_hover(#[trigger] c[j], byte_offset) by {
                    assert(p[j] == c[j]);
                }
            },
        }
    }
}

/// What hover reads of an element; `code_lang` is the plain text of a code
/// block's `#lang` parameter, when it has one.
pub open spec fn target_of(e: Element, code_lang: Option<String>) -> HoverTarget {
    match e {
        Element::Header(h) => HoverTarget::Header { level: h.level },
        Element::Bold(_) => HoverTarget::Bold,
        Element::Italic(_) => HoverTarget::Italic,
        Element::Strikethrough(_) => HoverTarget::Strikethrough,
        Element::Underline(_) => HoverTarget::Underline,
        Element::Superscript(_) => HoverTarget::Superscript,
        Element::Subscript(_) => HoverTarget::Subscript,
        Element::Code(_) => HoverTarget::Code { lang: code_lang },
        Element::TeX(t) => HoverTarget::TeX { is_block: t.is_block },
        Element::Variable(v) => HoverTarget::Variable { name: v.name },
        Element::Define(_) => HoverTarget::Define,
        Element::Include(_) => HoverTarget::Include,
        Element::Category(_) => HoverTarget::Category,
        Element::Redirect(_) => HoverTarget::Redirect,
        Element::Media(_) => HoverTarget::Media,
        Element::ExternalMedia(x) => HoverTarget::ExternalMedia { provider: x.provider },
        Element::Table(_) => HoverTarget::Table,
        Element::List(l) => HoverTarget::List { kind: l.kind },
        Element::Fold(_) => HoverTarget::Fold,
        Element::BlockQuote(_) => HoverTarget::BlockQuote,
        Element::Styled(_) => HoverTarget::Styled,
        Element::Literal(_) => HoverTarget::Literal,
        Element::Ruby(_) => HoverTarget::Ruby,
        Element::Footnote(_) => HoverTarget::Footnote,
        Element::If(_) => HoverTarget::If,
        Element::Mention(m) => HoverTarget::Mention { kind: m.kind, id: m.id },
        Element::Error(x) => HoverTarget::Error { value: x.value },
        Element::Text(_) => HoverTarget::Text,
        Element::Comment(_) => HoverTarget::Comment,
        Element::Escape(_) => HoverTarget::Escape,
        Element::Null(_) => HoverTarget::Null,
        Element::FootnoteRef(_) => HoverTarget::FootnoteRef,
        Element::TimeNow(_) => HoverTarget::TimeNow,
        Element::Age(_) => HoverTarget::Age,
        Element::SoftBreak(_) => HoverTarget::SoftBreak,
        Element::HardBreak(_) => HoverTarget::HardBreak,
        Element::HLine(_) => HoverTarget::HLine,
    }
}

/// The hover of an element names the element's own kind, with the values
/// shown for it; text, comments, escapes, the null element, footnote
/// references, the time, ages, line breaks and rules have none.
pub proof fn lemma_hover_names_the_element(e: Element, lang: Option<String>)
    ensures
        e matches Element::Header(h) ==> hover_text(target_of(e, lang)) == Some(
            "**Header** (level "@ + decimal(h.level as nat) + ")"@,
        ),
        e is Bold ==> hover_text(target_of(e, lang)) == Some("**Bold**"@),
        e is Italic ==> hover_text(target_of(e, lang)) == Some("**Italic**"@),
        e is Strikethrough ==> hover_text(target_of(e, lang)) == Some("**Strikethrough**"@),
        e is Underline ==> hover_text(target_of(e, lang)) == Some("**Underline**"@),
        e is Superscript ==> hover_text(target_of(e, lang)) == Some("**Superscript**"@),
        e is Subscript ==> hover_text(target_of(e, lang)) == Some("**Subscript**"@),
        e is Code ==> hover_text(target_of(e, lang)) == match lang {
            Some(l) => if l@.len() > 0 {
                Some("**Code** (lang: `"@ + l@ + "`)"@)
            } else {
                Some("**Code**"@)
            },
            None => Some("**Code**"@),
        },
        e matches Element::TeX(t) ==> hover_text(target_of(e, lang)) == Some(
            if t.is_block {
                "**TeX** (block)"@
            } else {
                "**TeX** (inline)"@
            },
        ),
        e matches Element::Variable(v) ==> hover_text(target_of(e, lang)) == Some(
            "**Variable**: `"@ + v.name@ + "`"@,
        ),
        e is Define ==> hover_text(target_of(e, lang)) == Some("**Define** - variable definition"@),
        e is Include ==> hover_text(target_of(e, lang)) == Some("**Include** - document inclusion"@),
        e is Category ==> hover_text(target_of(e, lang)) == Some("**Category**"@),
        e is Redirect ==> hover_text(target_of(e, lang)) == Some("**Redirect**"@),
        e is Media ==> hover_text(target_of(e, lang)) == Some("**Media** `[[...]]`"@),
        e matches Element::ExternalMedia(x) ==> hover_text(target_of(e, lang)) == Some(
            "**External Media**: `"@ + x.provider@ + "`"@,
        ),
        e is Table ==> hover_text(target_of(e, lang)) == Some("**Table**"@),
        e matches Element::List(l) ==> hover_text(target_of(e, lang)) == Some(
            "**List** ("@ + l.kind@ + ")"@,
        ),
        e is Fold ==> hover_text(target_of(e, lang)) == Some("**Fold** - collapsible block"@),
        e is BlockQuote ==> hover_text(target_of(e, lang)) == Some("**Block Quote**"@),
        e is Styled ==> hover_text(target_of(e, lang)) == Some("**Styled** - custom styled block"@),
        e is Literal ==> hover_text(target_of(e, lang)) == Some("**Literal** - raw output"@),
        e is Ruby ==> hover_text(target_of(e, lang)) == Some("**Ruby** - ruby annotation"@),
        e is Footnote ==> hover_text(target_of(e, lang)) == Some("**Footnote**"@),
        e is If ==> hover_text(target_of(e, lang)) == Some("**If** - conditional block"@),
        e matches Element::Mention(m) ==> hover_text(target_of(e, lang)) == Some(
            "**Mention** ("@ + (if m.kind == MentionKind::User {
                "user"@
            } else {
                "discussion"@
            }) + "): `"@ + m.id@ + "`"@,
        ),
        e matches Element::Error(x) ==> hover_text(target_of(e, lang)) == Some(
            "**Error**: `"@ + first_chars(x.value@, 40) + "`"@,
        ),
        (e is Text || e is Comment || e is Escape || e is Null || e is FootnoteRef || e is TimeNow
            || e is Age || e is SoftBreak || e is HardBreak || e is HLine) ==> hover_text(
            target_of(e, lang),
        ) is None,
{
}

/// Reads an element for hover; the hover text of the result is the one of
/// the element.
pub fn hover_target_of(e: &Element, code_lang: Option<String>) -> (r: HoverTarget)
    ensures
        hover_text(r) == hover_text(target_of(*e, code_lang)),
{
    match e {
        Element::Header(h) => HoverTarget::Header { level: h.level },
        Element::Bold(_) => HoverTarget::Bold,
        Element::Italic(_) => HoverTarget::Italic,
        Element::Strikethrough(_) => HoverTarget::Strikethrough,
        Element::Underline(_) => HoverTarget::Underline,
        Element::Superscript(_) => HoverTarget::Superscript,
        Element::Subscript(_) => HoverTarget::Subscript,
        Element::Code(_) => HoverTarget::Code { lang: code_lang },
        Element::TeX(t) => HoverTarget::TeX { is_block: t.is_block },
        Element::Variable(v) => HoverTarget::Variable { name: v.name.clone() },
        Element::Define(_) => HoverTarget::Define,
        Element::Include(_) => HoverTarget::Include,
        Element::Category(_) => HoverTarget::Category,
        Element::Redirect(_) => HoverTarget::Redirect,
        Element::Media(_) => HoverTarget::Media,
        Element::ExternalMedia(x) => HoverTarget::ExternalMedia { provider: x.provider.clone() },
        Element::Table(_) => HoverTarget::Table,
        Element::List(l) => HoverTarget::List { kind: l.kind.clone() },
        Element::Fold(_) => HoverTarget::Fold,
        Element::BlockQuote(_) => HoverTarget::BlockQuote,
        Element::Styled(_) => HoverTarget::Styled,
        Element::Literal(_) => HoverTarget::Literal,
        Element::Ruby(_) => HoverTarget::Ruby,
        Element::Footnote(_) => HoverTarget::Footnote,
        Element::If(_) => HoverTarget::If,
        Element::Mention(m) => HoverTarget::Mention { kind: m.kind, id: m.id.clone() },
        Element::Error(x) => HoverTarget::Error { value: x.value.clone() },
        Element::Text(_) => HoverTarget::Text,
        Element::Comment(_) => HoverTarget::Comment,
        Element::Escape(_) => HoverTarget::Escape,
        Element::Null(_) => HoverTarget::Null,
        Element::FootnoteRef(_) => HoverTarget::FootnoteRef,
        Element::TimeNow(_) => HoverTarget::TimeNow,
        Element::Age(_) => HoverTarget::Age,
        Element::SoftBreak(_) => HoverTarget::SoftBreak,
        Element::HardBreak(_) => HoverTarget::HardBreak,
        Element::HLine(_) => HoverTarget::HLine,
    }
}

} // verus!
