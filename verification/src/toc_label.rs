//! The label of a section in the table of contents: what of a header's
//! children it shows. Inline formatting and inline macros are kept, media
//! and inclusions show their caption only, blocks show nothing.

use vstd::prelude::*;

use crate::ast::{Element, ParamContainer};
use crate::hover::MentionKind;
use crate::parameters::{
    build_dark_style_declarations, build_style_declarations, dark_style_declarations,
    extra_class, get_param, opt_view, param_class, param_value, parameters_of,
    parameters_view, raw_style, style_declarations,
};

verus! {

/// An element that wraps part of a label.
pub enum LabelTag {
    Bold,
    Italic,
    Strikethrough,
    Underline,
    Superscript,
    Subscript,
    /// A styled span: the user's extra classes and the light and dark
    /// inline styles its parameters ask for (before sanitizing).
    Styled { extra_class: Option<String>, style: Option<String>, dark_style: Option<String> },
    /// A ruby annotation: as a styled span, plus the annotation text shown
    /// after the children.
    Ruby {
        extra_class: Option<String>,
        style: Option<String>,
        dark_style: Option<String>,
        ruby: String,
    },
}

/// One piece of a label, in document order: a wrapper opens, its content
/// follows, and it closes.
pub enum LabelPart {
    Open(LabelTag),
    Close,
    Text(String),
    Variable(String),
    TimeNow,
    Age(String),
    Mention { kind: MentionKind, id: String },
    Space,
}

/// The mathematical content of a wrapper.
pub enum TagView {
    Bold,
    Italic,
    Strikethrough,
    Underline,
    Superscript,
    Subscript,
    Styled { extra_class: Option<Seq<char>>, style: Option<Seq<char>>, dark_style: Option<Seq<char>> },
    Ruby {
        extra_class: Option<Seq<char>>,
        style: Option<Seq<char>>,
        dark_style: Option<Seq<char>>,
        ruby: Seq<char>,
    },
}

/// The mathematical content of a label piece.
pub enum PartView {
    Open(TagView),
    Close,
    Text(Seq<char>),
    Variable(Seq<char>),
    TimeNow,
    Age(Seq<char>),
    Mention { kind: MentionKind, id: Seq<char> },
    Space,
}

/// The view of a wrapper.
pub open spec fn tag_view(t: LabelTag) -> TagView {
    match t {
        LabelTag::Bold => TagView::Bold,
        LabelTag::Italic => TagView::Italic,
        LabelTag::Strikethrough => TagView::Strikethrough,
        LabelTag::Underline => TagView::Underline,
        LabelTag::Superscript => TagView::Superscript,
        LabelTag::Subscript => TagView::Subscript,
        LabelTag::Styled { extra_class, style, dark_style } => TagView::Styled {
            extra_class: opt_view(extra_class),
            style: opt_view(style),
            dark_style: opt_view(dark_style),
        },
        LabelTag::Ruby { extra_class, style, dark_style, ruby } => TagView::Ruby {
            extra_class: opt_view(extra_class),
            style: opt_view(style),
            dark_style: opt_view(dark_style),
            ruby: ruby@,
        },
    }
}

/// The view of a label piece.
pub open spec fn part_view(p: LabelPart) -> PartView {
    match p {
        LabelPart::Open(t) => PartView::Open(tag_view(t)),
        LabelPart::Close => PartView::Close,
        LabelPart::Text(s) => PartView::Text(s@),
        LabelPart::Variable(s) => PartView::Variable(s@),
        LabelPart::TimeNow => PartView::TimeNow,
        LabelPart::Age(d) => PartView::Age(d@),
        LabelPart::Mention { kind, id } => PartView::Mention { kind, id: id@ },
        LabelPart::Space => PartView::Space,
    }
}

/// The views of label pieces.
pub open spec fn parts_view(ps: Seq<LabelPart>) -> Seq<PartView> {
    ps.map_values(|p: LabelPart| part_view(p))
}

/// The wrapper of a styled span with parameters `params`.
pub open spec fn styled_tag(params: Seq<(Seq<char>, Seq<char>)>) -> TagView {
    TagView::Styled {
        extra_class: extra_class(params),
        style: raw_style(style_declarations(params)),
        dark_style: raw_style(dark_style_declarations(params)),
    }
}

/// The wrapper of a ruby annotation with parameters `params`: its `#ruby`
/// text is the annotation (empty without one).
pub open spec fn ruby_tag(params: Seq<(Seq<char>, Seq<char>)>) -> TagView {
    TagView::Ruby {
        extra_class: extra_class(params),
        style: raw_style(style_declarations(params)),
        dark_style: raw_style(dark_style_declarations(params)),
        ruby: match param_value(params, "ruby"@) {
            Some(v) => v,
            None => seq![],
        },
    }
}

/// The label of a list of elements: their labels one after another.
pub open spec fn labels_of(es: Seq<Element>) -> Seq<PartView>
    decreases es,
{
    if es.len() == 0 {
        seq![]
    } else {
        labels_of(es.drop_last()) + toc_label_of(es[es.len() - 1])
    }
}

/// `children` wrapped in `tag`.
pub open spec fn wrapped(tag: TagView, children: Seq<PartView>) -> Seq<PartView> {
    seq![PartView::Open(tag)] + children + seq![PartView::Close]
}

/// What the table of contents shows of an element: text and escapes their
/// text; bold, italic, strikethrough, underline, superscript and subscript
/// the label of their children, wrapped; styled spans and ruby annotations
/// likewise with their classes, styles and annotation; media and inclusions
/// only the label of their children (never the widget); variables, the
/// time, ages and mentions their inline forms; line breaks one space;
/// every other element nothing.
pub open spec fn toc_label_of(e: Element) -> Seq<PartView>
    decreases e,
{
    match e {
        Element::Text(t) => seq![PartView::Text(t.value@)],
        Element::Escape(t) => seq![PartView::Text(t.value@)],
        Element::Bold(c) => wrapped(TagView::Bold, labels_of(c.children@)),
        Element::Italic(c) => wrapped(TagView::Italic, labels_of(c.children@)),
        Element::Strikethrough(c) => wrapped(TagView::Strikethrough, labels_of(c.children@)),
        Element::Underline(c) => wrapped(TagView::Underline, labels_of(c.children@)),
        Element::Superscript(c) => wrapped(TagView::Superscript, labels_of(c.children@)),
        Element::Subscript(c) => wrapped(TagView::Subscript, labels_of(c.children@)),
        Element::Styled(c) => wrapped(
            styled_tag(parameters_view(c.parameters@)),
            labels_of(c.children@),
        ),
        Element::Ruby(c) => wrapped(ruby_tag(parameters_view(c.parameters@)), labels_of(c.children@)),
        Element::Media(c) => labels_of(c.children@),
        Element::Include(c) => labels_of(c.children@),
        Element::Variable(v) => seq![PartView::Variable(v.name@)],
        Element::TimeNow(_) => seq![PartView::TimeNow],
        Element::Age(a) => seq![PartView::Age(a.date@)],
        Element::Mention(m) => seq![PartView::Mention { kind: m.kind, id: m.id@ }],
        Element::SoftBreak(_) => seq![PartView::Space],
        Element::HardBreak(_) => seq![PartView::Space],
        _ => seq![],
    }
}

/// The label of each kind of element: text and escapes show their text;
/// the six inline formats wrap their children's label in a wrapper of their
/// own kind; styled spans and ruby annotations wrap it with the look and
/// annotation their parameters give; media and inclusions show only their
/// children's label; variables, the time, ages and mentions show their
/// inline forms; line breaks show one space; blocks show nothing.
pub proof fn lemma_toc_label_shows_each_kind(e: Element)
    ensures
        e matches Element::Text(t) ==> toc_label_of(e) == seq![PartView::Text(t.value@)],
        e matches Element::Escape(t) ==> toc_label_of(e) == seq![PartView::Text(t.value@)],
        e matches Element::Bold(c) ==> toc_label_of(e) == seq![PartView::Open(TagView::Bold)]
            + labels_of(c.children@) + seq![PartView::Close],
        e matches Element::Italic(c) ==> toc_label_of(e) == seq![PartView::Open(TagView::Italic)]
            + labels_of(c.children@) + seq![PartView::Close],
        e matches Element::Strikethrough(c) ==> toc_label_of(e) == seq![PartView::Open(TagView::Strikethrough)]
            + labels_of(c.children@) + seq![PartView::Close],
        e matches Element::Underline(c) ==> toc_label_of(e) == seq![PartView::Open(TagView::Underline)]
            + labels_of(c.children@) + seq![PartView::Close],
        e matches Element::Superscript(c) ==> toc_label_of(e) == seq![PartView::Open(TagView::Superscript)]
            + labels_of(c.children@) + seq![PartView::Close],
        e matches Element::Subscript(c) ==> toc_label_of(e) == seq![PartView::Open(TagView::Subscript)]
            + labels_of(c.children@) + seq![PartView::Close],
        e matches Element::Styled(c) ==> toc_label_of(e).len() >= 2 && toc_label_of(e)[0] == PartView::Open(
            TagView::Styled {
                extra_class: extra_class(parameters_view(c.parameters@)),
                style: raw_style(style_declarations(parameters_view(c.parameters@))),
                dark_style: raw_style(dark_style_declarations(parameters_view(c.parameters@))),
            },
        ) && toc_label_of(e).last() == PartView::Close,
        e matches Element::Ruby(c) ==> (toc_label_of(e).len() >= 2 && (toc_label_of(e)[0] matches PartView::Open(
            TagView::Ruby { ruby, .. },
        ) && ruby == match param_value(parameters_view(c.parameters@), "ruby"@) {
            Some(v) => v,
            None => seq![],
        })),
        e matches Element::Media(c) ==> toc_label_of(e) == labels_of(c.children@),
        e matches Element::Include(c) ==> toc_label_of(e) == labels_of(c.children@),
        e matches Element::Variable(v) ==> toc_label_of(e) == seq![PartView::Variable(v.name@)],
        e is TimeNow ==> toc_label_of(e) == seq![PartView::TimeNow],
        e matches Element::Age(a) ==> toc_label_of(e) == seq![PartView::Age(a.date@)],
        e matches Element::Mention(m) ==> toc_label_of(e) == seq![
            PartView::Mention { kind: m.kind, id: m.id@ },
        ],
        e is SoftBreak || e is HardBreak ==> toc_label_of(e) == seq![PartView::Space],
        e is Comment || e is Error || e is Literal || e is Define || e is Table || e is List || e is Fold || e is BlockQuote || e is Footnote || e is Code || e is TeX || e is Category || e is Redirect || e is ExternalMedia || e is Null || e is FootnoteRef || e is HLine || e is Header || e is If ==> toc_label_of(e).len() == 0,
{
}

/// The wrapper of a styled span.
fn styled_label_tag(c: &ParamContainer) -> (r: LabelTag)
    ensures
        tag_view(r) == styled_tag(parameters_view(c.parameters@)),
{
    let params = parameters_of(&c.parameters);
    LabelTag::Styled {
        extra_class: param_class(&params),
        style: build_style_declarations(&params),
        dark_style: build_dark_style_declarations(&params),
    }
}

/// The wrapper of a ruby annotation.
fn ruby_label_tag(c: &ParamContainer) -> (r: LabelTag)
    ensures
        tag_view(r) == ruby_tag(parameters_view(c.parameters@)),
{
    let params = parameters_of(&c.parameters);
    let ruby = match get_param(&params, "ruby") {
        Some(v) => v,
        None => String::new(),
    };
    proof {
        reveal_strlit("");
    }
    LabelTag::Ruby {
        extra_class: param_class(&params),
        style: build_style_declarations(&params),
        dark_style: build_dark_style_declarations(&params),
        ruby,
    }
}

/// Appends the label of a list of elements.
fn push_labels(es: &Vec<Element>, out: &mut Vec<LabelPart>)
    ensures
        parts_view(final(out)@) == parts_view(old(out)@) + labels_of(es@),
    decreases es, 0nat,
{
    let ghost start = parts_view(out@);
    let mut i: usize = 0;
    while i < es.len()
        invariant
            i <= es.len(),
            parts_view(out@) == start + labels_of(es@.take(i as int)),
        decreases es.len() - i,
    {
        proof {
            vstd::std_specs::vec::axiom_vec_index_decreases(*es, i as int);
            assert(es@.take(i + 1).drop_last() =~= es@.take(i as int));
            assert(es@.take(i + 1)[i as int] == es@[i as int]);
        }
        push_label(&es[i], out);
        assert(parts_view(out@) =~= start + labels_of(es@.take(i + 1)));
        i = i + 1;
    }
    assert(es@.take(i as int) =~= es@);
}

/// Appends one piece.
fn push_part(out: &mut Vec<LabelPart>, p: LabelPart)
    ensures
        parts_view(final(out)@) == parts_view(old(out)@).push(part_view(p)),
{
    let ghost before = out@;
    out.push(p);
    assert(parts_view(out@) =~= parts_view(before).push(part_view(p)));
}

/// Appends `children` wrapped in `tag`.
fn push_wrapped(tag: LabelTag, children: &Vec<Element>, out: &mut Vec<LabelPart>)
    ensures
        parts_view(final(out)@) == parts_view(old(out)@) + wrapped(tag_view(tag), labels_of(
            children@,
        )),
    decreases children, 1nat,
{
    let ghost start = parts_view(out@);
    let ghost t = tag_view(tag);
    push_part(out, LabelPart::Open(tag));
    push_labels(children, out);
    push_part(out, LabelPart::Close);
    assert(parts_view(out@) =~= start + wrapped(t, labels_of(children@)));
}

/// Appends the label of one element.
#[verifier::rlimit(40)]
fn push_label(e: &Element, out: &mut Vec<LabelPart>)
    ensures
        parts_view(final(out)@) == parts_view(old(out)@) + toc_label_of(*e),
    decreases e, 0nat,
{
    let ghost start = parts_view(out@);
    match e {
        Element::Text(t) | Element::Escape(t) => push_part(out, LabelPart::Text(t.value.clone())),
        Element::Bold(c) => push_wrapped(LabelTag::Bold, &c.children, out),
        Element::Italic(c) => push_wrapped(LabelTag::Italic, &c.children, out),
        Element::Strikethrough(c) => push_wrapped(LabelTag::Strikethrough, &c.children, out),
        Element::Underline(c) => push_wrapped(LabelTag::Underline, &c.children, out),
        Element::Superscript(c) => push_wrapped(LabelTag::Superscript, &c.children, out),
        Element::Subscript(c) => push_wrapped(LabelTag::Subscript, &c.children, out),
        Element::Styled(c) => push_wrapped(styled_label_tag(c), &c.children, out),
        Element::Ruby(c) => push_wrapped(ruby_label_tag(c), &c.children, out),
        Element::Media(c) | Element::Include(c) => push_labels(&c.children, out),
        Element::Variable(v) => push_part(out, LabelPart::Variable(v.name.clone())),
        Element::TimeNow(_) => push_part(out, LabelPart::TimeNow),
        Element::Age(a) => push_part(out, LabelPart::Age(a.date.clone())),
        Element::Mention(m) => push_part(out, LabelPart::Mention { kind: m.kind, id: m.id.clone() }),
        Element::SoftBreak(_) | Element::HardBreak(_) => push_part(out, LabelPart::Space),
        _ => {
            assert(toc_label_of(*e) =~= seq![]);
        },
    }
    assert(parts_view(out@) =~= start + toc_label_of(*e));
}

/// What the table of contents shows of an element.
pub fn toc_label_parts(el: &Element) -> (r: Vec<LabelPart>)
    ensures
        parts_view(r@) == toc_label_of(*el),
{
    let mut out: Vec<LabelPart> = Vec::new();
    push_label(el, &mut out);
    assert(parts_view(out@) =~= toc_label_of(*el));
    out
}

/// What the table of contents shows of a header's children.
pub fn toc_label(children: &Vec<Element>) -> (r: Vec<LabelPart>)
    ensures
        parts_view(r@) == labels_of(children@),
{
    let mut out: Vec<LabelPart> = Vec::new();
    push_labels(children, &mut out);
    assert(parts_view(out@) =~= labels_of(children@));
    out
}

} // verus!
