//! Text of diagnostic messages.

use vstd::prelude::*;

use crate::ast::{Element, Parameter, Span};
use crate::fmt::{chars_to_string, push_str};
use crate::text::{str_eq, to_chars};

verus! {

/// `s` with every line feed written as the two characters `\n`.
pub open spec fn escape_newlines(s: Seq<char>) -> Seq<char>
    decreases s.len(),
{
    if s.len() == 0 {
        seq![]
    } else if s.last() == '\n' {
        escape_newlines(s.drop_last()) + seq!['\\', 'n']
    } else {
        escape_newlines(s.drop_last()).push(s.last())
    }
}

/// A message text of at most `max_len` characters plus an ellipsis: the
/// escaped text when it fits, else its first `max_len` characters and `…`.
pub open spec fn truncated(s: Seq<char>, max_len: nat) -> Seq<char> {
    let clean = escape_newlines(s);
    if clean.len() <= max_len {
        clean
    } else {
        clean.take(max_len as int).push('…')
    }
}

/// Shortens a text for a diagnostic message, with line feeds escaped.
pub fn truncate(s: &str, max_len: usize) -> (r: String)
    ensures
        r@ == truncated(s@, max_len as nat),
{
    let chars = to_chars(s);
    let mut clean: Vec<char> = Vec::new();
    let mut i: usize = 0;
    while i < chars.len()
        invariant
            i <= chars.len(),
            chars@ == s@,
            clean@ == escape_newlines(chars@.take(i as int)),
        decreases chars.len() - i,
    {
        assert(chars@.take(i + 1).drop_last() =~= chars@.take(i as int));
        if chars[i] == '\n' {
            clean.push('\\');
            clean.push('n');
        } else {
            clean.push(chars[i]);
        }
        assert(clean@ =~= escape_newlines(chars@.take(i + 1)));
        i = i + 1;
    }
    assert(chars@.take(i as int) =~= chars@);
    if clean.len() <= max_len {
        return chars_to_string(&clean);
    }
    clean.truncate(max_len);
    clean.push('…');
    chars_to_string(&clean)
}

/// An element of a document as the diagnostics pass reads it, in the order
/// the document is visited: a parse error with its text, a variable
/// definition with the names it defines, a variable reference, or anything
/// else.
pub enum VisitedElement {
    Error { span: Span, value: String },
    Define { span: Span, names: Vec<String> },
    Variable { span: Span, name: String },
    Other,
}

/// The mathematical content of a visited element.
pub enum VisitedSpec {
    Error { span: Span, value: Seq<char> },
    Define { span: Span, names: Seq<Seq<char>> },
    Variable { span: Span, name: Seq<char> },
    Other,
}

/// The views of visited elements.
pub open spec fn visited_views(v: Seq<VisitedElement>) -> Seq<VisitedSpec> {
    v.map_values(|x: VisitedElement| visited_view(x))
}

/// How serious a diagnostic is.
#[derive(Clone, Copy, Debug, PartialEq, Eq, Structural)]
pub enum Severity {
    Error,
    Warning,
}

/// A diagnostic: where, how serious, what it says, and who reports it.
pub struct DiagnosticInfo {
    pub span: Span,
    pub severity: Severity,
    pub message: String,
    pub source: String,
}

/// The view of a diagnostic.
pub open spec fn diagnostic_view(d: DiagnosticInfo) -> (Span, Severity, Seq<char>) {
    (d.span, d.severity, d.message@)
}

/// The names defined anywhere in the document, in visiting order.
pub open spec fn defined_names(visited: Seq<VisitedSpec>) -> Seq<Seq<char>>
    decreases visited.len(),
{
    if visited.len() == 0 {
        seq![]
    } else {
        defined_names(visited.drop_last()) + match visited.last() {
            VisitedSpec::Define { names, .. } => names,
            _ => seq![],
        }
    }
}

/// An error diagnostic for every parse error, in visiting order, with the
/// error text shortened to 80 characters.
pub open spec fn error_diagnostics(visited: Seq<VisitedSpec>) -> Seq<(Span, Severity, Seq<char>)>
    decreases visited.len(),
{
    if visited.len() == 0 {
        seq![]
    } else {
        error_diagnostics(visited.drop_last()) + match visited.last() {
            VisitedSpec::Error { span, value } => seq![
                (span, Severity::Error, "Parse error: "@ + truncated(value, 80)),
            ],
            _ => seq![],
        }
    }
}

/// A warning for every reference to a variable that no definition in the
/// document defines, in visiting order.
pub open spec fn undefined_variable_warnings(
    visited: Seq<VisitedSpec>,
    defined: Seq<Seq<char>>,
) -> Seq<(Span, Severity, Seq<char>)>
    decreases visited.len(),
{
    if visited.len() == 0 {
        seq![]
    } else {
        undefined_variable_warnings(visited.drop_last(), defined) + match visited.last() {
            VisitedSpec::Variable { span, name } => if defined.contains(name) {
                seq![]
            } else {
                seq![(span, Severity::Warning, "Undefined variable: "@ + name)]
            },
            _ => seq![],
        }
    }
}

/// The diagnostics of a document: its parse errors, then its references to
/// undefined variables (a variable counts as defined by a definition
/// anywhere in the document, before or after the reference).
pub open spec fn document_diagnostics(visited: Seq<VisitedSpec>) -> Seq<(Span, Severity, Seq<char>)> {
    error_diagnostics(visited) + undefined_variable_warnings(visited, defined_names(visited))
}

/// Is `name` among `names`?
pub(crate) fn contains_name(names: &Vec<String>, name: &str) -> (r: bool)
    ensures
        r == names@.map_values(|n: String| n@).contains(name@),
{
    let ghost view = names@.map_values(|n: String| n@);
    let mut i: usize = 0;
    while i < names.len()
        invariant
            i <= names.len(),
            view == names@.map_values(|n: String| n@),
            forall|j: int| 0 <= j < i ==> view[j] != name@,
        decreases names.len() - i,
    {
        if str_eq(names[i].as_str(), name) {
            assert(view[i as int] == name@);
            return true;
        }
        i = i + 1;
    }
    false
}

/// The names the definitions among `visited` define, in visiting order.
pub fn defined_names_of(visited: &Vec<VisitedElement>) -> (r: Vec<String>)
    ensures
        r@.map_values(|n: String| n@) == defined_names(visited_views(visited@)),
{
    let ghost vs = visited_views(visited@);
    let mut defined: Vec<String> = Vec::new();
    let mut i: usize = 0;
    while i < visited.len()
        invariant
            i <= visited.len(),
            vs == visited_views(visited@),
            defined@.map_values(|n: String| n@) == defined_names(vs.take(i as int)),
        decreases visited.len() - i,
    {
        let ghost before_n = defined@;
        assert(vs.take(i + 1).drop_last() =~= vs.take(i as int));
        assert(vs.take(i + 1).last() == visited_view(visited@[i as int]));
        if let VisitedElement::Define { names, .. } = &visited[i] {
            let mut k: usize = 0;
            while k < names.len()
                invariant
                    k <= names.len(),
                    defined@.map_values(|n: String| n@) == before_n.map_values(|n: String| n@)
                        + names@.take(k as int).map_values(|n: String| n@),
                decreases names.len() - k,
            {
                let ghost prev = defined@;
                defined.push(names[k].clone());
                assert(defined@.map_values(|n: String| n@) =~= prev.map_values(|n: String| n@).push(
                    names@[k as int]@,
                ));
                assert(names@.take(k + 1).map_values(|n: String| n@) =~= names@.take(
                    k as int,
                ).map_values(|n: String| n@).push(names@[k as int]@));
                assert(defined@.map_values(|n: String| n@) =~= before_n.map_values(
                    |n: String| n@,
                ) + names@.take(k + 1).map_values(|n: String| n@));
                k = k + 1;
            }
            assert(names@.take(k as int) =~= names@);
            assert(defined@.map_values(|n: String| n@) =~= defined_names(vs.take(i + 1)));
        } else {
            assert(defined@.map_values(|n: String| n@) =~= defined_names(vs.take(i + 1)));
        }
        i = i + 1;
    }
    assert(vs.take(i as int) =~= vs);
    defined
}

/// Collects the diagnostics of a document from its elements in visiting
/// order.
pub fn collect_diagnostics(visited: &Vec<VisitedElement>) -> (r: Vec<DiagnosticInfo>)
    ensures
        r@.map_values(|d: DiagnosticInfo| diagnostic_view(d)) == document_diagnostics(
            visited_views(visited@),
        ),
        forall|i: int| 0 <= i < r@.len() ==> (#[trigger] r@[i]).source@ == "sevenmark"@,
{
    let ghost vs = visited_views(visited@);
    let mut diagnostics: Vec<DiagnosticInfo> = Vec::new();
    let mut defined: Vec<String> = Vec::new();
    let mut i: usize = 0;
    while i < visited.len()
        invariant
            i <= visited.len(),
            vs == visited_views(visited@),
            diagnostics@.map_values(|d: DiagnosticInfo| diagnostic_view(d)) == error_diagnostics(
                vs.take(i as int),
            ),
            defined@.map_values(|n: String| n@) == defined_names(vs.take(i as int)),
            forall|k: int| 0 <= k < diagnostics@.len() ==> (#[trigger] diagnostics@[k]).source@ == "sevenmark"@,
        decreases visited.len() - i,
    {
        let ghost before_d = diagnostics@;
        let ghost before_n = defined@;
        assert(vs.take(i + 1).drop_last() =~= vs.take(i as int));
        assert(vs.take(i + 1).last() == visited_view(visited@[i as int]));
        match &visited[i] {
            VisitedElement::Error { span, value } => {
                let mut message: Vec<char> = Vec::new();
                push_str(&mut message, "Parse error: ");
                let short = truncate(value.as_str(), 80);
                push_str(&mut message, short.as_str());
                diagnostics.push(
                    DiagnosticInfo {
                        span: *span,
                        severity: Severity::Error,
                        message: chars_to_string(&message),
                        source: String::from_str("sevenmark"),
                    },
                );
                assert(diagnostics@.map_values(|d: DiagnosticInfo| diagnostic_view(d)) =~= before_d.map_values(
                    |d: DiagnosticInfo| diagnostic_view(d),
                ).push((*span, Severity::Error, "Parse error: "@ + truncated(value@, 80))));
                assert(defined@.map_values(|n: String| n@) =~= defined_names(vs.take(i + 1)));
            },
            VisitedElement::Define { names, .. } => {
                let mut k: usize = 0;
                while k < names.len()
                    invariant
                        k <= names.len(),
                        defined@.map_values(|n: String| n@) == before_n.map_values(|n: String| n@)
                            + names@.take(k as int).map_values(|n: String| n@),
                    decreases names.len() - k,
                {
                    let ghost prev = defined@;
                    defined.push(names[k].clone());
                    assert(defined@.map_values(|n: String| n@) =~= prev.map_values(|n: String| n@).push(
                        names@[k as int]@,
                    ));
                    assert(names@.take(k + 1).map_values(|n: String| n@) =~= names@.take(
                        k as int,
                    ).map_values(|n: String| n@).push(names@[k as int]@));
                    assert(defined@.map_values(|n: String| n@) =~= before_n.map_values(
                        |n: String| n@,
                    ) + names@.take(k + 1).map_values(|n: String| n@));
                    k = k + 1;
                }
                assert(names@.take(k as int) =~= names@);
                assert(defined@.map_values(|n: String| n@) =~= defined_names(vs.take(i + 1)));
                assert(diagnostics@.map_values(|d: DiagnosticInfo| diagnostic_view(d)) =~= error_diagnostics(
                    vs.take(i + 1),
                ));
            },
            _ => {
                assert(defined@.map_values(|n: String| n@) =~= defined_names(vs.take(i + 1)));
                assert(diagnostics@.map_values(|d: DiagnosticInfo| diagnostic_view(d)) =~= error_diagnostics(
                    vs.take(i + 1),
                ));
            },
        }
        i = i + 1;
    }
    assert(vs.take(i as int) =~= vs);
    let ghost errors = diagnostics@.map_values(|d: DiagnosticInfo| diagnostic_view(d));
    let ghost names = defined@.map_values(|n: String| n@);
    let mut j: usize = 0;
    while j < visited.len()
        invariant
            j <= visited.len(),
            vs == visited_views(visited@),
            names == defined@.map_values(|n: String| n@),
            names == defined_names(vs),
            diagnostics@.map_values(|d: DiagnosticInfo| diagnostic_view(d)) == errors
                + undefined_variable_warnings(vs.take(j as int), names),
            forall|k: int| 0 <= k < diagnostics@.len() ==> (#[trigger] diagnostics@[k]).source@ == "sevenmark"@,
        decreases visited.len() - j,
    {
        let ghost before_d = diagnostics@;
        assert(vs.take(j + 1).drop_last() =~= vs.take(j as int));
        assert(vs.take(j + 1).last() == visited_view(visited@[j as int]));
        if let VisitedElement::Variable { span, name } = &visited[j] {
            if !contains_name(&defined, name.as_str()) {
                let mut message: Vec<char> = Vec::new();
                push_str(&mut message, "Undefined variable: ");
                push_str(&mut message, name.as_str());
                diagnostics.push(
                    DiagnosticInfo {
                        span: *span,
                        severity: Severity::Warning,
                        message: chars_to_string(&message),
                        source: String::from_str("sevenmark"),
                    },
                );
                assert(diagnostics@.map_values(|d: DiagnosticInfo| diagnostic_view(d)) =~= before_d.map_values(
                    |d: DiagnosticInfo| diagnostic_view(d),
                ).push((*span, Severity::Warning, "Undefined variable: "@ + name@)));
            }
        }
        assert(diagnostics@.map_values(|d: DiagnosticInfo| diagnostic_view(d)) =~= errors
            + undefined_variable_warnings(vs.take(j + 1), names));
        j = j + 1;
    }
    assert(vs.take(j as int) =~= vs);
    diagnostics
}

/// The texts of a list of strings.
pub open spec fn texts_of(v: Seq<String>) -> Seq<Seq<char>> {
    v.map_values(|n: String| n@)
}

/// The names of a list of parameters, in order.
pub open spec fn parameter_names(ps: Seq<Parameter>) -> Seq<Seq<char>> {
    ps.map_values(|p: Parameter| p.name@)
}

/// The view of a visited element.
pub open spec fn visited_view(v: VisitedElement) -> VisitedSpec {
    match v {
        VisitedElement::Error { span, value } => VisitedSpec::Error { span, value: value@ },
        VisitedElement::Define { span, names } => VisitedSpec::Define { span, names: texts_of(names@) },
        VisitedElement::Variable { span, name } => VisitedSpec::Variable { span, name: name@ },
        VisitedElement::Other => VisitedSpec::Other,
    }
}

/// What the editor tools record of an element: a parse error with its
/// text, a definition with the names of its parameters, a variable
/// reference with its name, or nothing of interest.
pub open spec fn visited_of_spec(e: Element) -> VisitedSpec {
    match e {
        Element::Error(x) => VisitedSpec::Error { span: x.span, value: x.value@ },
        Element::Define(l) => VisitedSpec::Define { span: l.span, names: parameter_names(l.parameters@) },
        Element::Variable(v) => VisitedSpec::Variable { span: v.span, name: v.name@ },
        _ => VisitedSpec::Other,
    }
}

/// Records an element for diagnostics and go-to-definition.
pub fn visited_of(e: &Element) -> (r: VisitedElement)
    ensures
        visited_view(r) == visited_of_spec(*e),
{
    match e {
        Element::Error(x) => VisitedElement::Error { span: x.span, value: x.value.clone() },
        Element::Define(l) => {
            let mut names: Vec<String> = Vec::new();
            let mut i: usize = 0;
            while i < l.parameters.len()
                invariant
                    i <= l.parameters.len(),
                    texts_of(names@) == parameter_names(l.parameters@).take(i as int),
                decreases l.parameters.len() - i,
            {
                let name = l.parameters[i].name.clone();
                let ghost before = names@;
                assert(parameter_names(l.parameters@).len() == l.parameters@.len());
                assert(texts_of(before).len() == before.len());
                assert(before.len() == i);
                names.push(name);
                assert(names@ == before.push(name));
                assert(parameter_names(l.parameters@)[i as int] == l.parameters@[i as int].name@);
                assert forall|k: int| 0 <= k < i + 1 implies #[trigger] texts_of(names@)[k]
                    == parameter_names(l.parameters@).take(i as int + 1)[k] by {
                    if k < i {
                        assert(names@[k] == before[k]);
                        assert(texts_of(before)[k] == parameter_names(l.parameters@).take(
                            i as int,
                        )[k]);
                    }
                }
                assert(texts_of(names@) =~= parameter_names(l.parameters@).take(i as int + 1));
                i = i + 1;
            }
            assert(parameter_names(l.parameters@).take(l.parameters.len() as int) =~= parameter_names(
                l.parameters@,
            ));
            VisitedElement::Define { span: l.span, names }
        },
        Element::Variable(v) => VisitedElement::Variable { span: v.span, name: v.name.clone() },
        _ => VisitedElement::Other,
    }
}

} // verus!
