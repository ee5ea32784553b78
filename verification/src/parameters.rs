//! Element parameters (`#name="value"`) and what the renderers build from
//! them.

use vstd::prelude::*;

use crate::ast::{Element, Parameter};
use crate::fmt::{chars_to_string, push_str};
use crate::style::join;
use crate::text::{str_eq, to_chars, trim, trim_str};

verus! {

/// The parameters of an element: each name with the plain text of its value
/// (the text and escape parts of the value, in order). A later entry for a
/// name overrides an earlier one.
pub struct Parameters {
    entries: Vec<(String, String)>,
}

impl View for Parameters {
    type V = Seq<(Seq<char>, Seq<char>)>;

    closed spec fn view(&self) -> Seq<(Seq<char>, Seq<char>)> {
        self.entries@.map_values(|e: (String, String)| (e.0@, e.1@))
    }
}

/// The text of parameter `key`, if the element has it.
pub open spec fn param_value(params: Seq<(Seq<char>, Seq<char>)>, key: Seq<char>) -> Option<Seq<char>>
    decreases params.len(),
{
    if params.len() == 0 {
        None
    } else if params.last().0 == key {
        Some(params.last().1)
    } else {
        param_value(params.drop_last(), key)
    }
}

/// Reading a parameter after setting it gives the value just set, and
/// setting one parameter leaves the others as they were.
pub proof fn lemma_param_after_insert(
    params: Seq<(Seq<char>, Seq<char>)>,
    name: Seq<char>,
    value: Seq<char>,
    other: Seq<char>,
)
    ensures
        param_value(params.push((name, value)), name) == Some(value),
        other != name ==> param_value(params.push((name, value)), other) == param_value(
            params,
            other,
        ),
{
    assert(params.push((name, value)).drop_last() =~= params);
}

impl Parameters {
    /// No parameters.
    pub fn new() -> (r: Self)
        ensures
            r@ == Seq::<(Seq<char>, Seq<char>)>::empty(),
    {
        let r = Parameters { entries: Vec::new() };
        assert(r@ =~= Seq::<(Seq<char>, Seq<char>)>::empty());
        r
    }

    /// Sets parameter `name` to `value`.
    pub fn insert(&mut self, name: String, value: String)
        ensures
            final(self)@ == old(self)@.push((name@, value@)),
    {
        self.entries.push((name, value));
        assert(self@ =~= old(self)@.push((name@, value@)));
    }
}

/// The plain text of a parameter value: the values of its text and escape
/// elements, in order.
pub open spec fn value_text(es: Seq<Element>) -> Seq<char>
    decreases es.len(),
{
    if es.len() == 0 {
        seq![]
    } else {
        value_text(es.drop_last()) + match es.last() {
            Element::Text(t) => t.value@,
            Element::Escape(t) => t.value@,
            _ => seq![],
        }
    }
}

/// The parameters of an element as names and plain-text values, in order.
pub open spec fn parameters_view(ps: Seq<Parameter>) -> Seq<(Seq<char>, Seq<char>)> {
    ps.map_values(|p: Parameter| (p.name@, value_text(p.value@)))
}

/// The plain text of a parameter value.
pub fn value_text_of(es: &Vec<Element>) -> (r: String)
    ensures
        r@ == value_text(es@),
{
    let mut out: Vec<char> = Vec::new();
    let mut i: usize = 0;
    while i < es.len()
        invariant
            i <= es.len(),
            out@ == value_text(es@.take(i as int)),
        decreases es.len() - i,
    {
        assert(es@.take(i + 1).drop_last() =~= es@.take(i as int));
        match &es[i] {
            Element::Text(t) | Element::Escape(t) => push_str(&mut out, t.value.as_str()),
            _ => {},
        }
        assert(out@ =~= value_text(es@.take(i + 1)));
        i = i + 1;
    }
    assert(es@.take(i as int) =~= es@);
    chars_to_string(&out)
}

/// Reads the parameters of an element: each name with the plain text of
/// its value.
pub fn parameters_of(ps: &Vec<Parameter>) -> (r: Parameters)
    ensures
        r@ == parameters_view(ps@),
{
    let mut r = Parameters::new();
    let mut i: usize = 0;
    while i < ps.len()
        invariant
            i <= ps.len(),
            r@ == parameters_view(ps@.take(i as int)),
        decreases ps.len() - i,
    {
        let v = value_text_of(&ps[i].value);
        r.insert(ps[i].name.clone(), v);
        assert(r@ =~= parameters_view(ps@.take(i + 1)));
        i = i + 1;
    }
    assert(ps@.take(i as int) =~= ps@);
    r
}

/// The value of parameter `key` as text.
pub fn get_param(params: &Parameters, key: &str) -> (r: Option<String>)
    ensures
        opt_view(r) == param_value(params@, key@),
{
    let mut k: usize = params.entries.len();
    assert(params@.take(k as int) =~= params@);
    while k > 0
        invariant
            k <= params.entries.len(),
            param_value(params@, key@) == param_value(params@.take(k as int), key@),
        decreases k,
    {
        assert(params@.take(k as int).drop_last() =~= params@.take(k - 1));
        assert(params@[k - 1] == (params.entries@[k - 1].0@, params.entries@[k - 1].1@));
        if str_eq(params.entries[k - 1].0.as_str(), key) {
            return Some(params.entries[k - 1].1.clone());
        }
        k = k - 1;
    }
    None
}

/// The view of an optional string.
pub open spec fn opt_view(o: Option<String>) -> Option<Seq<char>> {
    match o {
        Some(s) => Some(s@),
        None => None,
    }
}

/// `class`
pub open spec fn class_key() -> Seq<char> {
    "class"@
}

/// The user's extra classes: the trimmed `#class` value, when not empty.
pub open spec fn extra_class(params: Seq<(Seq<char>, Seq<char>)>) -> Option<Seq<char>> {
    match param_value(params, class_key()) {
        Some(v) => if trim(v).len() > 0 {
            Some(trim(v))
        } else {
            None
        },
        None => None,
    }
}

/// The user's extra classes from `#class`, trimmed, when not empty.
pub fn param_class(params: &Parameters) -> (r: Option<String>)
    ensures
        opt_view(r) == extra_class(params@),
{
    match get_param(params, "class") {
        Some(v) => {
            let t = trim_str(v.as_str());
            if t.is_empty() {
                None
            } else {
                Some(String::from_str(t))
            }
        },
        None => None,
    }
}

/// The class attribute: the renderer's base class, followed by the user's
/// extra classes when there are any.
pub open spec fn merged_class(base: Seq<char>, params: Seq<(Seq<char>, Seq<char>)>) -> Seq<char> {
    match extra_class(params) {
        Some(extra) => base + seq![' '] + extra,
        None => base,
    }
}

/// The user's classes are the trimmed `#class` value when it is not blank,
/// and the class attribute is the base class followed, after one space, by
/// them; without them it is the base class alone.
pub proof fn lemma_class_keeps_the_base_and_adds_the_user_classes(
    base: Seq<char>,
    params: Seq<(Seq<char>, Seq<char>)>,
)
    ensures
        param_value(params, "class"@) matches Some(v) ==> (trim(v).len() > 0 ==> (extra_class(
            params,
        ) == Some(trim(v)) && merged_class(base, params) == base + seq![' '] + trim(v))),
        param_value(params, "class"@) matches Some(v) ==> (trim(v).len() == 0 ==> (extra_class(
            params,
        ) is None && merged_class(base, params) == base)),
        param_value(params, "class"@) is None ==> extra_class(params) is None && merged_class(
            base,
            params,
        ) == base,
{
}

/// Keeps the renderer's base class and appends the user's `#class`.
pub fn merge_class(base: &str, params: &Parameters) -> (r: String)
    ensures
        r@ == merged_class(base@, params@),
{
    match param_class(params) {
        Some(extra) => {
            let mut out: Vec<char> = Vec::new();
            push_str(&mut out, base);
            out.push(' ');
            push_str(&mut out, extra.as_str());
            assert(out@ =~= base@ + seq![' '] + extra@);
            chars_to_string(&out)
        },
        None => String::from_str(base),
    }
}

/// One declaration built from parameter `key` with CSS property `prop`
/// (`prop:value`), or the raw value itself when `prop` is empty.
pub open spec fn declaration(params: Seq<(Seq<char>, Seq<char>)>, key: Seq<char>, prop: Seq<char>) -> Seq<Seq<char>> {
    match param_value(params, key) {
        Some(v) => if prop.len() == 0 {
            seq![v]
        } else {
            seq![prop + seq![':'] + v]
        },
        None => seq![],
    }
}

/// The declarations the style parameters ask for, in order: the raw
/// `#style`, then font size, color, background color and opacity.
pub open spec fn style_declarations(params: Seq<(Seq<char>, Seq<char>)>) -> Seq<Seq<char>> {
    declaration(params, "style"@, seq![]) + declaration(params, "size"@, "font-size"@) + declaration(
        params,
        "color"@,
        "color"@,
    ) + declaration(params, "bgcolor"@, "background-color"@) + declaration(
        params,
        "opacity"@,
        "opacity"@,
    )
}

/// The declarations the dark-mode parameters ask for, in order.
pub open spec fn dark_style_declarations(params: Seq<(Seq<char>, Seq<char>)>) -> Seq<Seq<char>> {
    declaration(params, "dark-style"@, seq![]) + declaration(params, "dark-size"@, "font-size"@)
        + declaration(params, "dark-color"@, "color"@) + declaration(
        params,
        "dark-bgcolor"@,
        "background-color"@,
    ) + declaration(params, "dark-opacity"@, "opacity"@)
}

/// The unsanitized inline style of a list of declarations: nothing when the
/// list is empty, else the declarations joined with `;`.
pub open spec fn raw_style(decls: Seq<Seq<char>>) -> Option<Seq<char>> {
    if decls.len() == 0 {
        None
    } else {
        Some(join(decls, ';'))
    }
}

/// Each style parameter gives its own declaration with the parameter's
/// value: `#style` as it is, `#size` as `font-size`, `#color` as `color`,
/// `#bgcolor` as `background-color`, `#opacity` as `opacity`; the `dark-`
/// parameters likewise for the dark style. Without any of them there is no
/// style.
pub proof fn lemma_style_parameters_give_their_declarations(params: Seq<(Seq<char>, Seq<char>)>)
    ensures
        param_value(params, "style"@) matches Some(v) ==> style_declarations(params).contains(v),
        param_value(params, "size"@) matches Some(v) ==> style_declarations(params).contains(
            "font-size"@ + seq![':'] + v,
        ),
        param_value(params, "color"@) matches Some(v) ==> style_declarations(params).contains(
            "color"@ + seq![':'] + v,
        ),
        param_value(params, "bgcolor"@) matches Some(v) ==> style_declarations(params).contains(
            "background-color"@ + seq![':'] + v,
        ),
        param_value(params, "opacity"@) matches Some(v) ==> style_declarations(params).contains(
            "opacity"@ + seq![':'] + v,
        ),
        (param_value(params, "style"@) is None && param_value(params, "size"@) is None && param_value(params, "color"@) is None && param_value(params, "bgcolor"@) is None && param_value(params, "opacity"@) is None) ==> style_declarations(params).len() == 0,
        param_value(params, "dark-style"@) matches Some(v) ==> dark_style_declarations(params).contains(v),
        param_value(params, "dark-size"@) matches Some(v) ==> dark_style_declarations(params).contains(
            "font-size"@ + seq![':'] + v,
        ),
        param_value(params, "dark-color"@) matches Some(v) ==> dark_style_declarations(params).contains(
            "color"@ + seq![':'] + v,
        ),
        param_value(params, "dark-bgcolor"@) matches Some(v) ==> dark_style_declarations(params).contains(
            "background-color"@ + seq![':'] + v,
        ),
        param_value(params, "dark-opacity"@) matches Some(v) ==> dark_style_declarations(params).contains(
            "opacity"@ + seq![':'] + v,
        ),
        (param_value(params, "dark-style"@) is None && param_value(params, "dark-size"@) is None && param_value(params, "dark-color"@) is None && param_value(params, "dark-bgcolor"@) is None && param_value(params, "dark-opacity"@) is None) ==> dark_style_declarations(params).len() == 0,
{
    reveal_strlit("background-color");
    reveal_strlit("color");
    reveal_strlit("font-size");
    reveal_strlit("opacity");
    lemma_declaration_list(params, style_declarations(params), "style"@, "size"@, "color"@, "bgcolor"@, "opacity"@);
    lemma_declaration_list(
        params,
        dark_style_declarations(params),
        "dark-style"@,
        "dark-size"@,
        "dark-color"@,
        "dark-bgcolor"@,
        "dark-opacity"@,
    );
}

/// A list made of the declarations of five parameters holds each of them.
proof fn lemma_declaration_list(
    params: Seq<(Seq<char>, Seq<char>)>,
    decls: Seq<Seq<char>>,
    raw: Seq<char>,
    size: Seq<char>,
    color: Seq<char>,
    bgcolor: Seq<char>,
    opacity: Seq<char>,
)
    requires
        decls == declaration(params, raw, seq![]) + declaration(params, size, "font-size"@)
            + declaration(params, color, "color"@) + declaration(params, bgcolor, "background-color"@)
            + declaration(params, opacity, "opacity"@),
    ensures
        param_value(params, raw) matches Some(v) ==> decls.contains(v),
        param_value(params, size) matches Some(v) ==> decls.contains("font-size"@ + seq![':'] + v),
        param_value(params, color) matches Some(v) ==> decls.contains("color"@ + seq![':'] + v),
        param_value(params, bgcolor) matches Some(v) ==> decls.contains(
            "background-color"@ + seq![':'] + v,
        ),
        param_value(params, opacity) matches Some(v) ==> decls.contains("opacity"@ + seq![':'] + v),
        (param_value(params, raw) is None && param_value(params, size) is None && param_value(
            params,
            color,
        ) is None && param_value(params, bgcolor) is None && param_value(params, opacity) is None)
            ==> decls.len() == 0,
{
    reveal_strlit("background-color");
    reveal_strlit("color");
    reveal_strlit("font-size");
    reveal_strlit("opacity");
    let a = declaration(params, raw, seq![]);
    let b = declaration(params, size, "font-size"@);
    let c = declaration(params, color, "color"@);
    let d = declaration(params, bgcolor, "background-color"@);
    let e = declaration(params, opacity, "opacity"@);
    if let Some(v) = param_value(params, raw) {
        assert(decls[0] == v);
    }
    if let Some(v) = param_value(params, size) {
        assert(decls[a.len() as int] == "font-size"@ + seq![':'] + v);
    }
    if let Some(v) = param_value(params, color) {
        assert(decls[(a.len() + b.len()) as int] == "color"@ + seq![':'] + v);
    }
    if let Some(v) = param_value(params, bgcolor) {
        assert(decls[(a.len() + b.len() + c.len()) as int] == "background-color"@ + seq![':'] + v);
    }
    if let Some(v) = param_value(params, opacity) {
        assert(decls[(a.len() + b.len() + c.len() + d.len()) as int] == "opacity"@ + seq![':'] + v);
    }
}

/// Adds the declaration of parameter `key` (as `prop:value`, or the raw value
/// when `prop` is empty) to the list.
fn push_declaration(decls: &mut Vec<Vec<char>>, params: &Parameters, key: &str, prop: &str)
    ensures
        final(decls)@.map_values(|d: Vec<char>| d@) == old(decls)@.map_values(|d: Vec<char>| d@)
            + declaration(params@, key@, prop@),
{
    if let Some(v) = get_param(params, key) {
        let mut d: Vec<char> = Vec::new();
        let p = to_chars(prop);
        if p.len() > 0 {
            push_str(&mut d, prop);
            d.push(':');
        }
        push_str(&mut d, v.as_str());
        let ghost dv = d@;
        decls.push(d);
        proof {
            if prop@.len() == 0 {
                assert(dv =~= v@);
            } else {
                assert(dv =~= prop@ + seq![':'] + v@);
            }
            assert(final(decls)@.map_values(|x: Vec<char>| x@) =~= old(decls)@.map_values(
                |x: Vec<char>| x@,
            ) + declaration(params@, key@, prop@));
        }
    } else {
        assert(old(decls)@.map_values(|x: Vec<char>| x@) + declaration(params@, key@, prop@)
            =~= old(decls)@.map_values(|x: Vec<char>| x@));
    }
}

fn join_declarations(decls: &Vec<Vec<char>>) -> (r: Option<String>)
    ensures
        opt_view(r) == raw_style(decls@.map_values(|d: Vec<char>| d@)),
{
    if decls.len() == 0 {
        return None;
    }
    let ghost ds = decls@.map_values(|d: Vec<char>| d@);
    let mut out: Vec<char> = Vec::new();
    let mut i: usize = 0;
    while i < decls.len()
        invariant
            i <= decls.len(),
            ds == decls@.map_values(|d: Vec<char>| d@),
            out@ == join(ds.take(i as int), ';'),
        decreases decls.len() - i,
    {
        assert(ds.take(i + 1).drop_last() =~= ds.take(i as int));
        if i > 0 {
            out.push(';');
        }
        let ghost before = out@;
        let mut k: usize = 0;
        while k < decls[i].len()
            invariant
                i < decls.len(),
                k <= decls@[i as int].len(),
                out@ == before + decls@[i as int]@.take(k as int),
            decreases decls@[i as int].len() - k,
        {
            out.push(decls[i][k]);
            k = k + 1;
            assert(out@ =~= before + decls@[i as int]@.take(k as int));
        }
        proof {
            assert(decls@[i as int]@.take(k as int) =~= ds[i as int]);
            if i == 0 {
                assert(ds.take(1) =~= seq![ds[0]]);
            }
            assert(out@ =~= join(ds.take(i + 1), ';'));
        }
        i = i + 1;
    }
    assert(ds.take(i as int) =~= ds);
    Some(chars_to_string(&out))
}

/// The inline style the style parameters ask for, before sanitizing.
pub fn build_style_declarations(params: &Parameters) -> (r: Option<String>)
    ensures
        opt_view(r) == raw_style(style_declarations(params@)),
{
    let mut decls: Vec<Vec<char>> = Vec::new();
    assert(decls@.map_values(|d: Vec<char>| d@) =~= seq![]);
    push_declaration(&mut decls, params, "style", "");
    push_declaration(&mut decls, params, "size", "font-size");
    push_declaration(&mut decls, params, "color", "color");
    push_declaration(&mut decls, params, "bgcolor", "background-color");
    push_declaration(&mut decls, params, "opacity", "opacity");
    assert(decls@.map_values(|d: Vec<char>| d@) =~= style_declarations(params@)) by {
        reveal_strlit("");
    }
    join_declarations(&decls)
}

/// The dark-mode inline style the dark parameters ask for, before
/// sanitizing.
pub fn build_dark_style_declarations(params: &Parameters) -> (r: Option<String>)
    ensures
        opt_view(r) == raw_style(dark_style_declarations(params@)),
{
    let mut decls: Vec<Vec<char>> = Vec::new();
    assert(decls@.map_values(|d: Vec<char>| d@) =~= seq![]);
    push_declaration(&mut decls, params, "dark-style", "");
    push_declaration(&mut decls, params, "dark-size", "font-size");
    push_declaration(&mut decls, params, "dark-color", "color");
    push_declaration(&mut decls, params, "dark-bgcolor", "background-color");
    push_declaration(&mut decls, params, "dark-opacity", "opacity");
    assert(decls@.map_values(|d: Vec<char>| d@) =~= dark_style_declarations(params@)) by {
        reveal_strlit("");
    }
    join_declarations(&decls)
}

/// The inline style kept after sanitizing: nothing when sanitizing removed
/// every declaration.
pub fn style_attribute(sanitized: String) -> (r: Option<String>)
    ensures
        opt_view(r) == if sanitized@.len() == 0 {
            None
        } else {
            Some(sanitized@)
        },
{
    if sanitized.as_str().is_empty() {
        None
    } else {
        Some(sanitized)
    }
}

} // verus!
