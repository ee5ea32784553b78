//! The SevenMark CSS policy: which rules, selectors and declarations survive.
//!
//! The policy is fail-closed: only whitelisted properties, selectors built on
//! classes, and the `@media`/`@supports` at-rules pass. Everything else is
//! dropped.

use vstd::prelude::*;

use crate::text::{ascii_lower, str_eq, to_chars};

verus! {

/// The properties a declaration may set.
pub open spec fn allowed_properties() -> Seq<Seq<char>> {
    seq![
        "color"@,
        "opacity"@,
        "visibility"@,
        "background"@,
        "background-color"@,
        "background-size"@,
        "background-position"@,
        "background-repeat"@,
        "background-clip"@,
        "background-origin"@,
        "background-attachment"@,
        "font"@,
        "font-size"@,
        "font-weight"@,
        "font-style"@,
        "font-family"@,
        "font-variant"@,
        "font-stretch"@,
        "line-height"@,
        "letter-spacing"@,
        "word-spacing"@,
        "word-break"@,
        "word-wrap"@,
        "overflow-wrap"@,
        "text-align"@,
        "text-decoration"@,
        "text-decoration-color"@,
        "text-decoration-line"@,
        "text-decoration-style"@,
        "text-decoration-thickness"@,
        "text-indent"@,
        "text-transform"@,
        "text-shadow"@,
        "text-overflow"@,
        "text-underline-offset"@,
        "white-space"@,
        "vertical-align"@,
        "writing-mode"@,
        "tab-size"@,
        "margin"@,
        "margin-top"@,
        "margin-right"@,
        "margin-bottom"@,
        "margin-left"@,
        "margin-block"@,
        "margin-block-start"@,
        "margin-block-end"@,
        "margin-inline"@,
        "margin-inline-start"@,
        "margin-inline-end"@,
        "padding"@,
        "padding-top"@,
        "padding-right"@,
        "padding-bottom"@,
        "padding-left"@,
        "padding-block"@,
        "padding-block-start"@,
        "padding-block-end"@,
        "padding-inline"@,
        "padding-inline-start"@,
        "padding-inline-end"@,
        "width"@,
        "height"@,
        "min-width"@,
        "min-height"@,
        "max-width"@,
        "max-height"@,
        "inline-size"@,
        "block-size"@,
        "min-inline-size"@,
        "max-inline-size"@,
        "min-block-size"@,
        "max-block-size"@,
        "border"@,
        "border-top"@,
        "border-right"@,
        "border-bottom"@,
        "border-left"@,
        "border-color"@,
        "border-top-color"@,
        "border-right-color"@,
        "border-bottom-color"@,
        "border-left-color"@,
        "border-width"@,
        "border-top-width"@,
        "border-right-width"@,
        "border-bottom-width"@,
        "border-left-width"@,
        "border-style"@,
        "border-top-style"@,
        "border-right-style"@,
        "border-bottom-style"@,
        "border-left-style"@,
        "border-radius"@,
        "border-top-left-radius"@,
        "border-top-right-radius"@,
        "border-bottom-left-radius"@,
        "border-bottom-right-radius"@,
        "border-inline"@,
        "border-block"@,
        "border-inline-start"@,
        "border-inline-end"@,
        "border-block-start"@,
        "border-block-end"@,
        "border-inline-start-color"@,
        "border-inline-end-color"@,
        "border-block-start-color"@,
        "border-block-end-color"@,
        "border-inline-start-width"@,
        "border-inline-end-width"@,
        "border-block-start-width"@,
        "border-block-end-width"@,
        "border-inline-start-style"@,
        "border-inline-end-style"@,
        "border-block-start-style"@,
        "border-block-end-style"@,
        "border-inline-color"@,
        "border-block-color"@,
        "border-inline-width"@,
        "border-block-width"@,
        "border-inline-style"@,
        "border-block-style"@,
        "border-collapse"@,
        "border-spacing"@,
        "outline"@,
        "outline-color"@,
        "outline-style"@,
        "outline-width"@,
        "outline-offset"@,
        "box-shadow"@,
        "box-sizing"@,
        "list-style"@,
        "list-style-type"@,
        "list-style-position"@,
        "table-layout"@,
        "caption-side"@,
        "empty-cells"@,
        "cursor"@,
        "columns"@,
        "column-count"@,
        "column-width"@,
        "column-rule"@,
        "column-rule-color"@,
        "column-rule-style"@,
        "column-rule-width"@,
        "aspect-ratio"@,
        "object-fit"@,
        "object-position"@,
        "gap"@,
        "row-gap"@,
        "column-gap"@,
    ]
}

fn allowed_property_names() -> (r: Vec<&'static str>)
    ensures
        r@.map_values(|n: &str| n@) == allowed_properties(),
{
    let r = vec![
        "color",
        "opacity",
        "visibility",
        "background",
        "background-color",
        "background-size",
        "background-position",
        "background-repeat",
        "background-clip",
        "background-origin",
        "background-attachment",
        "font",
        "font-size",
        "font-weight",
        "font-style",
        "font-family",
        "font-variant",
        "font-stretch",
        "line-height",
        "letter-spacing",
        "word-spacing",
        "word-break",
        "word-wrap",
        "overflow-wrap",
        "text-align",
        "text-decoration",
        "text-decoration-color",
        "text-decoration-line",
        "text-decoration-style",
        "text-decoration-thickness",
        "text-indent",
        "text-transform",
        "text-shadow",
        "text-overflow",
        "text-underline-offset",
        "white-space",
        "vertical-align",
        "writing-mode",
        "tab-size",
        "margin",
        "margin-top",
        "margin-right",
        "margin-bottom",
        "margin-left",
        "margin-block",
        "margin-block-start",
        "margin-block-end",
        "margin-inline",
        "margin-inline-start",
        "margin-inline-end",
        "padding",
        "padding-top",
        "padding-right",
        "padding-bottom",
        "padding-left",
        "padding-block",
        "padding-block-start",
        "padding-block-end",
        "padding-inline",
        "padding-inline-start",
        "padding-inline-end",
        "width",
        "height",
        "min-width",
        "min-height",
        "max-width",
        "max-height",
        "inline-size",
        "block-size",
        "min-inline-size",
        "max-inline-size",
        "min-block-size",
        "max-block-size",
        "border",
        "border-top",
        "border-right",
        "border-bottom",
        "border-left",
        "border-color",
        "border-top-color",
        "border-right-color",
        "border-bottom-color",
        "border-left-color",
        "border-width",
        "border-top-width",
        "border-right-width",
        "border-bottom-width",
        "border-left-width",
        "border-style",
        "border-top-style",
        "border-right-style",
        "border-bottom-style",
        "border-left-style",
        "border-radius",
        "border-top-left-radius",
        "border-top-right-radius",
        "border-bottom-left-radius",
        "border-bottom-right-radius",
        "border-inline",
        "border-block",
        "border-inline-start",
        "border-inline-end",
        "border-block-start",
        "border-block-end",
        "border-inline-start-color",
        "border-inline-end-color",
        "border-block-start-color",
        "border-block-end-color",
        "border-inline-start-width",
        "border-inline-end-width",
        "border-block-start-width",
        "border-block-end-width",
        "border-inline-start-style",
        "border-inline-end-style",
        "border-block-start-style",
        "border-block-end-style",
        "border-inline-color",
        "border-block-color",
        "border-inline-width",
        "border-block-width",
        "border-inline-style",
        "border-block-style",
        "border-collapse",
        "border-spacing",
        "outline",
        "outline-color",
        "outline-style",
        "outline-width",
        "outline-offset",
        "box-shadow",
        "box-sizing",
        "list-style",
        "list-style-type",
        "list-style-position",
        "table-layout",
        "caption-side",
        "empty-cells",
        "cursor",
        "columns",
        "column-count",
        "column-width",
        "column-rule",
        "column-rule-color",
        "column-rule-style",
        "column-rule-width",
        "aspect-ratio",
        "object-fit",
        "object-position",
        "gap",
        "row-gap",
        "column-gap",
    ];
    assert(r@.map_values(|n: &str| n@) =~= allowed_properties());
    r
}

/// Is `name` one of the whitelisted properties?
pub fn is_allowed_property(name: &str) -> (r: bool)
    ensures
        r == allowed_properties().contains(name@),
{
    let names = allowed_property_names();
    let mut i: usize = 0;
    while i < names.len()
        invariant
            i <= names.len(),
            names@.map_values(|n: &str| n@) == allowed_properties(),
            forall|j: int| 0 <= j < i ==> allowed_properties()[j] != name@,
        decreases names.len() - i,
    {
        if str_eq(names[i], name) {
            assert(allowed_properties()[i as int] == name@);
            return true;
        }
        i = i + 1;
    }
    false
}

/// What a property value was found to use, scanning for functions that can
/// fetch or compute values.
#[derive(Debug, Default)]
pub struct PropertySecurityScan {
    pub has_expression: bool,
    pub has_url: bool,
    pub has_var: bool,
    pub has_env: bool,
}

/// The shape of a CSS image value, as far as the scan reads it.
pub enum ImageValue {
    Url,
    ImageSet(Vec<ImageValue>),
    Gradient,
    NoImage,
}

/// The image is a URL or an image set with a URL among its options (at any
/// depth).
pub open spec fn image_has_url(image: ImageValue) -> bool
    decreases image,
{
    match image {
        ImageValue::Url => true,
        ImageValue::ImageSet(options) => exists|i: int|
            0 <= i < options.len() && image_has_url(#[trigger] options@[i]),
        _ => false,
    }
}

/// `expression`
pub open spec fn expression_word() -> Seq<char> {
    seq!['e', 'x', 'p', 'r', 'e', 's', 's', 'i', 'o', 'n']
}

/// `s` equals the lower-case `word` when ASCII letters are compared without
/// case.
pub open spec fn eq_ignore_ascii_case(s: Seq<char>, word: Seq<char>) -> bool {
    s.len() == word.len() && forall|k: int| 0 <= k < s.len() ==> ascii_lower(#[trigger] s[k])
        == word[k]
}

impl PropertySecurityScan {
    /// A value that uses `url()`, `var()`, `env()` or `expression()` is
    /// dangerous.
    pub fn is_dangerous(&self) -> (r: bool)
        ensures
            r == (self.has_url || self.has_var || self.has_env || self.has_expression),
    {
        self.has_url || self.has_var || self.has_env || self.has_expression
    }

    /// Records a `url()` value.
    pub fn visit_url(&mut self)
        ensures
            *final(self) == (PropertySecurityScan { has_url: true, ..*old(self) }),
    {
        self.has_url = true;
    }

    /// Records a `var()` reference.
    pub fn visit_variable(&mut self)
        ensures
            *final(self) == (PropertySecurityScan { has_var: true, ..*old(self) }),
    {
        self.has_var = true;
    }

    /// Records an `env()` reference.
    pub fn visit_environment_variable(&mut self)
        ensures
            *final(self) == (PropertySecurityScan { has_env: true, ..*old(self) }),
    {
        self.has_env = true;
    }

    /// Records a function call; `expression()` (any ASCII case) is flagged.
    pub fn visit_function(&mut self, name: &str)
        ensures
            *final(self) == (PropertySecurityScan {
                has_expression: old(self).has_expression || eq_ignore_ascii_case(
                    name@,
                    expression_word(),
                ),
                ..*old(self)
            }),
    {
        let chars = to_chars(name);
        let word = ['e', 'x', 'p', 'r', 'e', 's', 's', 'i', 'o', 'n'];
        assert(word@ == expression_word());
        if chars.len() == word.len() {
            let mut k: usize = 0;
            while k < chars.len()
                invariant
                    k <= chars.len(),
                    chars@ == name@,
                    word@ == expression_word(),
                    chars.len() == word.len(),
                    forall|j: int| 0 <= j < k ==> ascii_lower(#[trigger] chars@[j]) == word@[j],
                decreases chars.len() - k,
            {
                if crate::text::ascii_lower_exec(chars[k]) != word[k] {
                    assert(ascii_lower(name@[k as int]) != expression_word()[k as int]);
                    return;
                }
                k = k + 1;
            }
            self.has_expression = true;
        }
    }

    /// Records the URLs an image value uses, looking into image sets.
    pub fn scan_image(&mut self, image: &ImageValue)
        ensures
            *final(self) == (PropertySecurityScan {
                has_url: old(self).has_url || image_has_url(*image),
                ..*old(self)
            }),
        decreases image,
    {
        match image {
            ImageValue::Url => {
                self.has_url = true;
            },
            ImageValue::ImageSet(options) => {
                let mut i: usize = 0;
                while i < options.len()
                    invariant
                        i <= options.len(),
                        *image == ImageValue::ImageSet(*options),
                        *self == (PropertySecurityScan {
                            has_url: old(self).has_url || exists|j: int|
                                0 <= j < i && image_has_url(#[trigger] options@[j]),
                            ..*old(self)
                        }),
                    decreases options.len() - i,
                {
                    proof {
                        vstd::std_specs::vec::axiom_vec_index_decreases(*options, i as int);
                        assert(decreases_to!(*image => (*image)->ImageSet_0));
                        assert(decreases_to!(*image => options@[i as int]));
                    }
                    self.scan_image(&options[i]);
                    i = i + 1;
                }
            },
            ImageValue::Gradient | ImageValue::NoImage => {},
        }
    }
}

/// What the policy does with a rule, a selector list or a declaration.
#[derive(Clone, Copy, Debug, PartialEq, Eq, Structural)]
pub enum NodeAction {
    Continue,
    Drop,
}

/// The kind of a CSS rule, as far as the policy reads it.
#[derive(Clone, Copy, Debug, PartialEq, Eq, Structural)]
pub enum RuleKind {
    Style,
    Media,
    Supports,
    Nesting,
    NestedDeclarations,
    Other,
}

/// Style rules and the nesting, `@media` and `@supports` rules are kept;
/// every other at-rule (`@import`, `@font-face`, `@keyframes`, ...) is dropped.
pub fn visit_rule(kind: RuleKind) -> (r: NodeAction)
    ensures
        r == (if kind == RuleKind::Other { NodeAction::Drop } else { NodeAction::Continue }),
{
    match kind {
        RuleKind::Style | RuleKind::Media | RuleKind::Supports | RuleKind::Nesting
        | RuleKind::NestedDeclarations => NodeAction::Continue,
        RuleKind::Other => NodeAction::Drop,
    }
}

/// One component of a compound selector, as far as the policy reads it.
#[derive(Clone, Copy, Debug, PartialEq, Eq, Structural)]
pub enum SelectorComponent {
    Class,
    Nesting,
    Id,
    LocalName,
    ExplicitUniversalType,
    Other,
}

/// A selector is safe when it names a class (or the nesting selector `&`)
/// and no id, element name or `*`.
pub open spec fn selector_is_safe(selector: Seq<SelectorComponent>) -> bool {
    &&& exists|i: int|
        0 <= i < selector.len() && (#[trigger] selector[i] == SelectorComponent::Class
            || selector[i] == SelectorComponent::Nesting)
    &&& forall|i: int|
        0 <= i < selector.len() ==> #[trigger] selector[i] != SelectorComponent::Id
            && selector[i] != SelectorComponent::LocalName && selector[i]
            != SelectorComponent::ExplicitUniversalType
}

fn selector_safe(selector: &Vec<SelectorComponent>) -> (r: bool)
    ensures
        r == selector_is_safe(selector@),
{
    let mut has_class = false;
    let mut has_forbidden = false;
    let mut i: usize = 0;
    while i < selector.len()
        invariant
            i <= selector.len(),
            has_class == exists|j: int|
                0 <= j < i && (#[trigger] selector@[j] == SelectorComponent::Class
                    || selector@[j] == SelectorComponent::Nesting),
            has_forbidden == exists|j: int|
                0 <= j < i && (#[trigger] selector@[j] == SelectorComponent::Id
                    || selector@[j] == SelectorComponent::LocalName || selector@[j]
                    == SelectorComponent::ExplicitUniversalType),
        decreases selector.len() - i,
    {
        match selector[i] {
            SelectorComponent::Class | SelectorComponent::Nesting => {
                has_class = true;
            },
            SelectorComponent::Id | SelectorComponent::LocalName
            | SelectorComponent::ExplicitUniversalType => {
                has_forbidden = true;
            },
            SelectorComponent::Other => {},
        }
        i = i + 1;
    }
    has_class && !has_forbidden
}

/// A rule is kept only when every selector of its list is safe: one global
/// selector in the list drops the whole rule.
pub fn visit_selector_list(selectors: &Vec<Vec<SelectorComponent>>) -> (r: NodeAction)
    ensures
        r == (if forall|i: int|
            0 <= i < selectors.len() ==> selector_is_safe(#[trigger] selectors@[i]@) {
            NodeAction::Continue
        } else {
            NodeAction::Drop
        }),
{
    let mut i: usize = 0;
    while i < selectors.len()
        invariant
            i <= selectors.len(),
            forall|j: int| 0 <= j < i ==> selector_is_safe(#[trigger] selectors@[j]@),
        decreases selectors.len() - i,
    {
        if !selector_safe(&selectors[i]) {
            return NodeAction::Drop;
        }
        i = i + 1;
    }
    NodeAction::Continue
}

/// A declaration is kept when it is not `!important`, sets a whitelisted
/// property and its value uses none of `url()`, `var()`, `env()`,
/// `expression()`.
pub open spec fn keeps_property(important: bool, name: Seq<char>, scan: PropertySecurityScan) -> bool {
    !important && allowed_properties().contains(name) && !(scan.has_url || scan.has_var
        || scan.has_env || scan.has_expression)
}

/// The policy's decision on one declaration, given what the value scan found.
pub fn visit_property(important: bool, name: &str, scan: &PropertySecurityScan) -> (r: NodeAction)
    ensures
        r == (if keeps_property(important, name@, *scan) {
            NodeAction::Continue
        } else {
            NodeAction::Drop
        }),
{
    if important {
        return NodeAction::Drop;
    }
    if !is_allowed_property(name) {
        return NodeAction::Drop;
    }
    if scan.is_dangerous() {
        return NodeAction::Drop;
    }
    NodeAction::Continue
}

} // verus!
