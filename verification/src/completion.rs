//! Context-aware completion for SevenMark documents.

pub mod context;
pub mod items;
pub mod labels;
pub mod model;
pub mod params;

use ls_types::Position;
use vstd::prelude::*;

use crate::ast::Element;
use crate::document::{define_keys, define_keys_of};
use vstd::utf8::{decode_utf8, encode_utf8, is_char_boundary};

use crate::text::{
    ends_with, ends_with_exec, lemma_lex_total, lemma_lex_transitive, lex_less, lex_lt, str_eq,
    to_chars,
};

use context::{brace_hash, bracket_open, context_and_bracket_depth, context_of, context_view};
use items::{
    brace_hash_completions, brace_hash_items, bracket_completions_ctx, bracket_hash_completions_ctx,
    bracket_hash_items, bracket_items, macro_completions, macro_table,
};
use model::{items_view, rows_items, CompletionItem, CompletionItemKind, ItemSpec};
use params::{parameter_completions, parameter_items};

verus! {

/// The state kept for an open document: its text and its elements, as the
/// SevenMark parser reports them.
pub struct DocumentState {
    pub text: String,
    pub elements: Vec<Element>,
}

impl DocumentState {
    /// A document with the given text and no elements recorded.
    pub fn new(text: String) -> (r: Self)
        ensures
            r.text@ == text@,
            r.elements@.len() == 0,
    {
        DocumentState { text, elements: Vec::new() }
    }

    /// The same document with the elements the parser read of it.
    pub fn with_elements(self, elements: Vec<Element>) -> (r: Self)
        ensures
            r.text@ == self.text@,
            r.elements == elements,
    {
        DocumentState { text: self.text, elements }
    }
}

/// The names of a list of strings.
pub open spec fn names_view(names: Seq<String>) -> Seq<Seq<char>> {
    names.map_values(|n: String| n@)
}

/// The item offered for a defined variable.
pub open spec fn variable_item(name: Seq<char>) -> ItemSpec {
    ItemSpec {
        label: name,
        kind: Some(CompletionItemKind::Variable),
        detail: None,
        insert_text_format: None,
        insert_text: None,
    }
}

/// `s` is strictly increasing in the order of `lex_lt`.
pub open spec fn strictly_sorted(s: Seq<Seq<char>>) -> bool {
    forall|i: int, j: int| 0 <= i < j < s.len() ==> lex_lt(#[trigger] s[i], #[trigger] s[j])
}

/// The variable items offered after `[var(`: one per distinct defined name,
/// in increasing order.
pub open spec fn is_variable_items(items: Seq<ItemSpec>, names: Seq<Seq<char>>) -> bool {
    let labels = items.map_values(|i: ItemSpec| i.label);
    &&& items == labels.map_values(|l: Seq<char>| variable_item(l))
    &&& strictly_sorted(labels)
    &&& forall|n: Seq<char>| names.contains(n) <==> labels.contains(n)
}

/// Every variable name the document's definitions define, once each, in
/// increasing order.
pub fn variable_completions(state: &DocumentState) -> (r: Vec<CompletionItem>)
    ensures
        is_variable_items(items_view(r@), define_keys(state.elements@)),
{
    let keys = define_keys_of(&state.elements);
    assert(names_view(keys@) =~= define_keys(state.elements@));
    let names = &keys;
    let mut sorted: Vec<String> = Vec::new();
    let mut k: usize = 0;
    while k < names.len()
        invariant
            k <= names.len(),
            strictly_sorted(names_view(sorted@)),
            forall|n: Seq<char>|
                names_view(names@).take(k as int).contains(n) <==> names_view(sorted@).contains(n),
        decreases names.len() - k,
    {
        let name = &names[k];
        let ghost before = names_view(sorted@);
        let mut p: usize = 0;
        while p < sorted.len() && lex_less(sorted[p].as_str(), name.as_str())
            invariant
                p <= sorted.len(),
                forall|i: int| 0 <= i < p ==> lex_lt(#[trigger] names_view(sorted@)[i], name@),
            decreases sorted.len() - p,
        {
            p = p + 1;
        }
        proof {
            let prev = names_view(names@).take(k as int);
            let next = names_view(names@).take(k + 1);
            assert(next =~= prev.push(name@));
            assert forall|n: Seq<char>| next.contains(n) <==> (prev.contains(n) || n == name@) by {
                if next.contains(n) {
                    let i = choose|i: int| 0 <= i < next.len() && next[i] == n;
                    if i < prev.len() {
                        assert(prev[i] == n);
                    }
                }
                if n == name@ {
                    assert(next[prev.len() as int] == n);
                }
                if prev.contains(n) {
                    let i = choose|i: int| 0 <= i < prev.len() && prev[i] == n;
                    assert(next[i] == n);
                }
            }
        }
        if p < sorted.len() && str_eq(sorted[p].as_str(), name.as_str()) {
            assert(before[p as int] == name@);
        } else {
            proof {
                if p < sorted.len() {
                    assert(!lex_lt(before[p as int], name@));
                    lemma_lex_total(before[p as int], name@);
                    assert forall|j: int| p <= j < before.len() implies lex_lt(name@, before[j]) by {
                        if j > p {
                            lemma_lex_transitive(name@, before[p as int], before[j]);
                        }
                    }
                }
            }
            sorted.insert(p, name.clone());
            proof {
                let after = names_view(sorted@);
                assert(after =~= before.take(p as int).push(name@) + before.skip(p as int));
                assert forall|i: int, j: int| 0 <= i < j < after.len() implies lex_lt(
                    #[trigger] after[i],
                    #[trigger] after[j],
                ) by {
                    if j < p {
                    } else if j == p {
                    } else if i < p {
                        assert(after[j] == before[j - 1]);
                        if j - 1 > p {
                            lemma_lex_transitive(after[i], name@, before[j - 1]);
                        } else {
                            lemma_lex_transitive(after[i], name@, before[j - 1]);
                        }
                    } else if i == p {
                    } else {
                        assert(after[i] == before[i - 1]);
                        assert(after[j] == before[j - 1]);
                    }
                }
                assert forall|n: Seq<char>| before.contains(n) || n == name@ implies after.contains(
                    n,
                ) by {
                    if n == name@ {
                        assert(after[p as int] == n);
                    } else {
                        let i = choose|i: int| 0 <= i < before.len() && before[i] == n;
                        if i < p {
                            assert(after[i] == n);
                        } else {
                            assert(after[i + 1] == n);
                        }
                    }
                }
                assert forall|n: Seq<char>| after.contains(n) implies before.contains(n) || n
                    == name@ by {
                    let i = choose|i: int| 0 <= i < after.len() && after[i] == n;
                    if i < p {
                        assert(before[i] == n);
                    } else if i > p {
                        assert(before[i - 1] == n);
                    }
                }
            }
        }
        k = k + 1;
    }
    assert(names_view(names@).take(k as int) =~= names_view(names@));
    let mut items: Vec<CompletionItem> = Vec::new();
    let mut i: usize = 0;
    while i < sorted.len()
        invariant
            i <= sorted.len(),
            items_view(items@) == names_view(sorted@).take(i as int).map_values(
                |l: Seq<char>| variable_item(l),
            ),
        decreases sorted.len() - i,
    {
        let item = CompletionItem {
            label: sorted[i].clone(),
            kind: Some(CompletionItemKind::Variable),
            detail: None,
            insert_text_format: None,
            insert_text: None,
        };
        proof {
            assert(items_view(items@.push(item)) =~= items_view(items@).push(item@));
            assert(names_view(sorted@).take(i + 1).map_values(|l: Seq<char>| variable_item(l))
                =~= names_view(sorted@).take(i as int).map_values(
                |l: Seq<char>| variable_item(l),
            ).push(variable_item(names_view(sorted@)[i as int])));
        }
        items.push(item);
        i = i + 1;
    }
    proof {
        let labels = items_view(items@).map_values(|it: ItemSpec| it.label);
        assert(names_view(sorted@).take(i as int) =~= names_view(sorted@));
        assert(labels =~= names_view(sorted@));
    }
    items
}

/// The characters of `text` before the UTF-8 byte offset `byte_offset`.
pub open spec fn text_prefix(text: Seq<char>, byte_offset: int) -> Seq<char> {
    decode_utf8(encode_utf8(text).subrange(0, byte_offset))
}

/// `[var(`
pub open spec fn var_open() -> Seq<char> {
    seq!['[', 'v', 'a', 'r', '(']
}

/// `[[#`
pub open spec fn bracket_hash() -> Seq<char> {
    seq!['[', '[', '#']
}

/// What is offered after `prefix`, unless it ends with `[var(`.
pub open spec fn completion_items(prefix: Seq<char>) -> Seq<ItemSpec> {
    let ctx = context_of(prefix);
    if ends_with(prefix, brace_hash()) {
        brace_hash_items(ctx)
    } else if ends_with(prefix, bracket_hash()) {
        bracket_hash_items(ctx)
    } else if ends_with(prefix, bracket_open()) {
        bracket_items(ctx)
    } else if ends_with(prefix, seq!['#']) && parameter_items(prefix, ctx) is Some {
        parameter_items(prefix, ctx).unwrap()
    } else if ends_with(prefix, seq!['[']) {
        rows_items(macro_table(), CompletionItemKind::Function)
    } else {
        seq![]
    }
}

/// Returns the completion items for the cursor at UTF-8 byte offset
/// `byte_offset` of the document.
pub fn get_completions(state: &DocumentState, position: Position, byte_offset: usize) -> (r: Vec<
    CompletionItem,
>)
    requires
        is_char_boundary(encode_utf8(state.text@), byte_offset as int),
    ensures
        ({
            let prefix = text_prefix(state.text@, byte_offset as int);
            if ends_with(prefix, var_open()) {
                is_variable_items(items_view(r@), define_keys(state.elements@))
            } else {
                items_view(r@) == completion_items(prefix)
            }
        }),
{
    let (prefix, _) = state.text.as_str().split_at(byte_offset);
    proof {
        vstd::utf8::encode_utf8_decode_utf8(prefix@);
    }
    assert(prefix@ == text_prefix(state.text@, byte_offset as int));
    let chars = to_chars(prefix);
    let var_pat = ['[', 'v', 'a', 'r', '('];
    let brace_hash_pat = ['{', '{', '{', '#'];
    let bracket_hash_pat = ['[', '[', '#'];
    let bracket_pat = ['[', '['];
    let hash_pat = ['#'];
    let open_pat = ['['];
    assert(var_pat@ == var_open());
    assert(brace_hash_pat@ == brace_hash());
    assert(bracket_hash_pat@ == bracket_hash());
    assert(bracket_pat@ == bracket_open());
    assert(hash_pat@ == seq!['#']);
    assert(open_pat@ == seq!['[']);

    if ends_with_exec(chars.as_slice(), var_pat.as_slice()) {
        return variable_completions(state);
    }
    let ctx = context_and_bracket_depth(prefix);
    if ends_with_exec(chars.as_slice(), brace_hash_pat.as_slice()) {
        return brace_hash_completions(ctx);
    }
    if ends_with_exec(chars.as_slice(), bracket_hash_pat.as_slice()) {
        return bracket_hash_completions_ctx(ctx, position);
    }
    if ends_with_exec(chars.as_slice(), bracket_pat.as_slice()) {
        return bracket_completions_ctx(ctx, position);
    }
    if ends_with_exec(chars.as_slice(), hash_pat.as_slice()) {
        if let Some(items) = parameter_completions(prefix, ctx) {
            return items;
        }
    }
    if ends_with_exec(chars.as_slice(), open_pat.as_slice()) {
        return macro_completions(position);
    }
    let r = Vec::new();
    assert(items_view(r@) =~= seq![]);
    r
}

} // verus!
