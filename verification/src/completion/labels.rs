//! Every completion list offers each label once.

use vstd::prelude::*;

use crate::text::{ends_with, lemma_lex_irreflexive, lex_lt};

use super::context::{brace_element_of, bracket_element_of, context_of};
use super::items::{
    brace_conditional_table, brace_hash_items, brace_keyword_table, bracket_hash_items,
    bracket_items, fold_section_table, generic_bracket_hash_table, list_item_table, macro_table,
    table_cell_table, table_row_table,
};
use super::model::{rows_items, CompletionItemKind, ItemSpec};
use super::params::{
    brace_param_items, bracket_param_items, class_params, code_params, dedup_defs, def_names,
    discord_params, footnote_params, list_kind_params, media_extra_params, media_target_params,
    namespace_params, nicovideo_params, param_item, param_items, parameter_items, ruby_params,
    spotify_params, style_params, styled_brace_hash_items, styled_hash_item, styled_param_items,
    table_cell_params, table_params, table_row_params, tex_params, vimeo_params, youtube_params,
    DefSpec,
};
use super::{completion_items, is_variable_items, text_prefix, var_open};

verus! {

/// No two items of `items` share a label.
pub open spec fn labels_distinct(items: Seq<ItemSpec>) -> bool {
    forall|i: int, j: int|
        0 <= i < j < items.len() ==> #[trigger] items[i].label != #[trigger] items[j].label
}

/// A number that tells apart the short words of the completion tables: their
/// length, first and last character.
spec fn word_key(s: Seq<char>) -> int {
    (s.len() * 0x110000 + s[0] as int) * 0x110000 + s.last() as int
}

/// No element of `s` has the key of `x`.
spec fn key_absent(x: Seq<char>, s: Seq<Seq<char>>) -> bool
    decreases s.len(),
{
    if s.len() == 0 {
        true
    } else {
        word_key(s.last()) != word_key(x) && key_absent(x, s.drop_last())
    }
}

/// No two elements of `s` have the same key.
spec fn keys_distinct(s: Seq<Seq<char>>) -> bool
    decreases s.len(),
{
    if s.len() == 0 {
        true
    } else {
        key_absent(s.last(), s.drop_last()) && keys_distinct(s.drop_last())
    }
}

/// A word whose key no element of `s` has is no element of `s`.
proof fn lemma_key_absent(x: Seq<char>, s: Seq<Seq<char>>)
    requires
        key_absent(x, s),
    ensures
        forall|i: int| 0 <= i < s.len() ==> #[trigger] s[i] != x,
    decreases s.len(),
{
    if s.len() > 0 {
        lemma_key_absent(x, s.drop_last());
        assert forall|i: int| 0 <= i < s.len() implies #[trigger] s[i] != x by {
            if i < s.len() - 1 {
                assert(s.drop_last()[i] == s[i]);
            }
        }
    }
}

/// Distinct keys make distinct words.
proof fn lemma_keys_distinct(s: Seq<Seq<char>>)
    requires
        keys_distinct(s),
    ensures
        forall|i: int, j: int| 0 <= i < j < s.len() ==> #[trigger] s[i] != #[trigger] s[j],
    decreases s.len(),
{
    if s.len() > 0 {
        lemma_keys_distinct(s.drop_last());
        lemma_key_absent(s.last(), s.drop_last());
        assert forall|i: int, j: int| 0 <= i < j < s.len() implies #[trigger] s[i]
            != #[trigger] s[j] by {
            assert(s.drop_last()[i] == s[i]);
            if j < s.len() - 1 {
                assert(s.drop_last()[j] == s[j]);
            }
        }
    }
}

/// The labels of a table of snippet rows.
spec fn row_labels(rows: Seq<(Seq<char>, Seq<char>, Seq<char>)>) -> Seq<Seq<char>> {
    rows.map_values(|r: (Seq<char>, Seq<char>, Seq<char>)| r.0)
}

/// The macro names have distinct keys.
proof fn lemma_macro_keys()
    ensures
        keys_distinct(row_labels(macro_table())),
{
    reveal_strlit("var");
    reveal_strlit("br");
    reveal_strlit("clear");
    reveal_strlit("null");
    reveal_strlit("fn");
    reveal_strlit("now");
    reveal_strlit("age");
    reveal_strlit("anchor");
    reveal_strlit("date");
    reveal_strlit("datetime");
    reveal_strlit("dday");
    reveal_strlit("pagecount");
    reveal_strlit("toc");
    reveal_with_fuel(keys_distinct, 14);
    reveal_with_fuel(key_absent, 14);
    assert(row_labels(macro_table()) =~= seq![
        "var"@, "br"@, "clear"@, "null"@, "fn"@, "now"@, "age"@, "anchor"@, "date"@,
        "datetime"@, "dday"@, "pagecount"@, "toc"@,
    ]);
}

/// The media targets have distinct keys.
proof fn lemma_media_target_keys()
    ensures
        keys_distinct(row_labels(generic_bracket_hash_table())),
{
    reveal_strlit("file");
    reveal_strlit("document");
    reveal_strlit("category");
    reveal_strlit("user");
    reveal_strlit("url");
    reveal_strlit("youtube");
    reveal_strlit("vimeo");
    reveal_strlit("nicovideo");
    reveal_strlit("spotify");
    reveal_strlit("discord");
    reveal_with_fuel(keys_distinct, 11);
    reveal_with_fuel(key_absent, 11);
    assert(row_labels(generic_bracket_hash_table()) =~= seq![
        "file"@, "document"@, "category"@, "user"@, "url"@, "youtube"@, "vimeo"@,
        "nicovideo"@, "spotify"@, "discord"@,
    ]);
}

/// The two cell templates have distinct keys.
proof fn lemma_table_cell_keys()
    ensures
        keys_distinct(row_labels(table_cell_table())),
{
    reveal_strlit("cell");
    reveal_strlit("cell (x,y)");
    reveal_with_fuel(keys_distinct, 3);
    reveal_with_fuel(key_absent, 3);
    assert(row_labels(table_cell_table()) =~= seq!["cell"@, "cell (x,y)"@]);
}

/// The block keywords and the style and class parameter names offered
/// together after `{{{#`.
spec fn brace_hash_words() -> Seq<Seq<char>> {
    row_labels(brace_keyword_table()) + def_names(style_params() + class_params())
}

/// The block keywords and the style and class names have distinct keys.
#[verifier::spinoff_prover]
#[verifier::rlimit(80)]
proof fn lemma_brace_hash_keys()
    ensures
        keys_distinct(brace_hash_words()),
{
    reveal_strlit("code");
    reveal_strlit("tex");
    reveal_strlit("css");
    reveal_strlit("table");
    reveal_strlit("list");
    reveal_strlit("fold");
    reveal_strlit("quote");
    reveal_strlit("define");
    reveal_strlit("if");
    reveal_strlit("include");
    reveal_strlit("category");
    reveal_strlit("redirect");
    reveal_strlit("ruby");
    reveal_strlit("fn");
    reveal_strlit("style");
    reveal_strlit("color");
    reveal_strlit("bgcolor");
    reveal_strlit("size");
    reveal_strlit("opacity");
    reveal_strlit("width");
    reveal_strlit("height");
    reveal_strlit("dark-style");
    reveal_strlit("dark-color");
    reveal_strlit("dark-bgcolor");
    reveal_strlit("dark-size");
    reveal_strlit("dark-opacity");
    reveal_strlit("dark-width");
    reveal_strlit("dark-height");
    reveal_strlit("class");
    reveal_with_fuel(keys_distinct, 30);
    reveal_with_fuel(key_absent, 30);
    assert(brace_hash_words() =~= seq![
        "code"@, "tex"@, "css"@, "table"@, "list"@, "fold"@, "quote"@, "define"@, "if"@,
        "include"@, "category"@, "redirect"@, "ruby"@, "fn"@, "style"@, "color"@, "bgcolor"@,
        "size"@, "opacity"@, "width"@, "height"@, "dark-style"@, "dark-color"@,
        "dark-bgcolor"@, "dark-size"@, "dark-opacity"@, "dark-width"@, "dark-height"@,
        "class"@,
    ]);
}

/// Distinct keys make distinct rows.
proof fn lemma_rows_distinct(
    rows: Seq<(Seq<char>, Seq<char>, Seq<char>)>,
    kind: CompletionItemKind,
)
    requires
        keys_distinct(row_labels(rows)),
    ensures
        labels_distinct(rows_items(rows, kind)),
{
    lemma_keys_distinct(row_labels(rows));
    let items = rows_items(rows, kind);
    assert forall|i: int, j: int| 0 <= i < j < items.len() implies #[trigger] items[i].label
        != #[trigger] items[j].label by {
        assert(items[i].label == row_labels(rows)[i]);
        assert(items[j].label == row_labels(rows)[j]);
    }
}

/// A table of one row offers one label.
proof fn lemma_single_row(
    rows: Seq<(Seq<char>, Seq<char>, Seq<char>)>,
    kind: CompletionItemKind,
)
    requires
        rows.len() <= 1,
    ensures
        labels_distinct(rows_items(rows, kind)),
{
}

/// The definitions kept by `dedup_defs` have distinct names, each a name of
/// `defs`.
proof fn lemma_dedup_defs(defs: Seq<DefSpec>)
    ensures
        forall|i: int, j: int|
            0 <= i < j < dedup_defs(defs).len() ==> #[trigger] dedup_defs(defs)[i].0
                != #[trigger] dedup_defs(defs)[j].0,
        forall|i: int|
            0 <= i < dedup_defs(defs).len() ==> def_names(defs).contains(
                #[trigger] dedup_defs(defs)[i].0,
            ),
    decreases defs.len(),
{
    if defs.len() > 0 {
        let front = defs.drop_last();
        lemma_dedup_defs(front);
        let kept = dedup_defs(front);
        assert forall|i: int| 0 <= i < kept.len() implies def_names(defs).contains(
            #[trigger] kept[i].0,
        ) by {
            let k = choose|k: int| 0 <= k < def_names(front).len() && def_names(front)[k]
                == kept[i].0;
            assert(def_names(defs)[k] == kept[i].0);
        }
        if !def_names(kept).contains(defs.last().0) {
            let out = kept.push(defs.last());
            assert(def_names(defs)[defs.len() - 1] == defs.last().0);
            assert forall|i: int, j: int| 0 <= i < j < out.len() implies #[trigger] out[i].0
                != #[trigger] out[j].0 by {
                if j == out.len() - 1 {
                    assert(def_names(kept)[i] == kept[i].0);
                }
            }
        }
    }
}

/// The parameter items of any definitions offer each name once.
proof fn lemma_param_items(defs: Seq<DefSpec>)
    ensures
        labels_distinct(param_items(defs)),
{
    lemma_dedup_defs(defs);
    let items = param_items(defs);
    let kept = dedup_defs(defs);
    assert forall|i: int, j: int| 0 <= i < j < items.len() implies #[trigger] items[i].label
        != #[trigger] items[j].label by {
        assert(items[i] == param_item(kept[i]));
        assert(items[j] == param_item(kept[j]));
    }
}

/// `{{{#` offers each label once: no block keyword is a style or class name.
proof fn lemma_brace_hash_items(ctx: Option<(Seq<char>, nat)>)
    ensures
        labels_distinct(brace_hash_items(ctx)),
{
    lemma_single_row(brace_conditional_table(), CompletionItemKind::Keyword);
    lemma_brace_hash_keys();
    lemma_keys_distinct(brace_hash_words());
    let sc = style_params() + class_params();
    lemma_dedup_defs(sc);
    let a = rows_items(brace_keyword_table(), CompletionItemKind::Keyword);
    let b = styled_brace_hash_items();
    let kept = dedup_defs(sc);
    let words = brace_hash_words();
    let n = a.len();
    assert(n == row_labels(brace_keyword_table()).len());
    assert forall|i: int| 0 <= i < b.len() implies #[trigger] b[i].label == kept[i].0 by {
        assert(styled_param_items()[i] == param_item(kept[i]));
        assert(b[i] == styled_hash_item(styled_param_items()[i]));
    }
    assert forall|i: int| 0 <= i < n implies #[trigger] a[i].label == words[i] by {
        assert(a[i].label == row_labels(brace_keyword_table())[i]);
    }
    let all = a + b;
    assert forall|i: int, j: int| 0 <= i < j < all.len() implies #[trigger] all[i].label
        != #[trigger] all[j].label by {
        if j < n {
            assert(all[i] == a[i]);
            assert(all[j] == a[j]);
        } else if i >= n {
            assert(all[i] == b[i - n]);
            assert(all[j] == b[j - n]);
        } else {
            assert(all[i] == a[i]);
            assert(all[j] == b[j - n]);
            let m = choose|m: int| 0 <= m < def_names(sc).len() && def_names(sc)[m]
                == kept[j - n].0;
            assert(words[n + m] == def_names(sc)[m]);
        }
    }
}

/// `[[` offers each label once.
proof fn lemma_bracket_items(ctx: Option<(Seq<char>, nat)>)
    ensures
        labels_distinct(bracket_items(ctx)),
{
    lemma_single_row(table_row_table(), CompletionItemKind::Snippet);
    lemma_table_cell_keys();
    lemma_rows_distinct(table_cell_table(), CompletionItemKind::Snippet);
    lemma_single_row(list_item_table(), CompletionItemKind::Snippet);
    lemma_single_row(fold_section_table(), CompletionItemKind::Snippet);
}

/// `[[#` offers each label once.
proof fn lemma_bracket_hash_items(ctx: Option<(Seq<char>, nat)>)
    ensures
        labels_distinct(bracket_hash_items(ctx)),
{
    lemma_param_items(table_row_params() + style_params() + class_params());
    lemma_param_items(table_cell_params() + style_params() + class_params());
    lemma_param_items(style_params() + class_params());
    lemma_media_target_keys();
    lemma_rows_distinct(generic_bracket_hash_table(), CompletionItemKind::Reference);
}

/// The parameters of every bracket element are offered once each.
proof fn lemma_bracket_param_items(element: Seq<char>)
    ensures
        labels_distinct(bracket_param_items(element)),
{
    lemma_param_items(youtube_params() + style_params());
    lemma_param_items(vimeo_params() + style_params());
    lemma_param_items(nicovideo_params() + style_params());
    lemma_param_items(spotify_params() + style_params());
    lemma_param_items(discord_params() + style_params());
    lemma_param_items(
        media_target_params() + media_extra_params() + style_params() + class_params(),
    );
}

/// The parameters of every brace element are offered once each.
proof fn lemma_brace_param_items(element: Seq<char>)
    ensures
        labels_distinct(brace_param_items(element)),
{
    lemma_param_items(code_params() + style_params() + class_params());
    lemma_param_items(tex_params());
    lemma_param_items(table_params() + style_params() + class_params());
    lemma_param_items(list_kind_params() + style_params() + class_params());
    lemma_param_items(style_params() + class_params());
    lemma_param_items(ruby_params() + style_params() + class_params());
    lemma_param_items(footnote_params() + style_params() + class_params());
    lemma_param_items(namespace_params());
}

/// `#` offers each parameter once.
proof fn lemma_parameter_items(prefix: Seq<char>, ctx: Option<(Seq<char>, nat)>)
    requires
        parameter_items(prefix, ctx) is Some,
    ensures
        labels_distinct(parameter_items(prefix, ctx).unwrap()),
{
    lemma_param_items(table_row_params() + style_params() + class_params());
    lemma_param_items(table_cell_params() + style_params() + class_params());
    lemma_param_items(style_params() + class_params());
    lemma_param_items(
        media_target_params() + media_extra_params() + style_params() + class_params(),
    );
    lemma_bracket_param_items(bracket_element_of(prefix).unwrap());
    lemma_brace_param_items(brace_element_of(prefix).unwrap());
}

/// Every list of completions offers each label once, wherever the cursor
/// stands: each defined variable once however often it is defined, each
/// parameter once though several parameter groups name it, and no block
/// keyword that is also a style parameter.
pub proof fn completion_labels_are_distinct(
    text: Seq<char>,
    byte_offset: int,
    names: Seq<Seq<char>>,
    items: Seq<ItemSpec>,
)
    requires
        ({
            let prefix = text_prefix(text, byte_offset);
            if ends_with(prefix, var_open()) {
                is_variable_items(items, names)
            } else {
                items == completion_items(prefix)
            }
        }),
    ensures
        labels_distinct(items),
{
    let prefix = text_prefix(text, byte_offset);
    if ends_with(prefix, var_open()) {
        let labels = items.map_values(|it: ItemSpec| it.label);
        assert forall|i: int, j: int| 0 <= i < j < items.len() implies #[trigger] items[i].label
            != #[trigger] items[j].label by {
            assert(labels[i] == items[i].label);
            assert(labels[j] == items[j].label);
            assert(lex_lt(labels[i], labels[j]));
            lemma_lex_irreflexive(labels[i]);
        }
    } else {
        let ctx = context_of(prefix);
        lemma_brace_hash_items(ctx);
        lemma_bracket_hash_items(ctx);
        lemma_bracket_items(ctx);
        if parameter_items(prefix, ctx) is Some {
            lemma_parameter_items(prefix, ctx);
        }
        lemma_macro_keys();
        lemma_rows_distinct(macro_table(), CompletionItemKind::Function);
    }
}

} // verus!
