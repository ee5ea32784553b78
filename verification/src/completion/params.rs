//! Parameter completions for `#` inside elements.

use vstd::prelude::*;

use crate::text::str_eq;

use super::context::{
    bracket_element_of, brace_element_of, context_view, detect_brace_element,
    detect_bracket_element, in_unclosed_bracket, in_unclosed_styled_brace, keyword_view,
    unclosed_bracket, unclosed_styled_brace,
};
use super::model::{items_view, CompletionItem, CompletionItemKind, InsertTextFormat, ItemSpec};

verus! {

/// `(name, description, is_flag)`: flags insert just the name, values insert
/// `name="$1"`.
pub type ParamDef = (&'static str, &'static str, bool);

/// The view of a parameter definition.
pub type DefSpec = (Seq<char>, Seq<char>, bool);

/// The views of a list of parameter definitions.
pub open spec fn defs_view(defs: Seq<ParamDef>) -> Seq<DefSpec> {
    defs.map_values(|d: ParamDef| (d.0@, d.1@, d.2))
}

/// The names of a list of parameter definitions.
pub open spec fn def_names(defs: Seq<DefSpec>) -> Seq<Seq<char>> {
    defs.map_values(|d: DefSpec| d.0)
}

/// The definitions of `defs` whose name does not occur earlier in `defs`,
/// in their order.
pub open spec fn dedup_defs(defs: Seq<DefSpec>) -> Seq<DefSpec>
    decreases defs.len(),
{
    if defs.len() == 0 {
        seq![]
    } else {
        let kept = dedup_defs(defs.drop_last());
        if def_names(kept).contains(defs.last().0) {
            kept
        } else {
            kept.push(defs.last())
        }
    }
}

/// The completion item of one parameter definition.
pub open spec fn param_item(d: DefSpec) -> ItemSpec {
    ItemSpec {
        label: d.0,
        kind: Some(CompletionItemKind::Property),
        detail: Some(d.1),
        insert_text_format: Some(InsertTextFormat::Snippet),
        insert_text: Some(if d.2 { d.0 } else { d.0 + "=\"$1\""@ }),
    }
}

/// The items offered for a list of parameter definitions: one per distinct
/// name, first definition wins.
pub open spec fn param_items(defs: Seq<DefSpec>) -> Seq<ItemSpec> {
    dedup_defs(defs).map_values(|d: DefSpec| param_item(d))
}

/// Style parameters shared by most elements.
pub open spec fn style_params() -> Seq<DefSpec> {
    seq![
        ("style"@, "Raw CSS declarations"@, false),
        ("color"@, "Text color"@, false),
        ("bgcolor"@, "Background color"@, false),
        ("size"@, "Font size"@, false),
        ("opacity"@, "Opacity"@, false),
        ("width"@, "CSS width"@, false),
        ("height"@, "CSS height"@, false),
        ("dark-style"@, "Dark-mode CSS declarations"@, false),
        ("dark-color"@, "Dark-mode text color"@, false),
        ("dark-bgcolor"@, "Dark-mode background color"@, false),
        ("dark-size"@, "Dark-mode font size"@, false),
        ("dark-opacity"@, "Dark-mode opacity"@, false),
        ("dark-width"@, "Dark-mode CSS width"@, false),
        ("dark-height"@, "Dark-mode CSS height"@, false),
    ]
}

fn style_defs() -> (r: Vec<ParamDef>)
    ensures
        defs_view(r@) == style_params(),
{
    let r = vec![
        ("style", "Raw CSS declarations", false),
        ("color", "Text color", false),
        ("bgcolor", "Background color", false),
        ("size", "Font size", false),
        ("opacity", "Opacity", false),
        ("width", "CSS width", false),
        ("height", "CSS height", false),
        ("dark-style", "Dark-mode CSS declarations", false),
        ("dark-color", "Dark-mode text color", false),
        ("dark-bgcolor", "Dark-mode background color", false),
        ("dark-size", "Dark-mode font size", false),
        ("dark-opacity", "Dark-mode opacity", false),
        ("dark-width", "Dark-mode CSS width", false),
        ("dark-height", "Dark-mode CSS height", false),
    ];
    assert(defs_view(r@) =~= style_params());
    r
}

/// The extra-class parameter.
pub open spec fn class_params() -> Seq<DefSpec> {
    seq![
        ("class"@, "Extra CSS classes"@, false),
    ]
}

fn class_defs() -> (r: Vec<ParamDef>)
    ensures
        defs_view(r@) == class_params(),
{
    let r = vec![
        ("class", "Extra CSS classes", false),
    ];
    assert(defs_view(r@) =~= class_params());
    r
}

/// Table cell span parameters.
pub open spec fn table_cell_params() -> Seq<DefSpec> {
    seq![
        ("x"@, "Column span"@, false),
        ("y"@, "Row span"@, false),
    ]
}

fn table_cell_defs() -> (r: Vec<ParamDef>)
    ensures
        defs_view(r@) == table_cell_params(),
{
    let r = vec![
        ("x", "Column span", false),
        ("y", "Row span", false),
    ];
    assert(defs_view(r@) =~= table_cell_params());
    r
}

/// Table row parameters.
pub open spec fn table_row_params() -> Seq<DefSpec> {
    seq![
        ("head"@, "Header row (renders as <thead>/<th>)"@, true),
    ]
}

fn table_row_defs() -> (r: Vec<ParamDef>)
    ensures
        defs_view(r@) == table_row_params(),
{
    let r = vec![
        ("head", "Header row (renders as <thead>/<th>)", true),
    ];
    assert(defs_view(r@) =~= table_row_params());
    r
}

/// Table block parameters.
pub open spec fn table_params() -> Seq<DefSpec> {
    seq![
        ("caption"@, "Table caption"@, false),
        ("wrapper-align"@, "Table wrapper alignment (left/center/right)"@, false),
        ("wrapper-width"@, "Table wrapper width"@, false),
        ("wrapper-style"@, "CSS style for the table wrapper"@, false),
        ("wrapper-dark-style"@, "Dark-mode CSS style for the table wrapper"@, false),
        ("sortable"@, "Enable column sorting"@, true),
    ]
}

fn table_defs() -> (r: Vec<ParamDef>)
    ensures
        defs_view(r@) == table_params(),
{
    let r = vec![
        ("caption", "Table caption", false),
        ("wrapper-align", "Table wrapper alignment (left/center/right)", false),
        ("wrapper-width", "Table wrapper width", false),
        ("wrapper-style", "CSS style for the table wrapper", false),
        ("wrapper-dark-style", "Dark-mode CSS style for the table wrapper", false),
        ("sortable", "Enable column sorting", true),
    ];
    assert(defs_view(r@) =~= table_params());
    r
}

/// List ordering flags.
pub open spec fn list_kind_params() -> Seq<DefSpec> {
    seq![
        ("1"@, "Ordered list: 1, 2, 3"@, true),
        ("a"@, "Ordered list: a, b, c"@, true),
        ("A"@, "Ordered list: A, B, C"@, true),
        ("i"@, "Ordered list: i, ii, iii"@, true),
        ("I"@, "Ordered list: I, II, III"@, true),
    ]
}

fn list_kind_defs() -> (r: Vec<ParamDef>)
    ensures
        defs_view(r@) == list_kind_params(),
{
    let r = vec![
        ("1", "Ordered list: 1, 2, 3", true),
        ("a", "Ordered list: a, b, c", true),
        ("A", "Ordered list: A, B, C", true),
        ("i", "Ordered list: i, ii, iii", true),
        ("I", "Ordered list: I, II, III", true),
    ];
    assert(defs_view(r@) =~= list_kind_params());
    r
}

/// Code block parameters.
pub open spec fn code_params() -> Seq<DefSpec> {
    seq![
        ("lang"@, "Programming language"@, false),
    ]
}

fn code_defs() -> (r: Vec<ParamDef>)
    ensures
        defs_view(r@) == code_params(),
{
    let r = vec![
        ("lang", "Programming language", false),
    ];
    assert(defs_view(r@) =~= code_params());
    r
}

/// TeX block parameters.
pub open spec fn tex_params() -> Seq<DefSpec> {
    seq![
        ("block"@, "Display-style TeX block"@, true),
    ]
}

fn tex_defs() -> (r: Vec<ParamDef>)
    ensures
        defs_view(r@) == tex_params(),
{
    let r = vec![
        ("block", "Display-style TeX block", true),
    ];
    assert(defs_view(r@) =~= tex_params());
    r
}

/// Ruby block parameters.
pub open spec fn ruby_params() -> Seq<DefSpec> {
    seq![
        ("ruby"@, "Ruby text annotation"@, false),
    ]
}

fn ruby_defs() -> (r: Vec<ParamDef>)
    ensures
        defs_view(r@) == ruby_params(),
{
    let r = vec![
        ("ruby", "Ruby text annotation", false),
    ];
    assert(defs_view(r@) =~= ruby_params());
    r
}

/// Footnote block parameters.
pub open spec fn footnote_params() -> Seq<DefSpec> {
    seq![
        ("display"@, "Custom marker text"@, false),
        ("name"@, "Reusable named footnote identifier"@, false),
    ]
}

fn footnote_defs() -> (r: Vec<ParamDef>)
    ensures
        defs_view(r@) == footnote_params(),
{
    let r = vec![
        ("display", "Custom marker text", false),
        ("name", "Reusable named footnote identifier", false),
    ];
    assert(defs_view(r@) =~= footnote_params());
    r
}

/// Include and redirect parameters.
pub open spec fn namespace_params() -> Seq<DefSpec> {
    seq![
        ("namespace"@, "Target namespace"@, false),
    ]
}

fn namespace_defs() -> (r: Vec<ParamDef>)
    ensures
        defs_view(r@) == namespace_params(),
{
    let r = vec![
        ("namespace", "Target namespace", false),
    ];
    assert(defs_view(r@) =~= namespace_params());
    r
}

/// Media link targets.
pub open spec fn media_target_params() -> Seq<DefSpec> {
    seq![
        ("file"@, "File path"@, false),
        ("document"@, "Document path"@, false),
        ("category"@, "Category name"@, false),
        ("user"@, "User name"@, false),
        ("url"@, "External URL"@, false),
    ]
}

fn media_target_defs() -> (r: Vec<ParamDef>)
    ensures
        defs_view(r@) == media_target_params(),
{
    let r = vec![
        ("file", "File path", false),
        ("document", "Document path", false),
        ("category", "Category name", false),
        ("user", "User name", false),
        ("url", "External URL", false),
    ];
    assert(defs_view(r@) =~= media_target_params());
    r
}

/// Extra media parameters.
pub open spec fn media_extra_params() -> Seq<DefSpec> {
    seq![
        ("anchor"@, "Anchor fragment"@, false),
        ("theme"@, "Theme visibility (light/dark)"@, false),
    ]
}

fn media_extra_defs() -> (r: Vec<ParamDef>)
    ensures
        defs_view(r@) == media_extra_params(),
{
    let r = vec![
        ("anchor", "Anchor fragment", false),
        ("theme", "Theme visibility (light/dark)", false),
    ];
    assert(defs_view(r@) =~= media_extra_params());
    r
}

/// YouTube embed parameters.
pub open spec fn youtube_params() -> Seq<DefSpec> {
    seq![
        ("id"@, "Video ID"@, false),
        ("playlist"@, "Playlist ID"@, false),
        ("width"@, "Player width"@, false),
        ("height"@, "Player height"@, false),
        ("start"@, "Start time (seconds)"@, false),
        ("end"@, "End time (seconds)"@, false),
        ("autoplay"@, "Auto-play"@, true),
        ("loop"@, "Loop playback"@, true),
        ("mute"@, "Muted"@, true),
        ("nocontrols"@, "Hide controls"@, true),
    ]
}

fn youtube_defs() -> (r: Vec<ParamDef>)
    ensures
        defs_view(r@) == youtube_params(),
{
    let r = vec![
        ("id", "Video ID", false),
        ("playlist", "Playlist ID", false),
        ("width", "Player width", false),
        ("height", "Player height", false),
        ("start", "Start time (seconds)", false),
        ("end", "End time (seconds)", false),
        ("autoplay", "Auto-play", true),
        ("loop", "Loop playback", true),
        ("mute", "Muted", true),
        ("nocontrols", "Hide controls", true),
    ];
    assert(defs_view(r@) =~= youtube_params());
    r
}

/// Vimeo embed parameters.
pub open spec fn vimeo_params() -> Seq<DefSpec> {
    seq![
        ("id"@, "Video ID"@, false),
        ("h"@, "Privacy hash"@, false),
        ("width"@, "Player width"@, false),
        ("height"@, "Player height"@, false),
        ("autoplay"@, "Auto-play"@, true),
        ("loop"@, "Loop playback"@, true),
        ("mute"@, "Muted"@, true),
        ("color"@, "Player accent color"@, false),
        ("dnt"@, "Do-not-track"@, true),
    ]
}

fn vimeo_defs() -> (r: Vec<ParamDef>)
    ensures
        defs_view(r@) == vimeo_params(),
{
    let r = vec![
        ("id", "Video ID", false),
        ("h", "Privacy hash", false),
        ("width", "Player width", false),
        ("height", "Player height", false),
        ("autoplay", "Auto-play", true),
        ("loop", "Loop playback", true),
        ("mute", "Muted", true),
        ("color", "Player accent color", false),
        ("dnt", "Do-not-track", true),
    ];
    assert(defs_view(r@) =~= vimeo_params());
    r
}

/// NicoVideo embed parameters.
pub open spec fn nicovideo_params() -> Seq<DefSpec> {
    seq![
        ("id"@, "Video ID"@, false),
        ("width"@, "Player width"@, false),
        ("height"@, "Player height"@, false),
        ("from"@, "Start time (seconds)"@, false),
        ("autoplay"@, "Auto-play"@, true),
    ]
}

fn nicovideo_defs() -> (r: Vec<ParamDef>)
    ensures
        defs_view(r@) == nicovideo_params(),
{
    let r = vec![
        ("id", "Video ID", false),
        ("width", "Player width", false),
        ("height", "Player height", false),
        ("from", "Start time (seconds)", false),
        ("autoplay", "Auto-play", true),
    ];
    assert(defs_view(r@) =~= nicovideo_params());
    r
}

/// Spotify embed parameters.
pub open spec fn spotify_params() -> Seq<DefSpec> {
    seq![
        ("track"@, "Track ID"@, false),
        ("album"@, "Album ID"@, false),
        ("playlist"@, "Playlist ID"@, false),
        ("artist"@, "Artist ID"@, false),
        ("episode"@, "Episode ID"@, false),
        ("show"@, "Show / podcast ID"@, false),
        ("width"@, "Player width"@, false),
        ("height"@, "Player height"@, false),
        ("dark"@, "Dark theme"@, true),
        ("compact"@, "Compact layout"@, true),
    ]
}

fn spotify_defs() -> (r: Vec<ParamDef>)
    ensures
        defs_view(r@) == spotify_params(),
{
    let r = vec![
        ("track", "Track ID", false),
        ("album", "Album ID", false),
        ("playlist", "Playlist ID", false),
        ("artist", "Artist ID", false),
        ("episode", "Episode ID", false),
        ("show", "Show / podcast ID", false),
        ("width", "Player width", false),
        ("height", "Player height", false),
        ("dark", "Dark theme", true),
        ("compact", "Compact layout", true),
    ];
    assert(defs_view(r@) =~= spotify_params());
    r
}

/// Discord embed parameters.
pub open spec fn discord_params() -> Seq<DefSpec> {
    seq![
        ("id"@, "Widget / server ID"@, false),
        ("width"@, "Widget width"@, false),
        ("height"@, "Widget height"@, false),
        ("dark"@, "Dark theme"@, true),
    ]
}

fn discord_defs() -> (r: Vec<ParamDef>)
    ensures
        defs_view(r@) == discord_params(),
{
    let r = vec![
        ("id", "Widget / server ID", false),
        ("width", "Widget width", false),
        ("height", "Widget height", false),
        ("dark", "Dark theme", true),
    ];
    assert(defs_view(r@) =~= discord_params());
    r
}

fn join(a: Vec<ParamDef>, b: Vec<ParamDef>) -> (r: Vec<ParamDef>)
    ensures
        defs_view(r@) == defs_view(a@) + defs_view(b@),
{
    let mut a = a;
    let mut b = b;
    let ghost a0 = a@;
    let ghost b0 = b@;
    a.append(&mut b);
    assert(defs_view(a@) =~= defs_view(a0) + defs_view(b0));
    a
}

fn param_item_exec(d: ParamDef) -> (r: CompletionItem)
    ensures
        r@ == param_item((d.0@, d.1@, d.2)),
{
    let (name, detail, is_flag) = d;
    let snippet = if is_flag {
        String::from_str(name)
    } else {
        String::from_str(name).concat("=\"$1\"")
    };
    CompletionItem {
        label: String::from_str(name),
        kind: Some(CompletionItemKind::Property),
        detail: Some(String::from_str(detail)),
        insert_text_format: Some(InsertTextFormat::Snippet),
        insert_text: Some(snippet),
    }
}

/// Items for a list of parameter definitions, skipping names already offered.
fn make_param_completions(defs: &Vec<ParamDef>) -> (r: Vec<CompletionItem>)
    ensures
        items_view(r@) == param_items(defs_view(defs@)),
{
    let mut kept: Vec<ParamDef> = Vec::new();
    let mut items: Vec<CompletionItem> = Vec::new();
    let mut k: usize = 0;
    while k < defs.len()
        invariant
            k <= defs.len(),
            defs_view(kept@) == dedup_defs(defs_view(defs@).take(k as int)),
            items_view(items@) == defs_view(kept@).map_values(|d: DefSpec| param_item(d)),
        decreases defs.len() - k,
    {
        let d = defs[k];
        let ghost prefix = defs_view(defs@).take(k as int);
        assert(defs_view(defs@).take(k + 1).drop_last() =~= prefix);
        assert(defs_view(defs@).take(k + 1).last() == (d.0@, d.1@, d.2));
        let mut seen = false;
        let mut j: usize = 0;
        while j < kept.len()
            invariant
                j <= kept.len(),
                seen == (exists|i: int|
                    0 <= i < j && #[trigger] def_names(defs_view(kept@))[i] == d.0@),
            decreases kept.len() - j,
        {
            if str_eq(kept[j].0, d.0) {
                seen = true;
            }
            assert(def_names(defs_view(kept@))[j as int] == kept@[j as int].0@);
            j = j + 1;
        }
        assert(seen == def_names(defs_view(kept@)).contains(d.0@));
        if !seen {
            let item = param_item_exec(d);
            proof {
                assert(defs_view(kept@.push(d)) =~= defs_view(kept@).push((d.0@, d.1@, d.2)));
                assert(items_view(items@.push(item)) =~= items_view(items@).push(item@));
                assert(defs_view(kept@.push(d)).map_values(|e: DefSpec| param_item(e))
                    =~= defs_view(kept@).map_values(|e: DefSpec| param_item(e)).push(
                    param_item((d.0@, d.1@, d.2)),
                ));
            }
            kept.push(d);
            items.push(item);
        }
        k = k + 1;
    }
    assert(defs_view(defs@).take(k as int) =~= defs_view(defs@));
    items
}


/// The context is the block `kw` at bracket depth `d`.
pub open spec fn ctx_is(ctx: Option<(Seq<char>, nat)>, kw: Seq<char>, d: nat) -> bool {
    ctx == Some((kw, d))
}

/// Is the context the block `kw` at bracket depth `d`?
pub fn ctx_is_exec(ctx: Option<(&str, usize)>, kw: &str, d: usize) -> (r: bool)
    ensures
        r == ctx_is(context_view(ctx), kw@, d as nat),
{
    match ctx {
        Some((k, depth)) => depth == d && str_eq(k, kw),
        None => false,
    }
}

/// Parameters of a table cell.
pub open spec fn table_cell_param_items() -> Seq<ItemSpec> {
    param_items(table_cell_params() + style_params() + class_params())
}

/// Parameters of a table row.
pub open spec fn table_row_param_items() -> Seq<ItemSpec> {
    param_items(table_row_params() + style_params() + class_params())
}

/// Style and class parameters (list items, fold sections, styled blocks).
pub open spec fn styled_param_items() -> Seq<ItemSpec> {
    param_items(style_params() + class_params())
}

/// Parameters of a generic media element.
pub open spec fn generic_media_param_items() -> Seq<ItemSpec> {
    param_items(media_target_params() + media_extra_params() + style_params() + class_params())
}

pub fn table_cell_param_completions() -> (r: Vec<CompletionItem>)
    ensures
        items_view(r@) == table_cell_param_items(),
{
    make_param_completions(&join(join(table_cell_defs(), style_defs()), class_defs()))
}

pub fn table_row_param_completions() -> (r: Vec<CompletionItem>)
    ensures
        items_view(r@) == table_row_param_items(),
{
    make_param_completions(&join(join(table_row_defs(), style_defs()), class_defs()))
}

pub fn list_item_param_completions() -> (r: Vec<CompletionItem>)
    ensures
        items_view(r@) == styled_param_items(),
{
    make_param_completions(&join(style_defs(), class_defs()))
}

pub fn fold_inner_param_completions() -> (r: Vec<CompletionItem>)
    ensures
        items_view(r@) == styled_param_items(),
{
    make_param_completions(&join(style_defs(), class_defs()))
}

fn styled_param_completions() -> (r: Vec<CompletionItem>)
    ensures
        items_view(r@) == styled_param_items(),
{
    make_param_completions(&join(style_defs(), class_defs()))
}

fn generic_media_param_completions() -> (r: Vec<CompletionItem>)
    ensures
        items_view(r@) == generic_media_param_items(),
{
    make_param_completions(
        &join(join(join(media_target_defs(), media_extra_defs()), style_defs()), class_defs()),
    )
}

/// A styled-parameter item offered right after `{{{#`: the snippet also
/// closes the block and the description names the styled block.
pub open spec fn styled_hash_item(i: ItemSpec) -> ItemSpec {
    ItemSpec {
        detail: match i.detail {
            Some(d) => Some("Styled block "@ + d),
            None => None,
        },
        insert_text: match i.insert_text {
            Some(t) => Some(t + " $0}}}"@),
            None => None,
        },
        ..i
    }
}

/// Style parameters offered after `{{{#` as block openers.
pub open spec fn styled_brace_hash_items() -> Seq<ItemSpec> {
    styled_param_items().map_values(|i: ItemSpec| styled_hash_item(i))
}

pub fn styled_brace_hash_completions() -> (r: Vec<CompletionItem>)
    ensures
        items_view(r@) == styled_brace_hash_items(),
{
    let items = styled_param_completions();
    let mut out: Vec<CompletionItem> = Vec::new();
    let mut i: usize = 0;
    while i < items.len()
        invariant
            i <= items.len(),
            items_view(items@) == styled_param_items(),
            items_view(out@) == items_view(items@).take(i as int).map_values(
                |it: ItemSpec| styled_hash_item(it),
            ),
        decreases items.len() - i,
    {
        let item = &items[i];
        let detail = match &item.detail {
            Some(d) => Some(String::from_str("Styled block ").concat(d.as_str())),
            None => None,
        };
        let insert_text = match &item.insert_text {
            Some(t) => Some(t.clone().concat(" $0}}}")),
            None => None,
        };
        let new_item = CompletionItem {
            label: item.label.clone(),
            kind: item.kind,
            detail,
            insert_text_format: item.insert_text_format,
            insert_text,
        };
        proof {
            assert(new_item@ == styled_hash_item(item@));
            assert(items_view(out@.push(new_item)) =~= items_view(out@).push(new_item@));
            assert(items_view(items@).take(i + 1).map_values(|it: ItemSpec| styled_hash_item(it))
                =~= items_view(items@).take(i as int).map_values(
                |it: ItemSpec| styled_hash_item(it),
            ).push(styled_hash_item(items_view(items@)[i as int])));
        }
        out.push(new_item);
        i = i + 1;
    }
    assert(items_view(items@).take(i as int) =~= items_view(items@));
    out
}

/// Parameters of a `[[#element` bracket element.
pub open spec fn bracket_param_items(element: Seq<char>) -> Seq<ItemSpec> {
    if element == "youtube"@ {
        param_items(youtube_params() + style_params())
    } else if element == "vimeo"@ {
        param_items(vimeo_params() + style_params())
    } else if element == "nicovideo"@ {
        param_items(nicovideo_params() + style_params())
    } else if element == "spotify"@ {
        param_items(spotify_params() + style_params())
    } else if element == "discord"@ {
        param_items(discord_params() + style_params())
    } else {
        generic_media_param_items()
    }
}

fn bracket_param_completions(element: &str) -> (r: Vec<CompletionItem>)
    ensures
        items_view(r@) == bracket_param_items(element@),
{
    if str_eq(element, "youtube") {
        make_param_completions(&join(youtube_defs(), style_defs()))
    } else if str_eq(element, "vimeo") {
        make_param_completions(&join(vimeo_defs(), style_defs()))
    } else if str_eq(element, "nicovideo") {
        make_param_completions(&join(nicovideo_defs(), style_defs()))
    } else if str_eq(element, "spotify") {
        make_param_completions(&join(spotify_defs(), style_defs()))
    } else if str_eq(element, "discord") {
        make_param_completions(&join(discord_defs(), style_defs()))
    } else {
        generic_media_param_completions()
    }
}

/// Parameters of a `{{{#element` brace element.
pub open spec fn brace_param_items(element: Seq<char>) -> Seq<ItemSpec> {
    if element == "code"@ {
        param_items(code_params() + style_params() + class_params())
    } else if element == "tex"@ {
        param_items(tex_params())
    } else if element == "css"@ || element == "category"@ || element == "define"@ || element
        == "if"@ {
        seq![]
    } else if element == "table"@ {
        param_items(table_params() + style_params() + class_params())
    } else if element == "list"@ {
        param_items(list_kind_params() + style_params() + class_params())
    } else if element == "fold"@ || element == "quote"@ {
        styled_param_items()
    } else if element == "ruby"@ {
        param_items(ruby_params() + style_params() + class_params())
    } else if element == "fn"@ {
        param_items(footnote_params() + style_params() + class_params())
    } else if element == "include"@ || element == "redirect"@ {
        param_items(namespace_params())
    } else {
        styled_param_items()
    }
}

fn brace_param_completions(element: &str) -> (r: Vec<CompletionItem>)
    ensures
        items_view(r@) == brace_param_items(element@),
{
    if str_eq(element, "code") {
        make_param_completions(&join(join(code_defs(), style_defs()), class_defs()))
    } else if str_eq(element, "tex") {
        make_param_completions(&tex_defs())
    } else if str_eq(element, "css") || str_eq(element, "category") || str_eq(element, "define")
        || str_eq(element, "if") {
        let r = Vec::new();
        assert(items_view(r@) =~= seq![]);
        r
    } else if str_eq(element, "table") {
        make_param_completions(&join(join(table_defs(), style_defs()), class_defs()))
    } else if str_eq(element, "list") {
        make_param_completions(&join(join(list_kind_defs(), style_defs()), class_defs()))
    } else if str_eq(element, "fold") || str_eq(element, "quote") {
        styled_param_completions()
    } else if str_eq(element, "ruby") {
        make_param_completions(&join(join(ruby_defs(), style_defs()), class_defs()))
    } else if str_eq(element, "fn") {
        make_param_completions(&join(join(footnote_defs(), style_defs()), class_defs()))
    } else if str_eq(element, "include") || str_eq(element, "redirect") {
        make_param_completions(&namespace_defs())
    } else {
        styled_param_completions()
    }
}

/// What `#` offers after `prefix` in context `ctx`, if anything.
pub open spec fn parameter_items(prefix: Seq<char>, ctx: Option<(Seq<char>, nat)>) -> Option<
    Seq<ItemSpec>,
> {
    if unclosed_bracket(prefix) && ctx_is(ctx, "table"@, 1) {
        Some(table_row_param_items())
    } else if unclosed_bracket(prefix) && ctx_is(ctx, "table"@, 2) {
        Some(table_cell_param_items())
    } else if unclosed_bracket(prefix) && (ctx_is(ctx, "list"@, 1) || ctx_is(ctx, "fold"@, 1)) {
        Some(styled_param_items())
    } else if bracket_element_of(prefix) is Some {
        Some(bracket_param_items(bracket_element_of(prefix).unwrap()))
    } else if unclosed_bracket(prefix) {
        Some(generic_media_param_items())
    } else if brace_element_of(prefix) is Some {
        Some(brace_param_items(brace_element_of(prefix).unwrap()))
    } else if unclosed_styled_brace(prefix) {
        Some(styled_param_items())
    } else {
        None
    }
}

/// The view of an optional list of items.
pub open spec fn opt_items_view(r: Option<Vec<CompletionItem>>) -> Option<Seq<ItemSpec>> {
    match r {
        Some(v) => Some(items_view(v@)),
        None => None,
    }
}

/// Parameter completions for a `#` typed inside an element.
pub fn parameter_completions(prefix: &str, ctx: Option<(&str, usize)>) -> (r: Option<
    Vec<CompletionItem>,
>)
    ensures
        opt_items_view(r) == parameter_items(prefix@, context_view(ctx)),
{
    if in_unclosed_bracket(prefix) {
        if ctx_is_exec(ctx, "table", 1) {
            return Some(table_row_param_completions());
        }
        if ctx_is_exec(ctx, "table", 2) {
            return Some(table_cell_param_completions());
        }
        if ctx_is_exec(ctx, "list", 1) {
            return Some(list_item_param_completions());
        }
        if ctx_is_exec(ctx, "fold", 1) {
            return Some(fold_inner_param_completions());
        }
    }
    if let Some(kw) = detect_bracket_element(prefix) {
        return Some(bracket_param_completions(kw));
    }
    if in_unclosed_bracket(prefix) {
        return Some(generic_media_param_completions());
    }
    if let Some(kw) = detect_brace_element(prefix) {
        return Some(brace_param_completions(kw));
    }
    if in_unclosed_styled_brace(prefix) {
        return Some(styled_param_completions());
    }
    None
}

} // verus!
