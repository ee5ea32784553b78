use std::hash::{Hash, Hasher};

use sevenmark::diagnostics::truncate;
use sevenmark::embed::{
    discord_embed_url, embed_provider, embed_url, get_content_type_and_id, nicovideo_embed_url,
    spotify_embed_url, unknown_provider_message, vimeo_embed_url, EmbedProvider,
};
use sevenmark::list::{list_numbering, ListNumbering};
use sevenmark::footnote::{
    duplicate_named_footnote_ref_id, encode_named_footnote_fragment, footnote_id,
    footnote_list_items, footnote_ref_id, named_footnote_id, named_footnote_ref_id, FootnoteEntry,
};
use sevenmark::media::{
    build_internal_href, media_href, media_href_valid, media_image_src, media_markup,
    sanitize_external_url, LinkBases, MediaMarkup, ResolvedFile, ResolvedLink, ResolvedPage,
};
use sevenmark::parameters::{
    build_dark_style_declarations, build_style_declarations, get_param, merge_class, param_class,
    Parameters,
};
use sevenmark::render_context::{DarkStyleRegistry, RenderContext};
use sevenmark::table::{
    partition_rows, span_count, table_align, wrapper_width_declaration, RowItemInfo, RowPosition,
    TableAlign,
};
use sevenmark::style::{
    add_important, build_dark_style_rule, dark_style_hash, escape_style_close_tag,
};

fn params(pairs: &[(&str, &str)]) -> Parameters {
    let mut p = Parameters::new();
    for (k, v) in pairs {
        p.insert(k.to_string(), v.to_string());
    }
    p
}

fn std_hash_hex(s: &str) -> String {
    let mut hasher = std::collections::hash_map::DefaultHasher::new();
    s.hash(&mut hasher);
    format!("{:x}", hasher.finish())
}

// ---------------------------------------------------------------------------
// Escaping of `</style` inside CSS text
// ---------------------------------------------------------------------------

#[test]
fn sanitizes_case_insensitive_style_close_tag() {
    assert_eq!(
        escape_style_close_tag("a</sTyle>b"),
        "a<\\/sTyle>b".to_string()
    );
}

#[test]
fn sanitizes_style_close_tag_with_whitespace() {
    assert_eq!(
        escape_style_close_tag("a</STYLE   >b"),
        "a<\\/STYLE   >b".to_string()
    );
}

#[test]
fn sanitizes_style_close_tag_with_attributes() {
    assert_eq!(
        escape_style_close_tag("a</style foo=bar>b"),
        "a<\\/style foo=bar>b".to_string()
    );
}

#[test]
fn does_not_sanitize_style_prefix_of_longer_tag_name() {
    assert_eq!(
        escape_style_close_tag("a</stylex>b"),
        "a</stylex>b".to_string()
    );
}

#[test]
fn does_not_sanitize_hyphenated_tag_name() {
    assert_eq!(
        escape_style_close_tag("a</style-foo>b"),
        "a</style-foo>b".to_string()
    );
}

#[test]
fn escapes_style_close_tag_at_end_of_text() {
    assert_eq!(escape_style_close_tag("x</style"), "x<\\/style");
    assert_eq!(escape_style_close_tag("</style/>"), "<\\/style/>");
}

#[test]
fn escapes_every_close_tag_and_is_idempotent() {
    let once = escape_style_close_tag("</style></STYLE>\n</style\t");
    assert_eq!(once, "<\\/style><\\/STYLE>\n<\\/style\t");
    assert_eq!(escape_style_close_tag(&once), once);
    assert!(!once.to_ascii_lowercase().contains("</style"));
}

#[test]
fn leaves_text_without_close_tags_alone() {
    assert_eq!(escape_style_close_tag(""), "");
    assert_eq!(escape_style_close_tag("a < / style"), "a < / style");
    assert_eq!(escape_style_close_tag("<style>"), "<style>");
}

// ---------------------------------------------------------------------------
// Media links
// ---------------------------------------------------------------------------

#[test]
fn sanitize_external_url_allows_http_https() {
    assert_eq!(
        sanitize_external_url("https://example.com/a?b=1"),
        Some("https://example.com/a?b=1".to_string())
    );
    assert_eq!(
        sanitize_external_url("HTTP://example.com"),
        Some("HTTP://example.com".to_string())
    );
}

#[test]
fn sanitize_external_url_rejects_unsafe_schemes() {
    assert_eq!(sanitize_external_url("javascript:alert(1)"), None);
    assert_eq!(sanitize_external_url("data:text/html,hi"), None);
    assert_eq!(sanitize_external_url(""), None);
}

#[test]
fn sanitize_external_url_trims_white_space() {
    assert_eq!(
        sanitize_external_url("  https://a.b/c \n"),
        Some("https://a.b/c".to_string())
    );
    assert_eq!(sanitize_external_url("   "), None);
    assert_eq!(sanitize_external_url("ftp://a.b"), None);
    assert_eq!(sanitize_external_url("http:/a"), None);
}

#[test]
fn build_internal_href_percent_encodes_title() {
    let href = build_internal_href("/Document/", "A B/#?");
    assert_eq!(href, "/Document/A%20B%2F%23%3F");
}

#[test]
fn build_internal_href_keeps_unreserved_and_encodes_utf8() {
    assert_eq!(build_internal_href("/w/", "a-b.c_d~e9"), "/w/a-b.c_d~e9");
    assert_eq!(build_internal_href("", "가"), "%EA%B0%80");
    assert_eq!(build_internal_href("/w/", ""), "/w/");
}

// ---------------------------------------------------------------------------
// Footnote ids
// ---------------------------------------------------------------------------

#[test]
fn named_footnote_fragment_is_hex_of_utf8() {
    assert_eq!(encode_named_footnote_fragment("a1"), "6131");
    assert_eq!(encode_named_footnote_fragment("가"), "eab080");
    assert_eq!(encode_named_footnote_fragment(""), "");
}

#[test]
fn named_footnote_ids_have_fixed_prefixes() {
    assert_eq!(named_footnote_id("a1"), "fnn-6131");
    assert_eq!(named_footnote_ref_id("a1"), "rnn-6131");
    assert_eq!(duplicate_named_footnote_ref_id("a1", 2), "rnn-6131-2");
}

#[test]
fn duplicate_named_ref_ids_do_not_collide_with_other_named_refs() {
    let duplicate_a1 = duplicate_named_footnote_ref_id("a1", 2);
    let first_a12 = named_footnote_ref_id("a12");
    assert_eq!(first_a12, "rnn-613132");
    assert_ne!(duplicate_a1, first_a12);
    assert_ne!(named_footnote_ref_id("a1"), first_a12);
    assert_ne!(
        duplicate_named_footnote_ref_id("a1", 12),
        duplicate_named_footnote_ref_id("a11", 2)
    );
}

#[test]
fn entry_ids_for_named_and_unnamed_footnotes() {
    let unnamed = FootnoteEntry {
        index: 3,
        display: "1".to_string(),
        name: None,
        content: (),
    };
    let named = FootnoteEntry {
        index: 1,
        display: "a".to_string(),
        name: Some("a".to_string()),
        content: (),
    };
    assert_eq!(footnote_id(&unnamed), "fn3");
    assert_eq!(footnote_ref_id(&unnamed), "rn3");
    assert_eq!(footnote_id(&named), "fnn-61");
    assert_eq!(footnote_ref_id(&named), "rnn-61");
}

// ---------------------------------------------------------------------------
// Render context
// ---------------------------------------------------------------------------

#[test]
fn duplicate_named_footnote_returns_first_index() {
    let mut ctx: RenderContext<Vec<u8>> = RenderContext::new();
    assert_eq!(ctx.add_named_footnote(1, "a1".to_string(), vec![1]), Ok("a1"));
    assert_eq!(ctx.add_named_footnote(2, "a1".to_string(), vec![2]), Err(1));
    assert_eq!(ctx.add_named_footnote(3, "a12".to_string(), vec![3]), Ok("a12"));
    assert_eq!(ctx.footnotes.len(), 2);
    assert_eq!(ctx.footnotes[0].content, vec![1]);
    assert_eq!(ctx.footnotes[1].name, Some("a12".to_string()));
}

#[test]
fn unnamed_footnote_numbers_stay_contiguous_after_duplicate_named_refs() {
    let mut ctx: RenderContext<()> = RenderContext::new();
    assert!(ctx.add_named_footnote(1, "a".to_string(), ()).is_ok());
    assert_eq!(ctx.add_named_footnote(2, "a".to_string(), ()), Err(1));
    assert_eq!(ctx.add_footnote(3, None, ()), "1");
    assert_eq!(ctx.add_footnote(4, None, ()), "2");
    assert_eq!(ctx.next_unnamed_footnote_number, 3);
    assert_eq!(ctx.footnotes.len(), 3);
    assert_eq!(ctx.footnotes[2].index, 4);
}

#[test]
fn custom_footnote_display_does_not_take_a_number() {
    let mut ctx: RenderContext<()> = RenderContext::new();
    assert_eq!(ctx.add_footnote(1, Some("*".to_string()), ()), "*");
    assert_eq!(ctx.next_unnamed_footnote_number, 1);
    assert_eq!(ctx.add_footnote(2, None, ()), "1");
    assert_eq!(ctx.add_footnote(3, Some("†".to_string()), ()), "†");
    assert_eq!(ctx.add_footnote(4, None, ()), "2");
}

#[test]
fn soft_break_suppression_depth_saturates_at_zero() {
    let mut ctx: RenderContext<()> = RenderContext::new();
    assert!(!ctx.is_soft_break_suppressed());
    ctx.enter_suppress_soft_breaks();
    ctx.enter_suppress_soft_breaks();
    assert!(ctx.is_soft_break_suppressed());
    ctx.exit_suppress_soft_breaks();
    assert!(ctx.is_soft_break_suppressed());
    ctx.exit_suppress_soft_breaks();
    ctx.exit_suppress_soft_breaks();
    assert_eq!(ctx.suppress_soft_breaks_depth, 0);
    assert!(!ctx.is_soft_break_suppressed());
}

#[test]
fn dark_style_hash_is_default_hasher_in_hex() {
    assert_eq!(dark_style_hash("color: red"), std_hash_hex("color: red"));
    assert_eq!(dark_style_hash(""), std_hash_hex(""));
    assert_ne!(dark_style_hash("color: red"), "color: red");
}

#[test]
fn add_important_marks_every_declaration() {
    assert_eq!(
        add_important("color: red; background: blue"),
        "color: red !important;background: blue !important"
    );
    assert_eq!(add_important("color: red !important;"), "color: red !important");
    assert_eq!(add_important(" ; ;"), "");
    assert_eq!(add_important(""), "");
}

#[test]
fn dark_style_rule_has_key_and_escaped_body() {
    let (dk, rule) = build_dark_style_rule("color: red");
    assert_eq!(dk, std_hash_hex("color: red"));
    assert_eq!(
        rule,
        format!(".dark [data-dk=\"{}\"]{{color: red !important}}", dk)
    );
    let (_, rule) = build_dark_style_rule("font-family: '</style>'");
    assert!(rule.contains("<\\/style>"));
    assert!(!rule.contains("</style>"));
}

#[test]
fn dark_styles_are_registered_once_and_sorted_by_key() {
    let mut ctx: RenderContext<()> = RenderContext::new();
    assert_eq!(ctx.dark_style_sheet(), None);
    assert_eq!(ctx.add_dark_style(None), None);
    let red = ctx.add_dark_style(Some("color: red".to_string())).unwrap();
    let sheet_one = ctx.dark_style_sheet().unwrap();
    assert_eq!(ctx.add_dark_style(Some("color: red".to_string())), Some(red.clone()));
    assert_eq!(ctx.dark_style_sheet().unwrap(), sheet_one);
    let blue = ctx.add_dark_style(Some("color: blue".to_string())).unwrap();
    let (_, red_rule) = build_dark_style_rule("color: red");
    let (_, blue_rule) = build_dark_style_rule("color: blue");
    let expected = if red < blue {
        format!("{}\n{}", red_rule, blue_rule)
    } else {
        format!("{}\n{}", blue_rule, red_rule)
    };
    assert_eq!(ctx.dark_style_sheet().unwrap(), expected);
}

#[test]
fn dark_style_registry_does_not_depend_on_order() {
    let mut a = DarkStyleRegistry::new();
    let mut b = DarkStyleRegistry::new();
    assert!(a.is_empty());
    a.insert_if_absent("k2".to_string(), "two".to_string());
    a.insert_if_absent("k1".to_string(), "one".to_string());
    b.insert_if_absent("k1".to_string(), "one".to_string());
    b.insert_if_absent("k2".to_string(), "two".to_string());
    b.insert_if_absent("k1".to_string(), "other".to_string());
    assert_eq!(a.sheet(), Some("one\ntwo".to_string()));
    assert_eq!(a.sheet(), b.sheet());
}

#[test]
fn child_context_shares_dark_styles_with_parent() {
    let mut ctx: RenderContext<()> = RenderContext::new();
    ctx.set_toc_markup(Some("<nav/>".to_string()));
    let _ = ctx.add_footnote(1, None, ());
    let mut child = ctx.child();
    assert_eq!(child.toc_markup, Some("<nav/>".to_string()));
    assert!(child.footnotes.is_empty());
    assert_eq!(child.next_unnamed_footnote_number, 1);
    let dk = child.add_dark_style(Some("color: red".to_string())).unwrap();
    ctx.finish_child(child);
    let sheet = ctx.dark_style_sheet().unwrap();
    assert!(sheet.contains(&dk));
    assert_eq!(ctx.footnotes.len(), 1);
}

// ---------------------------------------------------------------------------
// Parameters and inline styles
// ---------------------------------------------------------------------------

#[test]
fn later_parameter_overrides_earlier() {
    let p = params(&[("id", "a"), ("id", "b")]);
    assert_eq!(get_param(&p, "id"), Some("b".to_string()));
    assert_eq!(get_param(&p, "ID"), None);
}

#[test]
fn class_parameter_is_trimmed_and_merged() {
    assert_eq!(param_class(&params(&[("class", "  big red ")])), Some("big red".to_string()));
    assert_eq!(param_class(&params(&[("class", "   ")])), None);
    assert_eq!(merge_class("sm-x", &params(&[("class", " y ")])), "sm-x y");
    assert_eq!(merge_class("sm-x", &params(&[])), "sm-x");
}

#[test]
fn style_declarations_follow_parameter_order_of_the_rules() {
    let p = params(&[("color", "red"), ("style", "margin: 0"), ("size", "2em")]);
    assert_eq!(
        build_style_declarations(&p),
        Some("margin: 0;font-size:2em;color:red".to_string())
    );
    assert_eq!(build_style_declarations(&params(&[])), None);
    assert_eq!(build_dark_style_declarations(&params(&[("color", "red")])), None);
    assert_eq!(
        build_dark_style_declarations(&params(&[("dark-color", "white")])),
        Some("color:white".to_string())
    );
}

// ---------------------------------------------------------------------------
// Embed URLs
// ---------------------------------------------------------------------------

#[test]
fn discord_embed_url_theme() {
    assert_eq!(
        discord_embed_url("123", &params(&[])),
        "https://discord.com/widget?id=123&theme=light"
    );
    assert_eq!(
        discord_embed_url("123", &params(&[("dark", "")])),
        "https://discord.com/widget?id=123&theme=dark"
    );
}

#[test]
fn nicovideo_embed_url_query() {
    assert_eq!(
        nicovideo_embed_url("sm9", &params(&[])),
        "https://embed.nicovideo.jp/watch/sm9"
    );
    assert_eq!(
        nicovideo_embed_url("sm9", &params(&[("autoplay", ""), ("from", "30")])),
        "https://embed.nicovideo.jp/watch/sm9?from=30&autoplay=1"
    );
}

#[test]
fn spotify_content_type_priority_and_url() {
    let p = params(&[("album", "A"), ("track", "T")]);
    assert_eq!(get_content_type_and_id(&p), Some(("track", "T".to_string())));
    assert_eq!(
        get_content_type_and_id(&params(&[("show", "S")])),
        Some(("show", "S".to_string()))
    );
    assert_eq!(get_content_type_and_id(&params(&[("id", "x")])), None);
    assert_eq!(
        spotify_embed_url("track", "T", &params(&[])),
        "https://open.spotify.com/embed/track/T"
    );
    assert_eq!(
        spotify_embed_url("album", "A", &params(&[("compact", ""), ("dark", "")])),
        "https://open.spotify.com/embed/album/A?theme=0&view=coverart"
    );
}

#[test]
fn vimeo_embed_url_query_and_color() {
    assert_eq!(
        vimeo_embed_url("76979871", &params(&[])),
        "https://player.vimeo.com/video/76979871"
    );
    let p = params(&[
        ("dnt", ""),
        ("color", "##ff0000"),
        ("mute", ""),
        ("loop", ""),
        ("autoplay", ""),
        ("h", "abc"),
    ]);
    assert_eq!(
        vimeo_embed_url("1", &p),
        "https://player.vimeo.com/video/1?h=abc&autoplay=1&loop=1&muted=1&color=ff0000&dnt=1"
    );
}

// ---------------------------------------------------------------------------
// Diagnostic text
// ---------------------------------------------------------------------------

#[test]
fn truncate_escapes_line_feeds_and_shortens() {
    assert_eq!(truncate("short", 80), "short");
    assert_eq!(truncate("a\nb", 80), "a\\nb");
    assert_eq!(truncate("abcdef", 3), "abc…");
    assert_eq!(truncate("a\nb", 2), "a\\…");
    assert_eq!(truncate("가나다", 2), "가나…");
    assert_eq!(truncate("", 0), "");
}

#[test]
fn encoded_titles_stay_within_their_path_segment() {
    let href = build_internal_href("", "a/b?c#d e&f=g%h");
    assert_eq!(href, "a%2Fb%3Fc%23d%20e%26f%3Dg%25h");
    assert!(href
        .chars()
        .all(|c| c.is_ascii_alphanumeric() || "-._~%".contains(c)));
}

#[test]
fn duplicate_named_footnote_refs_use_unique_ids() {
    let mut ctx: RenderContext<&str> = RenderContext::new();
    let first_a1 = ctx.reference_footnote(1, Some("a1".to_string()), None, "First A1.").unwrap();
    let duplicate_a1 = ctx.reference_footnote(2, Some("a1".to_string()), None, "Duplicate A1.").unwrap();
    let first_a12 = ctx.reference_footnote(3, Some("a12".to_string()), None, "First A12.").unwrap();
    assert_eq!(first_a1.id, named_footnote_ref_id("a1"));
    assert_eq!(duplicate_a1.id, duplicate_named_footnote_ref_id("a1", 2));
    assert_eq!(first_a12.id, named_footnote_ref_id("a12"));
    assert_ne!(duplicate_a1.id, first_a12.id);
    let ids: std::collections::HashSet<&str> =
        [first_a1.id.as_str(), duplicate_a1.id.as_str(), first_a12.id.as_str()].into_iter().collect();
    assert_eq!(ids.len(), 3);
    assert_eq!(first_a1.href, format!("#{}", named_footnote_id("a1")));
    assert_eq!(duplicate_a1.href, format!("#{}", named_footnote_id("a1")));
    assert_eq!(duplicate_a1.text, "a1");
    assert_eq!(ctx.footnotes.len(), 2);
}

#[test]
fn unnamed_footnotes_keep_contiguous_display_numbers_after_duplicate_named_refs() {
    let mut ctx: RenderContext<()> = RenderContext::new();
    let _ = ctx.reference_footnote(1, Some("a".to_string()), None, ());
    let _ = ctx.reference_footnote(2, Some("a".to_string()), None, ());
    let c = ctx.reference_footnote(3, None, None, ()).unwrap();
    let d = ctx.reference_footnote(4, None, None, ()).unwrap();
    assert_eq!((c.id.as_str(), c.text.as_str(), c.href.as_str()), ("rn3", "1", "#fn3"));
    assert_eq!((d.id.as_str(), d.text.as_str(), d.href.as_str()), ("rn4", "2", "#fn4"));
    let refs: Vec<(String, String)> =
        [&c, &d].iter().map(|r| (r.id.clone(), format!("[{}]", r.text))).collect();
    assert!(refs.contains(&("rn3".to_string(), "[1]".to_string())));
    assert!(refs.contains(&("rn4".to_string(), "[2]".to_string())));
    assert!(!refs.iter().any(|(_, text)| text == "[3]"));
    let shown = ctx.reference_footnote(5, None, Some("*".to_string()), ()).unwrap();
    assert_eq!(shown.text, "*");
    assert_eq!(ctx.next_unnamed_footnote_number, 3);
}

#[test]
fn footnotes_inside_footnotes_are_not_registered() {
    let mut ctx: RenderContext<()> = RenderContext::new();
    ctx.in_footnote = true;
    assert!(ctx.reference_footnote(1, None, None, ()).is_none());
    assert!(ctx.reference_footnote(2, Some("a".to_string()), None, ()).is_none());
    assert!(ctx.footnotes.is_empty());
    assert_eq!(ctx.next_unnamed_footnote_number, 1);
}

#[test]
fn footnote_list_links_back_to_references() {
    let mut ctx: RenderContext<()> = RenderContext::new();
    let named = ctx.reference_footnote(1, Some("a".to_string()), None, ()).unwrap();
    let unnamed = ctx.reference_footnote(2, None, None, ()).unwrap();
    let items = footnote_list_items(&ctx.footnotes);
    assert_eq!(items.len(), 2);
    assert_eq!(format!("#{}", items[0].id), named.href);
    assert_eq!(items[0].back_href, format!("#{}", named.id));
    assert_eq!(items[0].display, "a");
    assert_eq!(format!("#{}", items[1].id), unnamed.href);
    assert_eq!(items[1].back_href, format!("#{}", unnamed.id));
    assert_eq!(items[1].display, "1");
    assert!(footnote_list_items::<()>(&vec![]).is_empty());
}

fn page(title: &str, is_valid: bool) -> Option<ResolvedPage> {
    Some(ResolvedPage { title: title.to_string(), is_valid })
}

fn bases() -> LinkBases {
    LinkBases {
        document_base_url: Some("/Document/".to_string()),
        category_base_url: Some("/Category/".to_string()),
        user_base_url: None,
    }
}

#[test]
fn media_link_priority_is_url_document_category_user() {
    let external = Some(ResolvedLink {
        url: Some(" https://x.y/z ".to_string()),
        document: page("Doc", true),
        category: None,
        user: None,
    });
    assert_eq!(media_href(&external, &bases()), Some("https://x.y/z".to_string()));
    assert!(media_href_valid(&external));

    let unsafe_url = Some(ResolvedLink {
        url: Some("javascript:alert(1)".to_string()),
        document: page("Doc", true),
        category: None,
        user: None,
    });
    assert_eq!(media_href(&unsafe_url, &bases()), None);
    assert!(!media_href_valid(&unsafe_url));

    let document = Some(ResolvedLink {
        url: None,
        document: page("A B", false),
        category: page("Cat", true),
        user: None,
    });
    assert_eq!(media_href(&document, &bases()), Some("/Document/A%20B".to_string()));
    assert!(!media_href_valid(&document));

    let no_document_base = LinkBases { document_base_url: None, ..bases() };
    assert_eq!(media_href(&document, &no_document_base), Some("/Category/Cat".to_string()));

    let user_only = Some(ResolvedLink { url: None, document: None, category: None, user: page("u", true) });
    assert_eq!(media_href(&user_only, &bases()), None);
    assert!(media_href_valid(&user_only));

    assert_eq!(media_href(&None, &bases()), None);
    assert!(media_href_valid(&None));
}

#[test]
fn media_image_source_uses_file_prefix() {
    assert_eq!(media_image_src("a.png", Some("/files/")), "/files/a.png");
    assert_eq!(media_image_src("a.png", None), "a.png");
}

#[test]
fn table_align_parameter_is_trimmed_and_case_insensitive() {
    assert_eq!(table_align(&params(&[("align", "right")])), Some(TableAlign::Right));
    assert_eq!(table_align(&params(&[("align", " CENTER ")])), Some(TableAlign::Center));
    assert_eq!(table_align(&params(&[("align", "Left")])), Some(TableAlign::Left));
    assert_eq!(table_align(&params(&[("align", "middle")])), None);
    assert_eq!(table_align(&params(&[])), None);
}

#[test]
fn table_width_goes_to_a_wrapper_declaration() {
    assert_eq!(
        wrapper_width_declaration(&params(&[("width", "400px")])),
        Some("width:400px".to_string())
    );
    assert_eq!(wrapper_width_declaration(&params(&[("align", "right")])), None);
}

#[test]
fn conditional_head_rows_go_to_the_table_head() {
    let items = vec![
        RowItemInfo::Conditional { heads: vec![true, false] },
        RowItemInfo::Row { head: false },
        RowItemInfo::Row { head: true },
    ];
    let (head, body) = partition_rows(&items);
    assert_eq!(
        head,
        vec![RowPosition { item: 0, row: Some(0) }, RowPosition { item: 2, row: None }]
    );
    assert_eq!(
        body,
        vec![RowPosition { item: 0, row: Some(1) }, RowPosition { item: 1, row: None }]
    );
}

#[test]
fn cell_spans_are_numbers_above_one() {
    assert_eq!(span_count("2"), Some(2));
    assert_eq!(span_count("+3"), Some(3));
    assert_eq!(span_count("012"), Some(12));
    assert_eq!(span_count("1"), None);
    assert_eq!(span_count("0"), None);
    assert_eq!(span_count(" 3"), None);
    assert_eq!(span_count("3 "), None);
    assert_eq!(span_count(""), None);
    assert_eq!(span_count("+"), None);
    assert_eq!(span_count("-2"), None);
    assert_eq!(span_count("abc"), None);
    assert_eq!(span_count("99999999999999999999999"), None);
    assert_eq!(span_count("2"), "2".parse::<usize>().ok().filter(|&n| n > 1));
}

#[test]
fn external_media_providers_are_dispatched_by_name() {
    assert_eq!(embed_provider("youtube"), Some(EmbedProvider::YouTube));
    assert_eq!(embed_provider("vimeo"), Some(EmbedProvider::Vimeo));
    assert_eq!(embed_provider("nicovideo"), Some(EmbedProvider::NicoVideo));
    assert_eq!(embed_provider("spotify"), Some(EmbedProvider::Spotify));
    assert_eq!(embed_provider("discord"), Some(EmbedProvider::Discord));
    assert_eq!(embed_provider("YouTube"), None);
    assert_eq!(
        unknown_provider_message("twitch"),
        "Unknown external media provider: twitch"
    );
}

#[test]
fn embeds_need_their_content_parameter() {
    assert_eq!(
        embed_url(EmbedProvider::Discord, &params(&[("id", "7")])),
        Some(Ok("https://discord.com/widget?id=7&theme=light".to_string()))
    );
    assert_eq!(
        embed_url(EmbedProvider::Discord, &params(&[])),
        Some(Err("Discord: missing id parameter".to_string()))
    );
    assert_eq!(
        embed_url(EmbedProvider::NicoVideo, &params(&[])),
        Some(Err("NicoNico: missing id parameter".to_string()))
    );
    assert_eq!(
        embed_url(EmbedProvider::Vimeo, &params(&[("id", "5")])),
        Some(Ok("https://player.vimeo.com/video/5".to_string()))
    );
    assert_eq!(
        embed_url(EmbedProvider::Spotify, &params(&[("episode", "E")])),
        Some(Ok("https://open.spotify.com/embed/episode/E".to_string()))
    );
    assert_eq!(
        embed_url(EmbedProvider::Spotify, &params(&[("id", "x")])),
        Some(Err(
            "Spotify: missing content parameter (track, album, playlist, artist, episode, or show)"
                .to_string()
        ))
    );
    assert_eq!(embed_url(EmbedProvider::YouTube, &params(&[("id", "x")])), None);
}

#[test]
fn list_kind_decides_numbering() {
    assert_eq!(list_numbering(""), ListNumbering::Unordered);
    assert_eq!(list_numbering("1"), ListNumbering::Ordered { type_attr: None });
    assert_eq!(
        list_numbering("a"),
        ListNumbering::Ordered { type_attr: Some("a".to_string()) }
    );
    assert_eq!(
        list_numbering("I"),
        ListNumbering::Ordered { type_attr: Some("I".to_string()) }
    );
}

#[test]
fn toc_is_shown_only_when_not_empty() {
    let mut ctx: RenderContext<()> = RenderContext::new();
    assert_eq!(ctx.toc_to_show(), None);
    ctx.set_toc_markup(Some(String::new()));
    assert_eq!(ctx.toc_to_show(), None);
    ctx.set_toc_markup(Some("<nav>toc</nav>".to_string()));
    assert_eq!(ctx.toc_to_show(), Some("<nav>toc</nav>"));
}

#[test]
fn named_footnotes_stay_registered_after_a_flush() {
    let mut ctx: RenderContext<()> = RenderContext::new();
    assert!(ctx.flush_footnotes().is_none());
    let first = ctx.reference_footnote(1, Some("a".to_string()), None, ()).unwrap();
    let flushed = ctx.flush_footnotes().unwrap();
    assert_eq!(flushed.len(), 1);
    assert!(ctx.footnotes.is_empty());
    assert!(ctx.flush_footnotes().is_none());
    let later = ctx.reference_footnote(2, Some("a".to_string()), None, ()).unwrap();
    assert_eq!(later.id, duplicate_named_footnote_ref_id("a", 2));
    assert_eq!(later.href, first.href);
    assert!(ctx.footnotes.is_empty());
}

#[test]
fn conditional_head_rows_render_inside_thead() {
    // {{{#table / {{{#if true :: [[#head [[Name]] [[Value]]]] }}} / [[[[Alice]] [[1]]]] / }}}
    let items = vec![
        RowItemInfo::Conditional { heads: vec![true] },
        RowItemInfo::Row { head: false },
    ];
    let (head, body) = partition_rows(&items);
    assert!(!head.is_empty(), "expected a table head");
    assert_eq!(head, vec![RowPosition { item: 0, row: Some(0) }]);
    assert!(!body.contains(&RowPosition { item: 0, row: Some(0) }));
    assert_eq!(body, vec![RowPosition { item: 1, row: None }]);
}

#[test]
fn table_align_parameter_applies_wrapper_class() {
    // {{{#table #align="right" ...}}}
    let p = params(&[("align", "right")]);
    assert_eq!(table_align(&p), Some(TableAlign::Right));
    assert_eq!(wrapper_width_declaration(&p), None);
}

#[test]
fn width_parameter_applies_to_wrapper_not_table() {
    // {{{#table #width="400px" ...}}}
    let p = params(&[("width", "400px")]);
    let wrapper_style = wrapper_width_declaration(&p).unwrap();
    assert!(wrapper_style.contains("width"));
    assert_eq!(table_align(&p), None);
}

#[test]
fn width_and_align_together_on_wrapper() {
    // {{{#table #align="right" #width="400px" ...}}}
    let p = params(&[("align", "right"), ("width", "400px")]);
    assert_eq!(table_align(&p), Some(TableAlign::Right));
    assert!(wrapper_width_declaration(&p).unwrap().contains("width"));
}

#[test]
fn media_markup_follows_image_and_link() {
    let file = Some(ResolvedFile { url: "a.png".to_string(), is_valid: false, width: Some(10), height: None });
    let page = Some(ResolvedLink {
        url: None,
        document: Some(ResolvedPage { title: "Missing".to_string(), is_valid: false }),
        category: None,
        user: None,
    });
    let p = params(&[("file", "A.png")]);
    match media_markup(&file, Some("https://cdn/"), &p, &page, &bases(), true) {
        MediaMarkup::LinkedFigure { href, link_valid, image, caption } => {
            assert_eq!(href, "/Document/Missing");
            assert!(!link_valid);
            assert_eq!(image.src, "https://cdn/a.png");
            assert!(!image.valid);
            assert_eq!((image.width, image.height), (Some(10), None));
            assert_eq!(image.alt, "A.png");
            assert!(caption);
        },
        _ => panic!("expected a linked figure"),
    }
    match media_markup(&file, None, &params(&[]), &None, &bases(), false) {
        MediaMarkup::Figure { image, caption } => {
            assert_eq!(image.src, "a.png");
            assert_eq!(image.alt, "");
            assert!(!caption);
        },
        _ => panic!("expected a figure"),
    }
    match media_markup(&None, None, &p, &page, &bases(), false) {
        MediaMarkup::Link { href, link_valid, caption } => {
            assert_eq!(href, "/Document/Missing");
            assert!(!link_valid);
            assert!(!caption);
        },
        _ => panic!("expected a link"),
    }
    assert!(matches!(media_markup(&None, None, &p, &None, &bases(), true), MediaMarkup::Empty));
}

#[test]
fn kept_external_url_is_kept_again() {
    let u = sanitize_external_url("  HTTPS://x.y/z \t").unwrap();
    assert_eq!(u, "HTTPS://x.y/z");
    assert_eq!(sanitize_external_url(&u), Some(u.clone()));
}

#[test]
fn add_important_twice_is_add_important_once() {
    for css in ["color: red; ; margin: 0 !important;", "", "  ;  ", "a:b"] {
        let once = add_important(css);
        assert_eq!(add_important(&once), once);
        if !once.is_empty() {
            for piece in once.split(';') {
                assert_eq!(piece, piece.trim());
                assert!(piece.ends_with("!important"));
            }
        }
    }
}

#[test]
fn dark_style_keys_are_short_hex() {
    for css in ["color: #fff", "", "background: black; color: white"] {
        let key = dark_style_hash(css);
        assert!(!key.is_empty() && key.len() <= 16);
        assert!(key.chars().all(|c| c.is_ascii_digit() || ('a'..='f').contains(&c)));
        assert_eq!(key, dark_style_hash(css));
    }
}
