//! Links of media elements.

use vstd::prelude::*;
use vstd::utf8::encode_utf8;

use crate::fmt::{chars_to_string, push_str};
use crate::parameters::{get_param, param_value, Parameters};
use crate::text::{lemma_trim_idempotent, starts_with_ignore_ascii_case, starts_with_ignore_ascii_case_exec, to_chars, trim, trim_str};

verus! {

/// `http://`
pub open spec fn http_scheme() -> Seq<char> {
    seq!['h', 't', 't', 'p', ':', '/', '/']
}

/// `https://`
pub open spec fn https_scheme() -> Seq<char> {
    seq!['h', 't', 't', 'p', 's', ':', '/', '/']
}

/// The external URL kept for `raw`: `raw` without surrounding white space,
/// when that is not empty and starts with `http://` or `https://` in any ASCII
/// case; nothing otherwise.
pub open spec fn external_url(raw: Seq<char>) -> Option<Seq<char>> {
    let t = trim(raw);
    if t.len() > 0 && (starts_with_ignore_ascii_case(t, 0, http_scheme())
        || starts_with_ignore_ascii_case(t, 0, https_scheme())) {
        Some(t)
    } else {
        None
    }
}

/// Keeping a kept link again keeps it unchanged.
pub proof fn lemma_external_url_idempotent(raw: Seq<char>)
    ensures
        external_url(raw) matches Some(u) ==> external_url(u) == Some(u),
{
    lemma_trim_idempotent(raw);
}

/// The view of an optional string.
pub open spec fn opt_string_view(o: Option<String>) -> Option<Seq<char>> {
    match o {
        Some(s) => Some(s@),
        None => None,
    }
}

/// Keeps an external link only when it is an `http` or `https` URL.
pub fn sanitize_external_url(raw: &str) -> (r: Option<String>)
    ensures
        opt_string_view(r) == external_url(raw@),
{
    let trimmed = trim_str(raw);
    let chars = to_chars(trimmed);
    if chars.len() == 0 {
        return None;
    }
    let http = ['h', 't', 't', 'p', ':', '/', '/'];
    let https = ['h', 't', 't', 'p', 's', ':', '/', '/'];
    assert(http@ == http_scheme());
    assert(https@ == https_scheme());
    if starts_with_ignore_ascii_case_exec(chars.as_slice(), 0, http.as_slice())
        || starts_with_ignore_ascii_case_exec(chars.as_slice(), 0, https.as_slice()) {
        Some(String::from_str(trimmed))
    } else {
        None
    }
}

/// An upper-case hexadecimal digit.
pub open spec fn upper_hex_digit(d: nat) -> char {
    if d < 10 {
        ((d + 48) as u8) as char
    } else {
        ((d + 55) as u8) as char
    }
}

/// `%` and the byte as two upper-case hexadecimal digits.
pub open spec fn percent_byte(b: u8) -> Seq<char> {
    seq!['%', upper_hex_digit((b / 16) as nat), upper_hex_digit((b % 16) as nat)]
}

/// `percent_encoding::percent_encode_byte`: according to its table (and the
/// crate's own test against `format!("%{:02X}")`), `%` followed by the byte
/// in two upper-case hexadecimal digits.
pub assume_specification[ percent_encoding::percent_encode_byte ](byte: u8) -> (r: &'static str)
    ensures
        r@ == percent_byte(byte),
;

/// A byte left as is in a path segment: an ASCII letter or digit, or one of
/// the RFC 3986 unreserved marks `-`, `.`, `_`, `~`.
pub open spec fn is_unreserved(b: u8) -> bool {
    (48 <= b && b <= 57) || (65 <= b && b <= 90) || (97 <= b && b <= 122) || b == 45 || b == 46
        || b == 95 || b == 126
}

/// The path-segment encoding of `bytes`: unreserved bytes stay as their
/// ASCII character, every other byte becomes its `%XX` escape.
pub open spec fn path_segment_encoded(bytes: Seq<u8>) -> Seq<char>
    decreases bytes.len(),
{
    if bytes.len() == 0 {
        seq![]
    } else {
        let b = bytes.last();
        path_segment_encoded(bytes.drop_last()) + if is_unreserved(b) {
            seq![b as char]
        } else {
            percent_byte(b)
        }
    }
}

/// A character that may stand in an encoded path segment: an ASCII letter
/// or digit, one of `-`, `.`, `_`, `~`, or the `%` of an escape.
pub open spec fn is_path_segment_char(c: char) -> bool {
    ('0' <= c && c <= '9') || ('A' <= c && c <= 'Z') || ('a' <= c && c <= 'z') || c == '-' || c
        == '.' || c == '_' || c == '~' || c == '%'
}

/// An encoded title stays within its path segment: it holds no `/`, `?`,
/// `#`, space or other character outside the unreserved set and `%`.
pub proof fn lemma_encoded_segment_is_safe(bytes: Seq<u8>)
    ensures
        forall|k: int|
            0 <= k < path_segment_encoded(bytes).len() ==> is_path_segment_char(
                #[trigger] path_segment_encoded(bytes)[k],
            ),
    decreases bytes.len(),
{
    if bytes.len() > 0 {
        let b = bytes.last();
        let prefix = path_segment_encoded(bytes.drop_last());
        lemma_encoded_segment_is_safe(bytes.drop_last());
        let piece = if is_unreserved(b) {
            seq![b as char]
        } else {
            percent_byte(b)
        };
        assert(path_segment_encoded(bytes) == prefix + piece);
        assert forall|k: int| 0 <= k < piece.len() implies is_path_segment_char(#[trigger] piece[k]) by {
            if is_unreserved(b) {
                assert(piece[k] == b as char);
            } else {
                assert(piece[0] == '%');
            }
        }
        assert forall|k: int|
            0 <= k < path_segment_encoded(bytes).len() implies is_path_segment_char(
            #[trigger] path_segment_encoded(bytes)[k],
        ) by {
            if k < prefix.len() {
                assert(path_segment_encoded(bytes)[k] == prefix[k]);
            } else {
                assert(path_segment_encoded(bytes)[k] == piece[k - prefix.len()]);
            }
        }
    }
}

/// The link to the page `title` under `base`: `base` followed by the
/// path-segment encoding of the title's UTF-8 bytes.
pub open spec fn internal_href(base: Seq<char>, title: Seq<char>) -> Seq<char> {
    base + path_segment_encoded(encode_utf8(title))
}

/// Builds the link to the page `title` under the URL prefix `base`.
pub fn build_internal_href(base: &str, title: &str) -> (r: String)
    ensures
        r@ == internal_href(base@, title@),
{
    let bytes = title.as_bytes();
    let mut out: Vec<char> = Vec::new();
    push_str(&mut out, base);
    let mut i: usize = 0;
    while i < bytes.len()
        invariant
            i <= bytes.len(),
            bytes@ == encode_utf8(title@),
            out@ == base@ + path_segment_encoded(bytes@.take(i as int)),
        decreases bytes.len() - i,
    {
        let b = bytes[i];
        assert(bytes@.take(i + 1).drop_last() =~= bytes@.take(i as int));
        if (48 <= b && b <= 57) || (65 <= b && b <= 90) || (97 <= b && b <= 122) || b == 45 || b
            == 46 || b == 95 || b == 126 {
            out.push(b as char);
        } else {
            push_str(&mut out, percent_encoding::percent_encode_byte(b));
        }
        assert(out@ =~= base@ + path_segment_encoded(bytes@.take(i + 1)));
        i = i + 1;
    }
    assert(bytes@.take(i as int) =~= bytes@);
    chars_to_string(&out)
}

/// A page a media element resolved to: its title and whether it exists.
pub struct ResolvedPage {
    pub title: String,
    pub is_valid: bool,
}

/// What a media element's link resolved to: an external URL, or a
/// document, category or user page.
pub struct ResolvedLink {
    pub url: Option<String>,
    pub document: Option<ResolvedPage>,
    pub category: Option<ResolvedPage>,
    pub user: Option<ResolvedPage>,
}

/// The URL prefixes under which internal pages are linked, when configured.
pub struct LinkBases {
    pub document_base_url: Option<String>,
    pub category_base_url: Option<String>,
    pub user_base_url: Option<String>,
}

/// The link to a resolved page under a configured prefix.
pub open spec fn page_href(page: Option<ResolvedPage>, base: Option<String>) -> Option<Seq<char>> {
    match (page, base) {
        (Some(p), Some(b)) => Some(internal_href(b@, p.title@)),
        _ => None,
    }
}

/// The link of a media element, by priority: an external URL (kept only
/// when it is `http` or `https`), else the first of the document, category
/// and user pages that resolved and has a configured prefix.
pub open spec fn media_href_of(link: Option<ResolvedLink>, bases: LinkBases) -> Option<Seq<char>> {
    match link {
        None => None,
        Some(r) => match r.url {
            Some(u) => external_url(u@),
            None => {
                let document = page_href(r.document, bases.document_base_url);
                let category = page_href(r.category, bases.category_base_url);
                if document is Some {
                    document
                } else if category is Some {
                    category
                } else {
                    page_href(r.user, bases.user_base_url)
                }
            },
        },
    }
}

/// Whether the link of a media element leads somewhere: an external URL
/// when it is kept, else whether the first resolved page exists; a media
/// element without a resolved link counts as valid.
pub open spec fn media_href_valid_of(link: Option<ResolvedLink>) -> bool {
    match link {
        None => true,
        Some(r) => match r.url {
            Some(u) => external_url(u@) is Some,
            None => match r.document {
                Some(d) => d.is_valid,
                None => match r.category {
                    Some(c) => c.is_valid,
                    None => match r.user {
                        Some(u) => u.is_valid,
                        None => true,
                    },
                },
            },
        },
    }
}

/// The link to a resolved page under a configured prefix.
fn build_page_href(page: &Option<ResolvedPage>, base: &Option<String>) -> (r: Option<String>)
    ensures
        opt_string_view(r) == page_href(*page, *base),
{
    match (page, base) {
        (Some(p), Some(b)) => Some(build_internal_href(b.as_str(), p.title.as_str())),
        _ => None,
    }
}

/// The link of a media element.
pub fn media_href(link: &Option<ResolvedLink>, bases: &LinkBases) -> (r: Option<String>)
    ensures
        opt_string_view(r) == media_href_of(*link, *bases),
{
    match link {
        None => None,
        Some(r) => match &r.url {
            Some(u) => sanitize_external_url(u.as_str()),
            None => {
                let document = build_page_href(&r.document, &bases.document_base_url);
                if document.is_some() {
                    return document;
                }
                let category = build_page_href(&r.category, &bases.category_base_url);
                if category.is_some() {
                    return category;
                }
                build_page_href(&r.user, &bases.user_base_url)
            },
        },
    }
}

/// Whether the link of a media element leads somewhere.
pub fn media_href_valid(link: &Option<ResolvedLink>) -> (r: bool)
    ensures
        r == media_href_valid_of(*link),
{
    match link {
        None => true,
        Some(r) => match &r.url {
            Some(u) => sanitize_external_url(u.as_str()).is_some(),
            None => match &r.document {
                Some(d) => d.is_valid,
                None => match &r.category {
                    Some(c) => c.is_valid,
                    None => match &r.user {
                        Some(u) => u.is_valid,
                        None => true,
                    },
                },
            },
        },
    }
}

/// The source of a media image: the file's URL under the configured file
/// prefix, if any.
pub fn media_image_src(file_url: &str, file_base_url: Option<&str>) -> (r: String)
    ensures
        r@ == match file_base_url {
            Some(b) => b@ + file_url@,
            None => file_url@,
        },
{
    match file_base_url {
        Some(base) => {
            let mut out: Vec<char> = Vec::new();
            push_str(&mut out, base);
            push_str(&mut out, file_url);
            assert(out@ =~= base@ + file_url@);
            chars_to_string(&out)
        },
        None => String::from_str(file_url),
    }
}

/// The image file a media element resolved to.
pub struct ResolvedFile {
    pub url: String,
    pub is_valid: bool,
    pub width: Option<u32>,
    pub height: Option<u32>,
}

/// The image of a media element: its source, whether the file is valid
/// (else a broken-image placeholder is shown), its size and its alt text.
pub struct MediaImage {
    pub src: String,
    pub valid: bool,
    pub width: Option<u32>,
    pub height: Option<u32>,
    pub alt: String,
}

/// The markup of a media element: a figure inside a link, a figure, a
/// link (showing the caption, or else the link itself), or nothing.
pub enum MediaMarkup {
    LinkedFigure { href: String, link_valid: bool, image: MediaImage, caption: bool },
    Figure { image: MediaImage, caption: bool },
    Link { href: String, link_valid: bool, caption: bool },
    Empty,
}

/// `image` shows `file` under `file_base_url` with alt text `alt`.
pub open spec fn image_is(
    image: MediaImage,
    file: ResolvedFile,
    file_base_url: Option<&str>,
    alt: Seq<char>,
) -> bool {
    &&& image.src@ == match file_base_url {
        Some(b) => b@ + file.url@,
        None => file.url@,
    }
    &&& image.valid == file.is_valid
    &&& image.width == file.width
    &&& image.height == file.height
    &&& image.alt@ == alt
}

/// The alt text of a media element: its `file` parameter, or empty.
pub open spec fn media_alt(params: Seq<(Seq<char>, Seq<char>)>) -> Seq<char> {
    match param_value(params, "file"@) {
        Some(a) => a,
        None => ""@,
    }
}

/// Decides the markup of a media element from its resolved file and link:
/// with an image and a link, a figure inside the link; with an image only,
/// a figure; with a link only, the link; otherwise nothing. The link is
/// marked invalid when the page it points to does not exist.
pub fn media_markup(
    file: &Option<ResolvedFile>,
    file_base_url: Option<&str>,
    parameters: &Parameters,
    link: &Option<ResolvedLink>,
    bases: &LinkBases,
    has_caption: bool,
) -> (r: MediaMarkup)
    ensures
        ({
            let href = media_href_of(*link, *bases);
            let valid = media_href_valid_of(*link);
            let alt = media_alt(parameters@);
            match (*file, href) {
                (Some(f), Some(h)) => r matches MediaMarkup::LinkedFigure { href, link_valid, image, caption }
                    && href@ == h && link_valid == valid && image_is(image, f, file_base_url, alt)
                    && caption == has_caption,
                (Some(f), None) => r matches MediaMarkup::Figure { image, caption } && image_is(
                    image,
                    f,
                    file_base_url,
                    alt,
                ) && caption == has_caption,
                (None, Some(h)) => r matches MediaMarkup::Link { href, link_valid, caption } && href@
                    == h && link_valid == valid && caption == has_caption,
                (None, None) => r is Empty,
            }
        }),
{
    let href = media_href(link, bases);
    let link_valid = media_href_valid(link);
    let image = match file {
        Some(f) => {
            let alt = match get_param(parameters, "file") {
                Some(a) => a,
                None => String::new(),
            };
            proof {
                reveal_strlit("");
            }
            assert(alt@ == media_alt(parameters@));
            Some(
                MediaImage {
                    src: media_image_src(f.url.as_str(), file_base_url),
                    valid: f.is_valid,
                    width: f.width,
                    height: f.height,
                    alt,
                },
            )
        },
        None => None,
    };
    match (image, href) {
        (Some(image), Some(href)) => MediaMarkup::LinkedFigure { href, link_valid, image, caption: has_caption },
        (Some(image), None) => MediaMarkup::Figure { image, caption: has_caption },
        (None, Some(href)) => MediaMarkup::Link { href, link_valid, caption: has_caption },
        (None, None) => MediaMarkup::Empty,
    }
}

} // verus!
