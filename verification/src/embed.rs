//! Embed URLs of external media (Discord, NicoNico, Spotify, Vimeo).

use vstd::prelude::*;

use crate::fmt::{chars_to_string, push_str};
use crate::parameters::{get_param, opt_view, param_value, Parameters};
use crate::style::join;

verus! {

/// The `?`-query of a list of `key=value` pieces: nothing when empty, else
/// `?` and the pieces joined with `&`.
pub open spec fn query(pieces: Seq<Seq<char>>) -> Seq<char> {
    if pieces.len() == 0 {
        seq![]
    } else {
        seq!['?'] + join(pieces, '&')
    }
}

/// `piece` when parameter `key` is present.
pub open spec fn flag_piece(params: Seq<(Seq<char>, Seq<char>)>, key: Seq<char>, piece: Seq<char>) -> Seq<Seq<char>> {
    if param_value(params, key) is Some {
        seq![piece]
    } else {
        seq![]
    }
}

/// `name=value` for the value of parameter `key`, when present.
pub open spec fn value_piece(params: Seq<(Seq<char>, Seq<char>)>, key: Seq<char>, name: Seq<char>) -> Seq<Seq<char>> {
    match param_value(params, key) {
        Some(v) => seq![name + seq!['='] + v],
        None => seq![],
    }
}

/// Appends `?` and the pieces joined by `&`, when there are pieces.
fn push_query(out: &mut Vec<char>, pieces: &Vec<Vec<char>>)
    ensures
        final(out)@ == old(out)@ + query(pieces@.map_values(|p: Vec<char>| p@)),
{
    let ghost ps = pieces@.map_values(|p: Vec<char>| p@);
    if pieces.len() == 0 {
        assert(final(out)@ =~= old(out)@ + query(ps));
        return;
    }
    out.push('?');
    let ghost start = out@;
    let mut i: usize = 0;
    while i < pieces.len()
        invariant
            i <= pieces.len(),
            ps == pieces@.map_values(|p: Vec<char>| p@),
            out@ == start + join(ps.take(i as int), '&'),
        decreases pieces.len() - i,
    {
        assert(ps.take(i + 1).drop_last() =~= ps.take(i as int));
        if i > 0 {
            out.push('&');
        }
        let ghost before = out@;
        let mut k: usize = 0;
        while k < pieces[i].len()
            invariant
                i < pieces.len(),
                k <= pieces@[i as int].len(),
                out@ == before + pieces@[i as int]@.take(k as int),
            decreases pieces@[i as int].len() - k,
        {
            out.push(pieces[i][k]);
            k = k + 1;
            assert(out@ =~= before + pieces@[i as int]@.take(k as int));
        }
        proof {
            assert(pieces@[i as int]@.take(k as int) =~= ps[i as int]);
            if i == 0 {
                assert(ps.take(1) =~= seq![ps[0]]);
            }
            assert(out@ =~= start + join(ps.take(i + 1), '&'));
        }
        i = i + 1;
    }
    assert(ps.take(i as int) =~= ps);
    assert(final(out)@ =~= old(out)@ + query(ps));
}

/// Adds `piece` when parameter `key` is present.
fn push_flag_piece(pieces: &mut Vec<Vec<char>>, params: &Parameters, key: &str, piece: &str)
    ensures
        final(pieces)@.map_values(|p: Vec<char>| p@) == old(pieces)@.map_values(|p: Vec<char>| p@)
            + flag_piece(params@, key@, piece@),
{
    if get_param(params, key).is_some() {
        let mut p: Vec<char> = Vec::new();
        push_str(&mut p, piece);
        pieces.push(p);
    }
    assert(final(pieces)@.map_values(|p: Vec<char>| p@) =~= old(pieces)@.map_values(
        |p: Vec<char>| p@,
    ) + flag_piece(params@, key@, piece@));
}

/// Adds `name=value` for the value of parameter `key`, when present.
fn push_value_piece(pieces: &mut Vec<Vec<char>>, params: &Parameters, key: &str, name: &str)
    ensures
        final(pieces)@.map_values(|p: Vec<char>| p@) == old(pieces)@.map_values(|p: Vec<char>| p@)
            + value_piece(params@, key@, name@),
{
    if let Some(v) = get_param(params, key) {
        let mut p: Vec<char> = Vec::new();
        push_str(&mut p, name);
        p.push('=');
        push_str(&mut p, v.as_str());
        assert(p@ =~= name@ + seq!['='] + v@);
        pieces.push(p);
    }
    assert(final(pieces)@.map_values(|p: Vec<char>| p@) =~= old(pieces)@.map_values(
        |p: Vec<char>| p@,
    ) + value_piece(params@, key@, name@));
}

/// The Discord widget URL of a server, with the dark theme when `#dark` is
/// present and the light theme otherwise.
pub open spec fn discord_url(server_id: Seq<char>, params: Seq<(Seq<char>, Seq<char>)>) -> Seq<char> {
    "https://discord.com/widget?id="@ + server_id + "&theme="@ + if param_value(params, "dark"@) is Some {
        "dark"@
    } else {
        "light"@
    }
}

/// Builds the Discord widget URL.
pub fn discord_embed_url(server_id: &str, parameters: &Parameters) -> (r: String)
    ensures
        r@ == discord_url(server_id@, parameters@),
{
    let theme = if get_param(parameters, "dark").is_some() {
        "dark"
    } else {
        "light"
    };
    let mut out: Vec<char> = Vec::new();
    push_str(&mut out, "https://discord.com/widget?id=");
    push_str(&mut out, server_id);
    push_str(&mut out, "&theme=");
    push_str(&mut out, theme);
    chars_to_string(&out)
}

/// The query pieces of a NicoNico embed: the start time and auto-play.
pub open spec fn nicovideo_pieces(params: Seq<(Seq<char>, Seq<char>)>) -> Seq<Seq<char>> {
    value_piece(params, "from"@, "from"@) + flag_piece(params, "autoplay"@, "autoplay=1"@)
}

/// The NicoNico embed URL of video `id`.
pub open spec fn nicovideo_url(id: Seq<char>, params: Seq<(Seq<char>, Seq<char>)>) -> Seq<char> {
    "https://embed.nicovideo.jp/watch/"@ + id + query(nicovideo_pieces(params))
}

/// Builds the NicoNico embed URL.
pub fn nicovideo_embed_url(id: &str, parameters: &Parameters) -> (r: String)
    ensures
        r@ == nicovideo_url(id@, parameters@),
{
    let mut pieces: Vec<Vec<char>> = Vec::new();
    assert(pieces@.map_values(|p: Vec<char>| p@) =~= seq![]);
    push_value_piece(&mut pieces, parameters, "from", "from");
    push_flag_piece(&mut pieces, parameters, "autoplay", "autoplay=1");
    assert(pieces@.map_values(|p: Vec<char>| p@) =~= nicovideo_pieces(parameters@));
    let mut out: Vec<char> = Vec::new();
    push_str(&mut out, "https://embed.nicovideo.jp/watch/");
    push_str(&mut out, id);
    push_query(&mut out, &pieces);
    assert(out@ =~= nicovideo_url(id@, parameters@));
    chars_to_string(&out)
}

/// The Spotify content of an element: the first of `#track`, `#album`,
/// `#playlist`, `#artist`, `#episode`, `#show` that is present, with its ID.
pub open spec fn spotify_content(params: Seq<(Seq<char>, Seq<char>)>) -> Option<(Seq<char>, Seq<char>)> {
    if param_value(params, "track"@) is Some {
        Some(("track"@, param_value(params, "track"@).unwrap()))
    } else if param_value(params, "album"@) is Some {
        Some(("album"@, param_value(params, "album"@).unwrap()))
    } else if param_value(params, "playlist"@) is Some {
        Some(("playlist"@, param_value(params, "playlist"@).unwrap()))
    } else if param_value(params, "artist"@) is Some {
        Some(("artist"@, param_value(params, "artist"@).unwrap()))
    } else if param_value(params, "episode"@) is Some {
        Some(("episode"@, param_value(params, "episode"@).unwrap()))
    } else if param_value(params, "show"@) is Some {
        Some(("show"@, param_value(params, "show"@).unwrap()))
    } else {
        None
    }
}

/// The Spotify content names the parameter its ID is read from: that
/// parameter is one of `track`, `album`, `playlist`, `artist`, `episode`,
/// `show`, it holds the ID, and no content type before it in that order is
/// present; without any of them there is no content.
pub proof fn lemma_spotify_content_type_names_its_parameter(params: Seq<(Seq<char>, Seq<char>)>)
    ensures
        spotify_content(params) matches Some((t, id)) ==> param_value(params, t) == Some(id),
        spotify_content(params) matches Some((t, _)) ==> (t == "track"@ || t == "album"@
            || t == "playlist"@ || t == "artist"@ || t == "episode"@ || t == "show"@),
        spotify_content(params) matches Some((t, _)) && t != "track"@ ==> param_value(
            params,
            "track"@,
        ) is None,
        spotify_content(params) matches Some((t, _)) && t != "track"@ && t != "album"@
            ==> param_value(params, "album"@) is None,
        spotify_content(params) matches Some((t, _)) && t != "track"@ && t != "album"@ && t
            != "playlist"@ ==> param_value(params, "playlist"@) is None,
        spotify_content(params) is None <==> (param_value(params, "track"@) is None
            && param_value(params, "album"@) is None && param_value(params, "playlist"@) is None
            && param_value(params, "artist"@) is None && param_value(params, "episode"@) is None
            && param_value(params, "show"@) is None),
{
}

/// The view of a content type and ID.
pub open spec fn content_view(c: Option<(&'static str, String)>) -> Option<(Seq<char>, Seq<char>)> {
    match c {
        Some((t, id)) => Some((t@, id@)),
        None => None,
    }
}

/// Which Spotify content the element embeds, and its ID.
pub fn get_content_type_and_id(parameters: &Parameters) -> (r: Option<(&'static str, String)>)
    ensures
        content_view(r) == spotify_content(parameters@),
{
    if let Some(id) = get_param(parameters, "track") {
        return Some(("track", id));
    }
    if let Some(id) = get_param(parameters, "album") {
        return Some(("album", id));
    }
    if let Some(id) = get_param(parameters, "playlist") {
        return Some(("playlist", id));
    }
    if let Some(id) = get_param(parameters, "artist") {
        return Some(("artist", id));
    }
    if let Some(id) = get_param(parameters, "episode") {
        return Some(("episode", id));
    }
    if let Some(id) = get_param(parameters, "show") {
        return Some(("show", id));
    }
    None
}

/// The query pieces of a Spotify embed: the dark theme and the compact
/// cover-art view.
pub open spec fn spotify_pieces(params: Seq<(Seq<char>, Seq<char>)>) -> Seq<Seq<char>> {
    flag_piece(params, "dark"@, "theme=0"@) + flag_piece(params, "compact"@, "view=coverart"@)
}

/// The Spotify embed URL of content `id` of type `content_type`.
pub open spec fn spotify_url(content_type: Seq<char>, id: Seq<char>, params: Seq<(Seq<char>, Seq<char>)>) -> Seq<char> {
    "https://open.spotify.com/embed/"@ + content_type + seq!['/'] + id + query(spotify_pieces(params))
}

/// Builds the Spotify embed URL.
pub fn spotify_embed_url(content_type: &str, id: &str, parameters: &Parameters) -> (r: String)
    ensures
        r@ == spotify_url(content_type@, id@, parameters@),
{
    let mut pieces: Vec<Vec<char>> = Vec::new();
    assert(pieces@.map_values(|p: Vec<char>| p@) =~= seq![]);
    push_flag_piece(&mut pieces, parameters, "dark", "theme=0");
    push_flag_piece(&mut pieces, parameters, "compact", "view=coverart");
    assert(pieces@.map_values(|p: Vec<char>| p@) =~= spotify_pieces(parameters@));
    let mut out: Vec<char> = Vec::new();
    push_str(&mut out, "https://open.spotify.com/embed/");
    push_str(&mut out, content_type);
    out.push('/');
    push_str(&mut out, id);
    push_query(&mut out, &pieces);
    assert(out@ =~= spotify_url(content_type@, id@, parameters@));
    chars_to_string(&out)
}

/// `s` without its leading `#` characters, as `trim_start_matches('#')`.
pub open spec fn strip_hashes(s: Seq<char>) -> Seq<char>
    decreases s.len(),
{
    if s.len() > 0 && s[0] == '#' {
        strip_hashes(s.drop_first())
    } else {
        s
    }
}

/// The player colour piece of a Vimeo embed, without leading `#`s.
pub open spec fn vimeo_color_piece(params: Seq<(Seq<char>, Seq<char>)>) -> Seq<Seq<char>> {
    match param_value(params, "color"@) {
        Some(c) => seq!["color="@ + strip_hashes(c)],
        None => seq![],
    }
}

/// The query pieces of a Vimeo embed: privacy hash, auto-play, loop, mute,
/// player colour and do-not-track.
pub open spec fn vimeo_pieces(params: Seq<(Seq<char>, Seq<char>)>) -> Seq<Seq<char>> {
    value_piece(params, "h"@, "h"@) + flag_piece(params, "autoplay"@, "autoplay=1"@) + flag_piece(
        params,
        "loop"@,
        "loop=1"@,
    ) + flag_piece(params, "mute"@, "muted=1"@) + vimeo_color_piece(params) + flag_piece(
        params,
        "dnt"@,
        "dnt=1"@,
    )
}

/// The Vimeo player URL of video `id`.
pub open spec fn vimeo_url(id: Seq<char>, params: Seq<(Seq<char>, Seq<char>)>) -> Seq<char> {
    "https://player.vimeo.com/video/"@ + id + query(vimeo_pieces(params))
}

/// Builds the Vimeo player URL.
pub fn vimeo_embed_url(id: &str, parameters: &Parameters) -> (r: String)
    ensures
        r@ == vimeo_url(id@, parameters@),
{
    let mut pieces: Vec<Vec<char>> = Vec::new();
    assert(pieces@.map_values(|p: Vec<char>| p@) =~= seq![]);
    push_value_piece(&mut pieces, parameters, "h", "h");
    push_flag_piece(&mut pieces, parameters, "autoplay", "autoplay=1");
    push_flag_piece(&mut pieces, parameters, "loop", "loop=1");
    push_flag_piece(&mut pieces, parameters, "mute", "muted=1");
    if let Some(color) = get_param(parameters, "color") {
        let chars = crate::text::to_chars(color.as_str());
        let mut start: usize = 0;
        assert(chars@.skip(0) =~= chars@);
        while start < chars.len() && chars[start] == '#'
            invariant
                start <= chars.len(),
                strip_hashes(chars@) == strip_hashes(chars@.skip(start as int)),
            decreases chars.len() - start,
        {
            assert(chars@.skip(start as int).drop_first() =~= chars@.skip(start + 1));
            start = start + 1;
        }
        let mut p: Vec<char> = Vec::new();
        push_str(&mut p, "color=");
        let ghost base = p@;
        let mut k = start;
        while k < chars.len()
            invariant
                start <= k <= chars.len(),
                p@ == base + chars@.subrange(start as int, k as int),
            decreases chars.len() - k,
        {
            p.push(chars[k]);
            k = k + 1;
            assert(p@ =~= base + chars@.subrange(start as int, k as int));
        }
        proof {
            assert(chars@.subrange(start as int, k as int) =~= chars@.skip(start as int));
            assert(strip_hashes(chars@.skip(start as int)) == chars@.skip(start as int));
        }
        let ghost old_pieces = pieces@;
        pieces.push(p);
        assert(pieces@.map_values(|x: Vec<char>| x@) =~= old_pieces.map_values(|x: Vec<char>| x@)
            + vimeo_color_piece(parameters@));
    } else {
        assert(pieces@.map_values(|x: Vec<char>| x@) =~= pieces@.map_values(|x: Vec<char>| x@)
            + vimeo_color_piece(parameters@));
    }
    push_flag_piece(&mut pieces, parameters, "dnt", "dnt=1");
    assert(pieces@.map_values(|p: Vec<char>| p@) =~= vimeo_pieces(parameters@));
    let mut out: Vec<char> = Vec::new();
    push_str(&mut out, "https://player.vimeo.com/video/");
    push_str(&mut out, id);
    push_query(&mut out, &pieces);
    assert(out@ =~= vimeo_url(id@, parameters@));
    chars_to_string(&out)
}

/// The providers of external media.
#[derive(Clone, Copy, Debug, PartialEq, Eq, Structural)]
pub enum EmbedProvider {
    YouTube,
    Vimeo,
    NicoVideo,
    Spotify,
    Discord,
}

/// The provider an external media element names.
pub open spec fn provider_of(name: Seq<char>) -> Option<EmbedProvider> {
    if name == "youtube"@ {
        Some(EmbedProvider::YouTube)
    } else if name == "vimeo"@ {
        Some(EmbedProvider::Vimeo)
    } else if name == "nicovideo"@ {
        Some(EmbedProvider::NicoVideo)
    } else if name == "spotify"@ {
        Some(EmbedProvider::Spotify)
    } else if name == "discord"@ {
        Some(EmbedProvider::Discord)
    } else {
        None
    }
}

/// The provider of an external media element, if it is a known one.
pub fn embed_provider(provider: &str) -> (r: Option<EmbedProvider>)
    ensures
        r == provider_of(provider@),
{
    if crate::text::str_eq(provider, "youtube") {
        Some(EmbedProvider::YouTube)
    } else if crate::text::str_eq(provider, "vimeo") {
        Some(EmbedProvider::Vimeo)
    } else if crate::text::str_eq(provider, "nicovideo") {
        Some(EmbedProvider::NicoVideo)
    } else if crate::text::str_eq(provider, "spotify") {
        Some(EmbedProvider::Spotify)
    } else if crate::text::str_eq(provider, "discord") {
        Some(EmbedProvider::Discord)
    } else {
        None
    }
}

/// The error shown for an external media element of an unknown provider.
pub fn unknown_provider_message(provider: &str) -> (r: String)
    ensures
        r@ == "Unknown external media provider: "@ + provider@,
{
    let mut out: Vec<char> = Vec::new();
    push_str(&mut out, "Unknown external media provider: ");
    push_str(&mut out, provider);
    chars_to_string(&out)
}

/// The embed URL of a Vimeo, NicoNico, Spotify or Discord element, or the
/// error shown when the parameter naming the content is missing (`#id`; for
/// Spotify one of the content parameters).
pub open spec fn embed_of(provider: EmbedProvider, params: Seq<(Seq<char>, Seq<char>)>) -> Option<
    Result<Seq<char>, Seq<char>>,
> {
    match provider {
        EmbedProvider::Discord => Some(
            match param_value(params, "id"@) {
                Some(id) => Ok(discord_url(id, params)),
                None => Err("Discord: missing id parameter"@),
            },
        ),
        EmbedProvider::NicoVideo => Some(
            match param_value(params, "id"@) {
                Some(id) => Ok(nicovideo_url(id, params)),
                None => Err("NicoNico: missing id parameter"@),
            },
        ),
        EmbedProvider::Vimeo => Some(
            match param_value(params, "id"@) {
                Some(id) => Ok(vimeo_url(id, params)),
                None => Err("Vimeo: missing id parameter"@),
            },
        ),
        EmbedProvider::Spotify => Some(
            match spotify_content(params) {
                Some((kind, id)) => Ok(spotify_url(kind, id, params)),
                None => Err(
                    "Spotify: missing content parameter (track, album, playlist, artist, episode, or show)"@,
                ),
            },
        ),
        EmbedProvider::YouTube => None,
    }
}

/// `pre` is a prefix of `s`.
pub open spec fn starts_with(s: Seq<char>, pre: Seq<char>) -> bool {
    pre.len() <= s.len() && s.subrange(0, pre.len() as int) == pre
}

/// Each provider is named by its own name, and no other name names one.
pub proof fn lemma_providers_are_named_by_their_names(name: Seq<char>)
    ensures
        provider_of(name) == Some(EmbedProvider::YouTube) <==> name == "youtube"@,
        provider_of(name) == Some(EmbedProvider::Vimeo) <==> name == "vimeo"@,
        provider_of(name) == Some(EmbedProvider::NicoVideo) <==> name == "nicovideo"@,
        provider_of(name) == Some(EmbedProvider::Spotify) <==> name == "spotify"@,
        provider_of(name) == Some(EmbedProvider::Discord) <==> name == "discord"@,
{
    reveal_strlit("youtube");
    reveal_strlit("vimeo");
    reveal_strlit("nicovideo");
    reveal_strlit("spotify");
    reveal_strlit("discord");
    assert("vimeo"@.len() != "youtube"@.len());
    assert("nicovideo"@.len() != "youtube"@.len() && "nicovideo"@.len() != "vimeo"@.len());
    assert("spotify"@[0] != "youtube"@[0] && "spotify"@.len() != "vimeo"@.len()
        && "spotify"@.len() != "nicovideo"@.len());
    assert("discord"@[0] != "youtube"@[0] && "discord"@[0] != "spotify"@[0] && "discord"@.len()
        != "vimeo"@.len() && "discord"@.len() != "nicovideo"@.len());
}

/// An embed address is the provider's player address followed by the ID
/// the element gives (for Spotify, its content type, a slash and the ID;
/// for Discord, the server ID and the theme `#dark` asks for); without the
/// ID it is the provider's error. YouTube embeds are built apart.
pub proof fn lemma_embed_address_carries_the_id(params: Seq<(Seq<char>, Seq<char>)>)
    ensures
        param_value(params, "id"@) matches Some(id) ==> embed_of(EmbedProvider::Vimeo, params)
            matches Some(Ok(u)) && starts_with(u, "https://player.vimeo.com/video/"@ + id),
        param_value(params, "id"@) matches Some(id) ==> embed_of(EmbedProvider::NicoVideo, params)
            matches Some(Ok(u)) && starts_with(u, "https://embed.nicovideo.jp/watch/"@ + id),
        param_value(params, "id"@) matches Some(id) ==> embed_of(EmbedProvider::Discord, params)
            == Some(Ok::<Seq<char>, Seq<char>>(
            "https://discord.com/widget?id="@ + id + "&theme="@ + if param_value(params, "dark"@)
                is Some {
                "dark"@
            } else {
                "light"@
            },
        )),
        spotify_content(params) matches Some((t, id)) ==> embed_of(EmbedProvider::Spotify, params)
            matches Some(Ok(u)) && starts_with(u, "https://open.spotify.com/embed/"@ + t + seq!['/'] + id),
        param_value(params, "id"@) is None ==> embed_of(EmbedProvider::Vimeo, params) == Some(
            Err::<Seq<char>, Seq<char>>("Vimeo: missing id parameter"@),
        ),
        param_value(params, "id"@) is None ==> embed_of(EmbedProvider::NicoVideo, params) == Some(
            Err::<Seq<char>, Seq<char>>("NicoNico: missing id parameter"@),
        ),
        param_value(params, "id"@) is None ==> embed_of(EmbedProvider::Discord, params) == Some(
            Err::<Seq<char>, Seq<char>>("Discord: missing id parameter"@),
        ),
        spotify_content(params) is None ==> embed_of(EmbedProvider::Spotify, params) matches Some(Err(_)),
        embed_of(EmbedProvider::YouTube, params) is None,
{
    if let Some(id) = param_value(params, "id"@) {
        let v = "https://player.vimeo.com/video/"@ + id;
        assert((v + query(vimeo_pieces(params))).subrange(0, v.len() as int) =~= v);
        let n = "https://embed.nicovideo.jp/watch/"@ + id;
        assert((n + query(nicovideo_pieces(params))).subrange(0, n.len() as int) =~= n);
    }
    if let Some((t, id)) = spotify_content(params) {
        let sp = "https://open.spotify.com/embed/"@ + t + seq!['/'] + id;
        assert((sp + query(spotify_pieces(params))).subrange(0, sp.len() as int) =~= sp);
    }
}

/// Each player option the element asks for is in the query of its embed:
/// Vimeo's privacy hash `#h`, `#autoplay`, `#loop`, `#mute`, `#color`
/// (without leading `#`) and `#dnt`; NicoNico's start time `#from` and
/// `#autoplay`; Spotify's dark theme `#dark` and cover-art view `#compact`.
/// Without any option there is no query.
pub proof fn lemma_embed_options_are_in_the_query(params: Seq<(Seq<char>, Seq<char>)>)
    ensures
        param_value(params, "h"@) matches Some(v) ==> vimeo_pieces(params).contains("h"@ + seq!['='] + v),
        param_value(params, "autoplay"@) is Some ==> vimeo_pieces(params).contains("autoplay=1"@),
        param_value(params, "loop"@) is Some ==> vimeo_pieces(params).contains("loop=1"@),
        param_value(params, "mute"@) is Some ==> vimeo_pieces(params).contains("muted=1"@),
        param_value(params, "color"@) matches Some(c) ==> vimeo_pieces(params).contains(
            "color="@ + strip_hashes(c),
        ),
        param_value(params, "dnt"@) is Some ==> vimeo_pieces(params).contains("dnt=1"@),
        (param_value(params, "h"@) is None && param_value(params, "autoplay"@) is None
            && param_value(params, "loop"@) is None && param_value(params, "mute"@) is None
            && param_value(params, "color"@) is None && param_value(params, "dnt"@) is None)
            ==> vimeo_pieces(params).len() == 0,
        param_value(params, "from"@) matches Some(v) ==> nicovideo_pieces(params).contains(
            "from"@ + seq!['='] + v,
        ),
        param_value(params, "autoplay"@) is Some ==> nicovideo_pieces(params).contains("autoplay=1"@),
        (param_value(params, "from"@) is None && param_value(params, "autoplay"@) is None)
            ==> nicovideo_pieces(params).len() == 0,
        param_value(params, "dark"@) is Some ==> spotify_pieces(params).contains("theme=0"@),
        param_value(params, "compact"@) is Some ==> spotify_pieces(params).contains("view=coverart"@),
        (param_value(params, "dark"@) is None && param_value(params, "compact"@) is None)
            ==> spotify_pieces(params).len() == 0,
{
    let a = value_piece(params, "h"@, "h"@);
    let b = flag_piece(params, "autoplay"@, "autoplay=1"@);
    let c = flag_piece(params, "loop"@, "loop=1"@);
    let d = flag_piece(params, "mute"@, "muted=1"@);
    let e = vimeo_color_piece(params);
    let f = flag_piece(params, "dnt"@, "dnt=1"@);
    let v = vimeo_pieces(params);
    assert(v == a + b + c + d + e + f);
    if param_value(params, "h"@) is Some {
        assert(v[0] == a[0]);
    }
    if param_value(params, "autoplay"@) is Some {
        assert(v[a.len() as int] == b[0]);
    }
    if param_value(params, "loop"@) is Some {
        assert(v[(a.len() + b.len()) as int] == c[0]);
    }
    if param_value(params, "mute"@) is Some {
        assert(v[(a.len() + b.len() + c.len()) as int] == d[0]);
    }
    if param_value(params, "color"@) is Some {
        assert(v[(a.len() + b.len() + c.len() + d.len()) as int] == e[0]);
    }
    if param_value(params, "dnt"@) is Some {
        assert(v[(a.len() + b.len() + c.len() + d.len() + e.len()) as int] == f[0]);
    }
    let na = value_piece(params, "from"@, "from"@);
    let nb = flag_piece(params, "autoplay"@, "autoplay=1"@);
    let n = nicovideo_pieces(params);
    if param_value(params, "from"@) is Some {
        assert(n[0] == na[0]);
    }
    if param_value(params, "autoplay"@) is Some {
        assert(n[na.len() as int] == nb[0]);
    }
    let sa = flag_piece(params, "dark"@, "theme=0"@);
    let sb = flag_piece(params, "compact"@, "view=coverart"@);
    let sp = spotify_pieces(params);
    if param_value(params, "dark"@) is Some {
        assert(sp[0] == sa[0]);
    }
    if param_value(params, "compact"@) is Some {
        assert(sp[sa.len() as int] == sb[0]);
    }
}

/// The view of an embed result.
pub open spec fn embed_view(r: Option<Result<String, String>>) -> Option<Result<Seq<char>, Seq<char>>> {
    match r {
        Some(Ok(u)) => Some(Ok(u@)),
        Some(Err(e)) => Some(Err(e@)),
        None => None,
    }
}

/// The embed URL or the error of a Vimeo, NicoNico, Spotify or Discord
/// element; nothing for YouTube, whose embeds are built apart.
pub fn embed_url(provider: EmbedProvider, parameters: &Parameters) -> (r: Option<Result<String, String>>)
    ensures
        embed_view(r) == embed_of(provider, parameters@),
{
    match provider {
        EmbedProvider::Discord => Some(
            match get_param(parameters, "id") {
                Some(id) => Ok(discord_embed_url(id.as_str(), parameters)),
                None => Err(String::from_str("Discord: missing id parameter")),
            },
        ),
        EmbedProvider::NicoVideo => Some(
            match get_param(parameters, "id") {
                Some(id) => Ok(nicovideo_embed_url(id.as_str(), parameters)),
                None => Err(String::from_str("NicoNico: missing id parameter")),
            },
        ),
        EmbedProvider::Vimeo => Some(
            match get_param(parameters, "id") {
                Some(id) => Ok(vimeo_embed_url(id.as_str(), parameters)),
                None => Err(String::from_str("Vimeo: missing id parameter")),
            },
        ),
        EmbedProvider::Spotify => Some(
            match get_content_type_and_id(parameters) {
                Some((kind, id)) => Ok(spotify_embed_url(kind, id.as_str(), parameters)),
                None => Err(
                    String::from_str(
                        "Spotify: missing content parameter (track, album, playlist, artist, episode, or show)",
                    ),
                ),
            },
        ),
        EmbedProvider::YouTube => None,
    }
}

} // verus!
