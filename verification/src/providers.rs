//! The indexer providers' own logic: which searches each provider serves,
//! the search URLs, and the conversion of what a provider returns into
//! releases. Fetching and reading the responses happens outside the library.

use vstd::prelude::*;
use crate::indexer::{clone_opt, query_text, MediaSearchType, Release, SearchQuery};
use crate::number::{i64_to_chars, int_display, nat_digits, parse_u64, parse_u64_spec, push_digits};
use crate::parser::{parse_music_release, parse_release_name, AudioFormat, Quality, Source};
use crate::error::AppError;
use crate::regexes::{ascii_to_upper, is_alphabetic, to_uppercase, uppercase};
use crate::text::{
    append_chars, chars_eq_str, chars_of, find_chars, first_occurrence, map_set, replace_set,
    occurs_at, slice_chars, string_of, strip_prefix_all, trim_whitespace, trim_ws, views, words,
    words_by,
    trim_start_matches, CharSet,
};

verus! {

// ---------------------------------------------------------------------------
// URL encoding
// ---------------------------------------------------------------------------

/// Bytes that percent-encoding leaves alone: ASCII letters and digits, `-`,
/// `.`, `_` and `~`.
pub open spec fn url_safe_byte(b: u8) -> bool {
    (48 <= b <= 57) || (65 <= b <= 90) || (97 <= b <= 122) || b == 45 || b == 46 || b == 95 || b
        == 126
}

/// Uppercase hexadecimal digit for a value below 16.
pub open spec fn hex_upper(d: u8) -> char {
    if d < 10 {
        ((d as int) + 48) as char
    } else {
        ((d as int) - 10 + 65) as char
    }
}

/// Percent-encoding of a byte sequence: safe bytes as themselves, every
/// other byte as `%` and two uppercase hexadecimal digits.
pub open spec fn percent_encode(bytes: Seq<u8>) -> Seq<char>
    decreases bytes.len(),
{
    if bytes.len() == 0 {
        Seq::<char>::empty()
    } else {
        let b = bytes.last();
        percent_encode(bytes.drop_last()) + if url_safe_byte(b) {
            seq![b as char]
        } else {
            seq!['%', hex_upper(b / 16), hex_upper(b % 16)]
        }
    }
}

/// Percent-encoding works byte by byte: the encoding of two byte strings
/// one after the other is their encodings one after the other; an ASCII
/// letter or digit, `-`, `.`, `_` or `~` stands for itself, and any other
/// byte becomes `%` and its two hexadecimal digits (uppercase), high
/// digit first, that read back as the byte.
pub proof fn lemma_percent_encode_bytewise(x: Seq<u8>, y: Seq<u8>, b: u8)
    ensures
        percent_encode(x + y) == percent_encode(x) + percent_encode(y),
        unreserved_char(b as char)
            ==> percent_encode(seq![b]) == seq![b as char],
        !unreserved_char(b as char)
            ==> percent_encode(seq![b]).len() == 3 && percent_encode(seq![b])[0] == '%' && {
            let hi = percent_encode(seq![b])[1];
            let lo = percent_encode(seq![b])[2];
            &&& ('0' <= hi <= '9' || 'A' <= hi <= 'F')
            &&& ('0' <= lo <= '9' || 'A' <= lo <= 'F')
            &&& upper_hex_value(hi) * 16 + upper_hex_value(lo) == b
        },
    decreases y.len(),
{
    if y.len() > 0 {
        lemma_percent_encode_bytewise(x, y.drop_last(), b);
        assert((x + y).drop_last() =~= x + y.drop_last());
        assert((x + y).last() == y.last());
    } else {
        assert(x + y =~= x);
        assert(percent_encode(y) =~= Seq::<char>::empty());
    }
    let one = seq![b];
    assert(one.drop_last() =~= Seq::<u8>::empty());
    assert(one.last() == b);
    assert(percent_encode(one.drop_last()) =~= Seq::<char>::empty());
    assert((b as char) as int == b as int);
    assert(url_safe_byte(b) <==> unreserved_char(b as char));
    if url_safe_byte(b) {
        assert(percent_encode(one) =~= seq![b as char]);
    } else {
        assert(percent_encode(one) =~= seq!['%', hex_upper(b / 16), hex_upper(b % 16)]);
        let h = b / 16;
        let l = b % 16;
        assert(b == h * 16 + l);
        assert(h < 10 ==> (hex_upper(h) as int) == h + 48);
        assert(h >= 10 ==> (hex_upper(h) as int) == h + 55);
        assert(l < 10 ==> (hex_upper(l) as int) == l + 48);
        assert(l >= 10 ==> (hex_upper(l) as int) == l + 55);
    }
}

/// An ASCII letter or digit, `-`, `.`, `_` or `~`.
pub open spec fn unreserved_char(c: char) -> bool {
    ('0' <= c && c <= '9') || ('A' <= c && c <= 'Z') || ('a' <= c && c <= 'z') || c == '-' || c
        == '.' || c == '_' || c == '~'
}

/// The value an uppercase hexadecimal digit stands for.
pub open spec fn upper_hex_value(c: char) -> int {
    if '0' <= c && c <= '9' {
        (c as int) - ('0' as int)
    } else {
        (c as int) - ('A' as int) + 10
    }
}

/// `urlencoding::encode`: percent-encodes every byte of the UTF-8 encoding
/// except ASCII letters and digits and `-`, `.`, `_`, `~`, with uppercase
/// hexadecimal digits, as the crate's source does.
#[verifier::external_body]
pub(crate) fn url_encode(s: &str) -> (r: String)
    ensures
        r@ == percent_encode(vstd::utf8::encode_utf8(s@)),
{
    urlencoding::encode(s).into_owned()
}

// ---------------------------------------------------------------------------
// Providers
// ---------------------------------------------------------------------------

/// The torrent indexers this library knows.
#[derive(Debug, Clone, Copy, PartialEq, Eq, Structural)]
pub enum ProviderKind {
    /// 1337x (HTML pages; movies, TV and music).
    Leetx,
    /// EZTV (JSON API; TV).
    Eztv,
    /// YTS (JSON API; movies).
    Yts,
    /// Rutracker (HTML pages; music).
    Rutracker,
}

impl ProviderKind {
    /// Display name of the provider.
    pub open spec fn name_spec(self) -> Seq<char> {
        match self {
            ProviderKind::Leetx => "1337x"@,
            ProviderKind::Eztv => "EZTV"@,
            ProviderKind::Yts => "YTS"@,
            ProviderKind::Rutracker => "Rutracker"@,
        }
    }

    /// Display name of the provider.
    pub fn name(&self) -> (r: &'static str)
        ensures
            r@ == self.name_spec(),
    {
        match self {
            ProviderKind::Leetx => "1337x",
            ProviderKind::Eztv => "EZTV",
            ProviderKind::Yts => "YTS",
            ProviderKind::Rutracker => "Rutracker",
        }
    }

    /// Whether the provider serves movie searches.
    pub fn supports_movies(&self) -> (r: bool)
        ensures
            r == (*self == ProviderKind::Leetx || *self == ProviderKind::Yts),
    {
        match self {
            ProviderKind::Leetx | ProviderKind::Yts => true,
            _ => false,
        }
    }

    /// Whether the provider serves TV searches.
    pub fn supports_tv(&self) -> (r: bool)
        ensures
            r == (*self == ProviderKind::Leetx || *self == ProviderKind::Eztv),
    {
        match self {
            ProviderKind::Leetx | ProviderKind::Eztv => true,
            _ => false,
        }
    }

    /// Whether the provider serves music searches.
    pub fn supports_music(&self) -> (r: bool)
        ensures
            r == (*self == ProviderKind::Leetx || *self == ProviderKind::Rutracker),
    {
        match self {
            ProviderKind::Leetx | ProviderKind::Rutracker => true,
            _ => false,
        }
    }
}

/// A provider takes part in a search when it serves the requested media
/// type; with no type given, every provider does.
pub fn provider_suits(
    media_type: Option<MediaSearchType>,
    movies: bool,
    tv: bool,
    music: bool,
) -> (r: bool)
    ensures
        r == (match media_type {
            Some(MediaSearchType::Movie) => movies,
            Some(MediaSearchType::TvEpisode) => tv,
            Some(MediaSearchType::MusicAlbum) => music,
            None => true,
        }),
{
    match media_type {
        Some(MediaSearchType::Movie) => movies,
        Some(MediaSearchType::TvEpisode) => tv,
        Some(MediaSearchType::MusicAlbum) => music,
        None => true,
    }
}

// ---------------------------------------------------------------------------
// Releases built from parsed release names
// ---------------------------------------------------------------------------

/// The identifier a provider gives a release.
pub open spec fn release_id(indexer: Seq<char>, title: Seq<char>, magnet: Seq<char>) -> Seq<char> {
    crate::indexer::hex_lower(crate::indexer::sha256(crate::indexer::id_material(indexer, title, magnet)).take(8))
}

/// The fields that `parse_release_name` gives a release: quality, source,
/// codec, audio, group and the PROPER and REPACK markers of its title.
pub open spec fn video_fields_of(r: Release, title: Seq<char>) -> bool {
    &&& r.quality == crate::parser::release_quality(title)
    &&& r.source == crate::parser::release_source(title)
    &&& r.codec.deep_view() == crate::parser::captured_upper(
        crate::regexes::regex_group(crate::parser::codec_re(), title, 1),
    )
    &&& r.audio.deep_view() == crate::parser::captured_upper(
        crate::regexes::regex_group(crate::parser::audio_re(), title, 1),
    )
    &&& r.group.deep_view() == crate::regexes::regex_group(crate::parser::group_re(), title, 1)
    &&& r.proper == crate::regexes::regex_found(crate::parser::proper_re(), title)
    &&& r.repack == crate::regexes::regex_found(crate::parser::repack_re(), title)
}

/// Builds a release from a video release title and what the indexer reports.
fn video_release(
    indexer: &str,
    title: String,
    magnet: String,
    size_bytes: u64,
    seeders: u32,
    leechers: u32,
    uploaded_at: Option<String>,
) -> (r: Release)
    ensures
        r.id@ == release_id(indexer@, title@, magnet@),
        r.title == title && r.magnet == magnet && r.indexer@ == indexer@,
        r.size_bytes == size_bytes && r.seeders == seeders && r.leechers == leechers,
        r.uploaded_at == uploaded_at,
        video_fields_of(r, title@),
{
    let parsed = parse_release_name(title.as_str());
    let id = Release::generate_id(indexer, title.as_str(), magnet.as_str());
    Release {
        id,
        title,
        indexer: string_of(chars_of(indexer).as_slice()),
        magnet,
        size_bytes,
        seeders,
        leechers,
        quality: parsed.quality,
        source: parsed.source,
        codec: parsed.codec,
        audio: parsed.audio,
        group: parsed.group,
        proper: parsed.proper,
        repack: parsed.repack,
        uploaded_at,
    }
}

// ---------------------------------------------------------------------------
// EZTV
// ---------------------------------------------------------------------------

/// A torrent as the EZTV API reports it.
pub struct EztvTorrent {
    pub id: i64,
    pub title: String,
    pub magnet_url: String,
    pub size_bytes: String,
    pub seeds: u32,
    pub peers: u32,
    pub date_released_unix: i64,
    pub season: Option<i32>,
    pub episode: Option<i32>,
    pub imdb_id: String,
}

/// The EZTV search URL: by IMDB number (without its `tt` prefixes) when
/// the query has an IMDB ID, else by the encoded query text.
pub open spec fn eztv_url(api_url: Seq<char>, q: SearchQuery) -> Seq<char> {
    match q.imdb_id {
        Some(id) => api_url + "?imdb_id="@ + strip_prefix_all(id@, "tt"@) + "&limit=50"@,
        None => api_url + "?limit=50&page=1&query="@ + percent_encode(
            vstd::utf8::encode_utf8(query_text(q.query@, q.year, q.season, q.episode)),
        ),
    }
}

/// Builds the EZTV search URL.
pub fn eztv_search_url(api_url: &str, query: &SearchQuery) -> (r: String)
    ensures
        r@ == eztv_url(api_url@, *query),
{
    let mut r = chars_of(api_url);
    match &query.imdb_id {
        Some(id) => {
            append_chars(&mut r, chars_of("?imdb_id=").as_slice());
            let num = trim_start_matches(chars_of(id.as_str()).as_slice(), chars_of("tt").as_slice());
            append_chars(&mut r, num.as_slice());
            append_chars(&mut r, chars_of("&limit=50").as_slice());
        },
        None => {
            append_chars(&mut r, chars_of("?limit=50&page=1&query=").as_slice());
            let text = query.build_query_string();
            let enc = url_encode(text.as_str());
            append_chars(&mut r, chars_of(enc.as_str()).as_slice());
        },
    }
    string_of(r.as_slice())
}

/// A torrent is kept when no episode is asked for, or when it is that
/// season and episode.
pub open spec fn eztv_keeps(t: EztvTorrent, season: Option<i32>, episode: Option<i32>) -> bool {
    match (season, episode) {
        (Some(s), Some(e)) => t.season == Some(s) && t.episode == Some(e),
        _ => true,
    }
}

/// `a - b`, or 0 when `b` is larger.
pub open spec fn saturating_sub(a: u32, b: u32) -> u32 {
    if a >= b {
        (a - b) as u32
    } else {
        0
    }
}

/// What an EZTV torrent becomes.
pub open spec fn eztv_release_of(r: Release, t: EztvTorrent) -> bool {
    &&& r.id@ == release_id("EZTV"@, t.title@, t.magnet_url@)
    &&& r.title == t.title && r.magnet == t.magnet_url && r.indexer@ == "EZTV"@
    &&& r.size_bytes == (match parse_u64_spec(t.size_bytes@) {
        Some(v) => v,
        None => 0,
    })
    &&& r.seeders == t.seeds && r.leechers == saturating_sub(t.peers, t.seeds)
    &&& r.uploaded_at.deep_view() == Some(int_display(t.date_released_unix as int))
    &&& video_fields_of(r, t.title@)
}

/// Converts the torrents of an EZTV answer into releases, keeping those of
/// the requested episode, in the order of the answer.
pub fn eztv_releases(torrents: &[EztvTorrent], query: &SearchQuery) -> (r: Vec<Release>)
    ensures
        r@.len() == torrents@.filter(|t: EztvTorrent| eztv_keeps(t, query.season, query.episode)).len(),
        forall|i: int| 0 <= i < r@.len() ==> eztv_release_of(
            #[trigger] r@[i],
            torrents@.filter(|t: EztvTorrent| eztv_keeps(t, query.season, query.episode))[i],
        ),
{
    let ghost keep = |t: EztvTorrent| eztv_keeps(t, query.season, query.episode);
    let ghost all = torrents@;
    let mut out: Vec<Release> = Vec::new();
    let mut k: usize = 0;
    assert(all.take(0).filter(keep) =~= Seq::<EztvTorrent>::empty());
    while k < torrents.len()
        invariant
            keep == (|t: EztvTorrent| eztv_keeps(t, query.season, query.episode)),
            all == torrents@,
            k <= torrents.len(),
            out@.len() == all.take(k as int).filter(keep).len(),
            forall|i: int| 0 <= i < out@.len() ==> eztv_release_of(
                #[trigger] out@[i],
                all.take(k as int).filter(keep)[i],
            ),
        decreases torrents.len() - k,
    {
        let t = &torrents[k];
        let ghost prev = all.take(k as int);
        assert(all.take(k + 1) =~= prev.push(*t));
        proof {
            prev.lemma_filter_push(*t, keep);
        }
        let keeps = match (query.season, query.episode) {
            (Some(s), Some(e)) => t.season == Some(s) && t.episode == Some(e),
            _ => true,
        };
        if keeps {
            let size_bytes = match parse_u64(chars_of(t.size_bytes.as_str()).as_slice()) {
                Some(v) => v,
                None => 0,
            };
            let leechers = if t.peers >= t.seeds {
                t.peers - t.seeds
            } else {
                0
            };
            let uploaded = Some(string_of(i64_to_chars(t.date_released_unix).as_slice()));
            let rel = video_release(
                "EZTV",
                t.title.clone(),
                t.magnet_url.clone(),
                size_bytes,
                t.seeds,
                leechers,
                uploaded,
            );
            out.push(rel);
        }
        k = k + 1;
    }
    assert(all.take(all.len() as int) =~= all);
    out
}

// ---------------------------------------------------------------------------
// YTS
// ---------------------------------------------------------------------------

/// The trackers YTS magnets announce to.
pub open spec fn yts_trackers() -> Seq<char> {
    "&tr=udp://open.demonii.com:1337/announce&tr=udp://tracker.openbittorrent.com:80&tr=udp://tracker.coppersurfer.tk:6969&tr=udp://glotorrents.pw:6969/announce&tr=udp://tracker.opentrackr.org:1337/announce&tr=udp://torrent.gresille.org:80/announce&tr=udp://p4p.arenabg.com:1337&tr=udp://tracker.leechers-paradise.org:6969"@
}

/// The magnet link of a YTS torrent: its hash, the encoded name and the
/// YTS trackers.
pub open spec fn yts_magnet(hash: Seq<char>, name: Seq<char>) -> Seq<char> {
    "magnet:?xt=urn:btih:"@ + hash + "&dn="@ + percent_encode(vstd::utf8::encode_utf8(name))
        + yts_trackers()
}

/// Builds the magnet link of a YTS torrent from its hash and name.
pub fn yts_build_magnet(hash: &str, name: &str) -> (r: String)
    ensures
        r@ == yts_magnet(hash@, name@),
{
    let mut r = chars_of("magnet:?xt=urn:btih:");
    append_chars(&mut r, chars_of(hash).as_slice());
    append_chars(&mut r, chars_of("&dn=").as_slice());
    let enc = url_encode(name);
    append_chars(&mut r, chars_of(enc.as_str()).as_slice());
    append_chars(
        &mut r,
        chars_of(
            "&tr=udp://open.demonii.com:1337/announce&tr=udp://tracker.openbittorrent.com:80&tr=udp://tracker.coppersurfer.tk:6969&tr=udp://glotorrents.pw:6969/announce&tr=udp://tracker.opentrackr.org:1337/announce&tr=udp://torrent.gresille.org:80/announce&tr=udp://p4p.arenabg.com:1337&tr=udp://tracker.leechers-paradise.org:6969",
        ).as_slice(),
    );
    string_of(r.as_slice())
}

/// The quality a YTS quality label names.
pub open spec fn yts_quality_of(s: Seq<char>) -> Quality {
    if s == "2160p"@ {
        Quality::P2160
    } else if s == "1080p"@ {
        Quality::P1080
    } else if s == "720p"@ {
        Quality::P720
    } else if s == "480p"@ {
        Quality::P480
    } else {
        Quality::Unknown
    }
}

/// A YTS quality label names the same resolution as the release-name
/// parser reads from that text.
pub proof fn lemma_yts_quality_agrees_with_parser(label: Seq<char>)
    ensures
        yts_quality_of(label) == Quality::of_lower(label),
{
}

/// Reads a YTS quality label (`2160p`, `1080p`, `720p`, `480p`).
pub fn yts_parse_quality(quality: &str) -> (r: Quality)
    ensures
        r == yts_quality_of(quality@),
{
    let q = chars_of(quality);
    if chars_eq_str(q.as_slice(), "2160p") {
        Quality::P2160
    } else if chars_eq_str(q.as_slice(), "1080p") {
        Quality::P1080
    } else if chars_eq_str(q.as_slice(), "720p") {
        Quality::P720
    } else if chars_eq_str(q.as_slice(), "480p") {
        Quality::P480
    } else {
        Quality::Unknown
    }
}

/// The YTS search URL: the encoded query text when there is one, the year
/// as a second query term when one is given, sorted by seeders.
pub open spec fn yts_url(api_url: Seq<char>, q: SearchQuery) -> Seq<char> {
    api_url + "?limit=50"@ + (if q.query@.len() > 0 {
        "&query_term="@ + percent_encode(vstd::utf8::encode_utf8(q.query@))
    } else {
        Seq::<char>::empty()
    }) + (match q.year {
        Some(y) => "&query_term="@ + int_display(y as int),
        None => Seq::<char>::empty(),
    }) + "&sort_by=seeds"@
}

/// Builds the YTS search URL.
pub fn yts_search_url(api_url: &str, query: &SearchQuery) -> (r: String)
    ensures
        r@ == yts_url(api_url@, *query),
{
    let mut r = chars_of(api_url);
    append_chars(&mut r, chars_of("?limit=50").as_slice());
    if !query.query.as_str().is_empty() {
        append_chars(&mut r, chars_of("&query_term=").as_slice());
        let enc = url_encode(query.query.as_str());
        append_chars(&mut r, chars_of(enc.as_str()).as_slice());
    }
    match query.year {
        Some(y) => {
            append_chars(&mut r, chars_of("&query_term=").as_slice());
            append_chars(&mut r, i64_to_chars(y as i64).as_slice());
        },
        None => {},
    }
    append_chars(&mut r, chars_of("&sort_by=seeds").as_slice());
    string_of(r.as_slice())
}

/// A movie as the YTS API reports it.
pub struct YtsMovie {
    pub id: i64,
    pub title: String,
    pub year: i32,
    pub imdb_code: String,
    pub torrents: Vec<YtsTorrent>,
}

/// One quality version of a YTS movie.
pub struct YtsTorrent {
    pub hash: String,
    pub quality: String,
    pub torrent_type: String,
    pub video_codec: Option<String>,
    pub audio_channels: String,
    pub size_bytes: u64,
    pub seeds: u32,
    pub peers: u32,
    pub date_uploaded: String,
}

/// The release title YTS torrents get: the movie title with its spaces
/// made dots, the year, the quality, the codec (x264 when none is given)
/// and `YTS`, joined by dots.
pub open spec fn yts_title(m: YtsMovie, t: YtsTorrent) -> Seq<char> {
    map_set(m.title@, CharSet::Single(' '), '.') + "."@ + int_display(m.year as int) + "."@
        + t.quality@ + "."@ + (match t.video_codec {
        Some(c) => c@,
        None => "x264"@,
    }) + ".YTS"@
}

/// What a YTS torrent of a movie becomes.
pub open spec fn yts_release_of(r: Release, m: YtsMovie, t: YtsTorrent) -> bool {
    &&& r.title@ == yts_title(m, t)
    &&& r.magnet@ == yts_magnet(t.hash@, yts_title(m, t))
    &&& r.id@ == release_id("YTS"@, r.title@, r.magnet@)
    &&& r.indexer@ == "YTS"@
    &&& r.size_bytes == t.size_bytes && r.seeders == t.seeds && r.leechers == t.peers
    &&& r.quality == yts_quality_of(t.quality@)
    &&& r.source == Source::BluRay
    &&& r.codec.deep_view() == t.video_codec.deep_view()
    &&& r.audio.deep_view() == Some(t.audio_channels@)
    &&& r.group.deep_view() == Some("YTS"@)
    &&& !r.proper && !r.repack
    &&& r.uploaded_at.deep_view() == Some(t.date_uploaded@)
}

/// Builds the release of one YTS torrent of a movie.
fn yts_release(m: &YtsMovie, t: &YtsTorrent) -> (r: Release)
    ensures
        yts_release_of(r, *m, *t),
{
    let mut title = replace_set(chars_of(m.title.as_str()).as_slice(), CharSet::Single(' '), '.');
    title.push('.');
    append_chars(&mut title, i64_to_chars(m.year as i64).as_slice());
    title.push('.');
    append_chars(&mut title, chars_of(t.quality.as_str()).as_slice());
    title.push('.');
    match &t.video_codec {
        Some(c) => append_chars(&mut title, chars_of(c.as_str()).as_slice()),
        None => append_chars(&mut title, chars_of("x264").as_slice()),
    }
    append_chars(&mut title, chars_of(".YTS").as_slice());
    proof {
        reveal_strlit(".");
    }
    assert(title@ =~= yts_title(*m, *t));
    let title = string_of(title.as_slice());
    let magnet = yts_build_magnet(t.hash.as_str(), title.as_str());
    let quality = yts_parse_quality(t.quality.as_str());
    let id = Release::generate_id("YTS", title.as_str(), magnet.as_str());
    let codec = clone_opt(&t.video_codec);
    let audio = Some(t.audio_channels.clone());
    let group = Some("YTS".to_owned());
    let uploaded_at = Some(t.date_uploaded.clone());
    assert(codec.deep_view() == t.video_codec.deep_view());
    assert(audio.deep_view() == Some(t.audio_channels@));
    assert(group.deep_view() == Some("YTS"@));
    Release {
        id,
        title,
        indexer: "YTS".to_owned(),
        magnet,
        size_bytes: t.size_bytes,
        seeders: t.seeds,
        leechers: t.peers,
        quality,
        source: Source::BluRay,
        codec,
        audio,
        group,
        proper: false,
        repack: false,
        uploaded_at,
    }
}

/// The torrents of a list of movies, each with its movie, movie by movie.
pub open spec fn yts_pairs(movies: Seq<YtsMovie>) -> Seq<(YtsMovie, YtsTorrent)>
    decreases movies.len(),
{
    if movies.len() == 0 {
        Seq::empty()
    } else {
        let m = movies.last();
        yts_pairs(movies.drop_last()) + m.torrents@.map_values(|t: YtsTorrent| (m, t))
    }
}

/// Converts a YTS answer into releases, one per torrent of each movie, in
/// the order of the answer; an answer whose status is not `ok` is an error
/// that carries the API's message.
pub fn yts_releases(status: &str, status_message: &str, movies: &[YtsMovie]) -> (r: Result<
    Vec<Release>,
    AppError,
>)
    ensures
        status@ != "ok"@ ==> (r matches Err(AppError::Internal(m)) && m@ == "YTS API error: "@
            + status_message@),
        status@ == "ok"@ ==> (r matches Ok(v) && v@.len() == yts_pairs(movies@).len() && (forall|
            i: int,
        |
            0 <= i < v@.len() ==> yts_release_of(
                #[trigger] v@[i],
                yts_pairs(movies@)[i].0,
                yts_pairs(movies@)[i].1,
            ))),
{
    if !chars_eq_str(chars_of(status).as_slice(), "ok") {
        let mut m = chars_of("YTS API error: ");
        append_chars(&mut m, chars_of(status_message).as_slice());
        return Err(AppError::Internal(string_of(m.as_slice())));
    }
    let ghost all = movies@;
    let mut out: Vec<Release> = Vec::new();
    let mut i: usize = 0;
    assert(all.take(0).len() == 0);
    while i < movies.len()
        invariant
            all == movies@,
            i <= movies.len(),
            out@.len() == yts_pairs(all.take(i as int)).len(),
            forall|k: int|
                0 <= k < out@.len() ==> yts_release_of(
                    #[trigger] out@[k],
                    yts_pairs(all.take(i as int))[k].0,
                    yts_pairs(all.take(i as int))[k].1,
                ),
        decreases movies.len() - i,
    {
        let m = &movies[i];
        let ghost base = out@.len();
        let ghost before = yts_pairs(all.take(i as int));
        let mut j: usize = 0;
        while j < m.torrents.len()
            invariant
                all == movies@,
                i < movies.len(),
                *m == all[i as int],
                j <= m.torrents@.len(),
                base == before.len(),
                before == yts_pairs(all.take(i as int)),
                out@.len() == base + j,
                forall|k: int|
                    0 <= k < base ==> yts_release_of(#[trigger] out@[k], before[k].0, before[k].1),
                forall|k: int|
                    base <= k < out@.len() ==> yts_release_of(
                        #[trigger] out@[k],
                        *m,
                        m.torrents@[k - base],
                    ),
            decreases m.torrents@.len() - j,
        {
            let rel = yts_release(m, &m.torrents[j]);
            out.push(rel);
            j = j + 1;
        }
        proof {
            let next = all.take(i + 1);
            assert(next.drop_last() =~= all.take(i as int));
            assert(next.last() == *m);
            let add = m.torrents@.map_values(|t: YtsTorrent| (*m, t));
            assert(yts_pairs(next) == before + add);
            assert forall|k: int| 0 <= k < out@.len() implies yts_release_of(
                #[trigger] out@[k],
                yts_pairs(next)[k].0,
                yts_pairs(next)[k].1,
            ) by {
                if k >= base {
                    assert((before + add)[k] == add[k - base]);
                } else {
                    assert((before + add)[k] == before[k]);
                }
            }
        }
        i = i + 1;
    }
    assert(all.take(all.len() as int) =~= all);
    Ok(out)
}

// ---------------------------------------------------------------------------
// Rutracker
// ---------------------------------------------------------------------------

/// The text a Rutracker search is made with: artist and album when both
/// are given, else the query.
pub open spec fn rutracker_text(q: SearchQuery) -> Seq<char> {
    match (q.artist, q.album) {
        (Some(artist), Some(album)) => artist@ + " "@ + album@,
        _ => q.query@,
    }
}

/// The Rutracker search URL, in its lossless music forum.
pub open spec fn rutracker_url(base_url: Seq<char>, q: SearchQuery) -> Seq<char> {
    base_url + "/forum/tracker.php?nm="@ + percent_encode(
        vstd::utf8::encode_utf8(rutracker_text(q)),
    ) + "&f=409"@
}

/// Builds the Rutracker search URL.
pub fn rutracker_search_url(base_url: &str, query: &SearchQuery) -> (r: String)
    ensures
        r@ == rutracker_url(base_url@, *query),
{
    let mut text: Vec<char> = Vec::new();
    match (&query.artist, &query.album) {
        (Some(artist), Some(album)) => {
            append_chars(&mut text, chars_of(artist.as_str()).as_slice());
            append_chars(&mut text, chars_of(" ").as_slice());
            append_chars(&mut text, chars_of(album.as_str()).as_slice());
        },
        _ => {
            append_chars(&mut text, chars_of(query.query.as_str()).as_slice());
        },
    }
    assert(text@ =~= rutracker_text(*query));
    let text = string_of(text.as_slice());
    let mut r = chars_of(base_url);
    append_chars(&mut r, chars_of("/forum/tracker.php?nm=").as_slice());
    let enc = url_encode(text.as_str());
    append_chars(&mut r, chars_of(enc.as_str()).as_slice());
    append_chars(&mut r, chars_of("&f=409").as_slice());
    string_of(r.as_slice())
}

/// Length of the run of ASCII digits at the start of `s`.
pub open spec fn digit_run(s: Seq<char>) -> nat
    decreases s.len(),
{
    if s.len() > 0 && '0' <= s[0] && s[0] <= '9' {
        1 + digit_run(s.drop_first())
    } else {
        0
    }
}

proof fn lemma_digit_run(s: Seq<char>, k: int)
    requires
        0 <= k <= s.len(),
        forall|j: int| 0 <= j < k ==> '0' <= #[trigger] s[j] && s[j] <= '9',
        k == s.len() || !('0' <= s[k] && s[k] <= '9'),
    ensures
        digit_run(s) == k,
    decreases k,
{
    if k > 0 {
        assert forall|j: int| 0 <= j < k - 1 implies '0' <= #[trigger] s.drop_first()[j]
            && s.drop_first()[j] <= '9' by {
            assert(s.drop_first()[j] == s[j + 1]);
        }
        if k < s.len() {
            assert(s.drop_first()[k - 1] == s[k]);
        }
        lemma_digit_run(s.drop_first(), k - 1);
    }
}

/// The topic number in a Rutracker link: the digits after the first `t=`.
pub open spec fn topic_id_of(href: Seq<char>) -> Option<Seq<char>> {
    match first_occurrence(href, "t="@) {
        Some(p) => {
            let rest = href.skip(p + 2);
            if digit_run(rest) > 0 {
                Some(rest.take(digit_run(rest) as int))
            } else {
                None
            }
        },
        None => None,
    }
}

/// Extracts the topic number from a Rutracker link such as
/// `viewtopic.php?t=1234567`.
pub fn extract_topic_id(href: &str) -> (r: Option<String>)
    ensures
        r.deep_view() == topic_id_of(href@),
{
    let s = chars_of(href);
    let pat = chars_of("t=");
    proof {
        reveal_strlit("t=");
    }
    assert(pat@.len() == 2);
    match find_chars(s.as_slice(), pat.as_slice()) {
        Some(pos) => {
            assert(occurs_at(s@, pat@, pos as int));
            let slen = s.len();
            assert(pos + 2 <= slen);
            let start = pos + 2;
            let mut end = start;
            while end < s.len() && '0' <= s[end] && s[end] <= '9'
                invariant
                    start <= end <= s.len(),
                    forall|j: int| start <= j < end ==> '0' <= #[trigger] s@[j] && s@[j] <= '9',
                decreases s.len() - end,
            {
                end = end + 1;
            }
            let ghost rest = s@.skip(start as int);
            proof {
                assert forall|j: int| 0 <= j < end - start implies '0' <= #[trigger] rest[j]
                    && rest[j] <= '9' by {
                    assert(rest[j] == s@[start + j]);
                }
                if end < s.len() {
                    assert(rest[end - start] == s@[end as int]);
                }
                lemma_digit_run(rest, end - start);
            }
            if end > start {
                let id = slice_chars(s.as_slice(), start, end);
                assert(id@ =~= rest.take(end - start));
                Some(string_of(id.as_slice()))
            } else {
                None
            }
        },
        None => None,
    }
}

/// `s` padded on the left with zeros to `width` characters.
pub open spec fn zero_padded(s: Seq<char>, width: nat) -> Seq<char> {
    if s.len() >= width {
        s
    } else {
        Seq::new((width - s.len()) as nat, |i: int| '0') + s
    }
}

/// The magnet link given to a Rutracker topic, whose real magnet needs a
/// login: a made-up hash from the topic number, the encoded title and the
/// Rutracker tracker.
pub open spec fn rutracker_magnet(topic_id: Seq<char>, title: Seq<char>) -> Seq<char> {
    "magnet:?xt=urn:btih:"@ + "RUTRACKER"@ + zero_padded(topic_id, 32) + "&dn="@
        + percent_encode(vstd::utf8::encode_utf8(title)) + "&tr=http://bt.t-ru.org/ann?magnet"@
}

/// Builds the magnet link of a Rutracker topic.
pub fn build_placeholder_magnet(topic_id: &str, title: &str) -> (r: String)
    ensures
        r@ == rutracker_magnet(topic_id@, title@),
{
    let id = chars_of(topic_id);
    let mut r = chars_of("magnet:?xt=urn:btih:");
    append_chars(&mut r, chars_of("RUTRACKER").as_slice());
    let mut pad: Vec<char> = Vec::new();
    if id.len() < 32 {
        let n: usize = 32 - id.len();
        while pad.len() < n
            invariant
                n == 32 - id@.len(),
                pad@.len() <= n,
                forall|j: int| 0 <= j < pad@.len() ==> pad@[j] == '0',
            decreases n - pad@.len(),
        {
            pad.push('0');
        }
    }
    append_chars(&mut pad, id.as_slice());
    assert(pad@ =~= zero_padded(topic_id@, 32));
    append_chars(&mut r, pad.as_slice());
    append_chars(&mut r, chars_of("&dn=").as_slice());
    let enc = url_encode(title);
    append_chars(&mut r, chars_of(enc.as_str()).as_slice());
    append_chars(&mut r, chars_of("&tr=http://bt.t-ru.org/ann?magnet").as_slice());
    string_of(r.as_slice())
}

/// The name an audio format is shown by.
pub open spec fn format_label_of(f: AudioFormat) -> Seq<char> {
    match f {
        AudioFormat::Flac => "Flac"@,
        AudioFormat::Mp3 => "Mp3"@,
        AudioFormat::Aac => "Aac"@,
        AudioFormat::Alac => "Alac"@,
        AudioFormat::Wav => "Wav"@,
        AudioFormat::Ogg => "Ogg"@,
        AudioFormat::Opus => "Opus"@,
        AudioFormat::Ape => "Ape"@,
        AudioFormat::Unknown => "Unknown"@,
    }
}

/// The name an audio format is shown by.
pub fn format_label(f: AudioFormat) -> (r: String)
    ensures
        r@ == format_label_of(f),
{
    match f {
        AudioFormat::Flac => "Flac".to_owned(),
        AudioFormat::Mp3 => "Mp3".to_owned(),
        AudioFormat::Aac => "Aac".to_owned(),
        AudioFormat::Alac => "Alac".to_owned(),
        AudioFormat::Wav => "Wav".to_owned(),
        AudioFormat::Ogg => "Ogg".to_owned(),
        AudioFormat::Opus => "Opus".to_owned(),
        AudioFormat::Ape => "Ape".to_owned(),
        AudioFormat::Unknown => "Unknown".to_owned(),
    }
}

/// A format's label, uppercased, reads back as that format: the label
/// names the format it shows.
pub proof fn lemma_format_label_reads_back(f: AudioFormat)
    requires
        f != AudioFormat::Unknown,
    ensures
        AudioFormat::of_upper(format_label_of(f).map_values(|c: char| ascii_to_upper(c))) == f,
{
    reveal_strlit("FLAC");
    assert("FLAC"@ =~= seq!['F', 'L', 'A', 'C']);
    reveal_strlit("MP3");
    assert("MP3"@ =~= seq!['M', 'P', '3']);
    reveal_strlit("AAC");
    assert("AAC"@ =~= seq!['A', 'A', 'C']);
    reveal_strlit("ALAC");
    assert("ALAC"@ =~= seq!['A', 'L', 'A', 'C']);
    reveal_strlit("WAV");
    assert("WAV"@ =~= seq!['W', 'A', 'V']);
    reveal_strlit("OGG");
    assert("OGG"@ =~= seq!['O', 'G', 'G']);
    reveal_strlit("OPUS");
    assert("OPUS"@ =~= seq!['O', 'P', 'U', 'S']);
    reveal_strlit("APE");
    assert("APE"@ =~= seq!['A', 'P', 'E']);
    match f {
        AudioFormat::Flac => {
            reveal_strlit("Flac");
            assert("Flac"@ =~= seq!['F', 'l', 'a', 'c']);
            reveal_strlit("FLAC");
            assert("FLAC"@ =~= seq!['F', 'L', 'A', 'C']);
            assert(format_label_of(f).map_values(|c: char| ascii_to_upper(c)) =~= "FLAC"@);
        },
        AudioFormat::Mp3 => {
            reveal_strlit("Mp3");
            assert("Mp3"@ =~= seq!['M', 'p', '3']);
            reveal_strlit("MP3");
            assert("MP3"@ =~= seq!['M', 'P', '3']);
            assert(format_label_of(f).map_values(|c: char| ascii_to_upper(c)) =~= "MP3"@);
        },
        AudioFormat::Aac => {
            reveal_strlit("Aac");
            assert("Aac"@ =~= seq!['A', 'a', 'c']);
            reveal_strlit("AAC");
            assert("AAC"@ =~= seq!['A', 'A', 'C']);
            assert(format_label_of(f).map_values(|c: char| ascii_to_upper(c)) =~= "AAC"@);
        },
        AudioFormat::Alac => {
            reveal_strlit("Alac");
            assert("Alac"@ =~= seq!['A', 'l', 'a', 'c']);
            reveal_strlit("ALAC");
            assert("ALAC"@ =~= seq!['A', 'L', 'A', 'C']);
            assert(format_label_of(f).map_values(|c: char| ascii_to_upper(c)) =~= "ALAC"@);
        },
        AudioFormat::Wav => {
            reveal_strlit("Wav");
            assert("Wav"@ =~= seq!['W', 'a', 'v']);
            reveal_strlit("WAV");
            assert("WAV"@ =~= seq!['W', 'A', 'V']);
            assert(format_label_of(f).map_values(|c: char| ascii_to_upper(c)) =~= "WAV"@);
        },
        AudioFormat::Ogg => {
            reveal_strlit("Ogg");
            assert("Ogg"@ =~= seq!['O', 'g', 'g']);
            reveal_strlit("OGG");
            assert("OGG"@ =~= seq!['O', 'G', 'G']);
            assert(format_label_of(f).map_values(|c: char| ascii_to_upper(c)) =~= "OGG"@);
        },
        AudioFormat::Opus => {
            reveal_strlit("Opus");
            assert("Opus"@ =~= seq!['O', 'p', 'u', 's']);
            reveal_strlit("OPUS");
            assert("OPUS"@ =~= seq!['O', 'P', 'U', 'S']);
            assert(format_label_of(f).map_values(|c: char| ascii_to_upper(c)) =~= "OPUS"@);
        },
        AudioFormat::Ape => {
            reveal_strlit("Ape");
            assert("Ape"@ =~= seq!['A', 'p', 'e']);
            reveal_strlit("APE");
            assert("APE"@ =~= seq!['A', 'P', 'E']);
            assert(format_label_of(f).map_values(|c: char| ascii_to_upper(c)) =~= "APE"@);
        },
        AudioFormat::Unknown => {},
    }
}

/// A row of a Rutracker result page.
pub struct PartialRelease {
    pub title: String,
    pub topic_id: String,
    pub seeders: u32,
    pub leechers: u32,
    pub size_bytes: u64,
}

/// The format label a music release title yields, if any.
pub open spec fn music_format_label(title: Seq<char>) -> Option<Seq<char>> {
    match crate::regexes::regex_group(crate::parser::audio_format_re(), title, 1) {
        Some(g) => Some(format_label_of(AudioFormat::of_upper(crate::regexes::uppercase(g)))),
        None => None,
    }
}

/// What a Rutracker row becomes.
pub open spec fn rutracker_release_of(r: Release, p: PartialRelease) -> bool {
    &&& r.title == p.title
    &&& r.magnet@ == rutracker_magnet(p.topic_id@, p.title@)
    &&& r.id@ == release_id("Rutracker"@, p.title@, r.magnet@)
    &&& r.indexer@ == "Rutracker"@
    &&& r.size_bytes == p.size_bytes && r.seeders == p.seeders && r.leechers == p.leechers
    &&& r.quality == Quality::Unknown && r.source == Source::Unknown
    &&& r.codec.deep_view() == music_format_label(p.title@)
    &&& r.audio.deep_view() == music_format_label(p.title@)
    &&& r.group.deep_view() == crate::regexes::regex_group(crate::parser::group_re(), p.title@, 1)
    &&& !r.proper && !r.repack
    &&& r.uploaded_at is None
}

/// Builds the release of a Rutracker row.
fn rutracker_release(p: &PartialRelease) -> (r: Release)
    ensures
        rutracker_release_of(r, *p),
{
    let parsed = parse_music_release(p.title.as_str());
    let magnet = build_placeholder_magnet(p.topic_id.as_str(), p.title.as_str());
    let id = Release::generate_id("Rutracker", p.title.as_str(), magnet.as_str());
    let codec = match parsed.audio_format {
        Some(f) => Some(format_label(f)),
        None => None,
    };
    let audio = match parsed.audio_format {
        Some(f) => Some(format_label(f)),
        None => None,
    };
    Release {
        id,
        title: p.title.clone(),
        indexer: "Rutracker".to_owned(),
        magnet,
        size_bytes: p.size_bytes,
        seeders: p.seeders,
        leechers: p.leechers,
        quality: Quality::Unknown,
        source: Source::Unknown,
        codec,
        audio,
        group: parsed.group,
        proper: false,
        repack: false,
        uploaded_at: None,
    }
}

/// Converts the rows of a Rutracker result page into releases, at most the
/// first 30, in page order.
pub fn rutracker_releases(rows: &[PartialRelease]) -> (r: Vec<Release>)
    ensures
        r@.len() == if rows@.len() < 30 { rows@.len() } else { 30 },
        forall|i: int| 0 <= i < r@.len() ==> rutracker_release_of(#[trigger] r@[i], rows@[i]),
{
    let n: usize = if rows.len() < 30 { rows.len() } else { 30 };
    let mut out: Vec<Release> = Vec::new();
    let mut k: usize = 0;
    while k < n
        invariant
            n <= rows@.len(),
            n == if rows@.len() < 30 { rows@.len() } else { 30 },
            k <= n,
            out@.len() == k,
            forall|i: int| 0 <= i < k ==> rutracker_release_of(#[trigger] out@[i], rows@[i]),
        decreases n - k,
    {
        out.push(rutracker_release(&rows[k]));
        k = k + 1;
    }
    out
}

// ---------------------------------------------------------------------------
// 1337x
// ---------------------------------------------------------------------------

/// The 1337x search URL: the category search when a media type is given,
/// the plain search otherwise, with the encoded query text, first page.
pub open spec fn leetx_url(base_url: Seq<char>, q: SearchQuery) -> Seq<char> {
    base_url + (match q.media_type {
        Some(_) => "/category-search"@,
        None => "/search"@,
    }) + "/"@ + percent_encode(
        vstd::utf8::encode_utf8(query_text(q.query@, q.year, q.season, q.episode)),
    ) + "/1/"@
}

/// Builds the 1337x search URL.
pub fn leetx_search_url(base_url: &str, query: &SearchQuery) -> (r: String)
    ensures
        r@ == leetx_url(base_url@, *query),
{
    let text = query.build_query_string();
    let enc = url_encode(text.as_str());
    let mut r = chars_of(base_url);
    match query.media_type {
        Some(_) => append_chars(&mut r, chars_of("/category-search").as_slice()),
        None => append_chars(&mut r, chars_of("/search").as_slice()),
    }
    append_chars(&mut r, chars_of("/").as_slice());
    append_chars(&mut r, chars_of(enc.as_str()).as_slice());
    append_chars(&mut r, chars_of("/1/").as_slice());
    string_of(r.as_slice())
}

/// How many 1337x results have their detail page fetched for a magnet.
pub const LEETX_MAX_RESULTS: usize = 20;

/// Builds the release of a 1337x result once its magnet link is known.
pub fn leetx_release(title: String, magnet: String, size_bytes: u64, seeders: u32, leechers: u32) -> (r:
    Release)
    ensures
        r.id@ == release_id("1337x"@, title@, magnet@),
        r.title == title && r.magnet == magnet && r.indexer@ == "1337x"@,
        r.size_bytes == size_bytes && r.seeders == seeders && r.leechers == leechers,
        r.uploaded_at is None,
        video_fields_of(r, title@),
{
    video_release("1337x", title, magnet, size_bytes, seeders, leechers, None)
}

// ---------------------------------------------------------------------------
// Human-readable sizes
// ---------------------------------------------------------------------------

/// Length of the run of characters satisfying `p` at the start of `s`.
pub open spec fn run_len(s: Seq<char>, p: spec_fn(char) -> bool) -> nat
    decreases s.len(),
{
    if s.len() > 0 && p(s[0]) {
        1 + run_len(s.drop_first(), p)
    } else {
        0
    }
}

proof fn lemma_run_len(s: Seq<char>, p: spec_fn(char) -> bool, k: int)
    requires
        0 <= k <= s.len(),
        forall|j: int| 0 <= j < k ==> #[trigger] p(s[j]),
        k == s.len() || !p(s[k]),
    ensures
        run_len(s, p) == k,
    decreases k,
{
    if k > 0 {
        assert forall|j: int| 0 <= j < k - 1 implies #[trigger] p(s.drop_first()[j]) by {
            assert(s.drop_first()[j] == s[j + 1]);
            assert(p(s[j + 1]));
        }
        if k < s.len() {
            assert(s.drop_first()[k - 1] == s[k]);
        }
        lemma_run_len(s.drop_first(), p, k - 1);
    }
}

/// Not alphabetic.
pub open spec fn non_alpha() -> spec_fn(char) -> bool {
    |c: char| !crate::regexes::alphabetic(c)
}

/// The number text and the unit text of a cleaned size string: its first
/// two words, or, when it is one word, the part before its first alphabetic
/// character and the rest; `None` when it has no words.
pub open spec fn size_fields(clean: Seq<char>) -> Option<(Seq<char>, Seq<char>)> {
    let parts = words_by(clean, CharSet::WhiteSpace);
    if parts.len() == 0 {
        None
    } else if parts.len() >= 2 {
        Some((parts[0], parts[1]))
    } else {
        let w = parts[0];
        let pos = run_len(w, non_alpha()) as int;
        Some((w.take(pos), w.skip(pos)))
    }
}

/// The byte multiplier of a size unit (binary kilo, mega, giga, tera; 1 for
/// bytes and for anything unknown); with `cyrillic`, the Russian unit
/// names count too.
pub open spec fn unit_multiplier(unit: Seq<char>, cyrillic: bool) -> u64 {
    if unit == "KB"@ || (cyrillic && unit == "КБ"@) {
        1024
    } else if unit == "MB"@ || (cyrillic && unit == "МБ"@) {
        1048576
    } else if unit == "GB"@ || (cyrillic && unit == "ГБ"@) {
        1073741824
    } else if unit == "TB"@ || (cyrillic && unit == "ТБ"@) {
        1099511627776
    } else {
        1
    }
}

/// The size units scale by 1024 at each step (a kilobyte is 1024 bytes,
/// then megabyte, gigabyte and terabyte), whether or not the Russian unit
/// names are read; reading them changes the multiplier of no other unit,
/// and each Russian name means what its Latin counterpart means.
pub proof fn lemma_units_scale_by_1024(unit: Seq<char>, cyrillic: bool)
    ensures
        !(unit == "КБ"@ || unit == "МБ"@ || unit == "ГБ"@ || unit == "ТБ"@) ==> unit_multiplier(
            unit,
            true,
        ) == unit_multiplier(unit, false),
        unit_multiplier("KB"@, cyrillic) == 1024,
        unit_multiplier("MB"@, cyrillic) == 1024 * unit_multiplier("KB"@, cyrillic),
        unit_multiplier("GB"@, cyrillic) == 1024 * unit_multiplier("MB"@, cyrillic),
        unit_multiplier("TB"@, cyrillic) == 1024 * unit_multiplier("GB"@, cyrillic),
        unit_multiplier("КБ"@, true) == unit_multiplier("KB"@, true),
        unit_multiplier("МБ"@, true) == unit_multiplier("MB"@, true),
        unit_multiplier("ГБ"@, true) == unit_multiplier("GB"@, true),
        unit_multiplier("ТБ"@, true) == unit_multiplier("TB"@, true),
{
    reveal_strlit("KB");
    assert("KB"@ =~= seq!['K', 'B']);
    reveal_strlit("MB");
    assert("MB"@ =~= seq!['M', 'B']);
    reveal_strlit("GB");
    assert("GB"@ =~= seq!['G', 'B']);
    reveal_strlit("TB");
    assert("TB"@ =~= seq!['T', 'B']);
    reveal_strlit("КБ");
    assert("КБ"@ =~= seq!['К', 'Б']);
    reveal_strlit("МБ");
    assert("МБ"@ =~= seq!['М', 'Б']);
    reveal_strlit("ГБ");
    assert("ГБ"@ =~= seq!['Г', 'Б']);
    reveal_strlit("ТБ");
    assert("ТБ"@ =~= seq!['Т', 'Б']);
}

/// Reads the multiplier of a size unit.
fn unit_multiplier_of(unit: &[char], cyrillic: bool) -> (r: u64)
    ensures
        r == unit_multiplier(unit@, cyrillic),
{
    if chars_eq_str(unit, "KB") || (cyrillic && chars_eq_str(unit, "КБ")) {
        1024
    } else if chars_eq_str(unit, "MB") || (cyrillic && chars_eq_str(unit, "МБ")) {
        1048576
    } else if chars_eq_str(unit, "GB") || (cyrillic && chars_eq_str(unit, "ГБ")) {
        1073741824
    } else if chars_eq_str(unit, "TB") || (cyrillic && chars_eq_str(unit, "ТБ")) {
        1099511627776
    } else {
        1
    }
}

/// Splits a cleaned size string into its number text and unit multiplier.
fn split_size(clean: &[char], cyrillic: bool) -> (r: Option<(String, u64)>)
    ensures
        r matches Some(p) ==> size_fields(clean@) matches Some(f) && p.0@ == f.0 && p.1
            == unit_multiplier(f.1, cyrillic),
        r is None <==> size_fields(clean@) is None,
{
    let parts = words(clean, CharSet::WhiteSpace);
    assert(views(parts@) == words_by(clean@, CharSet::WhiteSpace));
    if parts.len() == 0 {
        return None;
    }
    assert(parts@[0]@ == views(parts@)[0]);
    if parts.len() >= 2 {
        assert(parts@[1]@ == views(parts@)[1]);
        let m = unit_multiplier_of(parts[1].as_slice(), cyrillic);
        return Some((string_of(parts[0].as_slice()), m));
    }
    let w = &parts[0];
    let mut pos: usize = 0;
    while pos < w.len() && !is_alphabetic(w[pos])
        invariant
            pos <= w@.len(),
            forall|j: int| 0 <= j < pos ==> #[trigger] non_alpha()(w@[j]),
        decreases w@.len() - pos,
    {
        pos = pos + 1;
    }
    proof {
        lemma_run_len(w@, non_alpha(), pos as int);
    }
    let num = slice_chars(w.as_slice(), 0, pos);
    let unit = slice_chars(w.as_slice(), pos, w.len());
    assert(num@ =~= w@.take(pos as int));
    assert(unit@ =~= w@.skip(pos as int));
    let m = unit_multiplier_of(unit.as_slice(), cyrillic);
    Some((string_of(num.as_slice()), m))
}

/// The number text and byte multiplier of a 1337x size such as `1.5 GB`
/// or `500MB`: the string trimmed and uppercased, then split.
pub fn size_parts(size_str: &str) -> (r: Option<(String, u64)>)
    ensures
        r matches Some(p) ==> size_fields(uppercase(trim_ws(size_str@))) matches Some(f) && p.0@
            == f.0 && p.1 == unit_multiplier(f.1, false),
        r is None <==> size_fields(uppercase(trim_ws(size_str@))) is None,
{
    let trimmed = string_of(trim_whitespace(chars_of(size_str).as_slice()).as_slice());
    let upper = to_uppercase(trimmed.as_str());
    split_size(chars_of(upper.as_str()).as_slice(), false)
}

/// The cleaning Rutracker sizes get: no-break spaces as spaces and decimal
/// commas as points.
pub open spec fn ru_clean(s: Seq<char>) -> Seq<char> {
    map_set(map_set(s, CharSet::Single('\u{a0}'), ' '), CharSet::Single(','), '.')
}

/// The number text and byte multiplier of a Rutracker size such as
/// `1,5 ГБ`: the string trimmed, uppercased and cleaned, then split with
/// the Russian unit names too.
pub fn size_parts_russian(size_str: &str) -> (r: Option<(String, u64)>)
    ensures
        r matches Some(p) ==> size_fields(ru_clean(uppercase(trim_ws(size_str@)))) matches Some(
            f,
        ) && p.0@ == f.0 && p.1 == unit_multiplier(f.1, true),
        r is None <==> size_fields(ru_clean(uppercase(trim_ws(size_str@)))) is None,
{
    let trimmed = string_of(trim_whitespace(chars_of(size_str).as_slice()).as_slice());
    let upper = to_uppercase(trimmed.as_str());
    let a = replace_set(chars_of(upper.as_str()).as_slice(), CharSet::Single('\u{a0}'), ' ');
    let b = replace_set(a.as_slice(), CharSet::Single(','), '.');
    split_size(b.as_slice(), true)
}

// ---------------------------------------------------------------------------
// The indexer manager
// ---------------------------------------------------------------------------

/// What a torrent indexer offers: its name and the kinds of media it can
/// search for.
pub trait IndexerProvider {
    /// Name of this indexer.
    fn name(&self) -> &'static str;

    /// Whether this indexer serves movie searches.
    fn supports_movies(&self) -> bool;

    /// Whether this indexer serves TV searches.
    fn supports_tv(&self) -> bool;

    /// Whether this indexer serves music searches.
    fn supports_music(&self) -> bool;
}

impl IndexerProvider for ProviderKind {
    fn name(&self) -> (r: &'static str)
        ensures
            r@ == self.name_spec(),
    {
        ProviderKind::name(self)
    }

    fn supports_movies(&self) -> (r: bool)
        ensures
            r == (*self == ProviderKind::Leetx || *self == ProviderKind::Yts),
    {
        ProviderKind::supports_movies(self)
    }

    fn supports_tv(&self) -> (r: bool)
        ensures
            r == (*self == ProviderKind::Leetx || *self == ProviderKind::Eztv),
    {
        ProviderKind::supports_tv(self)
    }

    fn supports_music(&self) -> (r: bool)
        ensures
            r == (*self == ProviderKind::Leetx || *self == ProviderKind::Rutracker),
    {
        ProviderKind::supports_music(self)
    }
}

/// Whether a provider takes part in a search for the given media type.
pub open spec fn suits(p: ProviderKind, media_type: Option<MediaSearchType>) -> bool {
    match media_type {
        Some(MediaSearchType::Movie) => p == ProviderKind::Leetx || p == ProviderKind::Yts,
        Some(MediaSearchType::TvEpisode) => p == ProviderKind::Leetx || p == ProviderKind::Eztv,
        Some(MediaSearchType::MusicAlbum) => p == ProviderKind::Leetx || p
            == ProviderKind::Rutracker,
        None => true,
    }
}

/// Coordinates searches across several indexers.
pub struct IndexerManager {
    providers: Vec<ProviderKind>,
}

impl IndexerManager {
    /// The registered providers.
    pub closed spec fn providers_spec(&self) -> Seq<ProviderKind> {
        self.providers@
    }

    /// A manager with the default providers: 1337x, EZTV, YTS and Rutracker.
    pub fn new() -> (r: Self)
        ensures
            r.providers_spec() == seq![
                ProviderKind::Leetx,
                ProviderKind::Eztv,
                ProviderKind::Yts,
                ProviderKind::Rutracker,
            ],
    {
        IndexerManager {
            providers: vec![
                ProviderKind::Leetx,
                ProviderKind::Eztv,
                ProviderKind::Yts,
                ProviderKind::Rutracker,
            ],
        }
    }

    /// A manager with the given providers.
    pub fn with_providers(providers: Vec<ProviderKind>) -> (r: Self)
        ensures
            r.providers_spec() == providers@,
    {
        IndexerManager { providers }
    }

    /// A manager with the default providers, shared.
    pub fn new_shared() -> (r: std::sync::Arc<Self>)
        ensures
            r.providers_spec() == seq![
                ProviderKind::Leetx,
                ProviderKind::Eztv,
                ProviderKind::Yts,
                ProviderKind::Rutracker,
            ],
    {
        std::sync::Arc::new(Self::new())
    }

    /// The registered providers.
    pub fn providers(&self) -> (r: &[ProviderKind])
        ensures
            r@ == self.providers_spec(),
    {
        self.providers.as_slice()
    }

    /// The providers that take part in a search, in registration order.
    pub fn suitable_providers(&self, query: &SearchQuery) -> (r: Vec<ProviderKind>)
        ensures
            r@ == self.providers_spec().filter(|p: ProviderKind| suits(p, query.media_type)),
    {
        let ghost keep = |p: ProviderKind| suits(p, query.media_type);
        let ghost all = self.providers@;
        let mut r: Vec<ProviderKind> = Vec::new();
        let mut i: usize = 0;
        while i < self.providers.len()
            invariant
                keep == (|p: ProviderKind| suits(p, query.media_type)),
                all == self.providers@,
                i <= all.len(),
                r@ == all.take(i as int).filter(keep),
            decreases all.len() - i,
        {
            let p = self.providers[i];
            assert(all.take(i + 1) =~= all.take(i as int).push(p));
            proof {
                all.take(i as int).lemma_filter_push(p, keep);
            }
            if provider_suits(query.media_type, p.supports_movies(), p.supports_tv(), p.supports_music()) {
                r.push(p);
            }
            i = i + 1;
        }
        assert(all.take(all.len() as int) =~= all);
        r
    }
}

} // verus!
