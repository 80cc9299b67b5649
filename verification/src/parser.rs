//! Release-name parsing: quality, source, codecs and music metadata
//! extracted from torrent release names.
//!
//! The regular expressions are this module's grammar; matching them is
//! done by the `regex` crate (see `regexes`). Everything done with the
//! matched text is specified here exactly.

use vstd::prelude::*;
use crate::number::{parse_i32, parse_i32_spec, parse_u32, parse_u32_spec};
use crate::regexes::{
    lowercase, regex_capture, regex_found, regex_group, regex_is_match, to_lowercase,
    to_uppercase, uppercase,
};
use crate::text::{
    append_chars, chars_eq_str, chars_of, find_chars, find_in, find_set, first_occurrence,
    join_first, join_seqs, map_set, replace_set, set_pred, slice_chars, string_of, trim_by,
    trim_end_by, trim_end_set, trim_set, trim_ws, views, words, words_by, CharSet,
};

verus! {

// ---------------------------------------------------------------------------
// Patterns
// ---------------------------------------------------------------------------

/// Video resolution.
pub open spec fn quality_re() -> Seq<char> {
    "(?i)(2160p|1080p|720p|480p)"@
}

/// Video source.
pub open spec fn source_re() -> Seq<char> {
    "(?i)(BluRay|Blu-Ray|BDRip|BRRip|WEB-DL|WEBDL|WEBRip|WEB|HDTV|DVDRip|DVD|CAM|TS|TELESYNC|HDCAM|SCR|SCREENER)"@
}

/// Season and episode numbers.
pub open spec fn season_episode_re() -> Seq<char> {
    "(?i)S(\\d{1,2})E(\\d{1,2})"@
}

/// A four-digit year between separators.
pub open spec fn year_re() -> Seq<char> {
    "[.\\s\\(\\[](\\d{4})[.\\s\\)\\]]"@
}

/// A four-digit year as a whole word.
pub open spec fn plain_year_re() -> Seq<char> {
    "\\b(\\d{4})\\b"@
}

/// Video codec.
pub open spec fn codec_re() -> Seq<char> {
    "(?i)(x264|x265|HEVC|H\\.?264|H\\.?265|AVC|XviD|DivX)"@
}

/// Audio codec.
pub open spec fn audio_re() -> Seq<char> {
    "(?i)(AAC|AC3|DD5\\.?1|DTS|DTS-HD|Atmos|TrueHD|FLAC|MP3|EAC3|E-AC-3)"@
}

/// Release group at the end of the name.
pub open spec fn group_re() -> Seq<char> {
    "-([A-Za-z0-9]+)(?:\\.[a-zA-Z]{2,4})?$"@
}

/// PROPER marker.
pub open spec fn proper_re() -> Seq<char> {
    "(?i)\\bPROPER\\b"@
}

/// REPACK marker.
pub open spec fn repack_re() -> Seq<char> {
    "(?i)\\bREPACK\\b"@
}

/// Music audio format.
pub open spec fn audio_format_re() -> Seq<char> {
    "(?i)\\b(FLAC|MP3|AAC|ALAC|WAV|OGG|OPUS|APE)\\b"@
}

/// Music bitrate.
pub open spec fn bitrate_re() -> Seq<char> {
    "(?i)\\b(320|256|192|128|V0|V1|V2)\\s*k?(?:bps)?\\b"@
}

/// Music sample rate.
pub open spec fn sample_rate_re() -> Seq<char> {
    "(?i)(44\\.1|48|96|192)\\s*kHz"@
}

/// Music bit depth.
pub open spec fn bit_depth_re() -> Seq<char> {
    "(?i)(16|24|32)\\s*(?:-)?bit"@
}

/// Music source medium.
pub open spec fn music_source_re() -> Seq<char> {
    "(?i)\\b(CD|WEB|Vinyl|Cassette|DAT|SACD|DVD-A)\\b"@
}

/// Title of a movie or show: everything before a year, an episode tag or a resolution.
pub open spec fn title_re() -> Seq<char> {
    "^(.+?)(?:\\.|_|-|\\s)(?:\\d{4}|S\\d{1,2}E\\d{1,2}|2160p|1080p|720p|480p)"@
}

// ---------------------------------------------------------------------------
// Quality, source and format enums
// ---------------------------------------------------------------------------

/// Video quality resolution.
#[derive(Debug, Clone, Copy, PartialEq, Eq, Structural)]
pub enum Quality {
    P2160,
    P1080,
    P720,
    P480,
    Unknown,
}

impl Quality {
    /// The quality named by an already lowercased string.
    pub open spec fn of_lower(s: Seq<char>) -> Quality {
        if s == "2160p"@ {
            Quality::P2160
        } else if s == "1080p"@ {
            Quality::P1080
        } else if s == "720p"@ {
            Quality::P720
        } else if s == "480p"@ {
            Quality::P480
        } else {
            Quality::Unknown
        }
    }

    /// Maps a lowercased quality name to its quality.
    pub fn from_lowercase(s: &str) -> (r: Quality)
        ensures
            r == Quality::of_lower(s@),
    {
        let v = chars_of(s);
        if chars_eq_str(v.as_slice(), "2160p") {
            Quality::P2160
        } else if chars_eq_str(v.as_slice(), "1080p") {
            Quality::P1080
        } else if chars_eq_str(v.as_slice(), "720p") {
            Quality::P720
        } else if chars_eq_str(v.as_slice(), "480p") {
            Quality::P480
        } else {
            Quality::Unknown
        }
    }

    /// Parses a quality from its name, ignoring case.
    pub fn from_str(s: &str) -> (r: Quality)
        ensures
            r == Quality::of_lower(lowercase(s@)),
    {
        let lower = to_lowercase(s);
        Quality::from_lowercase(lower.as_str())
    }

    /// Numerical score for comparing qualities (higher is better).
    pub open spec fn score_spec(self) -> u32 {
        match self {
            Quality::P2160 => 4,
            Quality::P1080 => 3,
            Quality::P720 => 2,
            Quality::P480 => 1,
            Quality::Unknown => 0,
        }
    }

    /// Numerical score for comparing qualities (higher is better).
    pub fn score(&self) -> (r: u32)
        ensures
            r == self.score_spec(),
    {
        match self {
            Quality::P2160 => 4,
            Quality::P1080 => 3,
            Quality::P720 => 2,
            Quality::P480 => 1,
            Quality::Unknown => 0,
        }
    }
}

/// Video source type.
#[derive(Debug, Clone, Copy, PartialEq, Eq, Structural)]
pub enum Source {
    BluRay,
    WebDl,
    WebRip,
    Hdtv,
    DvdRip,
    Cam,
    Screener,
    Unknown,
}

impl Source {
    /// The source named by an already uppercased string.
    pub open spec fn of_upper(s: Seq<char>) -> Source {
        if s == "BLURAY"@ || s == "BLU-RAY"@ || s == "BDRIP"@ || s == "BRRIP"@ {
            Source::BluRay
        } else if s == "WEB-DL"@ || s == "WEBDL"@ || s == "WEB"@ {
            Source::WebDl
        } else if s == "WEBRIP"@ {
            Source::WebRip
        } else if s == "HDTV"@ {
            Source::Hdtv
        } else if s == "DVDRIP"@ || s == "DVD"@ {
            Source::DvdRip
        } else if s == "CAM"@ || s == "TS"@ || s == "TELESYNC"@ || s == "HDCAM"@ {
            Source::Cam
        } else if s == "SCR"@ || s == "SCREENER"@ {
            Source::Screener
        } else {
            Source::Unknown
        }
    }

    /// Maps an uppercased source name to its source.
    pub fn from_uppercase(s: &str) -> (r: Source)
        ensures
            r == Source::of_upper(s@),
    {
        let v = chars_of(s);
        let v = v.as_slice();
        if chars_eq_str(v, "BLURAY") || chars_eq_str(v, "BLU-RAY") || chars_eq_str(v, "BDRIP")
            || chars_eq_str(v, "BRRIP") {
            Source::BluRay
        } else if chars_eq_str(v, "WEB-DL") || chars_eq_str(v, "WEBDL") || chars_eq_str(v, "WEB") {
            Source::WebDl
        } else if chars_eq_str(v, "WEBRIP") {
            Source::WebRip
        } else if chars_eq_str(v, "HDTV") {
            Source::Hdtv
        } else if chars_eq_str(v, "DVDRIP") || chars_eq_str(v, "DVD") {
            Source::DvdRip
        } else if chars_eq_str(v, "CAM") || chars_eq_str(v, "TS") || chars_eq_str(v, "TELESYNC")
            || chars_eq_str(v, "HDCAM") {
            Source::Cam
        } else if chars_eq_str(v, "SCR") || chars_eq_str(v, "SCREENER") {
            Source::Screener
        } else {
            Source::Unknown
        }
    }

    /// Parses a source from its name, ignoring case.
    pub fn from_str(s: &str) -> (r: Source)
        ensures
            r == Source::of_upper(uppercase(s@)),
    {
        let upper = to_uppercase(s);
        Source::from_uppercase(upper.as_str())
    }

    /// Numerical score for comparing sources (higher is better).
    pub open spec fn score_spec(self) -> u32 {
        match self {
            Source::BluRay => 5,
            Source::WebDl => 4,
            Source::WebRip => 3,
            Source::Hdtv => 3,
            Source::DvdRip => 2,
            Source::Screener => 1,
            Source::Cam => 0,
            Source::Unknown => 0,
        }
    }

    /// Numerical score for comparing sources (higher is better).
    pub fn score(&self) -> (r: u32)
        ensures
            r == self.score_spec(),
    {
        match self {
            Source::BluRay => 5,
            Source::WebDl => 4,
            Source::WebRip => 3,
            Source::Hdtv => 3,
            Source::DvdRip => 2,
            Source::Screener => 1,
            Source::Cam => 0,
            Source::Unknown => 0,
        }
    }
}

/// Audio format of a music release.
#[derive(Debug, Clone, Copy, PartialEq, Eq, Structural)]
pub enum AudioFormat {
    Flac,
    Mp3,
    Aac,
    Alac,
    Wav,
    Ogg,
    Opus,
    Ape,
    Unknown,
}

impl AudioFormat {
    /// The format named by an already uppercased string.
    pub open spec fn of_upper(s: Seq<char>) -> AudioFormat {
        if s == "FLAC"@ {
            AudioFormat::Flac
        } else if s == "MP3"@ {
            AudioFormat::Mp3
        } else if s == "AAC"@ {
            AudioFormat::Aac
        } else if s == "ALAC"@ {
            AudioFormat::Alac
        } else if s == "WAV"@ {
            AudioFormat::Wav
        } else if s == "OGG"@ {
            AudioFormat::Ogg
        } else if s == "OPUS"@ {
            AudioFormat::Opus
        } else if s == "APE"@ {
            AudioFormat::Ape
        } else {
            AudioFormat::Unknown
        }
    }

    /// Maps an uppercased format name to its format.
    pub fn from_uppercase(s: &str) -> (r: AudioFormat)
        ensures
            r == AudioFormat::of_upper(s@),
    {
        let v = chars_of(s);
        let v = v.as_slice();
        if chars_eq_str(v, "FLAC") {
            AudioFormat::Flac
        } else if chars_eq_str(v, "MP3") {
            AudioFormat::Mp3
        } else if chars_eq_str(v, "AAC") {
            AudioFormat::Aac
        } else if chars_eq_str(v, "ALAC") {
            AudioFormat::Alac
        } else if chars_eq_str(v, "WAV") {
            AudioFormat::Wav
        } else if chars_eq_str(v, "OGG") {
            AudioFormat::Ogg
        } else if chars_eq_str(v, "OPUS") {
            AudioFormat::Opus
        } else if chars_eq_str(v, "APE") {
            AudioFormat::Ape
        } else {
            AudioFormat::Unknown
        }
    }

    /// Parses an audio format from its name, ignoring case.
    pub fn from_str(s: &str) -> (r: AudioFormat)
        ensures
            r == AudioFormat::of_upper(uppercase(s@)),
    {
        let upper = to_uppercase(s);
        AudioFormat::from_uppercase(upper.as_str())
    }

    /// FLAC, ALAC, WAV and APE are lossless.
    pub open spec fn lossless(self) -> bool {
        self == AudioFormat::Flac || self == AudioFormat::Alac || self == AudioFormat::Wav || self
            == AudioFormat::Ape
    }

    /// Whether this is a lossless format.
    pub fn is_lossless(&self) -> (r: bool)
        ensures
            r == self.lossless(),
    {
        match self {
            AudioFormat::Flac | AudioFormat::Alac | AudioFormat::Wav | AudioFormat::Ape => true,
            _ => false,
        }
    }
}

/// Source medium of a music release.
#[derive(Debug, Clone, Copy, PartialEq, Eq, Structural)]
pub enum MusicSource {
    Cd,
    Web,
    Vinyl,
    Cassette,
    Unknown,
}

impl MusicSource {
    /// The medium named by an already uppercased string.
    pub open spec fn of_upper(s: Seq<char>) -> MusicSource {
        if s == "CD"@ || s == "SACD"@ || s == "DVD-A"@ {
            MusicSource::Cd
        } else if s == "WEB"@ {
            MusicSource::Web
        } else if s == "VINYL"@ {
            MusicSource::Vinyl
        } else if s == "CASSETTE"@ || s == "DAT"@ {
            MusicSource::Cassette
        } else {
            MusicSource::Unknown
        }
    }

    /// Maps an uppercased medium name to its medium.
    pub fn from_uppercase(s: &str) -> (r: MusicSource)
        ensures
            r == MusicSource::of_upper(s@),
    {
        let v = chars_of(s);
        let v = v.as_slice();
        if chars_eq_str(v, "CD") || chars_eq_str(v, "SACD") || chars_eq_str(v, "DVD-A") {
            MusicSource::Cd
        } else if chars_eq_str(v, "WEB") {
            MusicSource::Web
        } else if chars_eq_str(v, "VINYL") {
            MusicSource::Vinyl
        } else if chars_eq_str(v, "CASSETTE") || chars_eq_str(v, "DAT") {
            MusicSource::Cassette
        } else {
            MusicSource::Unknown
        }
    }

    /// Parses a music source from its name, ignoring case.
    pub fn from_str(s: &str) -> (r: MusicSource)
        ensures
            r == MusicSource::of_upper(uppercase(s@)),
    {
        let upper = to_uppercase(s);
        MusicSource::from_uppercase(upper.as_str())
    }
}


// ---------------------------------------------------------------------------
// Parsed releases
// ---------------------------------------------------------------------------

/// Release information extracted from a release name.
pub struct ParsedRelease {
    /// Extracted title (movie or show name).
    pub title: String,
    /// Release year.
    pub year: Option<i32>,
    /// Season number (TV).
    pub season: Option<i32>,
    /// Episode number (TV).
    pub episode: Option<i32>,
    /// Video resolution.
    pub quality: Quality,
    /// Video source.
    pub source: Source,
    /// Video codec.
    pub codec: Option<String>,
    /// Audio codec.
    pub audio: Option<String>,
    /// Release group name.
    pub group: Option<String>,
    /// Whether this is a PROPER release.
    pub proper: bool,
    /// Whether this is a REPACK release.
    pub repack: bool,
    /// Artist name (music).
    pub artist: Option<String>,
    /// Album name (music).
    pub album: Option<String>,
    /// Audio format (music).
    pub audio_format: Option<AudioFormat>,
    /// Bitrate in kbps (music).
    pub bitrate: Option<u32>,
    /// Sample rate (music), such as `96kHz`.
    pub sample_rate: Option<String>,
    /// Bit depth (music).
    pub bit_depth: Option<u32>,
    /// Source medium (music).
    pub music_source: Option<MusicSource>,
}

impl Default for ParsedRelease {
    fn default() -> (r: Self)
        ensures
            r.title@ == Seq::<char>::empty(),
            r.year is None && r.season is None && r.episode is None,
            r.quality == Quality::Unknown && r.source == Source::Unknown,
            r.codec is None && r.audio is None && r.group is None,
            !r.proper && !r.repack,
            r.artist is None && r.album is None && r.audio_format is None,
            r.bitrate is None && r.sample_rate is None && r.bit_depth is None,
            r.music_source is None,
    {
        ParsedRelease {
            title: String::new(),
            year: None,
            season: None,
            episode: None,
            quality: Quality::Unknown,
            source: Source::Unknown,
            codec: None,
            audio: None,
            group: None,
            proper: false,
            repack: false,
            artist: None,
            album: None,
            audio_format: None,
            bitrate: None,
            sample_rate: None,
            bit_depth: None,
            music_source: None,
        }
    }
}

/// A captured year, if it parses and lies in `lo..=hi`.
pub open spec fn year_between(g: Option<Seq<char>>, lo: int, hi: int) -> Option<i32> {
    match g {
        Some(y) => match parse_i32_spec(y) {
            Some(v) => if lo <= v <= hi {
                Some(v)
            } else {
                None
            },
            None => None,
        },
        None => None,
    }
}

/// A captured number parsed as `i32`.
pub open spec fn captured_i32(g: Option<Seq<char>>) -> Option<i32> {
    match g {
        Some(t) => parse_i32_spec(t),
        None => None,
    }
}

/// A captured text, uppercased.
pub open spec fn captured_upper(g: Option<Seq<char>>) -> Option<Seq<char>> {
    match g {
        Some(t) => Some(uppercase(t)),
        None => None,
    }
}

/// At most the first three elements.
pub open spec fn first_three(ws: Seq<Seq<char>>) -> Seq<Seq<char>> {
    ws.take(if ws.len() < 3 { ws.len() as int } else { 3 })
}

/// The title of a video release.
pub open spec fn release_title(name: Seq<char>) -> Seq<char> {
    match regex_group(title_re(), name, 1) {
        Some(t) => trim_ws(map_set(t, CharSet::Pair('.', '_'), ' ')),
        None => {
            let clean = map_set(name, CharSet::Pair('.', '_'), ' ');
            match find_in(clean, CharSet::Pair('[', '(')) {
                Some(pos) => trim_ws(clean.take(pos)),
                None => join_seqs(first_three(words_by(clean, CharSet::WhiteSpace)), " "@),
            }
        },
    }
}

/// The resolution of a video release.
pub open spec fn release_quality(name: Seq<char>) -> Quality {
    match regex_group(quality_re(), name, 1) {
        Some(q) => Quality::of_lower(lowercase(q)),
        None => Quality::Unknown,
    }
}

/// The source of a video release.
pub open spec fn release_source(name: Seq<char>) -> Source {
    match regex_group(source_re(), name, 1) {
        Some(q) => Source::of_upper(uppercase(q)),
        None => Source::Unknown,
    }
}

/// Parses an optional captured number.
fn capture_i32(g: &Option<String>) -> (r: Option<i32>)
    ensures
        r == captured_i32(g.deep_view()),
{
    match g {
        Some(t) => parse_i32(chars_of(t.as_str()).as_slice()),
        None => None,
    }
}

/// Parses an optional captured year and keeps it when in `lo..=hi`.
fn capture_year(g: &Option<String>, lo: i32, hi: i32) -> (r: Option<i32>)
    ensures
        r == year_between(g.deep_view(), lo as int, hi as int),
{
    match capture_i32(g) {
        Some(v) => if lo <= v && v <= hi {
            Some(v)
        } else {
            None
        },
        None => None,
    }
}

/// Uppercases an optional captured text.
fn capture_upper(g: &Option<String>) -> (r: Option<String>)
    ensures
        r.deep_view() == captured_upper(g.deep_view()),
{
    match g {
        Some(t) => Some(to_uppercase(t.as_str())),
        None => None,
    }
}

/// Extracts the title of a video release.
fn extract_title(name: &str) -> (r: String)
    ensures
        r@ == release_title(name@),
{
    let captured = regex_capture("^(.+?)(?:\\.|_|-|\\s)(?:\\d{4}|S\\d{1,2}E\\d{1,2}|2160p|1080p|720p|480p)", name, 1);
    match captured {
        Some(t) => {
            let v = replace_set(chars_of(t.as_str()).as_slice(), CharSet::Pair('.', '_'), ' ');
            string_of(trim_set(v.as_slice(), CharSet::WhiteSpace).as_slice())
        },
        None => {
            let clean = replace_set(chars_of(name).as_slice(), CharSet::Pair('.', '_'), ' ');
            match find_set(clean.as_slice(), CharSet::Pair('[', '(')) {
                Some(pos) => {
                    let head = slice_chars(clean.as_slice(), 0, pos);
                    assert(head@ =~= clean@.take(pos as int));
                    string_of(trim_set(head.as_slice(), CharSet::WhiteSpace).as_slice())
                },
                None => {
                    let ws = words(clean.as_slice(), CharSet::WhiteSpace);
                    let n: usize = if ws.len() < 3 { ws.len() } else { 3 };
                    let sep = chars_of(" ");
                    string_of(join_first(&ws, n, sep.as_slice()).as_slice())
                },
            }
        },
    }
}

/// Parses a video release name and extracts its quality information.
pub fn parse_release_name(name: &str) -> (r: ParsedRelease)
    ensures
        r.title@ == release_title(name@),
        r.year == year_between(regex_group(year_re(), name@, 1), 1900, 2100),
        r.season == captured_i32(regex_group(season_episode_re(), name@, 1)),
        r.episode == captured_i32(regex_group(season_episode_re(), name@, 2)),
        r.quality == release_quality(name@),
        r.source == release_source(name@),
        r.codec.deep_view() == captured_upper(regex_group(codec_re(), name@, 1)),
        r.audio.deep_view() == captured_upper(regex_group(audio_re(), name@, 1)),
        r.group.deep_view() == regex_group(group_re(), name@, 1),
        r.proper == regex_found(proper_re(), name@),
        r.repack == regex_found(repack_re(), name@),
        r.artist is None && r.album is None && r.audio_format is None,
        r.bitrate is None && r.sample_rate is None && r.bit_depth is None,
        r.music_source is None,
{
    let mut result = ParsedRelease::default();
    result.title = extract_title(name);
    let y = regex_capture("[.\\s\\(\\[](\\d{4})[.\\s\\)\\]]", name, 1);
    result.year = capture_year(&y, 1900, 2100);
    let se = regex_capture("(?i)S(\\d{1,2})E(\\d{1,2})", name, 1);
    result.season = capture_i32(&se);
    let ep = regex_capture("(?i)S(\\d{1,2})E(\\d{1,2})", name, 2);
    result.episode = capture_i32(&ep);
    match regex_capture("(?i)(2160p|1080p|720p|480p)", name, 1) {
        Some(q) => {
            result.quality = Quality::from_str(q.as_str());
        },
        None => {},
    }
    match regex_capture(
        "(?i)(BluRay|Blu-Ray|BDRip|BRRip|WEB-DL|WEBDL|WEBRip|WEB|HDTV|DVDRip|DVD|CAM|TS|TELESYNC|HDCAM|SCR|SCREENER)",
        name,
        1,
    ) {
        Some(q) => {
            result.source = Source::from_str(q.as_str());
        },
        None => {},
    }
    let codec = regex_capture("(?i)(x264|x265|HEVC|H\\.?264|H\\.?265|AVC|XviD|DivX)", name, 1);
    result.codec = capture_upper(&codec);
    let audio = regex_capture(
        "(?i)(AAC|AC3|DD5\\.?1|DTS|DTS-HD|Atmos|TrueHD|FLAC|MP3|EAC3|E-AC-3)",
        name,
        1,
    );
    result.audio = capture_upper(&audio);
    result.group = regex_capture("-([A-Za-z0-9]+)(?:\\.[a-zA-Z]{2,4})?$", name, 1);
    result.proper = regex_is_match("(?i)\\bPROPER\\b", name);
    result.repack = regex_is_match("(?i)\\bREPACK\\b", name);
    result
}


// ---------------------------------------------------------------------------
// Music releases
// ---------------------------------------------------------------------------

/// The name with brackets and `_` turned into spaces.
pub open spec fn music_clean(name: Seq<char>) -> Seq<char> {
    map_set(name, CharSet::BracketsUnderscore, ' ')
}

/// The text before the first ASCII digit (all of it when there is none).
pub open spec fn before_digit(s: Seq<char>) -> Seq<char> {
    match find_in(s, CharSet::AsciiDigit) {
        Some(i) => s.take(i),
        None => s,
    }
}

/// The album taken from the text after the first ` - `: up to the first
/// digit, trimmed, without trailing `-`, trimmed again.
pub open spec fn album_text(rest: Seq<char>) -> Seq<char> {
    trim_ws(trim_end_by(trim_ws(before_digit(rest)), set_pred(CharSet::Single('-'))))
}

/// Artist of a music release: the trimmed text before the first ` - `.
pub open spec fn music_artist(name: Seq<char>) -> Option<Seq<char>> {
    match first_occurrence(music_clean(name), " - "@) {
        Some(i) => Some(trim_ws(music_clean(name).take(i))),
        None => None,
    }
}

/// Album of a music release, when the text after the first ` - ` leaves one.
pub open spec fn music_album(name: Seq<char>) -> Option<Seq<char>> {
    match first_occurrence(music_clean(name), " - "@) {
        Some(i) => {
            let a = album_text(music_clean(name).skip(i + 3));
            if a.len() > 0 {
                Some(a)
            } else {
                None
            }
        },
        None => None,
    }
}

/// Year of a music release: from the separated-year pattern (1900 to 2100),
/// else from a four-digit word (1950 to 2100).
pub open spec fn music_year(name: Seq<char>) -> Option<i32> {
    match year_between(regex_group(year_re(), name, 1), 1900, 2100) {
        Some(y) => Some(y),
        None => year_between(regex_group(plain_year_re(), name, 1), 1950, 2100),
    }
}

/// Bitrate in kbps for an uppercased bitrate tag; VBR presets map to their
/// typical averages.
pub open spec fn bitrate_of(tag: Seq<char>) -> Option<u32> {
    if tag == "320"@ {
        Some(320)
    } else if tag == "256"@ {
        Some(256)
    } else if tag == "192"@ {
        Some(192)
    } else if tag == "128"@ {
        Some(128)
    } else if tag == "V0"@ {
        Some(245)
    } else if tag == "V1"@ {
        Some(225)
    } else if tag == "V2"@ {
        Some(190)
    } else {
        None
    }
}

/// Title of a music release: `artist - album`, the artist alone, or the name.
pub open spec fn music_title(name: Seq<char>) -> Seq<char> {
    match (music_artist(name), music_album(name)) {
        (Some(a), Some(b)) => a + " - "@ + b,
        (Some(a), None) => a,
        _ => name,
    }
}

/// Maps an uppercased bitrate tag to kbps.
pub fn bitrate_from_tag(tag: &str) -> (r: Option<u32>)
    ensures
        r == bitrate_of(tag@),
{
    let v = chars_of(tag);
    let v = v.as_slice();
    if chars_eq_str(v, "320") {
        Some(320)
    } else if chars_eq_str(v, "256") {
        Some(256)
    } else if chars_eq_str(v, "192") {
        Some(192)
    } else if chars_eq_str(v, "128") {
        Some(128)
    } else if chars_eq_str(v, "V0") {
        Some(245)
    } else if chars_eq_str(v, "V1") {
        Some(225)
    } else if chars_eq_str(v, "V2") {
        Some(190)
    } else {
        None
    }
}

/// The album part of the text after the first ` - `.
fn album_from_rest(rest: &[char]) -> (r: Vec<char>)
    ensures
        r@ == album_text(rest@),
{
    let upto = match find_set(rest, CharSet::AsciiDigit) {
        Some(d) => {
            let h = slice_chars(rest, 0, d);
            assert(h@ =~= rest@.take(d as int));
            h
        },
        None => slice_chars(rest, 0, rest.len()),
    };
    assert(upto@ =~= before_digit(rest@));
    let a = trim_set(upto.as_slice(), CharSet::WhiteSpace);
    let a = trim_end_set(a.as_slice(), CharSet::Single('-'));
    trim_set(a.as_slice(), CharSet::WhiteSpace)
}

/// Splits a cleaned music name into artist and album.
fn split_artist_album(clean: &[char]) -> (r: (Option<String>, Option<String>))
    ensures
        r.0.deep_view() == (match first_occurrence(clean@, " - "@) {
            Some(i) => Some(trim_ws(clean@.take(i))),
            None => None::<Seq<char>>,
        }),
        r.1.deep_view() == (match first_occurrence(clean@, " - "@) {
            Some(i) => {
                let a = album_text(clean@.skip(i + 3));
                if a.len() > 0 {
                    Some(a)
                } else {
                    None::<Seq<char>>
                }
            },
            None => None::<Seq<char>>,
        }),
{
    let sep = chars_of(" - ");
    proof {
        reveal_strlit(" - ");
    }
    assert(sep@.len() == 3);
    let found = find_chars(clean, sep.as_slice());
    match found {
        None => (None, None),
        Some(i) => {
            let head = slice_chars(clean, 0, i);
            assert(head@ =~= clean@.take(i as int));
            let artist = string_of(trim_set(head.as_slice(), CharSet::WhiteSpace).as_slice());
            assert(crate::text::occurs_at(clean@, sep@, i as int));
            assert(i + 3 <= clean.len());
            let rest = slice_chars(clean, i + 3, clean.len());
            assert(rest@ =~= clean@.skip(i + 3));
            let a = album_from_rest(rest.as_slice());
            if a.len() > 0 {
                (Some(artist), Some(string_of(a.as_slice())))
            } else {
                (Some(artist), None)
            }
        },
    }
}

/// Parses a music release name such as `Artist - Album (2024) [FLAC]`
/// and extracts its audio quality information.
pub fn parse_music_release(name: &str) -> (r: ParsedRelease)
    ensures
        r.artist.deep_view() == music_artist(name@),
        r.album.deep_view() == music_album(name@),
        r.year == music_year(name@),
        r.audio_format == (match regex_group(audio_format_re(), name@, 1) {
            Some(g) => Some(AudioFormat::of_upper(uppercase(g))),
            None => None::<AudioFormat>,
        }),
        r.bitrate == (match regex_group(bitrate_re(), name@, 1) {
            Some(g) => bitrate_of(uppercase(g)),
            None => None::<u32>,
        }),
        r.sample_rate.deep_view() == (match regex_group(sample_rate_re(), name@, 1) {
            Some(g) => Some(g + "kHz"@),
            None => None::<Seq<char>>,
        }),
        r.bit_depth == (match regex_group(bit_depth_re(), name@, 1) {
            Some(g) => parse_u32_spec(g),
            None => None::<u32>,
        }),
        r.music_source == (match regex_group(music_source_re(), name@, 1) {
            Some(g) => Some(MusicSource::of_upper(uppercase(g))),
            None => None::<MusicSource>,
        }),
        r.group.deep_view() == regex_group(group_re(), name@, 1),
        r.title@ == music_title(name@),
        r.season is None && r.episode is None,
        r.quality == Quality::Unknown && r.source == Source::Unknown,
        r.codec is None && r.audio is None,
        !r.proper && !r.repack,
{
    let mut result = ParsedRelease::default();
    let clean = replace_set(chars_of(name).as_slice(), CharSet::BracketsUnderscore, ' ');
    let (artist, album) = split_artist_album(clean.as_slice());
    let y = regex_capture("[.\\s\\(\\[](\\d{4})[.\\s\\)\\]]", name, 1);
    result.year = capture_year(&y, 1900, 2100);
    if result.year.is_none() {
        let y2 = regex_capture("\\b(\\d{4})\\b", name, 1);
        result.year = capture_year(&y2, 1950, 2100);
    }
    match regex_capture("(?i)\\b(FLAC|MP3|AAC|ALAC|WAV|OGG|OPUS|APE)\\b", name, 1) {
        Some(g) => {
            result.audio_format = Some(AudioFormat::from_str(g.as_str()));
        },
        None => {},
    }
    match regex_capture("(?i)\\b(320|256|192|128|V0|V1|V2)\\s*k?(?:bps)?\\b", name, 1) {
        Some(g) => {
            let upper = to_uppercase(g.as_str());
            result.bitrate = bitrate_from_tag(upper.as_str());
        },
        None => {},
    }
    match regex_capture("(?i)(44\\.1|48|96|192)\\s*kHz", name, 1) {
        Some(g) => {
            let mut v = chars_of(g.as_str());
            append_chars(&mut v, chars_of("kHz").as_slice());
            result.sample_rate = Some(string_of(v.as_slice()));
        },
        None => {},
    }
    match regex_capture("(?i)(16|24|32)\\s*(?:-)?bit", name, 1) {
        Some(g) => {
            result.bit_depth = parse_u32(chars_of(g.as_str()).as_slice());
        },
        None => {},
    }
    match regex_capture("(?i)\\b(CD|WEB|Vinyl|Cassette|DAT|SACD|DVD-A)\\b", name, 1) {
        Some(g) => {
            result.music_source = Some(MusicSource::from_str(g.as_str()));
        },
        None => {},
    }
    result.group = regex_capture("-([A-Za-z0-9]+)(?:\\.[a-zA-Z]{2,4})?$", name, 1);
    result.title = match (&artist, &album) {
        (Some(a), Some(b)) => {
            let mut v = chars_of(a.as_str());
            append_chars(&mut v, chars_of(" - ").as_slice());
            append_chars(&mut v, chars_of(b.as_str()).as_slice());
            string_of(v.as_slice())
        },
        (Some(a), None) => a.clone(),
        _ => {
            let v = chars_of(name);
            string_of(v.as_slice())
        },
    };
    result.artist = artist;
    result.album = album;
    result
}

// ---------------------------------------------------------------------------
// Laws of the tag tables
// ---------------------------------------------------------------------------

/// The source tags of video releases are told apart: exactly `WEB-DL`,
/// `WEBDL` and `WEB` name a web download, exactly `WEBRIP` names a web
/// rip, and a web rip ranks below a web download.
pub proof fn lemma_web_sources_told_apart(tag: Seq<char>)
    ensures
        Source::of_upper(tag) == Source::WebDl <==> (tag == "WEB-DL"@ || tag == "WEBDL"@ || tag
            == "WEB"@),
        Source::of_upper(tag) == Source::WebRip <==> tag == "WEBRIP"@,
        Source::of_upper("WEBRIP"@).score_spec() < Source::of_upper("WEB-DL"@).score_spec(),
{
    reveal_strlit("BLURAY");
    assert("BLURAY"@ =~= seq!['B', 'L', 'U', 'R', 'A', 'Y']);
    reveal_strlit("BLU-RAY");
    assert("BLU-RAY"@ =~= seq!['B', 'L', 'U', '-', 'R', 'A', 'Y']);
    reveal_strlit("BDRIP");
    assert("BDRIP"@ =~= seq!['B', 'D', 'R', 'I', 'P']);
    reveal_strlit("BRRIP");
    assert("BRRIP"@ =~= seq!['B', 'R', 'R', 'I', 'P']);
    reveal_strlit("WEB-DL");
    assert("WEB-DL"@ =~= seq!['W', 'E', 'B', '-', 'D', 'L']);
    reveal_strlit("WEBDL");
    assert("WEBDL"@ =~= seq!['W', 'E', 'B', 'D', 'L']);
    reveal_strlit("WEB");
    assert("WEB"@ =~= seq!['W', 'E', 'B']);
    reveal_strlit("WEBRIP");
    assert("WEBRIP"@ =~= seq!['W', 'E', 'B', 'R', 'I', 'P']);
}

/// Every bitrate tag of a music release gives a bitrate, and only those:
/// the four constant bitrates and the three VBR presets. The presets give
/// averages between 128 and 320 kbps that fall as the preset number
/// rises (`V0` above `V1` above `V2`).
pub proof fn lemma_bitrate_tags(tag: Seq<char>)
    ensures
        bitrate_of(tag) is Some <==> (tag == "320"@ || tag == "256"@ || tag == "192"@ || tag
            == "128"@ || tag == "V0"@ || tag == "V1"@ || tag == "V2"@),
        (tag == "V0"@ || tag == "V1"@ || tag == "V2"@) ==> (bitrate_of(tag) matches Some(b) && 128
            < b < 320),
        bitrate_of("V0"@) matches Some(b0) && bitrate_of("V1"@) matches Some(b1) && bitrate_of(
            "V2"@,
        ) matches Some(b2) && b0 > b1 > b2,
{
    reveal_strlit("320");
    assert("320"@ =~= seq!['3', '2', '0']);
    reveal_strlit("256");
    assert("256"@ =~= seq!['2', '5', '6']);
    reveal_strlit("192");
    assert("192"@ =~= seq!['1', '9', '2']);
    reveal_strlit("128");
    assert("128"@ =~= seq!['1', '2', '8']);
    reveal_strlit("V0");
    assert("V0"@ =~= seq!['V', '0']);
    reveal_strlit("V1");
    assert("V1"@ =~= seq!['V', '1']);
    reveal_strlit("V2");
    assert("V2"@ =~= seq!['V', '2']);
}

/// Each resolution is named by exactly its tag (`2160p`, `1080p`, `720p`,
/// `480p`, lowercased); a higher resolution scores higher.
pub proof fn lemma_quality_tags(tag: Seq<char>)
    ensures
        Quality::of_lower(tag) == Quality::P2160 <==> (tag == "2160p"@),
        Quality::of_lower(tag) == Quality::P1080 <==> (tag == "1080p"@),
        Quality::of_lower(tag) == Quality::P720 <==> (tag == "720p"@),
        Quality::of_lower(tag) == Quality::P480 <==> (tag == "480p"@),
        Quality::P2160.score_spec() > Quality::P1080.score_spec() > Quality::P720.score_spec()
            > Quality::P480.score_spec() > Quality::Unknown.score_spec(),
{
    reveal_strlit("2160p");
    assert("2160p"@ =~= seq!['2', '1', '6', '0', 'p']);
    reveal_strlit("1080p");
    assert("1080p"@ =~= seq!['1', '0', '8', '0', 'p']);
    reveal_strlit("720p");
    assert("720p"@ =~= seq!['7', '2', '0', 'p']);
    reveal_strlit("480p");
    assert("480p"@ =~= seq!['4', '8', '0', 'p']);
}

/// Each video source is named by exactly its tags (uppercased): BluRay by
/// `BLURAY`, `BLU-RAY`, `BDRIP`, `BRRIP`; WEB-DL by `WEB-DL`, `WEBDL`, `WEB`;
/// WEBRip by `WEBRIP`; HDTV by `HDTV`; DVDRip by `DVDRIP`, `DVD`; CAM by
/// `CAM`, `TS`, `TELESYNC`, `HDCAM`; screeners by `SCR`, `SCREENER`. Sources
/// rank BluRay, then WEB-DL, then WEBRip and HDTV, then DVDRip, then
/// screeners, then CAM.
pub proof fn lemma_source_tags(tag: Seq<char>)
    ensures
        Source::of_upper(tag) == Source::BluRay <==> (tag == "BLURAY"@ || tag == "BLU-RAY"@ || tag == "BDRIP"@ || tag == "BRRIP"@),
        Source::of_upper(tag) == Source::WebDl <==> (tag == "WEB-DL"@ || tag == "WEBDL"@ || tag == "WEB"@),
        Source::of_upper(tag) == Source::WebRip <==> (tag == "WEBRIP"@),
        Source::of_upper(tag) == Source::Hdtv <==> (tag == "HDTV"@),
        Source::of_upper(tag) == Source::DvdRip <==> (tag == "DVDRIP"@ || tag == "DVD"@),
        Source::of_upper(tag) == Source::Cam <==> (tag == "CAM"@ || tag == "TS"@ || tag == "TELESYNC"@ || tag == "HDCAM"@),
        Source::of_upper(tag) == Source::Screener <==> (tag == "SCR"@ || tag == "SCREENER"@),
        Source::BluRay.score_spec() > Source::WebDl.score_spec() > Source::WebRip.score_spec()
            == Source::Hdtv.score_spec() > Source::DvdRip.score_spec() > Source::Screener.score_spec()
            > Source::Cam.score_spec(),
{
    reveal_strlit("BLURAY");
    assert("BLURAY"@ =~= seq!['B', 'L', 'U', 'R', 'A', 'Y']);
    reveal_strlit("BLU-RAY");
    assert("BLU-RAY"@ =~= seq!['B', 'L', 'U', '-', 'R', 'A', 'Y']);
    reveal_strlit("BDRIP");
    assert("BDRIP"@ =~= seq!['B', 'D', 'R', 'I', 'P']);
    reveal_strlit("BRRIP");
    assert("BRRIP"@ =~= seq!['B', 'R', 'R', 'I', 'P']);
    reveal_strlit("WEB-DL");
    assert("WEB-DL"@ =~= seq!['W', 'E', 'B', '-', 'D', 'L']);
    reveal_strlit("WEBDL");
    assert("WEBDL"@ =~= seq!['W', 'E', 'B', 'D', 'L']);
    reveal_strlit("WEB");
    assert("WEB"@ =~= seq!['W', 'E', 'B']);
    reveal_strlit("WEBRIP");
    assert("WEBRIP"@ =~= seq!['W', 'E', 'B', 'R', 'I', 'P']);
    reveal_strlit("HDTV");
    assert("HDTV"@ =~= seq!['H', 'D', 'T', 'V']);
    reveal_strlit("DVDRIP");
    assert("DVDRIP"@ =~= seq!['D', 'V', 'D', 'R', 'I', 'P']);
    reveal_strlit("DVD");
    assert("DVD"@ =~= seq!['D', 'V', 'D']);
    reveal_strlit("CAM");
    assert("CAM"@ =~= seq!['C', 'A', 'M']);
    reveal_strlit("TS");
    assert("TS"@ =~= seq!['T', 'S']);
    reveal_strlit("TELESYNC");
    assert("TELESYNC"@ =~= seq!['T', 'E', 'L', 'E', 'S', 'Y', 'N', 'C']);
    reveal_strlit("HDCAM");
    assert("HDCAM"@ =~= seq!['H', 'D', 'C', 'A', 'M']);
    reveal_strlit("SCR");
    assert("SCR"@ =~= seq!['S', 'C', 'R']);
    reveal_strlit("SCREENER");
    assert("SCREENER"@ =~= seq!['S', 'C', 'R', 'E', 'E', 'N', 'E', 'R']);
}

/// Each audio format is named by exactly its tag (uppercased), and the
/// lossless ones are FLAC, ALAC, WAV and APE.
pub proof fn lemma_audio_format_tags(tag: Seq<char>)
    ensures
        AudioFormat::of_upper(tag) == AudioFormat::Flac <==> (tag == "FLAC"@),
        AudioFormat::of_upper(tag) == AudioFormat::Mp3 <==> (tag == "MP3"@),
        AudioFormat::of_upper(tag) == AudioFormat::Aac <==> (tag == "AAC"@),
        AudioFormat::of_upper(tag) == AudioFormat::Alac <==> (tag == "ALAC"@),
        AudioFormat::of_upper(tag) == AudioFormat::Wav <==> (tag == "WAV"@),
        AudioFormat::of_upper(tag) == AudioFormat::Ogg <==> (tag == "OGG"@),
        AudioFormat::of_upper(tag) == AudioFormat::Opus <==> (tag == "OPUS"@),
        AudioFormat::of_upper(tag) == AudioFormat::Ape <==> (tag == "APE"@),
        AudioFormat::of_upper(tag).lossless() <==> (tag == "FLAC"@ || tag == "ALAC"@ || tag
            == "WAV"@ || tag == "APE"@),
{
    reveal_strlit("FLAC");
    assert("FLAC"@ =~= seq!['F', 'L', 'A', 'C']);
    reveal_strlit("MP3");
    assert("MP3"@ =~= seq!['M', 'P', '3']);
    reveal_strlit("AAC");
    assert("AAC"@ =~= seq!['A', 'A', 'C']);
    reveal_strlit("ALAC");
    assert("ALAC"@ =~= seq!['A', 'L', 'A', 'C']);
    reveal_strlit("WAV");
    assert("WAV"@ =~= seq!['W', 'A', 'V']);
    reveal_strlit("OGG");
    assert("OGG"@ =~= seq!['O', 'G', 'G']);
    reveal_strlit("OPUS");
    assert("OPUS"@ =~= seq!['O', 'P', 'U', 'S']);
    reveal_strlit("APE");
    assert("APE"@ =~= seq!['A', 'P', 'E']);
}

/// Each music medium is named by exactly its tags (uppercased): CD by
/// `CD`, `SACD`, `DVD-A`; web by `WEB`; vinyl by `VINYL`; tape by
/// `CASSETTE`, `DAT`.
pub proof fn lemma_music_source_tags(tag: Seq<char>)
    ensures
        MusicSource::of_upper(tag) == MusicSource::Cd <==> (tag == "CD"@ || tag == "SACD"@ || tag == "DVD-A"@),
        MusicSource::of_upper(tag) == MusicSource::Web <==> (tag == "WEB"@),
        MusicSource::of_upper(tag) == MusicSource::Vinyl <==> (tag == "VINYL"@),
        MusicSource::of_upper(tag) == MusicSource::Cassette <==> (tag == "CASSETTE"@ || tag == "DAT"@),
{
    reveal_strlit("CD");
    assert("CD"@ =~= seq!['C', 'D']);
    reveal_strlit("SACD");
    assert("SACD"@ =~= seq!['S', 'A', 'C', 'D']);
    reveal_strlit("DVD-A");
    assert("DVD-A"@ =~= seq!['D', 'V', 'D', '-', 'A']);
    reveal_strlit("WEB");
    assert("WEB"@ =~= seq!['W', 'E', 'B']);
    reveal_strlit("VINYL");
    assert("VINYL"@ =~= seq!['V', 'I', 'N', 'Y', 'L']);
    reveal_strlit("CASSETTE");
    assert("CASSETTE"@ =~= seq!['C', 'A', 'S', 'S', 'E', 'T', 'T', 'E']);
    reveal_strlit("DAT");
    assert("DAT"@ =~= seq!['D', 'A', 'T']);
}

} // verus!
