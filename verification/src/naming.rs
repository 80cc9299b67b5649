//! Naming patterns for media files and file-name sanitizing.
//!
//! A pattern holds placeholders `{name}` or `{name:NN}`; `NN` asks for a
//! number zero-padded to that width.
//!
//! Movies and TV: `{title}`, `{year}`, `{quality}`, `{season:02}`,
//! `{episode:02}`, `{episode_title}`, `{ext}`.
//! Music: `{artist}`, `{album}`, `{title}`, `{track:02}`, `{disc:02}`, `{ext}`.

use vstd::prelude::*;
use crate::config::NamingConfig;
use crate::storage::MediaInfo;
use crate::number::{i32_padded, i64_to_chars, int_display, int_padded, parse_usize, parse_usize_spec};
use crate::regexes::{
    regex_capture, regex_group, regex_replace_all, regex_replaced, replace_unsafe_chars,
    unsafe_class_pattern, is_unsafe_filename_char,
};
use crate::text::{
    append_chars, chars_of, replace_all, replace_all_seq, set_pred, split_fields, string_of,
    trim_by, trim_set, CharSet, in_set,
};

verus! {

// ---------------------------------------------------------------------------
// Sanitizing
// ---------------------------------------------------------------------------

/// Runs of `c` collapsed to a single `c` (what repeatedly replacing `cc` by
/// `c` until none is left produces).
pub open spec fn collapse_runs(s: Seq<char>, c: char) -> Seq<char>
    decreases s.len(),
{
    if s.len() == 0 {
        s
    } else if s.len() >= 2 && s.last() == c && s[s.len() - 2] == c {
        collapse_runs(s.drop_last(), c)
    } else {
        collapse_runs(s.drop_last(), c).push(s.last())
    }
}

/// Number of bytes of the UTF-8 encoding of a character.
pub open spec fn char_utf8_len(c: char) -> nat {
    if (c as u32) < 0x80 {
        1
    } else if (c as u32) < 0x800 {
        2
    } else if (c as u32) < 0x10000 {
        3
    } else {
        4
    }
}

/// Number of bytes of the UTF-8 encoding of a character sequence.
pub open spec fn utf8_len(s: Seq<char>) -> nat
    decreases s.len(),
{
    if s.len() == 0 {
        0
    } else {
        utf8_len(s.drop_last()) + char_utf8_len(s.last())
    }
}

/// The byte count of a sequence, taken from its first character.
proof fn lemma_utf8_len_front(s: Seq<char>)
    requires
        s.len() > 0,
    ensures
        utf8_len(s) == char_utf8_len(s[0]) + utf8_len(s.drop_first()),
    decreases s.len(),
{
    if s.len() > 1 {
        lemma_utf8_len_front(s.drop_last());
        assert(s.drop_first().drop_last() =~= s.drop_last().drop_first());
        assert(s.drop_last()[0] == s[0]);
        assert(s.drop_first().last() == s.last());
    } else {
        assert(s.drop_first() =~= Seq::<char>::empty());
        assert(s.drop_last() =~= Seq::<char>::empty());
    }
}

/// `utf8_len` is the length of the UTF-8 encoding.
pub proof fn lemma_utf8_len_bytes(s: Seq<char>)
    ensures
        utf8_len(s) == vstd::utf8::encode_utf8(s).len(),
    decreases s.len(),
{
    if s.len() > 0 {
        lemma_utf8_len_front(s);
        lemma_utf8_len_bytes(s.drop_first());
        vstd::utf8::char_is_scalar(s[0]);
    }
}

/// Longest length in bytes that a sanitized name keeps.
pub open spec fn max_name_bytes() -> nat {
    200
}

/// A sequence can be cut after exactly `n` bytes (or needs no cut).
pub open spec fn cuttable(s: Seq<char>, n: nat) -> bool {
    utf8_len(s) <= n || exists|k: int| 0 <= k <= s.len() && #[trigger] utf8_len(s.take(k)) == n
}

/// The first `n` bytes of `s`, when `s` is longer than that.
pub open spec fn cut_bytes(s: Seq<char>, n: nat) -> Seq<char> {
    if utf8_len(s) <= n {
        s
    } else {
        s.take(choose|k: int| 0 <= k <= s.len() && #[trigger] utf8_len(s.take(k)) == n)
    }
}

/// The name before the length cut: unsafe characters replaced by `_`, runs
/// of `_` and then of spaces collapsed, spaces, `_` and `.` trimmed at both ends.
pub open spec fn cleaned_name(name: Seq<char>) -> Seq<char> {
    trim_by(
        collapse_runs(collapse_runs(replace_unsafe_chars(name), '_'), ' '),
        set_pred(CharSet::NameEdge),
    )
}

/// The longest prefix of `s` whose UTF-8 encoding takes at most `n`
/// bytes: a cut after `n` bytes that drops a character it would split.
pub open spec fn fit_prefix(s: Seq<char>, n: nat) -> Seq<char>
    decreases s.len(),
{
    if s.len() == 0 || utf8_len(s) <= n {
        s
    } else {
        fit_prefix(s.drop_last(), n)
    }
}

/// What `sanitize_filename` returns: the cleaned name, cut to its longest
/// prefix of at most 200 bytes.
pub open spec fn sanitized(name: Seq<char>) -> Seq<char> {
    fit_prefix(cleaned_name(name), max_name_bytes())
}

/// Number of UTF-8 bytes of one character.
pub fn char_len_utf8(c: char) -> (r: usize)
    ensures
        r == char_utf8_len(c),
        1 <= r <= 4,
{
    let u = c as u32;
    if u < 0x80 {
        1
    } else if u < 0x800 {
        2
    } else if u < 0x10000 {
        3
    } else {
        4
    }
}

/// Collapses runs of `c` into a single `c`.
pub fn collapse(v: &[char], c: char) -> (r: Vec<char>)
    ensures
        r@ == collapse_runs(v@, c),
{
    let mut r: Vec<char> = Vec::new();
    let mut i: usize = 0;
    while i < v.len()
        invariant
            i <= v.len(),
            r@ == collapse_runs(v@.take(i as int), c),
        decreases v.len() - i,
    {
        let ghost t = v@.take(i + 1);
        assert(t.drop_last() =~= v@.take(i as int));
        if !(i >= 1 && v[i] == c && v[i - 1] == c) {
            r.push(v[i]);
        }
        i += 1;
    }
    assert(v@.take(v.len() as int) =~= v@);
    r
}

/// The byte length of the prefixes grows by the width of each character.
proof fn lemma_utf8_len_take(s: Seq<char>, k: int)
    requires
        0 <= k < s.len(),
    ensures
        utf8_len(s.take(k + 1)) == utf8_len(s.take(k)) + char_utf8_len(s[k]),
{
    assert(s.take(k + 1).drop_last() =~= s.take(k));
}

/// The byte length of prefixes is strictly increasing.
proof fn lemma_utf8_len_take_mono(s: Seq<char>, j: int, k: int)
    requires
        0 <= j < k <= s.len(),
    ensures
        utf8_len(s.take(j)) < utf8_len(s.take(k)),
    decreases k - j,
{
    lemma_utf8_len_take(s, k - 1);
    if j < k - 1 {
        lemma_utf8_len_take_mono(s, j, k - 1);
    }
}

/// Keeps the first `n` bytes when `v` is longer.
pub fn cut_at_bytes(v: &[char], n: usize) -> (r: Vec<char>)
    requires
        cuttable(v@, n as nat),
    ensures
        r@ == cut_bytes(v@, n as nat),
{
    let mut i: usize = 0;
    let mut bytes: usize = 0;
    assert(v@.take(0) =~= Seq::<char>::empty());
    while i < v.len()
        invariant
            i <= v.len(),
            bytes <= n,
            bytes == utf8_len(v@.take(i as int)),
        ensures
            i == v.len() || bytes + char_utf8_len(v@[i as int]) > n,
        decreases v.len() - i,
    {
        let w = char_len_utf8(v[i]);
        if w > n - bytes {
            break;
        }
        proof {
            lemma_utf8_len_take(v@, i as int);
        }
        bytes = bytes + w;
        i += 1;
    }
    if i == v.len() {
        assert(v@.take(i as int) =~= v@);
        return slice_all(v);
    }
    proof {
        lemma_utf8_len_take(v@, i as int);
        assert(utf8_len(v@) > n) by {
            if i + 1 < v.len() {
                lemma_utf8_len_take_mono(v@, i + 1, v.len() as int);
            }
            assert(v@.take(v.len() as int) =~= v@);
        }
        let k = choose|k: int| 0 <= k <= v@.len() && #[trigger] utf8_len(v@.take(k)) == n;
        assert(k == i) by {
            if k < i {
                lemma_utf8_len_take_mono(v@, k, i as int);
            }
            if k > i + 1 {
                lemma_utf8_len_take_mono(v@, i + 1, k);
            }
        }
    }
    crate::text::slice_chars(v, 0, i)
}

fn slice_all(v: &[char]) -> (r: Vec<char>)
    ensures
        r@ == v@,
{
    let r = crate::text::slice_chars(v, 0, v.len());
    assert(v@.subrange(0, v.len() as int) =~= v@);
    r
}

/// `fit_prefix` is the prefix up to the first character that no longer fits.
proof fn lemma_fit_prefix_is(s: Seq<char>, n: nat, k: int)
    requires
        0 <= k <= s.len(),
        utf8_len(s.take(k)) <= n,
        k == s.len() || utf8_len(s.take(k + 1)) > n,
    ensures
        fit_prefix(s, n) == s.take(k),
    decreases s.len(),
{
    if k == s.len() {
        assert(s.take(k) =~= s);
    } else {
        assert(s.take(s.len() as int) =~= s);
        if k + 1 < s.len() {
            lemma_utf8_len_take_mono(s, k + 1, s.len() as int);
        }
        let t = s.drop_last();
        assert(t.take(k) =~= s.take(k));
        if k + 1 <= t.len() {
            assert(t.take(k + 1) =~= s.take(k + 1));
        }
        lemma_fit_prefix_is(t, n, k);
    }
}

/// `fit_prefix` is a prefix of at most `n` bytes.
proof fn lemma_fit_prefix_props(s: Seq<char>, n: nat)
    ensures
        utf8_len(fit_prefix(s, n)) <= n,
        exists|k: int| 0 <= k <= s.len() && fit_prefix(s, n) == #[trigger] s.take(k),
    decreases s.len(),
{
    if s.len() == 0 || utf8_len(s) <= n {
        assert(s.take(s.len() as int) =~= s);
    } else {
        let t = s.drop_last();
        lemma_fit_prefix_props(t, n);
        let k = choose|k: int| 0 <= k <= t.len() && fit_prefix(t, n) == #[trigger] t.take(k);
        assert(t.take(k) =~= s.take(k));
    }
}

/// Keeps the longest prefix of `v` of at most `n` bytes.
pub fn cut_to_fit(v: &[char], n: usize) -> (r: Vec<char>)
    ensures
        r@ == fit_prefix(v@, n as nat),
{
    let mut i: usize = 0;
    let mut bytes: usize = 0;
    assert(v@.take(0) =~= Seq::<char>::empty());
    while i < v.len()
        invariant
            i <= v.len(),
            bytes <= n,
            bytes == utf8_len(v@.take(i as int)),
        ensures
            i == v.len() || bytes + char_utf8_len(v@[i as int]) > n,
        decreases v.len() - i,
    {
        let w = char_len_utf8(v[i]);
        if w > n - bytes {
            break;
        }
        proof {
            lemma_utf8_len_take(v@, i as int);
        }
        bytes = bytes + w;
        i += 1;
    }
    proof {
        if i < v.len() {
            lemma_utf8_len_take(v@, i as int);
        }
        lemma_fit_prefix_is(v@, n as nat, i as int);
    }
    let r = crate::text::slice_chars(v, 0, i);
    assert(v@.subrange(0, i as int) =~= v@.take(i as int));
    r
}

/// Whether `v` can be cut after exactly `n` bytes (or needs no cut).
pub fn can_cut_at_bytes(v: &[char], n: usize) -> (r: bool)
    ensures
        r == cuttable(v@, n as nat),
{
    let mut i: usize = 0;
    let mut bytes: usize = 0;
    assert(v@.take(0) =~= Seq::<char>::empty());
    while i < v.len()
        invariant
            i <= v.len(),
            bytes <= n,
            bytes == utf8_len(v@.take(i as int)),
        ensures
            i == v.len() || bytes + char_utf8_len(v@[i as int]) > n,
        decreases v.len() - i,
    {
        let w = char_len_utf8(v[i]);
        if w > n - bytes {
            break;
        }
        proof {
            lemma_utf8_len_take(v@, i as int);
        }
        bytes = bytes + w;
        i += 1;
    }
    if i == v.len() {
        assert(v@.take(i as int) =~= v@);
        return true;
    }
    proof {
        lemma_utf8_len_take(v@, i as int);
        assert(utf8_len(v@) > n) by {
            if i + 1 < v.len() {
                lemma_utf8_len_take_mono(v@, i + 1, v.len() as int);
            }
            assert(v@.take(v.len() as int) =~= v@);
        }
        if bytes < n {
            assert forall|k: int| 0 <= k <= v@.len() implies #[trigger] utf8_len(v@.take(k)) != n by {
                if k < i {
                    lemma_utf8_len_take_mono(v@, k, i as int);
                }
                if k > i + 1 {
                    lemma_utf8_len_take_mono(v@, i + 1, k);
                }
            }
        }
    }
    bytes == n
}

/// Sanitizes a string for use in file names: replaces unsafe characters
/// by `_`, collapses runs of `_` and of spaces, trims spaces, `_` and `.`
/// at both ends, and keeps the longest prefix of at most 200 bytes (a
/// character that the 200-byte cut would split is dropped).
pub fn sanitize_filename(name: &str) -> (r: String)
    ensures
        r@ == sanitized(name@),
{
    let pattern = "[<>:\"/\\\\|?*\\x00-\\x1F]";
    proof {
        reveal_strlit("[<>:\"/\\\\|?*\\x00-\\x1F]");
        reveal_strlit("_");
        assert(pattern@ =~= unsafe_class_pattern());
        assert("_"@ =~= seq!['_']);
    }
    let replaced = regex_replace_all(pattern, name, "_");
    let v = match replaced {
        Some(s) => chars_of(s.as_str()),
        None => chars_of(name),
    };
    let v = collapse(v.as_slice(), '_');
    let v = collapse(v.as_slice(), ' ');
    let v = trim_set(v.as_slice(), CharSet::NameEdge);
    let v = cut_to_fit(v.as_slice(), 200);
    string_of(v.as_slice())
}


// ---------------------------------------------------------------------------
// Placeholders
// ---------------------------------------------------------------------------

/// `{name}`.
pub open spec fn plain_placeholder(name: Seq<char>) -> Seq<char> {
    seq!['{'] + name + seq!['}']
}

/// The regular expression `\{name:(\d+)\}` of a padded placeholder.
pub open spec fn padded_placeholder_re(name: Seq<char>) -> Seq<char> {
    seq!['\\', '{'] + name + seq![':', '(', '\\', 'd', '+', ')', '\\', '}']
}

/// Replaces `{name}` by `value`, then every `{name:NN}` by `value` as well.
pub open spec fn placeholder_replaced(pattern: Seq<char>, name: Seq<char>, value: Seq<char>) -> Seq<
    char,
> {
    let plain = replace_all_seq(pattern, plain_placeholder(name), value);
    match regex_replaced(padded_placeholder_re(name), plain, value) {
        Some(r) => r,
        None => plain,
    }
}

/// Replaces `{name:NN}` by `value` zero-padded to the width `NN` of the first
/// such placeholder; without one (or with an unreadable width), replaces the
/// placeholder by the plain number.
pub open spec fn number_placeholder_replaced(pattern: Seq<char>, name: Seq<char>, value: i32) -> Seq<
    char,
> {
    let fallback = placeholder_replaced(pattern, name, int_display(value as int));
    match regex_group(padded_placeholder_re(name), pattern, 1) {
        Some(w) => match parse_usize_spec(w) {
            Some(width) => match regex_replaced(
                padded_placeholder_re(name),
                pattern,
                int_padded(value as int, width as nat),
            ) {
                Some(r) => r,
                None => fallback,
            },
            None => fallback,
        },
        None => fallback,
    }
}

fn padded_re_text(name: &[char]) -> (r: String)
    ensures
        r@ == padded_placeholder_re(name@),
{
    let mut v: Vec<char> = Vec::new();
    v.push('\\');
    v.push('{');
    append_chars(&mut v, name);
    v.push(':');
    v.push('(');
    v.push('\\');
    v.push('d');
    v.push('+');
    v.push(')');
    v.push('\\');
    v.push('}');
    assert(v@ =~= padded_placeholder_re(name@));
    string_of(v.as_slice())
}

/// Replaces a placeholder by a value, in both its `{name}` and `{name:NN}` forms.
pub fn replace_placeholder(pattern: &[char], name: &[char], value: &[char]) -> (r: Vec<char>)
    ensures
        r@ == placeholder_replaced(pattern@, name@, value@),
{
    let mut braces: Vec<char> = Vec::new();
    braces.push('{');
    append_chars(&mut braces, name);
    braces.push('}');
    assert(braces@ =~= plain_placeholder(name@));
    let plain = replace_all(pattern, braces.as_slice(), value);
    let re = padded_re_text(name);
    let plain_text = string_of(plain.as_slice());
    let value_text = string_of(value);
    match regex_replace_all(re.as_str(), plain_text.as_str(), value_text.as_str()) {
        Some(s) => chars_of(s.as_str()),
        None => plain,
    }
}

/// Replaces a number placeholder, zero-padding it to the width that its
/// `{name:NN}` form asks for.
pub fn replace_placeholder_padded(pattern: &[char], name: &[char], value: i32) -> (r: Vec<char>)
    ensures
        r@ == number_placeholder_replaced(pattern@, name@, value),
{
    let re = padded_re_text(name);
    let pattern_text = string_of(pattern);
    match regex_capture(re.as_str(), pattern_text.as_str(), 1) {
        Some(w) => {
            let wv = chars_of(w.as_str());
            match parse_usize(wv.as_slice()) {
                Some(width) => {
                    let padded = i32_padded(value, width);
                    let padded_text = string_of(padded.as_slice());
                    match regex_replace_all(re.as_str(), pattern_text.as_str(), padded_text.as_str()) {
                        Some(s) => {
                            return chars_of(s.as_str());
                        },
                        None => {},
                    }
                },
                None => {},
            }
        },
        None => {},
    }
    let shown = i64_to_chars(value as i64);
    replace_placeholder(pattern, name, shown.as_slice())
}


// ---------------------------------------------------------------------------
// Paths
// ---------------------------------------------------------------------------

/// The path for a movie file.
pub open spec fn movie_path(
    pattern: Seq<char>,
    title: Seq<char>,
    year: i32,
    quality: Seq<char>,
    ext: Seq<char>,
) -> Seq<char> {
    let r = placeholder_replaced(pattern, "title"@, sanitized(title));
    let r = placeholder_replaced(r, "year"@, int_display(year as int));
    let r = placeholder_replaced(r, "quality"@, sanitized(quality));
    placeholder_replaced(r, "ext"@, ext)
}

/// The path for a TV episode file.
pub open spec fn episode_path(
    pattern: Seq<char>,
    show_title: Seq<char>,
    season: i32,
    episode: i32,
    episode_title: Seq<char>,
    quality: Seq<char>,
    ext: Seq<char>,
) -> Seq<char> {
    let r = placeholder_replaced(pattern, "title"@, sanitized(show_title));
    let r = number_placeholder_replaced(r, "season"@, season);
    let r = number_placeholder_replaced(r, "episode"@, episode);
    let r = placeholder_replaced(r, "episode_title"@, sanitized(episode_title));
    let r = placeholder_replaced(r, "quality"@, sanitized(quality));
    placeholder_replaced(r, "ext"@, ext)
}

/// The path for a music track file.
pub open spec fn track_path(
    pattern: Seq<char>,
    artist: Seq<char>,
    album: Seq<char>,
    title: Seq<char>,
    track_num: i32,
    disc_num: i32,
    ext: Seq<char>,
) -> Seq<char> {
    let r = placeholder_replaced(pattern, "artist"@, sanitized(artist));
    let r = placeholder_replaced(r, "album"@, sanitized(album));
    let r = placeholder_replaced(r, "title"@, sanitized(title));
    let r = number_placeholder_replaced(r, "track"@, track_num);
    let r = number_placeholder_replaced(r, "disc"@, disc_num);
    placeholder_replaced(r, "ext"@, ext)
}

/// The path of an album's cover: `music/{artist}/{album}/cover.{ext}`.
pub open spec fn album_path(artist: Seq<char>, album: Seq<char>, ext: Seq<char>) -> Seq<char> {
    "music/"@ + sanitized(artist) + seq!['/'] + sanitized(album) + "/cover."@ + ext
}

/// Engine for generating file paths from naming patterns.
pub struct NamingEngine {
    movie_pattern: String,
    tv_pattern: String,
    music_pattern: String,
}

impl NamingEngine {
    /// The movie pattern.
    pub closed spec fn movie_pattern_spec(&self) -> Seq<char> {
        self.movie_pattern@
    }

    /// The TV pattern.
    pub closed spec fn tv_pattern_spec(&self) -> Seq<char> {
        self.tv_pattern@
    }

    /// The music pattern.
    pub closed spec fn music_pattern_spec(&self) -> Seq<char> {
        self.music_pattern@
    }

    /// Creates a naming engine from configuration.
    pub fn new(config: NamingConfig) -> (r: Self)
        ensures
            r.movie_pattern_spec() == config.movie_pattern@,
            r.tv_pattern_spec() == config.tv_pattern@,
            r.music_pattern_spec() == config.music_pattern@,
    {
        NamingEngine {
            movie_pattern: config.movie_pattern,
            tv_pattern: config.tv_pattern,
            music_pattern: config.music_pattern,
        }
    }

    /// Generates a movie file path from the configured pattern.
    pub fn generate_movie_path(&self, title: &str, year: i32, quality: &str, ext: &str) -> (r: String)
        ensures
            r@ == movie_path(self.movie_pattern_spec(), title@, year, quality@, ext@),
    {
        let mut r = chars_of(self.movie_pattern.as_str());
        let t = chars_of(sanitize_filename(title).as_str());
        r = replace_placeholder(r.as_slice(), chars_of("title").as_slice(), t.as_slice());
        let y = i64_to_chars(year as i64);
        r = replace_placeholder(r.as_slice(), chars_of("year").as_slice(), y.as_slice());
        let q = chars_of(sanitize_filename(quality).as_str());
        r = replace_placeholder(r.as_slice(), chars_of("quality").as_slice(), q.as_slice());
        r = replace_placeholder(r.as_slice(), chars_of("ext").as_slice(), chars_of(ext).as_slice());
        string_of(r.as_slice())
    }

    /// Generates a TV episode file path from the configured pattern.
    pub fn generate_episode_path(
        &self,
        show_title: &str,
        season: i32,
        episode: i32,
        episode_title: &str,
        quality: &str,
        ext: &str,
    ) -> (r: String)
        ensures
            r@ == episode_path(
                self.tv_pattern_spec(),
                show_title@,
                season,
                episode,
                episode_title@,
                quality@,
                ext@,
            ),
    {
        let mut r = chars_of(self.tv_pattern.as_str());
        let t = chars_of(sanitize_filename(show_title).as_str());
        r = replace_placeholder(r.as_slice(), chars_of("title").as_slice(), t.as_slice());
        r = replace_placeholder_padded(r.as_slice(), chars_of("season").as_slice(), season);
        r = replace_placeholder_padded(r.as_slice(), chars_of("episode").as_slice(), episode);
        let et = chars_of(sanitize_filename(episode_title).as_str());
        r = replace_placeholder(r.as_slice(), chars_of("episode_title").as_slice(), et.as_slice());
        let q = chars_of(sanitize_filename(quality).as_str());
        r = replace_placeholder(r.as_slice(), chars_of("quality").as_slice(), q.as_slice());
        r = replace_placeholder(r.as_slice(), chars_of("ext").as_slice(), chars_of(ext).as_slice());
        string_of(r.as_slice())
    }

    /// Generates a music track file path from the configured pattern.
    pub fn generate_track_path(
        &self,
        artist: &str,
        album: &str,
        title: &str,
        track_num: i32,
        disc_num: i32,
        ext: &str,
    ) -> (r: String)
        ensures
            r@ == track_path(
                self.music_pattern_spec(),
                artist@,
                album@,
                title@,
                track_num,
                disc_num,
                ext@,
            ),
    {
        let mut r = chars_of(self.music_pattern.as_str());
        let a = chars_of(sanitize_filename(artist).as_str());
        r = replace_placeholder(r.as_slice(), chars_of("artist").as_slice(), a.as_slice());
        let al = chars_of(sanitize_filename(album).as_str());
        r = replace_placeholder(r.as_slice(), chars_of("album").as_slice(), al.as_slice());
        let t = chars_of(sanitize_filename(title).as_str());
        r = replace_placeholder(r.as_slice(), chars_of("title").as_slice(), t.as_slice());
        r = replace_placeholder_padded(r.as_slice(), chars_of("track").as_slice(), track_num);
        r = replace_placeholder_padded(r.as_slice(), chars_of("disc").as_slice(), disc_num);
        r = replace_placeholder(r.as_slice(), chars_of("ext").as_slice(), chars_of(ext).as_slice());
        string_of(r.as_slice())
    }

    /// Generates an album directory path (for album art and the like).
    fn generate_album_path(&self, artist: &str, album: &str, ext: &str) -> (r: String)
        ensures
            r@ == album_path(artist@, album@, ext@),
    {
        let mut r = chars_of("music/");
        append_chars(&mut r, chars_of(sanitize_filename(artist).as_str()).as_slice());
        r.push('/');
        append_chars(&mut r, chars_of(sanitize_filename(album).as_str()).as_slice());
        append_chars(&mut r, chars_of("/cover.").as_slice());
        append_chars(&mut r, chars_of(ext).as_slice());
        assert(r@ =~= album_path(artist@, album@, ext@));
        string_of(r.as_slice())
    }

    /// Generates a file path for the given media info and file extension.
    pub fn generate_path(&self, media_info: &MediaInfo, ext: &str) -> (r: String)
        ensures
            r@ == media_path(self, media_info, ext@),
    {
        match media_info {
            MediaInfo::Movie { movie, quality } => {
                let r = self.generate_movie_path(movie.title.as_str(), movie.year, quality.as_str(), ext);
                assert(r@ == movie_path(self.movie_pattern_spec(), movie.title@, movie.year, quality@, ext@));
                r
            },
            MediaInfo::Episode { show, episode, quality } => {
                let episode_title: &str = match &episode.title {
                    Some(t) => t.as_str(),
                    None => "",
                };
                proof {
                    reveal_strlit("");
                    assert(episode_title@ =~= episode_title_or_empty(episode.title));
                }
                self.generate_episode_path(
                    show.title.as_str(),
                    episode.season_number,
                    episode.episode_number,
                    episode_title,
                    quality.as_str(),
                    ext,
                )
            },
            MediaInfo::Album { artist, album } => {
                self.generate_album_path(artist.name.as_str(), album.title.as_str(), ext)
            },
            MediaInfo::Track { artist, album, track } => {
                self.generate_track_path(
                    artist.name.as_str(),
                    album.title.as_str(),
                    track.title.as_str(),
                    track.track_number,
                    track.disc_number,
                    ext,
                )
            },
        }
    }

    /// Returns the movie pattern.
    pub fn movie_pattern(&self) -> (r: &str)
        ensures
            r@ == self.movie_pattern_spec(),
    {
        self.movie_pattern.as_str()
    }

    /// Returns the TV pattern.
    pub fn tv_pattern(&self) -> (r: &str)
        ensures
            r@ == self.tv_pattern_spec(),
    {
        self.tv_pattern.as_str()
    }

    /// Returns the music pattern.
    pub fn music_pattern(&self) -> (r: &str)
        ensures
            r@ == self.music_pattern_spec(),
    {
        self.music_pattern.as_str()
    }
}

/// The title of an episode, or the empty string.
pub open spec fn episode_title_or_empty(t: Option<String>) -> Seq<char> {
    match t {
        Some(s) => s@,
        None => Seq::<char>::empty(),
    }
}

/// The path that `generate_path` returns for a media item.
pub open spec fn media_path(engine: &NamingEngine, info: &MediaInfo, ext: Seq<char>) -> Seq<char> {
    match info {
        MediaInfo::Movie { movie, quality } => movie_path(
            engine.movie_pattern_spec(),
            movie.title@,
            movie.year,
            quality@,
            ext,
        ),
        MediaInfo::Episode { show, episode, quality } => episode_path(
            engine.tv_pattern_spec(),
            show.title@,
            episode.season_number,
            episode.episode_number,
            episode_title_or_empty(episode.title),
            quality@,
            ext,
        ),
        MediaInfo::Album { artist, album } => album_path(artist.name@, album.title@, ext),
        MediaInfo::Track { artist, album, track } => track_path(
            engine.music_pattern_spec(),
            artist.name@,
            album.title@,
            track.title@,
            track.track_number,
            track.disc_number,
            ext,
        ),
    }
}


// ---------------------------------------------------------------------------
// Properties of sanitized names
// ---------------------------------------------------------------------------

/// No two neighbouring characters are both `c`.
pub open spec fn no_pair(s: Seq<char>, c: char) -> bool {
    forall|i: int| 0 <= i < s.len() - 1 ==> !(#[trigger] s[i] == c && s[i + 1] == c)
}

/// No character is unsafe in a file name.
pub open spec fn all_safe(s: Seq<char>) -> bool {
    forall|i: int| 0 <= i < s.len() ==> !is_unsafe_filename_char(#[trigger] s[i])
}

proof fn lemma_collapse_last(s: Seq<char>, c: char)
    requires
        s.len() > 0,
    ensures
        collapse_runs(s, c).len() > 0,
        collapse_runs(s, c).last() == s.last(),
    decreases s.len(),
{
    if s.len() >= 2 && s.last() == c && s[s.len() - 2] == c {
        lemma_collapse_last(s.drop_last(), c);
    }
}

proof fn lemma_collapse_props(s: Seq<char>, c: char, d: char)
    ensures
        no_pair(collapse_runs(s, c), c),
        no_pair(s, d) && d != c ==> no_pair(collapse_runs(s, c), d),
        all_safe(s) ==> all_safe(collapse_runs(s, c)),
        no_pair(s, c) ==> collapse_runs(s, c) == s,
    decreases s.len(),
{
    if s.len() > 0 {
        let init = s.drop_last();
        lemma_collapse_props(init, c, d);
        let ci = collapse_runs(init, c);
        if init.len() > 0 {
            lemma_collapse_last(init, c);
        }
        if no_pair(s, d) && d != c {
            assert(no_pair(init, d)) by {
                assert forall|i: int| 0 <= i < init.len() - 1 implies !(#[trigger] init[i] == d
                    && init[i + 1] == d) by {
                    assert(init[i] == s[i] && init[i + 1] == s[i + 1]);
                }
            }
        }
        if all_safe(s) {
            assert(all_safe(init)) by {
                assert forall|i: int| 0 <= i < init.len() implies !is_unsafe_filename_char(
                    #[trigger] init[i],
                ) by {
                    assert(init[i] == s[i]);
                }
            }
        }
        if no_pair(s, c) {
            assert(no_pair(init, c)) by {
                assert forall|i: int| 0 <= i < init.len() - 1 implies !(#[trigger] init[i] == c
                    && init[i + 1] == c) by {
                    assert(init[i] == s[i] && init[i + 1] == s[i + 1]);
                }
            }
            if s.len() >= 2 {
                assert(!(s[s.len() - 2] == c && s[s.len() - 1] == c));
            }
            assert(s =~= init.push(s.last()));
        }
        if !(s.len() >= 2 && s.last() == c && s[s.len() - 2] == c) {
            let r = ci.push(s.last());
            assert forall|i: int| 0 <= i < r.len() - 1 implies !(#[trigger] r[i] == c && r[i + 1]
                == c) by {
                if i < ci.len() - 1 {
                    assert(r[i] == ci[i] && r[i + 1] == ci[i + 1]);
                } else {
                    assert(r[i] == ci.last());
                }
            }
            if no_pair(s, d) && d != c {
                assert forall|i: int| 0 <= i < r.len() - 1 implies !(#[trigger] r[i] == d && r[i
                    + 1] == d) by {
                    if i < ci.len() - 1 {
                        assert(r[i] == ci[i] && r[i + 1] == ci[i + 1]);
                    } else {
                        assert(r[i] == ci.last());
                        assert(s[s.len() - 2] == init.last());
                    }
                }
            }
            if all_safe(s) {
                assert forall|i: int| 0 <= i < r.len() implies !is_unsafe_filename_char(
                    #[trigger] r[i],
                ) by {
                    if i < ci.len() {
                        assert(r[i] == ci[i]);
                    }
                }
            }
        }
    }
}

proof fn lemma_trim_subrange(s: Seq<char>, p: spec_fn(char) -> bool)
    ensures
        exists|a: int, b: int| 0 <= a <= b <= s.len() && trim_by(s, p) == s.subrange(a, b),
{
    let a = trim_start_len(s, p);
    lemma_trim_start_sub(s, p);
    let t = s.subrange(a, s.len() as int);
    let b = trim_end_len(t, p);
    lemma_trim_end_sub(t, p);
    assert(t.subrange(0, b) =~= s.subrange(a, a + b));
}

spec fn trim_start_len(s: Seq<char>, p: spec_fn(char) -> bool) -> int
    decreases s.len(),
{
    if s.len() > 0 && p(s[0]) {
        1 + trim_start_len(s.drop_first(), p)
    } else {
        0
    }
}

proof fn lemma_trim_start_sub(s: Seq<char>, p: spec_fn(char) -> bool)
    ensures
        0 <= trim_start_len(s, p) <= s.len(),
        crate::text::trim_start_by(s, p) == s.subrange(trim_start_len(s, p), s.len() as int),
    decreases s.len(),
{
    if s.len() > 0 && p(s[0]) {
        lemma_trim_start_sub(s.drop_first(), p);
        assert(s.drop_first().subrange(trim_start_len(s.drop_first(), p), s.len() - 1)
            =~= s.subrange(trim_start_len(s, p), s.len() as int));
    } else {
        assert(s.subrange(0, s.len() as int) =~= s);
    }
}

spec fn trim_end_len(s: Seq<char>, p: spec_fn(char) -> bool) -> int
    decreases s.len(),
{
    if s.len() > 0 && p(s.last()) {
        trim_end_len(s.drop_last(), p)
    } else {
        s.len() as int
    }
}

proof fn lemma_trim_end_sub(s: Seq<char>, p: spec_fn(char) -> bool)
    ensures
        0 <= trim_end_len(s, p) <= s.len(),
        crate::text::trim_end_by(s, p) == s.subrange(0, trim_end_len(s, p)),
    decreases s.len(),
{
    if s.len() > 0 && p(s.last()) {
        lemma_trim_end_sub(s.drop_last(), p);
        assert(s.drop_last().subrange(0, trim_end_len(s, p)) =~= s.subrange(0, trim_end_len(s, p)));
    } else {
        assert(s.subrange(0, s.len() as int) =~= s);
    }
}

proof fn lemma_sub_keeps(s: Seq<char>, a: int, b: int)
    requires
        0 <= a <= b <= s.len(),
    ensures
        all_safe(s) ==> all_safe(s.subrange(a, b)),
        no_pair(s, '_') ==> no_pair(s.subrange(a, b), '_'),
        no_pair(s, ' ') ==> no_pair(s.subrange(a, b), ' '),
{
    let t = s.subrange(a, b);
    assert forall|i: int| 0 <= i < t.len() implies t[i] == s[a + i] by {}
}

proof fn lemma_utf8_len_drop(s: Seq<char>, a: int)
    requires
        0 <= a <= s.len(),
    ensures
        utf8_len(s.subrange(a, s.len() as int)) <= utf8_len(s),
    decreases a,
{
    if a == 0 {
        assert(s.subrange(0, s.len() as int) =~= s);
    } else {
        lemma_utf8_len_front(s);
        lemma_utf8_len_drop(s.drop_first(), a - 1);
        assert(s.drop_first().subrange(a - 1, s.len() - 1) =~= s.subrange(a, s.len() as int));
    }
}

/// A piece of a sequence takes no more bytes than the sequence.
proof fn lemma_utf8_len_sub(s: Seq<char>, a: int, b: int)
    requires
        0 <= a <= b <= s.len(),
    ensures
        utf8_len(s.subrange(a, b)) <= utf8_len(s),
{
    let t = s.take(b);
    lemma_utf8_len_drop(t, a);
    assert(t.subrange(a, b) =~= s.subrange(a, b));
    if b < s.len() {
        lemma_utf8_len_take_mono(s, b, s.len() as int);
    }
    assert(s.take(s.len() as int) =~= s);
}

/// Collapsing runs takes no more bytes.
proof fn lemma_utf8_len_collapse(s: Seq<char>, c: char)
    ensures
        utf8_len(collapse_runs(s, c)) <= utf8_len(s),
    decreases s.len(),
{
    if s.len() > 0 {
        lemma_utf8_len_collapse(s.drop_last(), c);
        let r = collapse_runs(s.drop_last(), c);
        assert(r.push(s.last()).drop_last() =~= r);
    }
}

/// Replacing unsafe characters (all ASCII) by `_` keeps the byte count.
proof fn lemma_utf8_len_replace_unsafe(s: Seq<char>)
    ensures
        utf8_len(replace_unsafe_chars(s)) == utf8_len(s),
    decreases s.len(),
{
    if s.len() > 0 {
        lemma_utf8_len_replace_unsafe(s.drop_last());
        assert(replace_unsafe_chars(s).drop_last() =~= replace_unsafe_chars(s.drop_last()));
        let c = s.last();
        if is_unsafe_filename_char(c) {
            assert((c as u32) < 0x80);
            assert(('_' as u32) < 0x80);
        }
    }
}

/// Cleaning a name takes no more bytes than the name.
proof fn lemma_cleaned_no_longer(name: Seq<char>)
    ensures
        utf8_len(cleaned_name(name)) <= utf8_len(name),
{
    let r = replace_unsafe_chars(name);
    lemma_utf8_len_replace_unsafe(name);
    let c1 = collapse_runs(r, '_');
    lemma_utf8_len_collapse(r, '_');
    let c2 = collapse_runs(c1, ' ');
    lemma_utf8_len_collapse(c1, ' ');
    lemma_trim_subrange(c2, set_pred(CharSet::NameEdge));
    let (a, b) = choose|a: int, b: int| 0 <= a <= b <= c2.len() && trim_by(
        c2,
        set_pred(CharSet::NameEdge),
    ) == c2.subrange(a, b);
    lemma_utf8_len_sub(c2, a, b);
}

proof fn lemma_cleaned_props(name: Seq<char>)
    ensures
        all_safe(cleaned_name(name)),
        no_pair(cleaned_name(name), '_'),
        no_pair(cleaned_name(name), ' '),
        cleaned_name(name).len() > 0 ==> !in_set(CharSet::NameEdge, cleaned_name(name)[0])
            && !in_set(CharSet::NameEdge, cleaned_name(name).last()),
{
    let r = replace_unsafe_chars(name);
    assert(all_safe(r)) by {
        assert forall|i: int| 0 <= i < r.len() implies !is_unsafe_filename_char(#[trigger] r[i]) by {}
    }
    let c1 = collapse_runs(r, '_');
    lemma_collapse_props(r, '_', ' ');
    let c2 = collapse_runs(c1, ' ');
    lemma_collapse_props(c1, ' ', '_');
    lemma_trim_subrange(c2, set_pred(CharSet::NameEdge));
    let (a, b) = choose|a: int, b: int| 0 <= a <= b <= c2.len() && trim_by(
        c2,
        set_pred(CharSet::NameEdge),
    ) == c2.subrange(a, b);
    lemma_sub_keeps(c2, a, b);
    crate::text::lemma_trim_by_clean(c2, set_pred(CharSet::NameEdge));
}

/// A sanitized name holds no character that is unsafe in file names, no
/// two neighbouring `_`, no two neighbouring spaces, and at most 200 bytes,
/// and it takes no more bytes than the name; cleaning a name (before the
/// cut) takes no more bytes either, so a name of at most 200 bytes needs
/// no cut.
pub proof fn lemma_sanitized_is_safe(name: Seq<char>)
    ensures
        all_safe(sanitized(name)),
        no_pair(sanitized(name), '_'),
        no_pair(sanitized(name), ' '),
        utf8_len(sanitized(name)) <= max_name_bytes(),
        utf8_len(sanitized(name)) <= utf8_len(name),
        utf8_len(cleaned_name(name)) <= utf8_len(name),
{
    lemma_cleaned_props(name);
    lemma_cleaned_no_longer(name);
    let c = cleaned_name(name);
    lemma_fit_prefix_props(c, max_name_bytes());
    let k = choose|k: int| 0 <= k <= c.len() && fit_prefix(c, max_name_bytes()) == #[trigger] c.take(k);
    lemma_sub_keeps(c, 0, k);
    assert(c.take(k) =~= c.subrange(0, k));
    lemma_utf8_len_sub(c, 0, k);
}

/// When no cut is needed, a sanitized name neither starts nor ends with a
/// space, `_` or `.`.
pub proof fn lemma_sanitized_is_trimmed(name: Seq<char>)
    requires
        utf8_len(cleaned_name(name)) <= max_name_bytes(),
    ensures
        sanitized(name) == cleaned_name(name),
        sanitized(name).len() > 0 ==> !in_set(CharSet::NameEdge, sanitized(name)[0]) && !in_set(
            CharSet::NameEdge,
            sanitized(name).last(),
        ),
{
    lemma_cleaned_props(name);
}

/// Sanitizing is idempotent on names that need no cut: sanitizing a
/// sanitized name returns it unchanged.
pub proof fn lemma_sanitize_idempotent(name: Seq<char>)
    requires
        utf8_len(cleaned_name(name)) <= max_name_bytes(),
    ensures
        sanitized(sanitized(name)) == sanitized(name),
{
    lemma_cleaned_props(name);
    let x = sanitized(name);
    assert(x == cleaned_name(name));
    assert(replace_unsafe_chars(x) =~= x) by {
        assert forall|i: int| 0 <= i < x.len() implies replace_unsafe_chars(x)[i] == x[i] by {
            assert(!is_unsafe_filename_char(x[i]));
        }
    }
    lemma_collapse_props(x, '_', ' ');
    lemma_collapse_props(x, ' ', '_');
    let p = set_pred(CharSet::NameEdge);
    if x.len() > 0 {
        assert(!p(x[0]));
        assert(!p(x.last()));
    }
    assert(crate::text::trim_start_by(x, p) == x);
    assert(crate::text::trim_end_by(x, p) == x);
    assert(cleaned_name(x) == x);
}

/// A name of at most 200 bytes sanitizes to a name with no unsafe
/// character, no two neighbouring `_` or spaces, no space, `_` or `.` at
/// either end, no more bytes than the name, and that sanitizing leaves
/// unchanged.
pub proof fn lemma_short_name_sanitized(name: Seq<char>)
    requires
        utf8_len(name) <= max_name_bytes(),
    ensures
        all_safe(sanitized(name)),
        no_pair(sanitized(name), '_'),
        no_pair(sanitized(name), ' '),
        sanitized(name).len() > 0 ==> !in_set(CharSet::NameEdge, sanitized(name)[0]) && !in_set(
            CharSet::NameEdge,
            sanitized(name).last(),
        ),
        utf8_len(sanitized(name)) <= utf8_len(name),
        sanitized(sanitized(name)) == sanitized(name),
{
    lemma_sanitized_is_safe(name);
    lemma_sanitized_is_trimmed(name);
    lemma_sanitize_idempotent(name);
}

/// The directories and file name of a path: its fields between `/`.
pub open spec fn path_components(path: Seq<char>) -> Seq<Seq<char>> {
    split_fields(path, |c: char| c == '/')
}

/// A text without a separator is a single field.
proof fn lemma_split_plain(y: Seq<char>, p: spec_fn(char) -> bool)
    requires
        forall|i: int| 0 <= i < y.len() ==> !p(#[trigger] y[i]),
    ensures
        split_fields(y, p) == seq![y],
    decreases y.len(),
{
    if y.len() > 0 {
        lemma_split_plain(y.drop_last(), p);
        assert(y.drop_last().push(y.last()) =~= y);
        assert(seq![y.drop_last()].update(0, y) =~= seq![y]);
    } else {
        assert(y =~= Seq::<char>::empty());
    }
}

/// Adding a separator and a text without separators adds one field.
proof fn lemma_split_join(x: Seq<char>, c: char, y: Seq<char>, p: spec_fn(char) -> bool)
    requires
        p(c),
        forall|i: int| 0 <= i < y.len() ==> !p(#[trigger] y[i]),
    ensures
        split_fields(x + seq![c] + y, p) == split_fields(x, p).push(y),
    decreases y.len(),
{
    crate::text::lemma_split_fields_len(x, p);
    if y.len() == 0 {
        assert((x + seq![c] + y).drop_last() =~= x);
        assert(y =~= Seq::<char>::empty());
    } else {
        let s = x + seq![c] + y;
        lemma_split_join(x, c, y.drop_last(), p);
        assert(s.drop_last() =~= x + seq![c] + y.drop_last());
        assert(s.last() == y.last());
        assert(!p(y[y.len() - 1]));
        let init = split_fields(x, p).push(y.drop_last());
        assert(y.drop_last().push(y.last()) =~= y);
        assert(init.last() == y.drop_last());
        assert(init.update(init.len() - 1, y) =~= split_fields(x, p).push(y));
    }
}

/// No character of a sanitized name is `/`.
proof fn lemma_sanitized_no_slash(name: Seq<char>)
    ensures
        forall|i: int| 0 <= i < sanitized(name).len() ==> #[trigger] sanitized(name)[i] != '/',
{
    lemma_sanitized_is_safe(name);
    assert forall|i: int| 0 <= i < sanitized(name).len() implies #[trigger] sanitized(name)[i] != '/' by {
        assert(!is_unsafe_filename_char(sanitized(name)[i]));
    }
}

/// An album's cover lies in the album's directory inside the artist's:
/// for an extension without `/`, the cover path's components are `music`,
/// the sanitized artist name, the sanitized album title and
/// `cover.<ext>`, in that order (a sanitized name never holds a `/`).
pub proof fn lemma_cover_in_artist_then_album_dir(artist: Seq<char>, album: Seq<char>, ext: Seq<char>)
    requires
        forall|i: int| 0 <= i < ext.len() ==> #[trigger] ext[i] != '/',
    ensures
        path_components(album_path(artist, album, ext)) == seq![
            "music"@,
            sanitized(artist),
            sanitized(album),
            "cover."@ + ext,
        ],
{
    let p = |c: char| c == '/';
    reveal_strlit("music/");
    reveal_strlit("music");
    reveal_strlit("/cover.");
    reveal_strlit("cover.");
    assert("music/"@ =~= seq!['m', 'u', 's', 'i', 'c', '/']);
    assert("music"@ =~= seq!['m', 'u', 's', 'i', 'c']);
    assert("/cover."@ =~= seq!['/', 'c', 'o', 'v', 'e', 'r', '.']);
    assert("cover."@ =~= seq!['c', 'o', 'v', 'e', 'r', '.']);
    let a = sanitized(artist);
    let b = sanitized(album);
    let f = "cover."@ + ext;
    lemma_sanitized_no_slash(artist);
    lemma_sanitized_no_slash(album);
    assert forall|i: int| 0 <= i < f.len() implies !p(#[trigger] f[i]) by {
        if i >= 6 {
            assert(f[i] == ext[i - 6]);
        }
    }
    let m = "music"@;
    assert forall|i: int| 0 <= i < m.len() implies !p(#[trigger] m[i]) by {}
    lemma_split_plain(m, p);
    let x1 = m + seq!['/'] + a;
    lemma_split_join(m, '/', a, p);
    let x2 = x1 + seq!['/'] + b;
    lemma_split_join(x1, '/', b, p);
    let x3 = x2 + seq!['/'] + f;
    lemma_split_join(x2, '/', f, p);
    assert(album_path(artist, album, ext) =~= x3);
    assert(split_fields(x3, p) =~= seq![m, a, b, f]);
}

} // verus!
