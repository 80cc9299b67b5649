//! Indexer search queries, releases and the merging of results from
//! several indexers.

use vstd::prelude::*;
use crate::naming::{cut_at_bytes, cut_bytes, cuttable};
use crate::number::{i32_padded, i64_to_chars, int_display, int_padded};
use crate::parser::{Quality, Source};
use crate::text::{append_chars, chars_eq, chars_of, string_of};

verus! {

/// Type of media to search for.
#[derive(Debug, Clone, Copy, PartialEq, Eq, Structural)]
pub enum MediaSearchType {
    Movie,
    TvEpisode,
    MusicAlbum,
}

/// Search query parameters for indexer searches.
pub struct SearchQuery {
    /// Main search query string.
    pub query: String,
    /// Type of media to search for.
    pub media_type: Option<MediaSearchType>,
    /// IMDB ID for precise matching.
    pub imdb_id: Option<String>,
    /// TMDB ID for movies and TV.
    pub tmdb_id: Option<i32>,
    /// MusicBrainz ID for music.
    pub mbid: Option<String>,
    /// Release year filter.
    pub year: Option<i32>,
    /// Season number (TV).
    pub season: Option<i32>,
    /// Episode number (TV).
    pub episode: Option<i32>,
    /// Artist name (music).
    pub artist: Option<String>,
    /// Album name (music).
    pub album: Option<String>,
}

impl Clone for SearchQuery {
    fn clone(&self) -> (r: Self)
        ensures
            r.query@ == self.query@,
            r.media_type == self.media_type,
            r.imdb_id.deep_view() == self.imdb_id.deep_view(),
            r.tmdb_id == self.tmdb_id,
            r.mbid.deep_view() == self.mbid.deep_view(),
            r.year == self.year,
            r.season == self.season,
            r.episode == self.episode,
            r.artist.deep_view() == self.artist.deep_view(),
            r.album.deep_view() == self.album.deep_view(),
    {
        SearchQuery {
            query: self.query.clone(),
            media_type: self.media_type,
            imdb_id: clone_opt(&self.imdb_id),
            tmdb_id: self.tmdb_id,
            mbid: clone_opt(&self.mbid),
            year: self.year,
            season: self.season,
            episode: self.episode,
            artist: clone_opt(&self.artist),
            album: clone_opt(&self.album),
        }
    }
}

/// Copies an optional string.
pub fn clone_opt(s: &Option<String>) -> (r: Option<String>)
    ensures
        r == *s,
{
    match s {
        Some(t) => Some(t.clone()),
        None => None,
    }
}

impl Default for SearchQuery {
    fn default() -> (r: Self)
        ensures
            r.query@ == Seq::<char>::empty(),
            r.media_type is None && r.imdb_id is None && r.tmdb_id is None && r.mbid is None,
            r.year is None && r.season is None && r.episode is None,
            r.artist is None && r.album is None,
    {
        SearchQuery {
            query: String::new(),
            media_type: None,
            imdb_id: None,
            tmdb_id: None,
            mbid: None,
            year: None,
            season: None,
            episode: None,
            artist: None,
            album: None,
        }
    }
}

/// The text that `build_query_string` produces: the query, then the year,
/// then `SxxEyy` when both season and episode are set, separated by spaces.
pub open spec fn query_text(q: Seq<char>, year: Option<i32>, season: Option<i32>, episode: Option<i32>) -> Seq<char> {
    let with_year = match year {
        Some(y) => q + seq![' '] + int_display(y as int),
        None => q,
    };
    match (season, episode) {
        (Some(s), Some(e)) => with_year + seq![' ', 'S'] + int_padded(s as int, 2) + seq!['E']
            + int_padded(e as int, 2),
        _ => with_year,
    }
}

impl SearchQuery {
    /// Creates a search query with the given query string and nothing else set.
    pub fn new(query: &str) -> (r: Self)
        ensures
            r.query@ == query@,
            r.media_type is None && r.imdb_id is None && r.tmdb_id is None && r.mbid is None,
            r.year is None && r.season is None && r.episode is None,
            r.artist is None && r.album is None,
    {
        let mut q = SearchQuery::default();
        q.query = string_of(chars_of(query).as_slice());
        q
    }

    /// Sets the media type.
    pub fn media_type(self, media_type: MediaSearchType) -> (r: Self)
        ensures
            r.media_type == Some(media_type),
            r.query == self.query && r.imdb_id == self.imdb_id && r.tmdb_id == self.tmdb_id,
            r.mbid == self.mbid && r.year == self.year && r.season == self.season,
            r.episode == self.episode && r.artist == self.artist && r.album == self.album,
    {
        let mut s = self;
        s.media_type = Some(media_type);
        s
    }

    /// Sets the year filter.
    pub fn year(self, year: i32) -> (r: Self)
        ensures
            r.year == Some(year),
            r.query == self.query && r.imdb_id == self.imdb_id && r.tmdb_id == self.tmdb_id,
            r.mbid == self.mbid && r.media_type == self.media_type && r.season == self.season,
            r.episode == self.episode && r.artist == self.artist && r.album == self.album,
    {
        let mut s = self;
        s.year = Some(year);
        s
    }

    /// Sets season and episode for TV searches.
    pub fn episode(self, season: i32, episode: i32) -> (r: Self)
        ensures
            r.season == Some(season),
            r.episode == Some(episode),
            r.query == self.query && r.imdb_id == self.imdb_id && r.tmdb_id == self.tmdb_id,
            r.mbid == self.mbid && r.media_type == self.media_type && r.year == self.year,
            r.artist == self.artist && r.album == self.album,
    {
        let mut s = self;
        s.season = Some(season);
        s.episode = Some(episode);
        s
    }

    /// Sets the IMDB ID for precise matching.
    pub fn imdb_id(self, imdb_id: &str) -> (r: Self)
        ensures
            r.imdb_id.deep_view() == Some(imdb_id@),
            r.query == self.query && r.media_type == self.media_type && r.tmdb_id == self.tmdb_id,
            r.mbid == self.mbid && r.year == self.year && r.season == self.season,
            r.episode == self.episode && r.artist == self.artist && r.album == self.album,
    {
        let mut s = self;
        s.imdb_id = Some(string_of(chars_of(imdb_id).as_slice()));
        s
    }

    /// Builds the search text sent to indexers.
    pub fn build_query_string(&self) -> (r: String)
        ensures
            r@ == query_text(self.query@, self.year, self.season, self.episode),
    {
        let mut r = chars_of(self.query.as_str());
        match self.year {
            Some(y) => {
                r.push(' ');
                append_chars(&mut r, i64_to_chars(y as i64).as_slice());
            },
            None => {},
        }
        let ghost with_year = r@;
        match (self.season, self.episode) {
            (Some(s), Some(e)) => {
                r.push(' ');
                r.push('S');
                append_chars(&mut r, i32_padded(s, 2).as_slice());
                r.push('E');
                append_chars(&mut r, i32_padded(e, 2).as_slice());
                assert(r@ =~= with_year + seq![' ', 'S'] + int_padded(s as int, 2) + seq!['E']
                    + int_padded(e as int, 2));
            },
            _ => {},
        }
        string_of(r.as_slice())
    }
}

/// Result of testing an indexer provider.
pub struct IndexerTestResult {
    /// Name of the indexer.
    pub name: String,
    /// Whether the test was successful.
    pub success: bool,
    /// Response time in milliseconds.
    pub response_time_ms: u64,
    /// Error message if the test failed.
    pub error: Option<String>,
}

/// A release (torrent) found by an indexer.
pub struct Release {
    /// Identifier derived from indexer, title and magnet.
    pub id: String,
    /// Original release title.
    pub title: String,
    /// Name of the indexer this came from.
    pub indexer: String,
    /// Magnet link or torrent URL.
    pub magnet: String,
    /// Size in bytes.
    pub size_bytes: u64,
    /// Number of seeders.
    pub seeders: u32,
    /// Number of leechers.
    pub leechers: u32,
    /// Video quality.
    pub quality: Quality,
    /// Video source.
    pub source: Source,
    /// Video codec.
    pub codec: Option<String>,
    /// Audio codec.
    pub audio: Option<String>,
    /// Release group.
    pub group: Option<String>,
    /// PROPER release.
    pub proper: bool,
    /// REPACK release.
    pub repack: bool,
    /// Upload time (ISO 8601 or a Unix timestamp, as the indexer gives it).
    pub uploaded_at: Option<String>,
}

/// The ranking score of a release: resolution counts 100 per step, source 20
/// per step, each seeder 2 up to 100 seeders, and PROPER 10.
pub open spec fn release_score(quality: Quality, source: Source, seeders: u32, proper: bool) -> u32 {
    (quality.score_spec() * 100 + source.score_spec() * 20 + (if seeders < 100 {
        seeders
    } else {
        100
    }) * 2 + if proper {
        10u32
    } else {
        0u32
    }) as u32
}

/// How a release's ranking score moves with each of its parts: each step
/// of resolution is worth 100 points, each step of source 20, each seeder
/// 2 up to 100 seeders (more count as 100), and a PROPER release 10.
pub proof fn lemma_release_score_parts(
    q1: Quality,
    q2: Quality,
    s1: Source,
    s2: Source,
    seeders: u32,
    more: u32,
    proper: bool,
)
    ensures
        release_score(q1, s1, seeders, proper) - release_score(q2, s1, seeders, proper) == 100 * (
        q1.score_spec() - q2.score_spec()),
        release_score(q1, s1, seeders, proper) - release_score(q1, s2, seeders, proper) == 20 * (
        s1.score_spec() - s2.score_spec()),
        seeders < 100 ==> release_score(q1, s1, (seeders + 1) as u32, proper) == release_score(
            q1,
            s1,
            seeders,
            proper,
        ) + 2,
        seeders >= 100 && more >= seeders ==> release_score(q1, s1, more, proper) == release_score(
            q1,
            s1,
            seeders,
            proper,
        ),
        release_score(q1, s1, seeders, true) == release_score(q1, s1, seeders, false) + 10,
{
}

impl Release {
    /// The ranking score of this release.
    pub open spec fn score_of(&self) -> u32 {
        release_score(self.quality, self.source, self.seeders, self.proper)
    }

    /// Quality score for sorting (higher is better).
    pub fn score(&self) -> (r: u32)
        ensures
            r == self.score_of(),
            r <= 720,
    {
        let quality_score = self.quality.score() * 100;
        let source_score = self.source.score() * 20;
        let seeders = if self.seeders < 100 {
            self.seeders
        } else {
            100
        };
        let seeder_score = seeders * 2;
        let proper_bonus: u32 = if self.proper {
            10
        } else {
            0
        };
        quality_score + source_score + seeder_score + proper_bonus
    }
}


impl Clone for Release {
    fn clone(&self) -> (r: Self)
        ensures
            r == *self,
    {
        Release {
            id: self.id.clone(),
            title: self.title.clone(),
            indexer: self.indexer.clone(),
            magnet: self.magnet.clone(),
            size_bytes: self.size_bytes,
            seeders: self.seeders,
            leechers: self.leechers,
            quality: self.quality,
            source: self.source,
            codec: clone_opt(&self.codec),
            audio: clone_opt(&self.audio),
            group: clone_opt(&self.group),
            proper: self.proper,
            repack: self.repack,
            uploaded_at: clone_opt(&self.uploaded_at),
        }
    }
}

// ---------------------------------------------------------------------------
// Merging the results of several indexers
// ---------------------------------------------------------------------------

/// Releases whose magnets agree in their first 60 bytes are the same release.
pub open spec fn magnet_key(r: Release) -> Seq<char> {
    cut_bytes(r.magnet@, 60)
}

/// Every magnet can be cut at 60 bytes: a cut inside a character's bytes
/// would panic.
pub open spec fn magnets_cuttable(rs: Seq<Release>) -> bool {
    forall|i: int| 0 <= i < rs.len() ==> cuttable(#[trigger] rs[i].magnet@, 60)
}

/// Index of the first release in `d` with magnet key `k`.
pub open spec fn key_index(d: Seq<Release>, k: Seq<char>) -> Option<int> {
    if exists|j: int| 0 <= j < d.len() && magnet_key(#[trigger] d[j]) == k {
        Some(choose|j: int| 0 <= j < d.len() && magnet_key(#[trigger] d[j]) == k && forall|i: int|
            0 <= i < j ==> magnet_key(#[trigger] d[i]) != k)
    } else {
        None
    }
}

/// One release per magnet key, in order of first appearance; of releases
/// with the same key the one kept has strictly more seeders than every one
/// seen before it.
pub open spec fn dedup_releases(rs: Seq<Release>) -> Seq<Release>
    decreases rs.len(),
{
    if rs.len() == 0 {
        Seq::<Release>::empty()
    } else {
        let d = dedup_releases(rs.drop_last());
        let x = rs.last();
        match key_index(d, magnet_key(x)) {
            Some(j) => if x.seeders > d[j].seeders {
                d.update(j, x)
            } else {
                d
            },
            None => d.push(x),
        }
    }
}

/// The releases of `rs` with score `k`, in order.
pub open spec fn with_score(rs: Seq<Release>, k: u32) -> Seq<Release> {
    rs.filter(|r: Release| r.score_of() == k)
}

/// Scores never increase along `rs`.
pub open spec fn sorted_by_score(rs: Seq<Release>) -> bool {
    forall|a: int, b: int| 0 <= a < b < rs.len() ==> #[trigger] rs[a].score_of() >= #[trigger] rs[
        b].score_of()
}

/// `out` is `rs` stably sorted by descending score: sorted, and for every
/// score the releases with that score come in the same order in both.
pub open spec fn stable_sorted_desc(out: Seq<Release>, rs: Seq<Release>) -> bool {
    &&& sorted_by_score(out)
    &&& forall|k: u32| #[trigger] with_score(out, k) == with_score(rs, k)
}

/// Finds the first key equal to `k`.
fn find_key(keys: &Vec<Vec<char>>, k: &Vec<char>, Ghost(d): Ghost<Seq<Release>>) -> (r: Option<usize>)
    requires
        keys.len() == d.len(),
        forall|j: int| 0 <= j < d.len() ==> keys@[j]@ == magnet_key(#[trigger] d[j]),
    ensures
        r == (match key_index(d, k@) {
            Some(j) => Some(j as usize),
            None => None::<usize>,
        }),
        r matches Some(j) ==> j < d.len() && key_index(d, k@) == Some(j as int) && magnet_key(
            d[j as int],
        ) == k@,
        r is None ==> key_index(d, k@) is None,
{
    let mut j: usize = 0;
    while j < keys.len()
        invariant
            j <= keys.len(),
            keys.len() == d.len(),
            forall|i: int| 0 <= i < d.len() ==> keys@[i]@ == magnet_key(#[trigger] d[i]),
            forall|i: int| 0 <= i < j ==> magnet_key(#[trigger] d[i]) != k@,
        decreases keys.len() - j,
    {
        if chars_eq(keys[j].as_slice(), k.as_slice()) {
            proof {
                let c = choose|c: int| 0 <= c < d.len() && magnet_key(#[trigger] d[c]) == k@
                    && forall|i: int| 0 <= i < c ==> magnet_key(#[trigger] d[i]) != k@;
                assert(magnet_key(d[j as int]) == k@);
                if c < j {
                    assert(magnet_key(d[c]) != k@);
                }
                if c > j {
                    assert(magnet_key(d[j as int]) != k@);
                }
            }
            return Some(j);
        }
        j += 1;
    }
    None
}

/// Keeps one release per magnet key (see `dedup_releases`).
pub fn dedup_by_magnet(rs: Vec<Release>) -> (r: Vec<Release>)
    requires
        magnets_cuttable(rs@),
    ensures
        r@ == dedup_releases(rs@),
{
    let mut unique: Vec<Release> = Vec::new();
    let mut keys: Vec<Vec<char>> = Vec::new();
    let mut i: usize = 0;
    assert(rs@.take(0) =~= Seq::<Release>::empty());
    while i < rs.len()
        invariant
            i <= rs.len(),
            magnets_cuttable(rs@),
            unique@ == dedup_releases(rs@.take(i as int)),
            keys.len() == unique.len(),
            forall|j: int| 0 <= j < unique.len() ==> keys@[j]@ == magnet_key(#[trigger] unique@[j]),
        decreases rs.len() - i,
    {
        let x = rs[i].clone();
        let ghost d = unique@;
        assert(rs@.take(i + 1).drop_last() =~= rs@.take(i as int));
        assert(cuttable(rs@[i as int].magnet@, 60));
        let k = cut_at_bytes(chars_of(x.magnet.as_str()).as_slice(), 60);
        match find_key(&keys, &k, Ghost(d)) {
            Some(j) => {
                if x.seeders > unique[j].seeders {
                    unique.set(j, x);
                    assert forall|m: int| 0 <= m < unique.len() implies keys@[m]@ == magnet_key(
                        #[trigger] unique@[m],
                    ) by {
                        if m != j {
                            assert(unique@[m] == d[m]);
                        }
                    }
                }
            },
            None => {
                unique.push(x);
                keys.push(k);
                assert forall|m: int| 0 <= m < unique.len() implies keys@[m]@ == magnet_key(
                    #[trigger] unique@[m],
                ) by {
                    if m < d.len() {
                        assert(unique@[m] == d[m]);
                    }
                }
            },
        }
        i += 1;
    }
    assert(rs@.take(rs.len() as int) =~= rs@);
    unique
}


/// Filtering the concatenation of `a`, then `x`, then `b` by score `k`, where
/// every release of `b` scores below `x`.
proof fn lemma_insert_filter(a: Seq<Release>, x: Release, b: Seq<Release>, k: u32)
    requires
        forall|q: int| 0 <= q < b.len() ==> (#[trigger] b[q]).score_of() < x.score_of(),
    ensures
        with_score(a.push(x) + b, k) == if k == x.score_of() {
            with_score(a + b, k).push(x)
        } else {
            with_score(a + b, k)
        },
{
    let pred = |r: Release| r.score_of() == k;
    Seq::filter_distributes_over_add(a.push(x), b, pred);
    Seq::filter_distributes_over_add(a, b, pred);
    a.lemma_filter_push(x, pred);
    if k == x.score_of() {
        assert(b.all(|r: Release| !pred(r))) by {
            assert forall|q: int| 0 <= q < b.len() implies !pred(#[trigger] b[q]) by {}
        }
        b.lemma_all_neg_filter_empty(pred);
        assert(b.filter(pred) =~= Seq::<Release>::empty());
        assert(a.filter(pred).push(x) + b.filter(pred) =~= (a.filter(pred) + b.filter(pred)).push(
            x,
        ));
    }
}

/// Sorts releases by descending score, keeping the order of releases with
/// equal scores.
pub fn sort_by_score_desc(v: Vec<Release>) -> (r: Vec<Release>)
    ensures
        stable_sorted_desc(r@, v@),
        r@.len() == v@.len(),
        r@.to_multiset() == v@.to_multiset(),
{
    let mut out: Vec<Release> = Vec::new();
    let mut i: usize = 0;
    assert(v@.take(0) =~= Seq::<Release>::empty());
    while i < v.len()
        invariant
            i <= v.len(),
            out@.len() == i,
            sorted_by_score(out@),
            forall|k: u32| #[trigger] with_score(out@, k) == with_score(v@.take(i as int), k),
            out@.to_multiset() == v@.take(i as int).to_multiset(),
        decreases v.len() - i,
    {
        let x = v[i].clone();
        let sx = x.score();
        let mut p: usize = 0;
        while p < out.len()
            invariant
                p <= out.len(),
                forall|q: int| 0 <= q < p ==> (#[trigger] out@[q]).score_of() >= sx,
            ensures
                p == out.len() || out@[p as int].score_of() < sx,
            decreases out.len() - p,
        {
            if out[p].score() < sx {
                break;
            }
            p += 1;
        }
        let ghost old_out = out@;
        let ghost a = old_out.subrange(0, p as int);
        let ghost b = old_out.subrange(p as int, old_out.len() as int);
        proof {
            assert forall|q: int| 0 <= q < b.len() implies (#[trigger] b[q]).score_of() < sx by {
                assert(b[q] == old_out[p + q]);
                if q > 0 {
                    assert(old_out[p as int].score_of() >= old_out[p + q].score_of());
                }
            }
            assert(old_out =~= a + b);
        }
        out.insert(p, x);
        proof {
            assert(out@ == old_out.insert(p as int, x));
            vstd::seq_lib::to_multiset_insert(old_out, p as int, x);
            vstd::seq_lib::to_multiset_build(v@.take(i as int), x);
            assert(out@ =~= a.push(x) + b);
            assert(v@.take(i + 1) =~= v@.take(i as int).push(x));
            assert forall|k: u32| #[trigger] with_score(out@, k) == with_score(
                v@.take(i + 1),
                k,
            ) by {
                lemma_insert_filter(a, x, b, k);
                v@.take(i as int).lemma_filter_push(x, |r: Release| r.score_of() == k);
            }
            assert forall|c: int, d: int| 0 <= c < d < out@.len() implies #[trigger] out@[c].score_of()
                >= #[trigger] out@[d].score_of() by {
                if c < p && d < p {
                    assert(out@[c] == old_out[c] && out@[d] == old_out[d]);
                } else if c < p && d == p {
                    assert(out@[c] == old_out[c]);
                } else if c < p {
                    assert(out@[c] == old_out[c] && out@[d] == old_out[d - 1]);
                } else if c == p {
                    assert(out@[d] == old_out[d - 1]);
                    assert(b[d - 1 - p] == old_out[d - 1]);
                } else {
                    assert(out@[c] == old_out[c - 1] && out@[d] == old_out[d - 1]);
                }
            }
        }
        i += 1;
    }
    assert(v@.take(v.len() as int) =~= v@);
    out
}

/// Merges the releases found by all indexers: one release per magnet (the
/// first seen with the most seeders), sorted by descending score, releases
/// of equal score in the order they were found.
pub fn merge_releases(all_results: Vec<Vec<Release>>) -> (r: Vec<Release>)
    requires
        magnets_cuttable(all_results@.map_values(|v: Vec<Release>| v@).flatten()),
    ensures
        stable_sorted_desc(
            r@,
            dedup_releases(all_results@.map_values(|v: Vec<Release>| v@).flatten()),
        ),
        r@.to_multiset() == dedup_releases(
            all_results@.map_values(|v: Vec<Release>| v@).flatten(),
        ).to_multiset(),
{
    let ghost all = all_results@.map_values(|v: Vec<Release>| v@);
    let mut flat: Vec<Release> = Vec::new();
    let mut i: usize = 0;
    assert(all.take(0).flatten() =~= Seq::<Release>::empty());
    while i < all_results.len()
        invariant
            i <= all_results.len(),
            all == all_results@.map_values(|v: Vec<Release>| v@),
            flat@ == all.take(i as int).flatten(),
        decreases all_results.len() - i,
    {
        let mut j: usize = 0;
        let ghost base = flat@;
        while j < all_results[i].len()
            invariant
                i < all_results.len(),
                j <= all_results[i as int].len(),
                flat@ == base + all_results[i as int]@.take(j as int),
            decreases all_results[i as int].len() - j,
        {
            flat.push(all_results[i][j].clone());
            j += 1;
            assert(flat@ =~= base + all_results[i as int]@.take(j as int));
        }
        proof {
            assert(all_results[i as int]@.take(j as int) =~= all_results[i as int]@);
            assert(all.take(i + 1) =~= all.take(i as int).push(all[i as int]));
            all.take(i as int).lemma_flatten_push(all[i as int]);
        }
        i += 1;
    }
    assert(all.take(all_results.len() as int) =~= all);
    let unique = dedup_by_magnet(flat);
    sort_by_score_desc(unique)
}


// ---------------------------------------------------------------------------
// What merging guarantees
// ---------------------------------------------------------------------------

/// When some release of `d` has key `k`, the first one is found.
proof fn lemma_key_index_found(d: Seq<Release>, k: Seq<char>, j0: int)
    requires
        0 <= j0 < d.len(),
        magnet_key(d[j0]) == k,
    ensures
        key_index(d, k) matches Some(j) && 0 <= j < d.len() && magnet_key(d[j]) == k,
    decreases j0,
{
    if exists|i: int| 0 <= i < j0 && magnet_key(#[trigger] d[i]) == k {
        let i = choose|i: int| 0 <= i < j0 && magnet_key(#[trigger] d[i]) == k;
        lemma_key_index_found(d, k, i);
    } else {
        assert(0 <= j0 < d.len() && magnet_key(d[j0]) == k && forall|i: int|
            0 <= i < j0 ==> magnet_key(#[trigger] d[i]) != k);
    }
}

/// Deduplication keeps at most one release per magnet key.
pub proof fn lemma_dedup_distinct_keys(rs: Seq<Release>)
    ensures
        forall|a: int, b: int|
            0 <= a < b < dedup_releases(rs).len() ==> magnet_key(#[trigger] dedup_releases(rs)[a])
                != magnet_key(#[trigger] dedup_releases(rs)[b]),
    decreases rs.len(),
{
    if rs.len() > 0 {
        let d = dedup_releases(rs.drop_last());
        let x = rs.last();
        lemma_dedup_distinct_keys(rs.drop_last());
        match key_index(d, magnet_key(x)) {
            Some(j) => {
                lemma_key_index_found(
                    d,
                    magnet_key(x),
                    choose|i: int| 0 <= i < d.len() && magnet_key(#[trigger] d[i]) == magnet_key(x),
                );
            },
            None => {
                assert forall|a: int| 0 <= a < d.len() implies magnet_key(#[trigger] d[a])
                    != magnet_key(x) by {
                    if magnet_key(d[a]) == magnet_key(x) {
                        lemma_key_index_found(d, magnet_key(x), a);
                    }
                }
            },
        }
    }
}

/// Every deduplicated release is one of the input releases.
pub proof fn lemma_dedup_from_input(rs: Seq<Release>)
    ensures
        forall|j: int| 0 <= j < dedup_releases(rs).len() ==> rs.contains(#[trigger] dedup_releases(rs)[j]),
    decreases rs.len(),
{
    if rs.len() > 0 {
        let d = dedup_releases(rs.drop_last());
        let x = rs.last();
        lemma_dedup_from_input(rs.drop_last());
        if key_index(d, magnet_key(x)) is Some {
            lemma_key_index_found(
                d,
                magnet_key(x),
                choose|q: int| 0 <= q < d.len() && magnet_key(#[trigger] d[q]) == magnet_key(x),
            );
        }
        assert forall|j: int| 0 <= j < dedup_releases(rs).len() implies rs.contains(
            #[trigger] dedup_releases(rs)[j],
        ) by {
            let y = dedup_releases(rs)[j];
            if y == x {
                assert(rs[rs.len() - 1] == x);
            } else {
                assert(j < d.len() && y == d[j]);
                assert(d.contains(y));
                assert(rs.drop_last().contains(y));
                let i = choose|i: int| 0 <= i < rs.drop_last().len() && rs.drop_last()[i] == y;
                assert(rs[i] == y);
            }
        }
    }
}

/// For every input release, the deduplicated releases hold one with its
/// magnet key and at least as many seeders.
pub proof fn lemma_dedup_keeps_most_seeded(rs: Seq<Release>, i: int)
    requires
        0 <= i < rs.len(),
    ensures
        exists|j: int|
            0 <= j < dedup_releases(rs).len() && magnet_key(#[trigger] dedup_releases(rs)[j])
                == magnet_key(rs[i]) && dedup_releases(rs)[j].seeders >= rs[i].seeders,
    decreases rs.len(),
{
    let d = dedup_releases(rs.drop_last());
    let x = rs.last();
    let dd = dedup_releases(rs);
    if i == rs.len() - 1 {
        match key_index(d, magnet_key(x)) {
            Some(j) => {
                lemma_key_index_found(
                    d,
                    magnet_key(x),
                    choose|q: int| 0 <= q < d.len() && magnet_key(#[trigger] d[q]) == magnet_key(x),
                );
                assert(magnet_key(dd[j]) == magnet_key(x) && dd[j].seeders >= x.seeders);
            },
            None => {
                assert(dd[dd.len() - 1] == x);
            },
        }
    } else {
        lemma_dedup_keeps_most_seeded(rs.drop_last(), i);
        assert(rs.drop_last()[i] == rs[i]);
        let j2 = choose|j: int|
            0 <= j < d.len() && magnet_key(#[trigger] d[j]) == magnet_key(rs[i]) && d[j].seeders
                >= rs[i].seeders;
        match key_index(d, magnet_key(x)) {
            Some(j) => {
                if d.len() > 0 {
                    lemma_key_index_found(
                        d,
                        magnet_key(x),
                        choose|q: int| 0 <= q < d.len() && magnet_key(#[trigger] d[q]) == magnet_key(x),
                    );
                }
                if j == j2 && x.seeders > d[j].seeders {
                    assert(magnet_key(dd[j2]) == magnet_key(rs[i]) && dd[j2].seeders >= rs[i].seeders);
                } else {
                    assert(dd[j2] == d[j2]);
                }
            },
            None => {
                assert(dd[j2] == d[j2]);
            },
        }
    }
}

/// The input release that a deduplicated release comes from at position
/// `i` is the first, among the releases with its magnet key, to have its
/// number of seeders: every release with that key before it has fewer.
pub open spec fn first_most_seeded(rs: Seq<Release>, x: Release, i: int) -> bool {
    0 <= i < rs.len() && rs[i] == x && forall|q: int|
        0 <= q < i && magnet_key(#[trigger] rs[q]) == magnet_key(x) ==> rs[q].seeders < x.seeders
}

/// `x` is an input release that every earlier release with its magnet key
/// has fewer seeders than.
pub open spec fn kept_first_most_seeded(rs: Seq<Release>, x: Release) -> bool {
    exists|i: int| first_most_seeded(rs, x, i)
}

/// Of the releases sharing a magnet key, deduplication keeps the first one
/// with the most seeders: each kept release is an input release that every
/// earlier release with its key has fewer seeders than.
pub proof fn lemma_dedup_keeps_first_of_most_seeded(rs: Seq<Release>)
    ensures
        forall|j: int|
            0 <= j < dedup_releases(rs).len() ==> kept_first_most_seeded(
                rs,
                #[trigger] dedup_releases(rs)[j],
            ),
    decreases rs.len(),
{
    if rs.len() > 0 {
        let t = rs.drop_last();
        let d = dedup_releases(t);
        let x = rs.last();
        let n = rs.len() - 1;
        let dd = dedup_releases(rs);
        lemma_dedup_keeps_first_of_most_seeded(t);
        lemma_dedup_distinct_keys(t);
        assert forall|j: int| 0 <= j < dd.len() implies kept_first_most_seeded(rs, #[trigger] dd[j]) by {
            if j < d.len() && dd[j] == d[j] {
                assert(kept_first_most_seeded(t, d[j]));
                let i = choose|i: int| first_most_seeded(t, d[j], i);
                assert(rs[i] == t[i]);
                assert forall|q: int|
                    0 <= q < i && magnet_key(#[trigger] rs[q]) == magnet_key(dd[j]) implies rs[q].seeders
                    < dd[j].seeders by {
                    assert(rs[q] == t[q]);
                }
                assert(first_most_seeded(rs, dd[j], i));
            } else {
                assert(dd[j] == x);
                assert forall|q: int|
                    0 <= q < n && magnet_key(#[trigger] rs[q]) == magnet_key(x) implies rs[q].seeders
                    < x.seeders by {
                    assert(rs[q] == t[q]);
                    lemma_dedup_keeps_most_seeded(t, q);
                    let j2 = choose|j2: int|
                        0 <= j2 < d.len() && magnet_key(#[trigger] d[j2]) == magnet_key(t[q])
                            && d[j2].seeders >= t[q].seeders;
                    lemma_key_index_found(d, magnet_key(x), j2);
                    let k = key_index(d, magnet_key(x))->0;
                    if k != j2 {
                        if k < j2 {
                            assert(magnet_key(d[k]) != magnet_key(d[j2]));
                        } else {
                            assert(magnet_key(d[j2]) != magnet_key(d[k]));
                        }
                    }
                }
                assert(first_most_seeded(rs, x, n));
            }
        }
    }
}

/// What the merge of the indexers' results guarantees: one release per
/// magnet key, each one of the results found and, of the releases found
/// with its key, one with the most seeders; releases in descending order
/// of score.
pub proof fn lemma_merge_one_per_magnet(out: Seq<Release>, found: Seq<Release>)
    requires
        stable_sorted_desc(out, dedup_releases(found)),
        out.to_multiset() == dedup_releases(found).to_multiset(),
    ensures
        forall|a: int, b: int|
            0 <= a < b < out.len() ==> magnet_key(#[trigger] out[a]) != magnet_key(#[trigger] out[b]),
        forall|a: int| 0 <= a < out.len() ==> found.contains(#[trigger] out[a]),
        forall|i: int|
            #![trigger found[i]]
            0 <= i < found.len() ==> exists|j: int|
                0 <= j < out.len() && magnet_key(#[trigger] out[j]) == magnet_key(found[i])
                    && out[j].seeders >= found[i].seeders,
        forall|a: int, b: int| 0 <= a < b < out.len() ==> #[trigger] out[a].score_of() >= #[trigger] out[b].score_of(),
{
    let d = dedup_releases(found);
    lemma_dedup_distinct_keys(found);
    lemma_dedup_from_input(found);
    assert(d.no_duplicates()) by {
        assert forall|a: int, b: int| 0 <= a < d.len() && 0 <= b < d.len() && a != b implies d[a]
            != d[b] by {
            if a < b {
                assert(magnet_key(d[a]) != magnet_key(d[b]));
            } else {
                assert(magnet_key(d[b]) != magnet_key(d[a]));
            }
        }
    }
    d.lemma_multiset_has_no_duplicates();
    assert forall|x: Release| out.to_multiset().contains(x) implies out.to_multiset().count(x) == 1 by {}
    out.lemma_multiset_has_no_duplicates_conv();
    assert forall|a: int| 0 <= a < out.len() implies d.contains(#[trigger] out[a]) by {
        vstd::seq_lib::to_multiset_contains(out, out[a]);
        vstd::seq_lib::to_multiset_contains(d, out[a]);
        assert(out.contains(out[a]));
    }
    assert forall|a: int, b: int| 0 <= a < b < out.len() implies magnet_key(#[trigger] out[a])
        != magnet_key(#[trigger] out[b]) by {
        assert(d.contains(out[a]) && d.contains(out[b]));
        let p = choose|p: int| 0 <= p < d.len() && d[p] == out[a];
        let q = choose|q: int| 0 <= q < d.len() && d[q] == out[b];
        assert(out[a] != out[b]);
        if p < q {
            assert(magnet_key(d[p]) != magnet_key(d[q]));
        } else if q < p {
            assert(magnet_key(d[q]) != magnet_key(d[p]));
        }
    }
    assert forall|a: int| 0 <= a < out.len() implies found.contains(#[trigger] out[a]) by {
        assert(d.contains(out[a]));
        let p = choose|p: int| 0 <= p < d.len() && d[p] == out[a];
        assert(found.contains(d[p]));
    }
    assert forall|i: int| #![trigger found[i]] 0 <= i < found.len() implies exists|j: int|
        0 <= j < out.len() && magnet_key(#[trigger] out[j]) == magnet_key(found[i]) && out[j].seeders
            >= found[i].seeders by {
        lemma_dedup_keeps_most_seeded(found, i);
        let p = choose|p: int|
            0 <= p < d.len() && magnet_key(#[trigger] d[p]) == magnet_key(found[i]) && d[p].seeders
                >= found[i].seeders;
        vstd::seq_lib::to_multiset_contains(d, d[p]);
        vstd::seq_lib::to_multiset_contains(out, d[p]);
        assert(d.contains(d[p]));
        let j = choose|j: int| 0 <= j < out.len() && out[j] == d[p];
        assert(magnet_key(out[j]) == magnet_key(found[i]));
    }
}


// ---------------------------------------------------------------------------
// Release identifiers
// ---------------------------------------------------------------------------

/// The SHA-256 digest of `data`.
pub uninterp spec fn sha256(data: Seq<u8>) -> Seq<u8>;

/// `Sha256::digest` of `data` (the `sha2` crate). The contract names the
/// digest and states its documented length of 32 bytes.
#[verifier::external_body]
fn sha256_digest(data: &[u8]) -> (r: Vec<u8>)
    ensures
        r@ == sha256(data@),
        r@.len() == 32,
{
    <sha2::Sha256 as sha2::Digest>::digest(data).to_vec()
}

/// Lowercase hexadecimal digit for a value below 16.
pub open spec fn hex_digit(d: u8) -> char {
    if d < 10 {
        ((d as int) + ('0' as int)) as char
    } else {
        ((d as int) - 10 + ('a' as int)) as char
    }
}

/// Two lowercase hexadecimal digits per byte, high nibble first.
pub open spec fn hex_lower(data: Seq<u8>) -> Seq<char>
    decreases data.len(),
{
    if data.len() == 0 {
        Seq::<char>::empty()
    } else {
        hex_lower(data.drop_last()) + seq![hex_digit(data.last() / 16), hex_digit(data.last() % 16)]
    }
}

/// The value a lowercase hexadecimal digit stands for.
pub open spec fn lower_hex_value(c: char) -> int {
    if '0' <= c && c <= '9' {
        (c as int) - ('0' as int)
    } else {
        (c as int) - ('a' as int) + 10
    }
}

/// Hex encoding can be read back: the text has two characters per byte,
/// each a digit `0`-`9` or a lowercase `a`-`f`, and the `i`-th pair read as
/// a number in base 16 is the `i`-th byte.
pub proof fn lemma_hex_lower_decodes(data: Seq<u8>)
    ensures
        hex_lower(data).len() == 2 * data.len(),
        forall|k: int|
            0 <= k < hex_lower(data).len() ==> ('0' <= #[trigger] hex_lower(data)[k] <= '9') || ('a'
                <= hex_lower(data)[k] <= 'f'),
        forall|i: int|
            0 <= i < data.len() ==> lower_hex_value(hex_lower(data)[2 * i]) * 16 + lower_hex_value(
                hex_lower(data)[2 * i + 1],
            ) == #[trigger] data[i],
    decreases data.len(),
{
    if data.len() > 0 {
        let init = data.drop_last();
        lemma_hex_lower_decodes(init);
        let h = hex_lower(data);
        let hi = hex_lower(init);
        let b = data.last();
        assert(h == hi + seq![hex_digit(b / 16), hex_digit(b % 16)]);
        assert forall|k: int| 0 <= k < h.len() implies ('0' <= #[trigger] h[k] <= '9') || ('a' <= h[k]
            <= 'f') by {
            if k < hi.len() {
                assert(h[k] == hi[k]);
            }
        }
        assert forall|i: int| 0 <= i < data.len() implies lower_hex_value(h[2 * i]) * 16
            + lower_hex_value(h[2 * i + 1]) == #[trigger] data[i] by {
            if i < init.len() {
                assert(h[2 * i] == hi[2 * i] && h[2 * i + 1] == hi[2 * i + 1]);
                assert(init[i] == data[i]);
            } else {
                assert(h[2 * i] == hex_digit(b / 16) && h[2 * i + 1] == hex_digit(b % 16));
                assert(b == (b / 16) * 16 + b % 16);
            }
        }
    }
}

/// `hex::encode` (the `hex` crate): two lowercase hexadecimal digits per
/// byte, as its source writes them from the table `0123456789abcdef`.
#[verifier::external_body]
fn hex_encode(data: &[u8]) -> (r: String)
    ensures
        r@ == hex_lower(data@),
{
    hex::encode(data)
}

/// The bytes that identify a release: the UTF-8 encodings of indexer,
/// title and magnet, one after the other.
pub open spec fn id_material(indexer: Seq<char>, title: Seq<char>, magnet: Seq<char>) -> Seq<u8> {
    vstd::utf8::encode_utf8(indexer) + vstd::utf8::encode_utf8(title) + vstd::utf8::encode_utf8(
        magnet,
    )
}

impl Release {
    /// The identifier of a release: the first 8 bytes of the SHA-256 digest
    /// of indexer, title and magnet, in lowercase hexadecimal.
    pub fn generate_id(indexer: &str, title: &str, magnet: &str) -> (r: String)
        ensures
            r@ == hex_lower(sha256(id_material(indexer@, title@, magnet@)).take(8)),
            r@.len() == 16,
    {
        let mut data: Vec<u8> = Vec::new();
        data.extend_from_slice(indexer.as_bytes());
        data.extend_from_slice(title.as_bytes());
        data.extend_from_slice(magnet.as_bytes());
        assert(data@ =~= id_material(indexer@, title@, magnet@));
        let digest = sha256_digest(data.as_slice());
        let mut head: Vec<u8> = Vec::new();
        let mut i: usize = 0;
        while i < 8
            invariant
                i <= 8,
                digest@.len() == 32,
                head@ == digest@.take(i as int),
            decreases 8 - i,
        {
            head.push(digest[i]);
            i += 1;
            assert(head@ =~= digest@.take(i as int));
        }
        proof {
            lemma_hex_len(head@);
        }
        hex_encode(head.as_slice())
    }
}

proof fn lemma_hex_len(data: Seq<u8>)
    ensures
        hex_lower(data).len() == 2 * data.len(),
    decreases data.len(),
{
    if data.len() > 0 {
        lemma_hex_len(data.drop_last());
    }
}

} // verus!
