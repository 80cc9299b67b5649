//! The Soulseek endpoints: starting a search and reading its results,
//! filtered, sorted and paginated.

use vstd::prelude::*;
use crate::error::AppError;
use crate::regexes::{lowercase, to_lowercase};
use crate::soulseek::{FileResult, SearchResult, SearchState};
use crate::text::{
    chars_eq, chars_eq_str, chars_of, set_pred, split_fields, split_set, string_of,
    trim_whitespace, trim_ws, views, CharSet,
};

verus! {

/// Request body for starting a search.
pub struct SearchRequest {
    /// The search query string.
    pub query: String,
}

/// Response for starting a search.
pub struct SearchStartResponse {
    /// The search ticket ID.
    pub ticket: u32,
    /// The search query.
    pub query: String,
    /// Current status of the search.
    pub status: String,
}

/// Query parameters for getting search results.
pub struct SearchResultsQuery {
    /// Minimum bitrate filter in kbps.
    pub min_bitrate: Option<u32>,
    /// Comma-separated list of file extensions to include (e.g., "flac,mp3").
    pub extensions: Option<String>,
    /// Only show results from users with free upload slots.
    pub free_slots_only: Option<bool>,
    /// Sort by: "bitrate", "size", "speed", "queue".
    pub sort_by: Option<String>,
    /// Maximum number of results to return.
    pub limit: Option<usize>,
    /// Number of results to skip.
    pub offset: Option<usize>,
}

/// A single file result for API responses.
pub struct FileResultResponse {
    /// Username of the peer sharing the file.
    pub username: String,
    /// Full path of the file on the peer's system.
    pub filename: String,
    /// File size in bytes.
    pub size: u64,
    /// Bitrate in kbps (if available).
    pub bitrate: Option<u32>,
    /// Duration in seconds (if available).
    pub duration: Option<u32>,
    /// File extension.
    pub extension: String,
    /// Whether the peer has free download slots.
    pub slots_free: bool,
    /// Average upload speed in bytes/second.
    pub upload_speed: u32,
    /// Number of files in the peer's queue.
    pub queue_length: u32,
}

/// Response for search results.
pub struct SearchResultsResponse {
    /// The search ticket ID.
    pub ticket: u32,
    /// The search query.
    pub query: String,
    /// Status: "searching" or "complete".
    pub status: String,
    /// Total number of results (before filtering/pagination).
    pub result_count: usize,
    /// The search results.
    pub results: Vec<FileResultResponse>,
}

/// Status response for the Soulseek engine.
pub struct StatusResponse {
    /// Whether connected to the Soulseek server.
    pub connected: bool,
    /// Number of active searches.
    pub active_searches: usize,
    /// Number of active downloads.
    pub active_downloads: usize,
    /// Number of completed downloads.
    pub completed_downloads: usize,
}

// ---------------------------------------------------------------------------
// Starting a search
// ---------------------------------------------------------------------------

/// The query a search is started with: the request's, trimmed; a query
/// that is empty once trimmed is refused.
pub fn validated_search_query(request: &SearchRequest) -> (r: Result<String, AppError>)
    ensures
        trim_ws(request.query@).len() == 0 <==> r is Err,
        r matches Ok(q) ==> q@ == trim_ws(request.query@),
        r matches Err(e) ==> (e matches AppError::BadRequest(m) && m@
            == "Search query cannot be empty"@),
{
    let t = trim_whitespace(chars_of(request.query.as_str()).as_slice());
    if t.len() == 0 {
        Err(AppError::BadRequest("Search query cannot be empty".to_owned()))
    } else {
        Ok(string_of(t.as_slice()))
    }
}

// ---------------------------------------------------------------------------
// Reading the results of a search
// ---------------------------------------------------------------------------

/// The files of the peers' results, each with the peer that offers it,
/// peer by peer.
pub open spec fn peer_files(rs: Seq<SearchResult>) -> Seq<(SearchResult, FileResult)>
    decreases rs.len(),
{
    if rs.len() == 0 {
        Seq::empty()
    } else {
        let r = rs.last();
        peer_files(rs.drop_last()) + r.files@.map_values(|f: FileResult| (r, f))
    }
}

/// The response entry for a file offered by a peer.
pub open spec fn entry_of(e: FileResultResponse, r: SearchResult, f: FileResult) -> bool {
    &&& e.username == r.username && e.filename == f.filename && e.size == f.size
    &&& e.bitrate == f.bitrate && e.duration == f.duration && e.extension == f.extension
    &&& e.slots_free == r.has_free_slot && e.upload_speed == r.average_speed
    &&& e.queue_length == r.queue_length
}

/// The entries of all files of all peers, in order.
pub open spec fn entries_of(es: Seq<FileResultResponse>, rs: Seq<SearchResult>) -> bool {
    &&& es.len() == peer_files(rs).len()
    &&& forall|i: int|
        0 <= i < es.len() ==> entry_of(#[trigger] es[i], peer_files(rs)[i].0, peer_files(rs)[i].1)
}

fn entry(r: &SearchResult, f: &FileResult) -> (e: FileResultResponse)
    ensures
        entry_of(e, *r, *f),
{
    FileResultResponse {
        username: r.username.clone(),
        filename: f.filename.clone(),
        size: f.size,
        bitrate: f.bitrate,
        duration: f.duration,
        extension: f.extension.clone(),
        slots_free: r.has_free_slot,
        upload_speed: r.average_speed,
        queue_length: r.queue_length,
    }
}

/// Flattens the peers' results into one entry per file.
fn flatten(rs: &[SearchResult]) -> (out: Vec<FileResultResponse>)
    ensures
        entries_of(out@, rs@),
{
    let ghost all = rs@;
    let mut out: Vec<FileResultResponse> = Vec::new();
    let mut i: usize = 0;
    while i < rs.len()
        invariant
            all == rs@,
            i <= rs.len(),
            entries_of(out@, all.take(i as int)),
        decreases rs.len() - i,
    {
        let r = &rs[i];
        let ghost base = out@.len();
        let ghost before = peer_files(all.take(i as int));
        let mut j: usize = 0;
        while j < r.files.len()
            invariant
                all == rs@,
                i < rs.len(),
                *r == all[i as int],
                j <= r.files@.len(),
                base == before.len(),
                before == peer_files(all.take(i as int)),
                out@.len() == base + j,
                forall|k: int| 0 <= k < base ==> entry_of(#[trigger] out@[k], before[k].0, before[k].1),
                forall|k: int|
                    base <= k < out@.len() ==> entry_of(#[trigger] out@[k], *r, r.files@[k - base]),
            decreases r.files@.len() - j,
        {
            out.push(entry(r, &r.files[j]));
            j = j + 1;
        }
        proof {
            let next = all.take(i + 1);
            assert(next.drop_last() =~= all.take(i as int));
            let add = r.files@.map_values(|f: FileResult| (*r, f));
            assert(peer_files(next) == before + add);
            assert forall|k: int| 0 <= k < out@.len() implies entry_of(
                #[trigger] out@[k],
                peer_files(next)[k].0,
                peer_files(next)[k].1,
            ) by {
                if k >= base {
                    assert((before + add)[k] == add[k - base]);
                } else {
                    assert((before + add)[k] == before[k]);
                }
            }
        }
        i = i + 1;
    }
    assert(all.take(all.len() as int) =~= all);
    out
}

/// The extensions a comma-separated list allows: each item trimmed and
/// lowercased.
pub open spec fn allowed_extensions(list: Seq<char>) -> Seq<Seq<char>> {
    split_fields(list, set_pred(CharSet::Single(','))).map_values(
        |w: Seq<char>| lowercase(trim_ws(w)),
    )
}

/// Whether an entry passes the filters of a query: a known bitrate of at
/// least the minimum, an allowed extension (compared lowercased), a free
/// slot when only free slots are asked for.
pub open spec fn passes(e: FileResultResponse, q: SearchResultsQuery) -> bool {
    &&& (q.min_bitrate matches Some(m) ==> (e.bitrate matches Some(b) && b >= m))
    &&& (q.extensions matches Some(list) ==> allowed_extensions(list@).contains(
        lowercase(e.extension@),
    ))
    &&& (q.free_slots_only == Some(true) ==> e.slots_free)
}

/// Lowercases every item of an extension list.
fn parse_extensions(list: &str) -> (r: Vec<Vec<char>>)
    ensures
        views(r@) == allowed_extensions(list@),
{
    let items = split_set(chars_of(list).as_slice(), CharSet::Single(','));
    let mut r: Vec<Vec<char>> = Vec::new();
    let mut i: usize = 0;
    while i < items.len()
        invariant
            i <= items@.len(),
            views(items@) == split_fields(list@, set_pred(CharSet::Single(','))),
            views(r@) == allowed_extensions(list@).take(i as int),
        decreases items@.len() - i,
    {
        let t = trim_whitespace(items[i].as_slice());
        let l = to_lowercase(string_of(t.as_slice()).as_str());
        let ghost before = views(r@);
        r.push(chars_of(l.as_str()));
        proof {
            assert(views(items@)[i as int] == items@[i as int]@);
            assert(views(r@) =~= before.push(l@));
            assert(allowed_extensions(list@).take(i + 1) =~= allowed_extensions(list@).take(
                i as int,
            ).push(l@));
        }
        i = i + 1;
    }
    assert(allowed_extensions(list@).take(i as int) =~= allowed_extensions(list@));
    r
}

/// Whether `x` is one of `allowed`.
fn any_equal(allowed: &Vec<Vec<char>>, x: &[char]) -> (r: bool)
    ensures
        r == views(allowed@).contains(x@),
{
    let mut i: usize = 0;
    while i < allowed.len()
        invariant
            i <= allowed@.len(),
            forall|k: int| 0 <= k < i ==> views(allowed@)[k] != x@,
        decreases allowed@.len() - i,
    {
        if chars_eq(allowed[i].as_slice(), x) {
            assert(views(allowed@)[i as int] == x@);
            return true;
        }
        i = i + 1;
    }
    false
}

/// Whether an entry passes the filters.
fn entry_passes(
    e: &FileResultResponse,
    q: &SearchResultsQuery,
    allowed: &Option<Vec<Vec<char>>>,
) -> (r: bool)
    requires
        q.extensions matches Some(list) ==> (allowed matches Some(a) && views(a@)
            == allowed_extensions(list@)),
        q.extensions is None ==> allowed is None,
    ensures
        r == passes(*e, *q),
{
    let bitrate_ok = match q.min_bitrate {
        Some(m) => match e.bitrate {
            Some(b) => b >= m,
            None => false,
        },
        None => true,
    };
    let ext_ok = match allowed {
        Some(a) => {
            let l = to_lowercase(e.extension.as_str());
            any_equal(a, chars_of(l.as_str()).as_slice())
        },
        None => true,
    };
    let slot_ok = match q.free_slots_only {
        Some(true) => e.slots_free,
        _ => true,
    };
    bitrate_ok && ext_ok && slot_ok
}

/// The order a sort parameter asks for.
#[derive(Clone, Copy, PartialEq, Eq, Structural)]
pub enum SortMode {
    /// Highest bitrate first, unknown bitrates last.
    Bitrate,
    /// Largest first.
    Size,
    /// Fastest peer first.
    Speed,
    /// Shortest queue first.
    Queue,
    /// Found order.
    Unsorted,
}

/// The order a `sort_by` parameter names; an unknown name leaves the
/// found order.
pub open spec fn sort_mode_of(s: Option<Seq<char>>) -> SortMode {
    match s {
        Some(t) => if t == "bitrate"@ {
            SortMode::Bitrate
        } else if t == "size"@ {
            SortMode::Size
        } else if t == "speed"@ {
            SortMode::Speed
        } else if t == "queue"@ {
            SortMode::Queue
        } else {
            SortMode::Unsorted
        },
        None => SortMode::Unsorted,
    }
}

fn sort_mode(s: &Option<String>) -> (r: SortMode)
    ensures
        r == sort_mode_of(s.deep_view()),
{
    match s {
        Some(t) => {
            let c = chars_of(t.as_str());
            if chars_eq_str(c.as_slice(), "bitrate") {
                SortMode::Bitrate
            } else if chars_eq_str(c.as_slice(), "size") {
                SortMode::Size
            } else if chars_eq_str(c.as_slice(), "speed") {
                SortMode::Speed
            } else if chars_eq_str(c.as_slice(), "queue") {
                SortMode::Queue
            } else {
                SortMode::Unsorted
            }
        },
        None => SortMode::Unsorted,
    }
}

/// The rank of an entry in an order: entries come by ascending rank.
pub open spec fn rank(e: FileResultResponse, mode: SortMode) -> int {
    match mode {
        SortMode::Bitrate => match e.bitrate {
            Some(b) => -(b + 1),
            None => 0,
        },
        SortMode::Size => -(e.size as int),
        SortMode::Speed => -(e.upload_speed as int),
        SortMode::Queue => e.queue_length as int,
        SortMode::Unsorted => 0,
    }
}

fn rank_of(e: &FileResultResponse, mode: SortMode) -> (r: i128)
    ensures
        r == rank(*e, mode),
{
    match mode {
        SortMode::Bitrate => match e.bitrate {
            Some(b) => -(b as i128 + 1),
            None => 0,
        },
        SortMode::Size => -(e.size as i128),
        SortMode::Speed => -(e.upload_speed as i128),
        SortMode::Queue => e.queue_length as i128,
        SortMode::Unsorted => 0,
    }
}

/// The entries of `es` of rank `k`, in order.
pub open spec fn with_rank(es: Seq<FileResultResponse>, mode: SortMode, k: int) -> Seq<
    FileResultResponse,
> {
    es.filter(|e: FileResultResponse| rank(e, mode) == k)
}

/// `out` is `es` stably sorted by rank: ranks never decrease along it, and
/// the entries of each rank come in the order they had.
pub open spec fn stably_sorted(out: Seq<FileResultResponse>, es: Seq<FileResultResponse>, mode: SortMode) -> bool {
    &&& forall|a: int, b: int|
        0 <= a < b < out.len() ==> rank(#[trigger] out[a], mode) <= rank(#[trigger] out[b], mode)
    &&& forall|k: int| #[trigger] with_rank(out, mode, k) == with_rank(es, mode, k)
}

proof fn lemma_insert_rank(
    a: Seq<FileResultResponse>,
    x: FileResultResponse,
    b: Seq<FileResultResponse>,
    mode: SortMode,
    k: int,
)
    requires
        forall|q: int| 0 <= q < b.len() ==> rank(#[trigger] b[q], mode) > rank(x, mode),
    ensures
        with_rank(a.push(x) + b, mode, k) == if k == rank(x, mode) {
            with_rank(a + b, mode, k).push(x)
        } else {
            with_rank(a + b, mode, k)
        },
{
    let pred = |e: FileResultResponse| rank(e, mode) == k;
    Seq::filter_distributes_over_add(a.push(x), b, pred);
    Seq::filter_distributes_over_add(a, b, pred);
    a.lemma_filter_push(x, pred);
    if k == rank(x, mode) {
        assert(b.all(|e: FileResultResponse| !pred(e))) by {
            assert forall|q: int| 0 <= q < b.len() implies !pred(#[trigger] b[q]) by {}
        }
        b.lemma_all_neg_filter_empty(pred);
        assert(b.filter(pred) =~= Seq::<FileResultResponse>::empty());
        assert(a.filter(pred).push(x) + b.filter(pred) =~= (a.filter(pred) + b.filter(
            pred,
        )).push(x));
    }
}

/// Sorts entries by rank, keeping the order of entries of equal rank.
fn sort_entries(v: Vec<FileResultResponse>, mode: SortMode) -> (r: Vec<FileResultResponse>)
    ensures
        stably_sorted(r@, v@, mode),
        r@.len() == v@.len(),
{
    let ghost all = v@;
    let mut rest = v;
    let mut out: Vec<FileResultResponse> = Vec::new();
    let mut i: usize = 0;
    let n = rest.len();
    assert(all.take(0) =~= Seq::<FileResultResponse>::empty());
    assert(all.skip(0) =~= all);
    while rest.len() > 0
        invariant
            n == all.len(),
            rest@.len() + i == n,
            rest@ == all.skip(i as int),
            out@.len() == i,
            forall|a: int, b: int|
                0 <= a < b < out@.len() ==> rank(#[trigger] out@[a], mode) <= rank(
                    #[trigger] out@[b],
                    mode,
                ),
            forall|k: int| #[trigger] with_rank(out@, mode, k) == with_rank(all.take(i as int), mode, k),
        decreases rest.len(),
    {
        let x = rest.remove(0);
        assert(x == all[i as int]);
        assert(rest@ =~= all.skip(i + 1));
        let rx = rank_of(&x, mode);
        let mut p: usize = 0;
        while p < out.len()
            invariant
                p <= out.len(),
                forall|q: int| 0 <= q < p ==> rank(#[trigger] out@[q], mode) <= rx,
            ensures
                p == out.len() || rank(out@[p as int], mode) > rx,
            decreases out.len() - p,
        {
            if rank_of(&out[p], mode) > rx {
                break;
            }
            p += 1;
        }
        let ghost old_out = out@;
        let ghost a = old_out.subrange(0, p as int);
        let ghost b = old_out.subrange(p as int, old_out.len() as int);
        proof {
            assert forall|q: int| 0 <= q < b.len() implies rank(#[trigger] b[q], mode) > rx by {
                assert(b[q] == old_out[p + q]);
                if q > 0 {
                    assert(rank(old_out[p as int], mode) <= rank(old_out[p + q], mode));
                }
            }
            assert(old_out =~= a + b);
        }
        out.insert(p, x);
        proof {
            assert(out@ =~= a.push(x) + b);
            assert(all.take(i + 1) =~= all.take(i as int).push(x));
            assert forall|k: int| #[trigger] with_rank(out@, mode, k) == with_rank(
                all.take(i + 1),
                mode,
                k,
            ) by {
                lemma_insert_rank(a, x, b, mode, k);
                all.take(i as int).lemma_filter_push(x, |e: FileResultResponse| rank(e, mode) == k);
            }
            assert forall|c: int, d: int| 0 <= c < d < out@.len() implies rank(
                #[trigger] out@[c],
                mode,
            ) <= rank(#[trigger] out@[d], mode) by {
                if c < p && d < p {
                    assert(out@[c] == old_out[c] && out@[d] == old_out[d]);
                } else if c < p && d == p {
                    assert(out@[c] == old_out[c]);
                } else if c < p {
                    assert(out@[c] == old_out[c] && out@[d] == old_out[d - 1]);
                } else if c == p {
                    assert(out@[d] == old_out[d - 1]);
                    assert(b[d - 1 - p] == old_out[d - 1]);
                } else {
                    assert(out@[c] == old_out[c - 1] && out@[d] == old_out[d - 1]);
                }
            }
        }
        i += 1;
    }
    assert(all.take(n as int) =~= all);
    out
}

/// The page size a query asks for: 100 by default, at most 1000.
pub open spec fn page_size(q: SearchResultsQuery) -> nat {
    match q.limit {
        Some(l) => if l < 1000 { l as nat } else { 1000 },
        None => 100,
    }
}

/// At most the first `n` items of `s`.
pub open spec fn clip<A>(s: Seq<A>, n: nat) -> Seq<A> {
    if s.len() <= n { s } else { s.take(n as int) }
}

/// The page of `s` a query asks for: `offset` entries skipped, then at
/// most the page size.
pub open spec fn page_of<A>(s: Seq<A>, q: SearchResultsQuery) -> Seq<A> {
    let offset: int = match q.offset {
        Some(o) => o as int,
        None => 0,
    };
    clip(if offset < s.len() { s.skip(offset) } else { Seq::empty() }, page_size(q))
}

/// The items of `s` from `offset` up to `k`.
pub open spec fn window<A>(s: Seq<A>, offset: int, k: int) -> Seq<A> {
    if k <= offset { Seq::empty() } else { s.subrange(offset, k) }
}

/// The status a search is reported with.
pub open spec fn search_status(complete: bool) -> Seq<char> {
    if complete { "complete"@ } else { "searching"@ }
}

/// The answer to a request for the results of a search: all files of all
/// peers, those that pass the query's filters, in the order it asks for
/// (found order for equal ranks), the page it asks for; `result_count`
/// counts the files before filtering.
pub fn search_results_response(
    ticket: u32,
    search: &SearchState,
    query: &SearchResultsQuery,
) -> (r: SearchResultsResponse)
    ensures
        r.ticket == ticket,
        r.query@ == search.query@,
        r.status@ == search_status(search.complete),
        r.result_count == peer_files(search.results@).len(),
        exists|es: Seq<FileResultResponse>, sorted: Seq<FileResultResponse>|
            entries_of(es, search.results@) && stably_sorted(
                sorted,
                es.filter(|e: FileResultResponse| passes(e, *query)),
                sort_mode_of(query.sort_by.deep_view()),
            ) && r.results@ == page_of(sorted, *query),
{
    let all = flatten(search.results.as_slice());
    let ghost es = all@;
    let total = all.len();
    let allowed = match &query.extensions {
        Some(list) => Some(parse_extensions(list.as_str())),
        None => None,
    };
    let ghost keep = |e: FileResultResponse| passes(e, *query);
    let mut kept: Vec<FileResultResponse> = Vec::new();
    let mut rest = all;
    let mut i: usize = 0;
    assert(es.take(0).filter(keep) =~= Seq::<FileResultResponse>::empty());
    assert(es.skip(0) =~= es);
    while rest.len() > 0
        invariant
            keep == (|e: FileResultResponse| passes(e, *query)),
            es.len() == total,
            rest@.len() + i == es.len(),
            rest@ == es.skip(i as int),
            kept@ == es.take(i as int).filter(keep),
            query.extensions matches Some(list) ==> (allowed matches Some(a) && views(a@)
                == allowed_extensions(list@)),
            query.extensions is None ==> allowed is None,
        decreases rest.len(),
    {
        let e = rest.remove(0);
        assert(e == es[i as int]);
        assert(rest@ =~= es.skip(i + 1));
        assert(es.take(i + 1) =~= es.take(i as int).push(e));
        proof {
            es.take(i as int).lemma_filter_push(e, keep);
        }
        if entry_passes(&e, query, &allowed) {
            kept.push(e);
        }
        i = i + 1;
    }
    assert(es.take(es.len() as int) =~= es);
    let mode = sort_mode(&query.sort_by);
    let sorted = sort_entries(kept, mode);
    let offset: usize = match query.offset {
        Some(o) => o,
        None => 0,
    };
    let limit: usize = match query.limit {
        Some(l) => if l < 1000 { l } else { 1000 },
        None => 100,
    };
    let ghost sv = sorted@;
    let mut page: Vec<FileResultResponse> = Vec::new();
    let mut rest = sorted;
    let n = rest.len();
    let mut k: usize = 0;
    assert(sv.skip(0) =~= sv);
    while rest.len() > 0
        invariant
            n == sv.len(),
            rest@.len() + k == n,
            rest@ == sv.skip(k as int),
            page@ == clip(window(sv, offset as int, k as int), limit as nat),
        decreases rest.len(),
    {
        let e = rest.remove(0);
        assert(e == sv[k as int]);
        assert(rest@ =~= sv.skip(k + 1));
        let ghost w = window(sv, offset as int, k as int);
        proof {
            if k >= offset {
                assert(window(sv, offset as int, k + 1) =~= w.push(e));
            } else {
                assert(window(sv, offset as int, k + 1) =~= w);
            }
        }
        if k >= offset && page.len() < limit {
            page.push(e);
            assert(page@ =~= clip(w.push(e), limit as nat));
        } else if k >= offset {
            assert(clip(w.push(e), limit as nat) =~= clip(w, limit as nat));
        }
        k = k + 1;
    }
    proof {
        if offset < sv.len() {
            assert(window(sv, offset as int, n as int) =~= sv.skip(offset as int));
        } else {
            assert(window(sv, offset as int, n as int) =~= Seq::<FileResultResponse>::empty());
        }
        assert(page@ =~= page_of(sv, *query));
        assert(es.filter(keep) =~= es.filter(|e: FileResultResponse| passes(e, *query)));
        assert(entries_of(es, search.results@) && stably_sorted(
            sv,
            es.filter(|e: FileResultResponse| passes(e, *query)),
            sort_mode_of(query.sort_by.deep_view()),
        ) && page@ == page_of(sv, *query));
    }
    let status = if search.complete { "complete".to_owned() } else { "searching".to_owned() };
    SearchResultsResponse {
        ticket,
        query: search.query.clone(),
        status,
        result_count: total,
        results: page,
    }
}

/// Every result a query returns passes its filters, and a page holds at
/// most the page size: for any flattened entries and any stable ordering
/// of those that pass, the page taken.
pub proof fn lemma_results_pass_filters(
    es: Seq<FileResultResponse>,
    sorted: Seq<FileResultResponse>,
    q: SearchResultsQuery,
)
    requires
        stably_sorted(
            sorted,
            es.filter(|e: FileResultResponse| passes(e, q)),
            sort_mode_of(q.sort_by.deep_view()),
        ),
    ensures
        page_of(sorted, q).len() <= page_size(q),
        forall|i: int| 0 <= i < page_of(sorted, q).len() ==> passes(#[trigger] page_of(sorted, q)[i], q),
{
    let mode = sort_mode_of(q.sort_by.deep_view());
    let kept = es.filter(|e: FileResultResponse| passes(e, q));
    assert forall|a: int| 0 <= a < sorted.len() implies passes(#[trigger] sorted[a], q) by {
        let x = sorted[a];
        let k = rank(x, mode);
        crate::text::lemma_filter_keeps(sorted, |e: FileResultResponse| rank(e, mode) == k, a);
        assert(with_rank(sorted, mode, k) == with_rank(kept, mode, k));
        crate::text::lemma_filter_subset(kept, |e: FileResultResponse| rank(e, mode) == k, x);
        crate::text::lemma_filter_subset(es, |e: FileResultResponse| passes(e, q), x);
    }
    let offset: int = match q.offset {
        Some(o) => o as int,
        None => 0,
    };
    assert forall|i: int| 0 <= i < page_of(sorted, q).len() implies passes(
        #[trigger] page_of(sorted, q)[i],
        q,
    ) by {
        assert(page_of(sorted, q)[i] == sorted[offset + i]);
    }
}

} // verus!
