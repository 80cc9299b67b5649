//! The TV endpoints: request and response types, the grouping of a show's
//! episodes into seasons and the reading of TMDB statuses.

use vstd::prelude::*;
use crate::error::AppError;
use crate::models::{Episode, MediaStatus, ShowStatus, TvShow};
use crate::number::{i32_padded, i64_to_chars, int_display, int_padded, parse_i32, parse_i32_spec};
use crate::text::{
    append_chars, chars_eq_str, chars_of, find_in, find_set, matches_at, slice_chars,
    starts_with_seq, string_of, CharSet,
};
use crate::tmdb::TmdbSeasonSummary;

verus! {

/// Query parameters for listing TV shows.
pub struct ListShowsQuery {
    /// Filter by show status (continuing, ended, canceled, upcoming).
    pub status: Option<ShowStatus>,
    /// Filter by monitored state.
    pub monitored: Option<bool>,
    /// Full-text search query.
    pub search: Option<String>,
    /// Page number (1-indexed, default: 1).
    pub page: Option<u32>,
    /// Items per page (default: 20, max: 100).
    pub limit: Option<u32>,
}

/// Paginated response wrapper.
pub struct PaginatedResponse<T> {
    /// Items in the current page.
    pub items: Vec<T>,
    /// Total number of items across all pages.
    pub total: u64,
    /// Current page number (1-indexed).
    pub page: u32,
    /// Total number of pages.
    pub pages: u32,
}

/// Request body for adding a TV show.
pub struct AddShowRequest {
    /// TMDB TV show ID.
    pub tmdb_id: i32,
    /// Whether to monitor this show (default: true).
    pub monitored: Option<bool>,
    /// Quality limit for downloads (default: "1080p").
    pub quality_limit: Option<String>,
}

/// Request body for updating a TV show.
pub struct UpdateShowRequest {
    /// Whether to monitor this show.
    pub monitored: Option<bool>,
    /// Quality limit for downloads.
    pub quality_limit: Option<String>,
}

impl UpdateShowRequest {
    /// Whether the update changes nothing.
    pub open spec fn changes_nothing(&self) -> bool {
        self.monitored is None && self.quality_limit is None
    }

    /// Checks that the update changes at least one field.
    pub fn check(&self) -> (r: Result<(), AppError>)
        ensures
            r is Ok <==> !self.changes_nothing(),
            r matches Err(e) ==> (e matches AppError::BadRequest(m) && m@ == "No fields to update"@),
    {
        if self.monitored.is_none() && self.quality_limit.is_none() {
            Err(AppError::BadRequest("No fields to update".to_owned()))
        } else {
            Ok(())
        }
    }
}

/// Request body for updating a season (batch update all episodes).
pub struct UpdateSeasonRequest {
    /// Whether to monitor all episodes in this season.
    pub monitored: Option<bool>,
}

impl UpdateSeasonRequest {
    /// Whether the update changes nothing.
    pub open spec fn changes_nothing(&self) -> bool {
        self.monitored is None
    }

    /// Checks that the update changes at least one field.
    pub fn check(&self) -> (r: Result<(), AppError>)
        ensures
            r is Ok <==> !self.changes_nothing(),
            r matches Err(e) ==> (e matches AppError::BadRequest(m) && m@ == "No fields to update"@),
    {
        if self.monitored.is_none() {
            Err(AppError::BadRequest("No fields to update".to_owned()))
        } else {
            Ok(())
        }
    }
}

/// Request body for updating an episode.
pub struct UpdateEpisodeRequest {
    /// Whether to monitor this episode.
    pub monitored: Option<bool>,
}

impl UpdateEpisodeRequest {
    /// Whether the update changes nothing.
    pub open spec fn changes_nothing(&self) -> bool {
        self.monitored is None
    }

    /// Checks that the update changes at least one field.
    pub fn check(&self) -> (r: Result<(), AppError>)
        ensures
            r is Ok <==> !self.changes_nothing(),
            r matches Err(e) ==> (e matches AppError::BadRequest(m) && m@ == "No fields to update"@),
    {
        if self.monitored.is_none() {
            Err(AppError::BadRequest("No fields to update".to_owned()))
        } else {
            Ok(())
        }
    }
}

/// Query parameters for deleting a show.
pub struct DeleteShowQuery {
    /// Whether to delete associated files (default: false).
    pub delete_files: Option<bool>,
}

/// Request body for downloading a release.
pub struct DownloadRequest {
    /// Direct magnet link.
    pub magnet: String,
}

/// Success response for operations without specific data.
pub struct SuccessResponse {
    pub success: bool,
    pub message: Option<String>,
}

/// Download information returned after starting a download.
pub struct DownloadInfo {
    pub id: i64,
    pub info_hash: String,
    pub name: String,
    pub status: String,
}

/// A season with its episodes grouped together.
pub struct SeasonWithEpisodes {
    pub season_number: i32,
    pub episodes: Vec<Episode>,
    /// Count of episodes with status `available`.
    pub available_count: i32,
    /// Total episode count.
    pub total_count: i32,
}

/// A TV show with all seasons and episodes grouped.
pub struct ShowWithSeasons {
    pub show: TvShow,
    pub seasons: Vec<SeasonWithEpisodes>,
}

// ---------------------------------------------------------------------------
// Seasons
// ---------------------------------------------------------------------------

/// The episodes of season `s`, in order.
pub open spec fn of_season(eps: Seq<Episode>, s: i32) -> Seq<Episode> {
    eps.filter(|e: Episode| e.season_number == s)
}

/// The available episodes, in order.
pub open spec fn available(eps: Seq<Episode>) -> Seq<Episode> {
    eps.filter(|e: Episode| e.status == MediaStatus::Available)
}

/// Season numbers strictly ascending.
pub open spec fn ascending_seasons(bs: Seq<(i32, Vec<Episode>)>) -> bool {
    forall|a: int, b: int| 0 <= a < b < bs.len() ==> #[trigger] bs[a].0 < #[trigger] bs[b].0
}

/// Each season holds the episodes of `eps` of its number, in their order,
/// and at least one.
pub open spec fn exact_seasons(bs: Seq<(i32, Vec<Episode>)>, eps: Seq<Episode>) -> bool {
    forall|j: int|
        0 <= j < bs.len() ==> (#[trigger] bs[j]).1@ == of_season(eps, bs[j].0) && bs[j].1@.len() > 0
}

/// Every season number of `eps` has its season.
pub open spec fn covering_seasons(bs: Seq<(i32, Vec<Episode>)>, eps: Seq<Episode>) -> bool {
    forall|k: int|
        0 <= k < eps.len() ==> exists|j: int|
            0 <= j < bs.len() && (#[trigger] bs[j]).0 == (#[trigger] eps[k]).season_number
}

/// `bs` groups `eps` by season: season numbers strictly ascending, each
/// season with its episodes in their order, every season of `eps` present
/// and no other.
pub open spec fn seasons_of(bs: Seq<(i32, Vec<Episode>)>, eps: Seq<Episode>) -> bool {
    &&& ascending_seasons(bs)
    &&& exact_seasons(bs, eps)
    &&& covering_seasons(bs, eps)
}

/// Splits episodes into seasons.
fn bucket_by_season(episodes: Vec<Episode>) -> (r: Vec<(i32, Vec<Episode>)>)
    ensures
        seasons_of(r@, episodes@),
{
    let ghost all = episodes@;
    let mut rest = episodes;
    let n = rest.len();
    let mut bs: Vec<(i32, Vec<Episode>)> = Vec::new();
    let mut i: usize = 0;
    assert(all.skip(0) =~= all);
    while rest.len() > 0
        invariant
            all.len() == n,
            rest@.len() + i == all.len(),
            rest@ == all.skip(i as int),
            seasons_of(bs@, all.take(i as int)),
        decreases rest.len(),
    {
        let e = rest.remove(0);
        assert(e == all[i as int]);
        assert(rest@ =~= all.skip(i + 1));
        let ghost prev = all.take(i as int);
        let ghost next = all.take(i + 1);
        assert(next =~= prev.push(e));
        let s = e.season_number;
        let mut p: usize = 0;
        while p < bs.len() && bs[p].0 < s
            invariant
                p <= bs@.len(),
                forall|q: int| 0 <= q < p ==> (#[trigger] bs@[q]).0 < s,
            decreases bs@.len() - p,
        {
            p = p + 1;
        }
        let ghost old_bs = bs@;
        if p < bs.len() && bs[p].0 == s {
            let mut b = bs.remove(p);
            b.1.push(e);
            bs.insert(p, b);
            proof {
                assert forall|j: int| 0 <= j < bs@.len() implies (#[trigger] bs@[j]).1@ == of_season(
                    next,
                    bs@[j].0,
                ) by {
                    prev.lemma_filter_push(e, |e: Episode| e.season_number == bs@[j].0);
                    if j != p {
                        assert(bs@[j] == old_bs[j]);
                    }
                }
                assert forall|a: int, b2: int| 0 <= a < b2 < bs@.len() implies #[trigger] bs@[a].0
                    < #[trigger] bs@[b2].0 by {
                    assert(old_bs[a].0 < old_bs[b2].0);
                }
                assert forall|j: int| 0 <= j < bs@.len() implies (#[trigger] bs@[j]).1@.len() > 0 by {
                    assert(old_bs[j].1@.len() > 0);
                }
                assert forall|k: int| 0 <= k < next.len() implies exists|j: int|
                    0 <= j < bs@.len() && (#[trigger] bs@[j]).0 == (#[trigger] next[k]).season_number by {
                    if k < prev.len() {
                        assert(next[k] == prev[k]);
                        let j = choose|j: int| 0 <= j < old_bs.len() && old_bs[j].0 == prev[k].season_number;
                        assert(bs@[j].0 == old_bs[j].0);
                    } else {
                        assert(bs@[p as int].0 == s);
                    }
                }
                assert(seasons_of(bs@, next));
            }
        } else {
            let mut v: Vec<Episode> = Vec::new();
            v.push(e);
            bs.insert(p, (s, v));
            proof {
                assert(of_season(prev, s) =~= Seq::<Episode>::empty()) by {
                    let pred = |e: Episode| e.season_number == s;
                    assert forall|k: int| 0 <= k < prev.len() implies !pred(#[trigger] prev[k]) by {
                        let j = choose|j: int| 0 <= j < old_bs.len() && old_bs[j].0 == prev[k].season_number;
                        if j < p {
                            assert(old_bs[j].0 < s);
                        } else if j > p {
                            assert(old_bs[p as int].0 < old_bs[j].0);
                        }
                    }
                    prev.lemma_all_neg_filter_empty(pred);
                }
                assert forall|j: int| 0 <= j < bs@.len() implies (#[trigger] bs@[j]).1@ == of_season(
                    next,
                    bs@[j].0,
                ) by {
                    prev.lemma_filter_push(e, |e: Episode| e.season_number == bs@[j].0);
                    if j < p {
                        assert(bs@[j] == old_bs[j]);
                    } else if j > p {
                        assert(bs@[j] == old_bs[j - 1]);
                    } else {
                        assert(of_season(prev, s) =~= Seq::<Episode>::empty());
                        assert(bs@[j].1@ =~= seq![e]);
                    }
                }
                assert forall|a: int, b2: int| 0 <= a < b2 < bs@.len() implies #[trigger] bs@[a].0
                    < #[trigger] bs@[b2].0 by {
                    if a < p && b2 < p {
                        assert(bs@[a] == old_bs[a] && bs@[b2] == old_bs[b2]);
                    } else if a < p && b2 == p {
                        assert(bs@[a] == old_bs[a]);
                    } else if a < p {
                        assert(bs@[a] == old_bs[a] && bs@[b2] == old_bs[b2 - 1]);
                    } else if a == p {
                        assert(bs@[b2] == old_bs[b2 - 1]);
                        if b2 - 1 > p {
                            assert(old_bs[p as int].0 < old_bs[b2 - 1].0);
                        }
                    } else {
                        assert(bs@[a] == old_bs[a - 1] && bs@[b2] == old_bs[b2 - 1]);
                    }
                }
                assert forall|j: int| 0 <= j < bs@.len() implies (#[trigger] bs@[j]).1@.len() > 0 by {
                    if j < p {
                        assert(bs@[j] == old_bs[j]);
                    } else if j > p {
                        assert(bs@[j] == old_bs[j - 1]);
                    }
                }
                assert forall|k: int| 0 <= k < next.len() implies exists|j: int|
                    0 <= j < bs@.len() && (#[trigger] bs@[j]).0 == (#[trigger] next[k]).season_number by {
                    if k < prev.len() {
                        assert(next[k] == prev[k]);
                        let j = choose|j: int| 0 <= j < old_bs.len() && old_bs[j].0 == prev[k].season_number;
                        if j < p {
                            assert(bs@[j] == old_bs[j]);
                        } else {
                            assert(bs@[j + 1] == old_bs[j]);
                        }
                    } else {
                        assert(bs@[p as int].0 == s);
                    }
                }
                assert(ascending_seasons(bs@));
                assert(exact_seasons(bs@, next));
                assert(covering_seasons(bs@, next));
                assert(seasons_of(bs@, next));
            }
        }
        i = i + 1;
    }
    assert(all.take(i as int) =~= all);
    bs
}

/// Counts the available episodes.
fn count_available(eps: &Vec<Episode>) -> (r: usize)
    ensures
        r == available(eps@).len(),
{
    let ghost pred = |e: Episode| e.status == MediaStatus::Available;
    let mut c: usize = 0;
    let mut i: usize = 0;
    while i < eps.len()
        invariant
            pred == (|e: Episode| e.status == MediaStatus::Available),
            i <= eps@.len(),
            c == eps@.take(i as int).filter(pred).len(),
            c <= i,
        decreases eps@.len() - i,
    {
        assert(eps@.take(i + 1) =~= eps@.take(i as int).push(eps@[i as int]));
        proof {
            eps@.take(i as int).lemma_filter_push(eps@[i as int], pred);
        }
        if eps[i].status == MediaStatus::Available {
            c = c + 1;
        }
        i = i + 1;
    }
    assert(eps@.take(i as int) =~= eps@);
    c
}

/// Groups episodes by season number: seasons in ascending order, each with
/// its episodes in their original order and its counts of available and
/// of all episodes.
pub fn group_episodes_by_season(episodes: Vec<Episode>) -> (r: Vec<SeasonWithEpisodes>)
    ensures
        forall|a: int, b: int|
            0 <= a < b < r@.len() ==> #[trigger] r@[a].season_number < #[trigger] r@[b].season_number,
        forall|j: int|
            0 <= j < r@.len() ==> (#[trigger] r@[j]).episodes@ == of_season(
                episodes@,
                r@[j].season_number,
            ),
        forall|j: int| 0 <= j < r@.len() ==> (#[trigger] r@[j]).episodes@.len() > 0,
        forall|k: int|
            0 <= k < episodes@.len() ==> exists|j: int|
                0 <= j < r@.len() && (#[trigger] r@[j]).season_number
                    == (#[trigger] episodes@[k]).season_number,
        forall|j: int|
            0 <= j < r@.len() ==> (#[trigger] r@[j]).available_count == available(
                r@[j].episodes@,
            ).len() as i32 && r@[j].total_count == r@[j].episodes@.len() as i32,
{
    let ghost all = episodes@;
    let mut bs = bucket_by_season(episodes);
    let ghost buckets = bs@;
    let mut out: Vec<SeasonWithEpisodes> = Vec::new();
    let mut i: usize = 0;
    let nb = bs.len();
    assert(buckets.skip(0) =~= buckets);
    while bs.len() > 0
        invariant
            buckets.len() == nb,
            seasons_of(buckets, all),
            bs@.len() + i == buckets.len(),
            bs@ == buckets.skip(i as int),
            out@.len() == i,
            forall|j: int|
                0 <= j < i ==> (#[trigger] out@[j]).season_number == buckets[j].0 && out@[j].episodes@
                    == buckets[j].1@ && out@[j].available_count == available(
                    out@[j].episodes@,
                ).len() as i32 && out@[j].total_count == out@[j].episodes@.len() as i32,
        decreases bs.len(),
    {
        let (s, eps) = bs.remove(0);
        assert((s, eps) == buckets[i as int]);
        assert(bs@ =~= buckets.skip(i + 1));
        let a = count_available(&eps);
        let n = eps.len();
        out.push(SeasonWithEpisodes {
            season_number: s,
            episodes: eps,
            available_count: a as i32,
            total_count: n as i32,
        });
        i = i + 1;
    }
    proof {
        assert forall|k: int| 0 <= k < all.len() implies exists|j: int|
            0 <= j < out@.len() && (#[trigger] out@[j]).season_number
                == (#[trigger] all[k]).season_number by {
            let j = choose|j: int| 0 <= j < buckets.len() && buckets[j].0 == all[k].season_number;
            assert(out@[j].season_number == buckets[j].0);
        }
        assert forall|a: int, b: int| 0 <= a < b < out@.len() implies #[trigger] out@[a].season_number
            < #[trigger] out@[b].season_number by {
            assert(buckets[a].0 < buckets[b].0);
        }
        assert forall|j: int| 0 <= j < out@.len() implies (#[trigger] out@[j]).episodes@.len() > 0 by {
            assert(buckets[j].1@.len() > 0);
        }
    }
    out
}

// ---------------------------------------------------------------------------
// Statuses
// ---------------------------------------------------------------------------

/// The show status a TMDB status names: returning series are continuing,
/// shows in production or planned are upcoming; continuing when unknown.
pub open spec fn tmdb_status_of(status: Option<Seq<char>>) -> ShowStatus {
    match status {
        Some(s) => if s == "Returning Series"@ {
            ShowStatus::Continuing
        } else if s == "Ended"@ {
            ShowStatus::Ended
        } else if s == "Canceled"@ {
            ShowStatus::Canceled
        } else if s == "In Production"@ || s == "Planned"@ {
            ShowStatus::Upcoming
        } else {
            ShowStatus::Continuing
        },
        None => ShowStatus::Continuing,
    }
}

/// Converts a TMDB show status to a show status.
pub fn parse_tmdb_status(status: Option<&str>) -> (r: ShowStatus)
    ensures
        r == tmdb_status_of(match status {
            Some(s) => Some(s@),
            None => None,
        }),
{
    match status {
        Some(s) => {
            let c = chars_of(s);
            if chars_eq_str(c.as_slice(), "Returning Series") {
                ShowStatus::Continuing
            } else if chars_eq_str(c.as_slice(), "Ended") {
                ShowStatus::Ended
            } else if chars_eq_str(c.as_slice(), "Canceled") {
                ShowStatus::Canceled
            } else if chars_eq_str(c.as_slice(), "In Production") || chars_eq_str(
                c.as_slice(),
                "Planned",
            ) {
                ShowStatus::Upcoming
            } else {
                ShowStatus::Continuing
            }
        },
        None => ShowStatus::Continuing,
    }
}

/// The show status a database text names; continuing for any other text.
pub fn show_status_from_db(s: &str) -> (r: ShowStatus)
    ensures
        (exists|v: ShowStatus| v.name_spec() == s@) ==> r.name_spec() == s@,
        (forall|v: ShowStatus| v.name_spec() != s@) ==> r == ShowStatus::Continuing,
{
    match ShowStatus::parse(s) {
        Some(v) => v,
        None => ShowStatus::Continuing,
    }
}

/// The episode status a database text names; missing for any other text.
pub fn episode_status_from_db(s: &str) -> (r: MediaStatus)
    ensures
        (exists|v: MediaStatus| v.name_spec() == s@) ==> r.name_spec() == s@,
        (forall|v: MediaStatus| v.name_spec() != s@) ==> r == MediaStatus::Missing,
{
    match MediaStatus::parse(s) {
        Some(v) => v,
        None => MediaStatus::Missing,
    }
}

// ---------------------------------------------------------------------------
// Downloads
// ---------------------------------------------------------------------------

/// Checks that a download request's magnet link starts with `magnet:?`.
pub fn check_magnet(magnet: &str) -> (r: Result<(), AppError>)
    ensures
        r is Ok <==> starts_with_seq(magnet@, "magnet:?"@),
        r matches Err(e) ==> (e matches AppError::BadRequest(m) && m@ == "Invalid magnet link format"@),
{
    let p = chars_of("magnet:?");
    if matches_at(chars_of(magnet).as_slice(), p.as_slice(), 0) {
        Ok(())
    } else {
        Err(AppError::BadRequest("Invalid magnet link format".to_owned()))
    }
}

/// The name of an episode's download: its title, or `SxxEyy`.
pub open spec fn episode_download_name_of(title: Option<Seq<char>>, season: i32, episode: i32) -> Seq<char> {
    match title {
        Some(t) => t,
        None => "S"@ + int_padded(season as int, 2) + "E"@ + int_padded(episode as int, 2),
    }
}

/// Names an episode's download.
pub fn episode_download_name(title: Option<String>, season: i32, episode: i32) -> (r: String)
    ensures
        r@ == episode_download_name_of(
            match title {
                Some(t) => Some(t@),
                None => None,
            },
            season,
            episode,
        ),
{
    match title {
        Some(t) => t,
        None => {
            let mut r = chars_of("S");
            append_chars(&mut r, i32_padded(season, 2).as_slice());
            append_chars(&mut r, chars_of("E").as_slice());
            append_chars(&mut r, i32_padded(episode, 2).as_slice());
            string_of(r.as_slice())
        },
    }
}

/// Every episode lands in the season of its number: for grouped seasons,
/// each episode is among the episodes of the season with its number.
pub proof fn lemma_every_episode_in_its_season(r: Seq<SeasonWithEpisodes>, eps: Seq<Episode>, k: int)
    requires
        0 <= k < eps.len(),
        forall|j: int|
            0 <= j < r.len() ==> (#[trigger] r[j]).episodes@ == of_season(eps, r[j].season_number),
        forall|q: int|
            0 <= q < eps.len() ==> exists|j: int|
                0 <= j < r.len() && (#[trigger] r[j]).season_number == (#[trigger] eps[q]).season_number,
    ensures
        exists|j: int|
            0 <= j < r.len() && (#[trigger] r[j]).season_number == eps[k].season_number
                && r[j].episodes@.contains(eps[k]),
{
    let e = eps[k];
    let j = choose|j: int| 0 <= j < r.len() && (#[trigger] r[j]).season_number == eps[k].season_number;
    crate::text::lemma_filter_keeps(eps, |x: Episode| x.season_number == e.season_number, k);
    assert(r[j].episodes@.contains(eps[k]));
}


// ---------------------------------------------------------------------------
// Adding a show and refreshing its metadata
// ---------------------------------------------------------------------------

/// Checks the TMDB ID a show is added by: it must be positive.
pub fn check_tmdb_id(tmdb_id: i32) -> (r: Result<(), AppError>)
    ensures
        r is Ok <==> tmdb_id > 0,
        r matches Err(e) ==> (e matches AppError::BadRequest(m) && m@ == "Invalid TMDB ID"@),
{
    if tmdb_id <= 0 {
        Err(AppError::BadRequest("Invalid TMDB ID".to_owned()))
    } else {
        Ok(())
    }
}

/// The error a show that is already in the library is refused with.
pub fn show_exists_error(tmdb_id: i32) -> (r: AppError)
    ensures
        r matches AppError::BadRequest(m) && m@ == "TV show with TMDB ID "@ + int_display(
            tmdb_id as int,
        ) + " already exists"@,
{
    let mut m = chars_of("TV show with TMDB ID ");
    append_chars(&mut m, i64_to_chars(tmdb_id as i64).as_slice());
    append_chars(&mut m, chars_of(" already exists").as_slice());
    AppError::BadRequest(string_of(m.as_slice()))
}

/// The settings a new show is stored with: monitored unless the request
/// says otherwise, and limited to 1080p unless it names a limit.
pub fn new_show_settings(monitored: Option<bool>, quality_limit: Option<String>) -> (r: (bool, String))
    ensures
        r.0 == match monitored {
            Some(m) => m,
            None => true,
        },
        r.1@ == match quality_limit {
            Some(q) => q@,
            None => "1080p"@,
        },
{
    let m = match monitored {
        Some(m) => m,
        None => true,
    };
    let q = match quality_limit {
        Some(q) => q,
        None => "1080p".to_owned(),
    };
    (m, q)
}

/// The year of an air date such as `2008-01-20`: its text before the first
/// `-`, read as a number.
pub open spec fn air_year_of(date: Seq<char>) -> Option<i32> {
    match find_in(date, CharSet::Single('-')) {
        Some(i) => parse_i32_spec(date.take(i)),
        None => parse_i32_spec(date),
    }
}

/// The year of an air date, if there is a date and its year reads as a number.
pub fn air_year(date: Option<&str>) -> (r: Option<i32>)
    ensures
        r == match date {
            Some(d) => air_year_of(d@),
            None => None::<i32>,
        },
{
    match date {
        Some(d) => {
            let v = chars_of(d);
            match find_set(v.as_slice(), CharSet::Single('-')) {
                Some(i) => {
                    let head = slice_chars(v.as_slice(), 0, i);
                    assert(head@ =~= v@.take(i as int));
                    parse_i32(head.as_slice())
                },
                None => parse_i32(v.as_slice()),
            }
        },
        None => None,
    }
}

/// Whether a season is fetched: all are but a season 0 without episodes.
pub open spec fn fetches_season(s: TmdbSeasonSummary) -> bool {
    !(s.season_number == 0 && s.episode_count == 0)
}

/// The numbers of the seasons whose episodes are fetched, in order.
pub open spec fn seasons_fetched(seasons: Seq<TmdbSeasonSummary>) -> Seq<i32>
    decreases seasons.len(),
{
    if seasons.len() == 0 {
        Seq::empty()
    } else {
        let rest = seasons_fetched(seasons.drop_last());
        if fetches_season(seasons.last()) {
            rest.push(seasons.last().season_number)
        } else {
            rest
        }
    }
}

/// The numbers of a show's seasons whose episodes are fetched.
pub fn seasons_to_fetch(seasons: &[TmdbSeasonSummary]) -> (r: Vec<i32>)
    ensures
        r@ == seasons_fetched(seasons@),
{
    let mut r: Vec<i32> = Vec::new();
    let mut i: usize = 0;
    while i < seasons.len()
        invariant
            i <= seasons.len(),
            r@ == seasons_fetched(seasons@.take(i as int)),
        decreases seasons.len() - i,
    {
        assert(seasons@.take(i as int + 1).drop_last() =~= seasons@.take(i as int));
        let s = &seasons[i];
        if !(s.season_number == 0 && s.episode_count == 0) {
            r.push(s.season_number);
        }
        i += 1;
    }
    assert(seasons@.take(seasons.len() as int) =~= seasons@);
    r
}

/// For each fetched episode, given by season and episode number, whether it
/// is new to the show (inserted) rather than already stored (updated).
pub fn new_episodes(existing: &[(i32, i32)], fetched: &[(i32, i32)]) -> (r: Vec<bool>)
    ensures
        r.len() == fetched.len(),
        forall|i: int| 0 <= i < fetched.len() ==> r@[i] == !existing@.contains(#[trigger] fetched@[i]),
{
    let mut r: Vec<bool> = Vec::new();
    let mut i: usize = 0;
    while i < fetched.len()
        invariant
            i <= fetched.len(),
            r.len() == i,
            forall|k: int| 0 <= k < i ==> r@[k] == !existing@.contains(#[trigger] fetched@[k]),
        decreases fetched.len() - i,
    {
        let key = fetched[i];
        let mut found = false;
        let mut j: usize = 0;
        while j < existing.len()
            invariant
                j <= existing.len(),
                found <==> exists|q: int| 0 <= q < j && existing@[q] == key,
            decreases existing.len() - j,
        {
            if existing[j].0 == key.0 && existing[j].1 == key.1 {
                found = true;
            }
            j += 1;
        }
        proof {
            if found {
                let q = choose|q: int| 0 <= q < existing.len() && existing@[q] == key;
                assert(existing@.contains(key));
            }
        }
        r.push(!found);
        i += 1;
    }
    r
}

} // verus!
