//! The TV pages: the view models the templates are filled with, made from
//! what the API returns. Rendering the templates happens outside the
//! library.

use vstd::prelude::*;
use crate::api::tv::SeasonWithEpisodes;
use crate::models::{Episode, ShowStatus, TvShow};
use crate::naming::{cut_at_bytes, cut_bytes, cuttable, utf8_len};
use crate::text::{chars_of, string_of};

verus! {

/// The TV list page.
pub struct TvListTemplate {
    pub shows: Vec<ShowView>,
    pub total: u64,
    pub current_status: Option<String>,
    pub statuses: Vec<String>,
}

/// The TV show page.
pub struct TvDetailTemplate {
    pub show: ShowView,
    pub seasons: Vec<SeasonView>,
}

/// The TMDB search results fragment.
pub struct SearchResultsTemplate {
    pub results: Vec<TmdbResult>,
    pub search_type: String,
}

/// The search dialog fragment.
pub struct SearchModalTemplate {
    pub search_type: String,
    pub search_endpoint: String,
}

/// A show as pages list it.
pub struct ShowView {
    pub id: i64,
    pub tmdb_id: i64,
    pub title: String,
    pub year_start: Option<i32>,
    pub year_end: Option<i32>,
    pub overview: Option<String>,
    pub poster_path: Option<String>,
    pub backdrop_path: Option<String>,
    pub status: String,
    pub monitored: bool,
}

/// A season as the show page lists it.
pub struct SeasonView {
    pub season_number: i32,
    pub episode_count: i32,
    pub available_count: i32,
    pub episodes: Vec<EpisodeView>,
}

/// An episode as the show page lists it.
pub struct EpisodeView {
    pub id: i64,
    pub episode_number: i32,
    pub title: String,
    pub air_date: Option<String>,
    pub status: String,
    pub monitored: bool,
}

/// A TMDB search result as the fragment lists it.
pub struct TmdbResult {
    pub id: i64,
    pub title: String,
    pub year: Option<String>,
    pub overview: Option<String>,
    pub poster_path: Option<String>,
}

/// Query of the TV list page.
pub struct ListQuery {
    pub status: Option<String>,
    pub page: Option<u32>,
}

/// Query of the TMDB search fragment.
pub struct SearchQuery {
    pub q: Option<String>,
}

/// Form data for adding a TV show.
pub struct AddShowForm {
    pub tmdb_id: i32,
}

/// The show view of a show.
pub fn show_view(s: TvShow) -> (r: ShowView)
    ensures
        r.id == s.id && r.tmdb_id == s.tmdb_id && r.title == s.title,
        r.year_start == s.year_start && r.year_end == s.year_end && r.overview == s.overview,
        r.poster_path == s.poster_path && r.backdrop_path == s.backdrop_path,
        r.status@ == s.status.name_spec() && r.monitored == s.monitored,
{
    ShowView {
        id: s.id,
        tmdb_id: s.tmdb_id,
        title: s.title,
        year_start: s.year_start,
        year_end: s.year_end,
        overview: s.overview,
        poster_path: s.poster_path,
        backdrop_path: s.backdrop_path,
        status: s.status.as_str().to_owned(),
        monitored: s.monitored,
    }
}

/// The episode view of an episode: an untitled episode has an empty title.
pub fn episode_view(e: Episode) -> (r: EpisodeView)
    ensures
        r.id == e.id && r.episode_number == e.episode_number,
        r.title@ == (match e.title {
            Some(t) => t@,
            None => Seq::<char>::empty(),
        }),
        r.air_date == e.air_date && r.status@ == e.status.name_spec() && r.monitored == e.monitored,
{
    EpisodeView {
        id: e.id,
        episode_number: e.episode_number,
        title: match e.title {
            Some(t) => t,
            None => String::new(),
        },
        air_date: e.air_date,
        status: e.status.as_str().to_owned(),
        monitored: e.monitored,
    }
}

/// The season view of a season: its counts and its episodes' views.
pub fn season_view(s: SeasonWithEpisodes) -> (r: SeasonView)
    ensures
        r.season_number == s.season_number,
        r.episode_count == s.total_count && r.available_count == s.available_count,
        r.episodes@.len() == s.episodes@.len(),
        forall|i: int|
            0 <= i < r.episodes@.len() ==> (#[trigger] r.episodes@[i]).id == s.episodes@[i].id
                && r.episodes@[i].episode_number == s.episodes@[i].episode_number,
{
    let ghost eps = s.episodes@;
    let mut rest = s.episodes;
    let n = rest.len();
    let mut out: Vec<EpisodeView> = Vec::new();
    let mut k: usize = 0;
    assert(eps.skip(0) =~= eps);
    while rest.len() > 0
        invariant
            n == eps.len(),
            rest@.len() + k == n,
            rest@ == eps.skip(k as int),
            out@.len() == k,
            forall|i: int|
                0 <= i < k ==> (#[trigger] out@[i]).id == eps[i].id && out@[i].episode_number
                    == eps[i].episode_number,
        decreases rest.len(),
    {
        let e = rest.remove(0);
        assert(e == eps[k as int]);
        assert(rest@ =~= eps.skip(k + 1));
        out.push(episode_view(e));
        k = k + 1;
    }
    SeasonView {
        season_number: s.season_number,
        episode_count: s.total_count,
        available_count: s.available_count,
        episodes: out,
    }
}

/// The status filter the list page's `status` parameter names, if any.
pub fn status_filter(status: Option<&str>) -> (r: Option<ShowStatus>)
    ensures
        r matches Some(v) ==> (status matches Some(s) && v.name_spec() == s@),
        r is None ==> (status is None || (status matches Some(s) && forall|v: ShowStatus| v.name_spec() != s@)),
{
    match status {
        Some(s) => ShowStatus::parse(s),
        None => None,
    }
}

/// The statuses the list page offers.
pub fn list_statuses() -> (r: Vec<String>)
    ensures
        r@.len() == 4,
        r@[0]@ == "all"@ && r@[1]@ == "continuing"@ && r@[2]@ == "ended"@ && r@[3]@ == "canceled"@,
{
    let mut v: Vec<String> = Vec::new();
    v.push("all".to_owned());
    v.push("continuing".to_owned());
    v.push("ended".to_owned());
    v.push("canceled".to_owned());
    v
}

/// The year a first-air date gives: its first 4 bytes, when it has that
/// many.
pub fn year_of_date(date: &str) -> (r: Option<String>)
    requires
        utf8_len(date@) < 4 || cuttable(date@, 4),
    ensures
        utf8_len(date@) < 4 ==> r is None,
        utf8_len(date@) >= 4 ==> (r matches Some(y) && y@ == cut_bytes(date@, 4)),
{
    let c = chars_of(date);
    proof {
        crate::naming::lemma_utf8_len_bytes(date@);
    }
    if date.as_bytes().len() >= 4 {
        Some(string_of(cut_at_bytes(c.as_slice(), 4).as_slice()))
    } else {
        None
    }
}

/// The search dialog of the TV pages.
pub fn tv_search_modal() -> (r: SearchModalTemplate)
    ensures
        r.search_type@ == "tv"@ && r.search_endpoint@ == "/search/tmdb/tv"@,
{
    SearchModalTemplate { search_type: "tv".to_owned(), search_endpoint: "/search/tmdb/tv".to_owned() }
}

} // verus!
