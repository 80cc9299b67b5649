//! The music endpoints: request and response types, the checks a download
//! request gets, and the grouping of Soulseek results into albums.

use vstd::prelude::*;
use crate::error::AppError;
use crate::indexer::Release;
use crate::config::MusicQualityConfig;
use crate::models::{Album, AlbumStatus, Artist, MediaStatus, Track};
use crate::regexes::{lowercase, to_lowercase};
use crate::soulseek::{FileResult, SearchResult};
use crate::text::{
    append_chars, chars_eq, chars_eq_str, chars_of, map_set, matches_at, replace_all,
    replace_all_seq, replace_set, rfind_in, rfind_set, slice_chars, starts_with_seq, string_of,
    trim_whitespace, trim_ws, CharSet,
};

verus! {

/// Query parameters for listing artists.
pub struct ListArtistsQuery {
    /// Filter by monitored state.
    pub monitored: Option<bool>,
    /// Full-text search query.
    pub search: Option<String>,
    /// Page number (1-indexed, default: 1).
    pub page: Option<u32>,
    /// Items per page (default: 20, max: 100).
    pub limit: Option<u32>,
}

/// Query parameters for listing albums.
pub struct ListAlbumsQuery {
    /// Filter by artist ID.
    pub artist_id: Option<i64>,
    /// Filter by status.
    pub status: Option<AlbumStatus>,
    /// Filter by monitored state.
    pub monitored: Option<bool>,
    /// Full-text search query.
    pub search: Option<String>,
    /// Page number (1-indexed, default: 1).
    pub page: Option<u32>,
    /// Items per page (default: 20, max: 100).
    pub limit: Option<u32>,
}

/// Query parameters for listing tracks.
pub struct ListTracksQuery {
    /// Filter by album ID.
    pub album_id: Option<i64>,
    /// Filter by status.
    pub status: Option<MediaStatus>,
    /// Page number (1-indexed, default: 1).
    pub page: Option<u32>,
    /// Items per page (default: 20, max: 100).
    pub limit: Option<u32>,
}

/// Paginated response wrapper.
pub struct PaginatedResponse<T> {
    /// Items in the current page.
    pub items: Vec<T>,
    /// Total number of items across all pages.
    pub total: u64,
    /// Current page number (1-indexed).
    pub page: u32,
    /// Total number of pages.
    pub pages: u32,
}

/// Request body for adding an artist.
pub struct AddArtistRequest {
    /// MusicBrainz artist ID (UUID).
    pub mbid: String,
    /// Whether to monitor this artist (default: true).
    pub monitored: Option<bool>,
    /// Quality limit for downloads (default: "flac").
    pub quality_limit: Option<String>,
}

/// Request body for updating an artist.
pub struct UpdateArtistRequest {
    /// Whether to monitor this artist.
    pub monitored: Option<bool>,
    /// Quality limit for downloads.
    pub quality_limit: Option<String>,
}

impl UpdateArtistRequest {
    /// Whether the update changes nothing.
    pub open spec fn changes_nothing(&self) -> bool {
        self.monitored is None && self.quality_limit is None
    }

    /// Checks that the update changes at least one field.
    pub fn check(&self) -> (r: Result<(), AppError>)
        ensures
            r is Ok <==> !self.changes_nothing(),
            r matches Err(e) ==> (e matches AppError::BadRequest(m) && m@ == "No fields to update"@),
    {
        if self.monitored.is_none() && self.quality_limit.is_none() {
            Err(AppError::BadRequest("No fields to update".to_owned()))
        } else {
            Ok(())
        }
    }
}

/// Request body for updating an album.
pub struct UpdateAlbumRequest {
    /// Whether to monitor this album.
    pub monitored: Option<bool>,
    /// Quality limit for downloads.
    pub quality_limit: Option<String>,
}

impl UpdateAlbumRequest {
    /// Whether the update changes nothing.
    pub open spec fn changes_nothing(&self) -> bool {
        self.monitored is None && self.quality_limit is None
    }

    /// Checks that the update changes at least one field.
    pub fn check(&self) -> (r: Result<(), AppError>)
        ensures
            r is Ok <==> !self.changes_nothing(),
            r matches Err(e) ==> (e matches AppError::BadRequest(m) && m@ == "No fields to update"@),
    {
        if self.monitored.is_none() && self.quality_limit.is_none() {
            Err(AppError::BadRequest("No fields to update".to_owned()))
        } else {
            Ok(())
        }
    }
}

/// Request body for updating a track.
pub struct UpdateTrackRequest {
    /// Whether to monitor this track.
    pub monitored: Option<bool>,
}

impl UpdateTrackRequest {
    /// Whether the update changes nothing.
    pub open spec fn changes_nothing(&self) -> bool {
        self.monitored is None
    }

    /// Checks that the update changes at least one field.
    pub fn check(&self) -> (r: Result<(), AppError>)
        ensures
            r is Ok <==> !self.changes_nothing(),
            r matches Err(e) ==> (e matches AppError::BadRequest(m) && m@ == "No fields to update"@),
    {
        if self.monitored.is_none() {
            Err(AppError::BadRequest("No fields to update".to_owned()))
        } else {
            Ok(())
        }
    }
}

/// Query parameters for deleting an artist.
pub struct DeleteArtistQuery {
    /// Whether to delete associated files (default: false).
    pub delete_files: Option<bool>,
}

/// Query parameters for deleting an album.
pub struct DeleteAlbumQuery {
    /// Whether to delete associated files (default: false).
    pub delete_files: Option<bool>,
}

/// Request body for downloading a release (torrent).
pub struct DownloadRequest {
    /// Direct magnet link.
    pub magnet: String,
}

/// Request body for searching releases with multiple sources.
pub struct UnifiedSearchRequest {
    /// Sources to search ("indexers", "soulseek", or "all"); the configured
    /// default sources when absent.
    pub sources: Option<Vec<String>>,
    /// Optional custom search query (defaults to "Artist Album").
    pub query: Option<String>,
}

/// Request body for downloading from multiple sources.
pub struct UnifiedDownloadRequest {
    /// Download source: "torrent" or "soulseek".
    pub source: String,
    /// Magnet link (required for torrent downloads).
    pub magnet: Option<String>,
    /// Soulseek username (required for soulseek downloads).
    pub username: Option<String>,
    /// Soulseek files to download (required for soulseek downloads).
    pub files: Option<Vec<SoulseekFileDownload>>,
}

/// The source a unified download request names when it names none.
pub fn default_source() -> (r: String)
    ensures
        r@ == "torrent"@,
{
    "torrent".to_owned()
}

/// File to download from Soulseek.
pub struct SoulseekFileDownload {
    /// Full path of the file on the peer's system.
    pub filename: String,
    /// File size in bytes.
    pub size: u64,
}

/// A Soulseek search result for an album.
pub struct SoulseekAlbumResult {
    /// Source identifier.
    pub source: String,
    /// Username of the peer sharing the files.
    pub username: String,
    /// Common folder path for the album.
    pub folder: String,
    /// Files in the album.
    pub files: Vec<SoulseekFileResult>,
    /// Quality information.
    pub quality: SoulseekQuality,
    /// Whether the user has free upload slots.
    pub user_slots_free: bool,
    /// User's average upload speed in bytes/second.
    pub user_speed: u32,
    /// User's queue length.
    pub queue_length: u32,
    /// Quality score (higher is better).
    pub score: u32,
}

/// A file in a Soulseek album result.
pub struct SoulseekFileResult {
    /// Full path of the file.
    pub filename: String,
    /// File size in bytes.
    pub size: u64,
    /// File extension.
    pub extension: String,
    /// Bitrate in kbps (if available).
    pub bitrate: Option<u32>,
    /// Duration in seconds (if available).
    pub duration: Option<u32>,
}

/// Quality information for a Soulseek result.
pub struct SoulseekQuality {
    /// Primary audio format (e.g., "flac", "mp3").
    pub format: String,
    /// Average bitrate in kbps.
    pub bitrate: u32,
}

/// Response for unified search.
pub struct UnifiedSearchResponse {
    /// Album ID that was searched.
    pub album_id: i64,
    /// Artist name.
    pub artist: String,
    /// Album title.
    pub album: String,
    /// Indexer/torrent results.
    pub indexer_results: Vec<Release>,
    /// Soulseek results (grouped by user/folder).
    pub soulseek_results: Vec<SoulseekAlbumResult>,
}

/// Success response for operations without specific data.
pub struct SuccessResponse {
    pub success: bool,
    pub message: Option<String>,
}

/// Download information returned after starting a download.
pub struct DownloadInfo {
    pub id: i64,
    pub info_hash: String,
    pub name: String,
    pub status: String,
}

/// An artist with album count.
pub struct ArtistWithStats {
    pub artist: Artist,
    /// Total number of albums for this artist.
    pub album_count: i32,
}

/// An album with all its tracks.
pub struct AlbumWithTracks {
    pub album: Album,
    pub tracks: Vec<Track>,
}

/// An artist with all albums.
pub struct ArtistWithAlbums {
    pub artist: Artist,
    pub albums: Vec<Album>,
}

// ---------------------------------------------------------------------------
// Listing
// ---------------------------------------------------------------------------

/// The full-text search term for a listing's search text: the text
/// trimmed, its double quotes doubled, quoted, and matched as a prefix.
pub open spec fn fts_term_of(search: Seq<char>) -> Seq<char> {
    seq!['"'] + replace_all_seq(trim_ws(search), seq!['"'], seq!['"', '"']) + seq!['"', '*']
}

/// The full-text search term for a listing's search text.
pub fn fts_search_term(search: &str) -> (r: String)
    ensures
        r@ == fts_term_of(search@),
{
    let t = trim_whitespace(chars_of(search).as_slice());
    let quote = vec!['"'];
    let doubled = vec!['"', '"'];
    assert(quote@ =~= seq!['"']);
    assert(doubled@ =~= seq!['"', '"']);
    let escaped = replace_all(t.as_slice(), quote.as_slice(), doubled.as_slice());
    let mut r: Vec<char> = Vec::new();
    r.push('"');
    append_chars(&mut r, escaped.as_slice());
    r.push('"');
    r.push('*');
    assert(r@ =~= fts_term_of(search@));
    string_of(r.as_slice())
}


/// The page, page size and row offset a listing asks for: page 1 and 20
/// items by default, the page at least 1, the size between 1 and 100, the
/// offset `(page - 1) * size`, saturating.
pub fn page_window(page: Option<u32>, limit: Option<u32>) -> (r: (u32, u32, u32))
    ensures
        r.0 == (match page {
            Some(p) => if p < 1 { 1 } else { p },
            None => 1,
        }),
        r.1 == (match limit {
            Some(l) => if l < 1 { 1 } else if l > 100 { 100 } else { l },
            None => 20,
        }),
        r.2 == (if (r.0 - 1) * r.1 > u32::MAX { u32::MAX as int } else { (r.0 - 1) * r.1 }),
{
    let p: u32 = match page {
        Some(p) => if p < 1 { 1 } else { p },
        None => 1,
    };
    let l: u32 = match limit {
        Some(l) => if l < 1 { 1 } else if l > 100 { 100 } else { l },
        None => 20,
    };
    let ghost a: int = (p - 1) as int;
    let ghost b: int = l as int;
    assert(a * b <= 429496729500) by (nonlinear_arith)
        requires
            0 <= a <= 4294967295,
            0 <= b <= 100,
    ;
    let prod: u64 = (p - 1) as u64 * l as u64;
    let offset: u32 = if prod > 4294967295 { 4294967295 } else { prod as u32 };
    (p, l, offset)
}

/// The status of an album from its tracks: missing with no track or none
/// available, available with all available, partial otherwise.
pub open spec fn album_status_of(tracks: Seq<Track>) -> AlbumStatus {
    let available = tracks.filter(|t: Track| t.status == MediaStatus::Available).len();
    if tracks.len() == 0 || available == 0 {
        AlbumStatus::Missing
    } else if available == tracks.len() {
        AlbumStatus::Available
    } else {
        AlbumStatus::Partial
    }
}

/// Calculates an album's status from its tracks' statuses.
pub fn calculate_album_status(tracks: &[Track]) -> (r: AlbumStatus)
    ensures
        r == album_status_of(tracks@),
{
    if tracks.len() == 0 {
        return AlbumStatus::Missing;
    }
    let ghost avail = |t: Track| t.status == MediaStatus::Available;
    let mut available: usize = 0;
    let mut i: usize = 0;
    while i < tracks.len()
        invariant
            avail == (|t: Track| t.status == MediaStatus::Available),
            i <= tracks@.len(),
            available == tracks@.take(i as int).filter(avail).len(),
            available <= i,
        decreases tracks@.len() - i,
    {
        assert(tracks@.take(i + 1) =~= tracks@.take(i as int).push(tracks@[i as int]));
        proof {
            tracks@.take(i as int).lemma_filter_push(tracks@[i as int], avail);
        }
        if tracks[i].status == MediaStatus::Available {
            available = available + 1;
        }
        i = i + 1;
    }
    assert(tracks@.take(i as int) =~= tracks@);
    if available == 0 {
        AlbumStatus::Missing
    } else if available == tracks.len() {
        AlbumStatus::Available
    } else {
        AlbumStatus::Partial
    }
}

/// The album status a database text names; `missing` for any other text.
pub fn album_status_from_db(s: &str) -> (r: AlbumStatus)
    ensures
        (exists|v: AlbumStatus| v.name_spec() == s@) ==> r.name_spec() == s@,
        (forall|v: AlbumStatus| v.name_spec() != s@) ==> r == AlbumStatus::Missing,
{
    match AlbumStatus::parse(s) {
        Some(v) => v,
        None => AlbumStatus::Missing,
    }
}

/// The track status a database text names; `missing` for any other text.
pub fn track_status_from_db(s: &str) -> (r: MediaStatus)
    ensures
        (exists|v: MediaStatus| v.name_spec() == s@) ==> r.name_spec() == s@,
        (forall|v: MediaStatus| v.name_spec() != s@) ==> r == MediaStatus::Missing,
{
    match MediaStatus::parse(s) {
        Some(v) => v,
        None => MediaStatus::Missing,
    }
}

// ---------------------------------------------------------------------------
// MusicBrainz identifiers
// ---------------------------------------------------------------------------

/// Positions of the dashes of a UUID.
pub open spec fn uuid_dash_at(i: int) -> bool {
    i == 8 || i == 13 || i == 18 || i == 23
}

/// `xxxxxxxx-xxxx-xxxx-xxxx-xxxxxxxxxxxx` with `x` a hexadecimal digit of
/// either case.
pub open spec fn valid_uuid(s: Seq<char>) -> bool {
    &&& s.len() == 36
    &&& forall|i: int| 0 <= i < 36 ==> if uuid_dash_at(i) {
        #[trigger] s[i] == '-'
    } else {
        crate::text::is_ascii_hex_char(s[i])
    }
}

/// Checks the UUID format of a MusicBrainz identifier.
pub fn is_valid_uuid(s: &str) -> (r: bool)
    ensures
        r == valid_uuid(s@),
{
    let c = chars_of(s);
    if c.len() != 36 {
        return false;
    }
    let mut i: usize = 0;
    while i < 36
        invariant
            c@ == s@,
            c@.len() == 36,
            i <= 36,
            forall|j: int| 0 <= j < i ==> if uuid_dash_at(j) {
                #[trigger] c@[j] == '-'
            } else {
                crate::text::is_ascii_hex_char(c@[j])
            },
        decreases 36 - i,
    {
        let x = c[i];
        let ok = if i == 8 || i == 13 || i == 18 || i == 23 {
            x == '-'
        } else {
            ('0' <= x && x <= '9') || ('a' <= x && x <= 'f') || ('A' <= x && x <= 'F')
        };
        if !ok {
            return false;
        }
        i = i + 1;
    }
    true
}

/// Checks the MusicBrainz ID an artist is added by: trimmed, it must be
/// present and a UUID. Gives the trimmed ID.
pub fn check_mbid(mbid: &str) -> (r: Result<String, AppError>)
    ensures
        trim_ws(mbid@).len() == 0 ==> (r matches Err(AppError::BadRequest(m)) && m@
            == "MusicBrainz ID is required"@),
        trim_ws(mbid@).len() > 0 && !valid_uuid(trim_ws(mbid@)) ==> (r matches Err(
            AppError::BadRequest(m),
        ) && m@ == "Invalid MusicBrainz ID format (must be UUID)"@),
        trim_ws(mbid@).len() > 0 && valid_uuid(trim_ws(mbid@)) ==> (r matches Ok(id) && id@
            == trim_ws(mbid@)),
{
    let trimmed = string_of(trim_whitespace(chars_of(mbid).as_slice()).as_slice());
    if trimmed.as_str().unicode_len() == 0 {
        return Err(AppError::BadRequest("MusicBrainz ID is required".to_owned()));
    }
    if !is_valid_uuid(trimmed.as_str()) {
        return Err(AppError::BadRequest("Invalid MusicBrainz ID format (must be UUID)".to_owned()));
    }
    Ok(trimmed)
}

/// The error an artist that is already in the library is refused with.
pub fn artist_exists_error(mbid: &str) -> (r: AppError)
    ensures
        r matches AppError::BadRequest(m) && m@ == "Artist with MusicBrainz ID "@ + mbid@
            + " already exists"@,
{
    let mut m = chars_of("Artist with MusicBrainz ID ");
    append_chars(&mut m, chars_of(mbid).as_slice());
    append_chars(&mut m, chars_of(" already exists").as_slice());
    AppError::BadRequest(string_of(m.as_slice()))
}

/// The settings a new artist is stored with: monitored unless the request
/// says otherwise, and limited to FLAC unless it names a limit.
pub fn new_artist_settings(monitored: Option<bool>, quality_limit: Option<String>) -> (r: (
    bool,
    String,
))
    ensures
        r.0 == match monitored {
            Some(m) => m,
            None => true,
        },
        r.1@ == match quality_limit {
            Some(q) => q@,
            None => "flac"@,
        },
{
    let m = match monitored {
        Some(m) => m,
        None => true,
    };
    let q = match quality_limit {
        Some(q) => q,
        None => "flac".to_owned(),
    };
    (m, q)
}

// ---------------------------------------------------------------------------
// Importing release groups, releases and tracks
// ---------------------------------------------------------------------------

/// A MusicBrainz release group, as far as importing it decides anything.
pub struct ReleaseGroupRef {
    pub id: String,
    pub secondary_types: Vec<String>,
}

/// A release group becomes an album when it has no secondary type
/// (compilations, live records and the like stay out) and its id is not
/// among the albums the artist already has.
pub open spec fn imports_group(g: ReleaseGroupRef, existing: Seq<Seq<char>>) -> bool {
    g.secondary_types@.len() == 0 && !existing.contains(g.id@)
}

/// Whether `id` is one of `existing`.
fn known_id(existing: &[String], id: &str) -> (r: bool)
    ensures
        r == string_views(existing@).contains(id@),
{
    let ghost v = string_views(existing@);
    let idv = chars_of(id);
    let mut i: usize = 0;
    while i < existing.len()
        invariant
            v == string_views(existing@),
            idv@ == id@,
            i <= existing@.len(),
            forall|j: int| 0 <= j < i ==> v[j] != id@,
        decreases existing@.len() - i,
    {
        let s = chars_of(existing[i].as_str());
        assert(v[i as int] == s@);
        if chars_eq(s.as_slice(), idv.as_slice()) {
            return true;
        }
        i = i + 1;
    }
    false
}

/// For each release group of an artist, whether it is added as a new
/// album, given the ids of the albums already stored (none on a first
/// import).
pub fn new_release_groups(groups: &[ReleaseGroupRef], existing: &[String]) -> (r: Vec<bool>)
    ensures
        r.len() == groups.len(),
        forall|i: int|
            0 <= i < groups.len() ==> r@[i] == imports_group(
                #[trigger] groups@[i],
                string_views(existing@),
            ),
{
    let mut r: Vec<bool> = Vec::new();
    let mut i: usize = 0;
    while i < groups.len()
        invariant
            i <= groups.len(),
            r.len() == i,
            forall|k: int|
                0 <= k < i ==> r@[k] == imports_group(#[trigger] groups@[k], string_views(existing@)),
        decreases groups.len() - i,
    {
        let g = &groups[i];
        let add = g.secondary_types.len() == 0 && !known_id(existing, g.id.as_str());
        r.push(add);
        i = i + 1;
    }
    r
}

/// A release whose status is `Official`.
pub open spec fn is_official(status: Option<String>) -> bool {
    status matches Some(s) && s@ == "Official"@
}

/// Whether a release's status is `Official`.
fn official(status: &Option<String>) -> (r: bool)
    ensures
        r == is_official(*status),
{
    match status {
        Some(s) => {
            let v = chars_of(s.as_str());
            chars_eq_str(v.as_slice(), "Official")
        },
        None => false,
    }
}

/// The release of a release group whose tracks are imported, given the
/// releases' statuses: the first official one, else the first one, and
/// none when the group has no release.
pub fn release_to_fetch(statuses: &[Option<String>]) -> (r: Option<usize>)
    ensures
        match r {
            Some(i) => i < statuses.len() && (if exists|j: int|
                0 <= j < statuses.len() && is_official(#[trigger] statuses@[j]) {
                is_official(statuses@[i as int]) && forall|j: int|
                    0 <= j < i ==> !is_official(#[trigger] statuses@[j])
            } else {
                i == 0
            }),
            None => statuses.len() == 0,
        },
{
    let mut i: usize = 0;
    while i < statuses.len()
        invariant
            i <= statuses.len(),
            forall|j: int| 0 <= j < i ==> !is_official(#[trigger] statuses@[j]),
        decreases statuses.len() - i,
    {
        if official(&statuses[i]) {
            return Some(i);
        }
        i = i + 1;
    }
    if statuses.len() == 0 {
        None
    } else {
        Some(0)
    }
}

/// The sum of a release's track counts over its media.
pub open spec fn track_sum(counts: Seq<u32>) -> int
    decreases counts.len(),
{
    if counts.len() == 0 {
        0
    } else {
        track_sum(counts.drop_last()) + counts.last()
    }
}

/// The number of tracks of a release: the track counts of its media added
/// up.
pub fn release_track_total(counts: &[u32]) -> (r: u32)
    requires
        track_sum(counts@) <= u32::MAX,
    ensures
        r == track_sum(counts@),
{
    let mut total: u32 = 0;
    let mut i: usize = 0;
    while i < counts.len()
        invariant
            i <= counts.len(),
            total == track_sum(counts@.take(i as int)),
            track_sum(counts@) <= u32::MAX,
        decreases counts.len() - i,
    {
        assert(counts@.take(i as int + 1).drop_last() =~= counts@.take(i as int));
        proof {
            lemma_track_sum_prefix(counts@, i as int + 1);
        }
        total = total + counts[i];
        i = i + 1;
    }
    assert(counts@.take(counts.len() as int) =~= counts@);
    total
}

/// A prefix of a list of track counts sums to no more than the list.
proof fn lemma_track_sum_prefix(counts: Seq<u32>, n: int)
    requires
        0 <= n <= counts.len(),
    ensures
        track_sum(counts.take(n)) <= track_sum(counts),
    decreases counts.len(),
{
    if n < counts.len() {
        assert(counts.drop_last().take(n) =~= counts.take(n));
        lemma_track_sum_prefix(counts.drop_last(), n);
    } else {
        assert(counts.take(n) =~= counts);
    }
}

// ---------------------------------------------------------------------------
// Downloads
// ---------------------------------------------------------------------------

/// What a unified download request asks for, once checked.
pub enum DownloadPlan {
    /// A torrent from a magnet link.
    Torrent { magnet: String },
    /// Files of one Soulseek user.
    Soulseek { username: String, files: Vec<SoulseekFileDownload> },
}

/// Checks a unified download request: a torrent needs a magnet link that
/// starts with `magnet:?`; a Soulseek download needs a username and at
/// least one file; any other source is refused.
pub fn plan_unified_download(body: UnifiedDownloadRequest) -> (r: Result<DownloadPlan, AppError>)
    ensures
        body.source@ == "torrent"@ ==> match body.magnet {
            None => r matches Err(AppError::BadRequest(m)) && m@
                == "Magnet link required for torrent downloads"@,
            Some(mg) => if starts_with_seq(mg@, "magnet:?"@) {
                r matches Ok(DownloadPlan::Torrent { magnet }) && magnet == mg
            } else {
                r matches Err(AppError::BadRequest(m)) && m@ == "Invalid magnet link format"@
            },
        },
        body.source@ == "soulseek"@ ==> match (body.username, body.files) {
            (None, _) => r matches Err(AppError::BadRequest(m)) && m@
                == "Username required for Soulseek downloads"@,
            (Some(_), None) => r matches Err(AppError::BadRequest(m)) && m@
                == "Files required for Soulseek downloads"@,
            (Some(u), Some(fs)) => if fs@.len() == 0 {
                r matches Err(AppError::BadRequest(m)) && m@
                    == "At least one file required for download"@
            } else {
                r matches Ok(DownloadPlan::Soulseek { username, files }) && username == u
                    && files == fs
            },
        },
        body.source@ != "torrent"@ && body.source@ != "soulseek"@ ==> (r matches Err(
            AppError::BadRequest(m),
        ) && m@ == "Invalid source: "@ + body.source@ + ". Must be 'torrent' or 'soulseek'"@),
{
    let src = chars_of(body.source.as_str());
    proof {
        reveal_strlit("torrent");
        reveal_strlit("soulseek");
        assert("torrent"@[0] != "soulseek"@[0]);
    }
    if chars_eq_str(src.as_slice(), "torrent") {
        match body.magnet {
            None => Err(AppError::BadRequest("Magnet link required for torrent downloads".to_owned())),
            Some(mg) => {
                let p = chars_of("magnet:?");
                if crate::text::matches_at(chars_of(mg.as_str()).as_slice(), p.as_slice(), 0) {
                    Ok(DownloadPlan::Torrent { magnet: mg })
                } else {
                    Err(AppError::BadRequest("Invalid magnet link format".to_owned()))
                }
            },
        }
    } else if chars_eq_str(src.as_slice(), "soulseek") {
        if body.username.is_none() {
            return Err(AppError::BadRequest("Username required for Soulseek downloads".to_owned()));
        }
        if body.files.is_none() {
            return Err(AppError::BadRequest("Files required for Soulseek downloads".to_owned()));
        }
        let u = body.username.unwrap();
        let fs = body.files.unwrap();
        if fs.len() == 0 {
            Err(AppError::BadRequest("At least one file required for download".to_owned()))
        } else {
            Ok(DownloadPlan::Soulseek { username: u, files: fs })
        }
    } else {
        let mut m = chars_of("Invalid source: ");
        append_chars(&mut m, src.as_slice());
        append_chars(&mut m, chars_of(". Must be 'torrent' or 'soulseek'").as_slice());
        Err(AppError::BadRequest(string_of(m.as_slice())))
    }
}

/// The record URI of a Soulseek file: `soulseek://user/path`.
pub open spec fn soulseek_uri(username: Seq<char>, filename: Seq<char>) -> Seq<char> {
    "soulseek://"@ + username + "/"@ + filename
}

/// Builds the record URI of a Soulseek file.
pub fn soulseek_source_uri(username: &str, filename: &str) -> (r: String)
    ensures
        r@ == soulseek_uri(username@, filename@),
{
    let mut r = chars_of("soulseek://");
    append_chars(&mut r, chars_of(username).as_slice());
    append_chars(&mut r, chars_of("/").as_slice());
    append_chars(&mut r, chars_of(filename).as_slice());
    string_of(r.as_slice())
}

/// The last component of a path separated by `/` or `\`.
pub open spec fn last_component(path: Seq<char>) -> Seq<char> {
    match rfind_in(path, CharSet::Pair('/', '\\')) {
        Some(i) => path.skip(i + 1),
        None => path,
    }
}

/// The file name a Soulseek file is recorded under: its path's last
/// component.
pub fn soulseek_file_name(filename: &str) -> (r: String)
    ensures
        r@ == last_component(filename@),
{
    let c = chars_of(filename);
    match rfind_set(c.as_slice(), CharSet::Pair('/', '\\')) {
        Some(i) => {
            let t = slice_chars(c.as_slice(), i + 1, c.len());
            assert(t@ =~= c@.skip(i + 1));
            string_of(t.as_slice())
        },
        None => string_of(c.as_slice()),
    }
}

/// Whether a unified search covers a source: it names it, or `all`.
pub open spec fn covers_source(sources: Seq<Seq<char>>, name: Seq<char>) -> bool {
    exists|i: int| 0 <= i < sources.len() && (sources[i] == name || sources[i] == "all"@)
}

/// Whether the sources of a unified search cover `name`.
pub fn wants_source(sources: &[String], name: &str) -> (r: bool)
    ensures
        r == covers_source(sources@.map_values(|s: String| s@), name@),
{
    let ghost v = sources@.map_values(|s: String| s@);
    let mut i: usize = 0;
    while i < sources.len()
        invariant
            v == sources@.map_values(|s: String| s@),
            i <= sources@.len(),
            forall|j: int| 0 <= j < i ==> !(v[j] == name@ || v[j] == "all"@),
        decreases sources@.len() - i,
    {
        let s = chars_of(sources[i].as_str());
        assert(v[i as int] == s@);
        if chars_eq_str(s.as_slice(), name) || chars_eq_str(s.as_slice(), "all") {
            return true;
        }
        i = i + 1;
    }
    false
}

// ---------------------------------------------------------------------------
// Soulseek albums
// ---------------------------------------------------------------------------

/// The folder of a file path (with `\` read as `/`): the part before the
/// last `/`, or nothing.
pub open spec fn folder_of(path: Seq<char>) -> Seq<char> {
    let n = map_set(path, CharSet::Single('\\'), '/');
    match rfind_in(n, CharSet::Single('/')) {
        Some(i) => n.take(i),
        None => Seq::empty(),
    }
}

/// Extracts the folder path from a full file path.
pub fn extract_folder(path: &str) -> (r: String)
    ensures
        r@ == folder_of(path@),
{
    let n = replace_set(chars_of(path).as_slice(), CharSet::Single('\\'), '/');
    match rfind_set(n.as_slice(), CharSet::Single('/')) {
        Some(i) => {
            let t = slice_chars(n.as_slice(), 0, i);
            assert(t@ =~= n@.take(i as int));
            string_of(t.as_slice())
        },
        None => String::new(),
    }
}

/// The audio formats, by lowercase extension.
pub open spec fn audio_extension(e: Seq<char>) -> bool {
    e == "flac"@ || e == "mp3"@ || e == "m4a"@ || e == "aac"@ || e == "ogg"@ || e == "opus"@
        || e == "wav"@ || e == "wma"@ || e == "ape"@ || e == "alac"@
}

/// Whether a file extension (in any case) is a common audio format.
pub fn is_audio_extension(ext: &str) -> (r: bool)
    ensures
        r == audio_extension(lowercase(ext@)),
{
    let l = to_lowercase(ext);
    let c = chars_of(l.as_str());
    let s = c.as_slice();
    chars_eq_str(s, "flac") || chars_eq_str(s, "mp3") || chars_eq_str(s, "m4a") || chars_eq_str(
        s,
        "aac",
    ) || chars_eq_str(s, "ogg") || chars_eq_str(s, "opus") || chars_eq_str(s, "wav")
        || chars_eq_str(s, "wma") || chars_eq_str(s, "ape") || chars_eq_str(s, "alac")
}

/// A file of a peer's search results, with what grouping needs of it.
pub struct FileEntry {
    /// The peer.
    pub username: String,
    /// The folder of the file's path.
    pub folder: String,
    /// The file's extension, lowercased.
    pub ext: String,
    /// Whether the extension is an audio format.
    pub audio: bool,
    /// The file as albums list it.
    pub file: SoulseekFileResult,
    /// The peer's free-slot flag, speed and queue length.
    pub slots_free: bool,
    pub speed: u32,
    pub queue: u32,
}

/// The entry of a file offered by a peer.
pub open spec fn entry_for(e: FileEntry, r: SearchResult, f: FileResult) -> bool {
    &&& e.username == r.username
    &&& e.folder@ == folder_of(f.filename@)
    &&& e.ext@ == lowercase(f.extension@)
    &&& e.audio == audio_extension(e.ext@)
    &&& e.file == SoulseekFileResult {
        filename: f.filename,
        size: f.size,
        extension: f.extension,
        bitrate: f.bitrate,
        duration: f.duration,
    }
    &&& e.slots_free == r.has_free_slot && e.speed == r.average_speed && e.queue == r.queue_length
}

/// The entries of all files of all peers, in order.
pub open spec fn entries_for(es: Seq<FileEntry>, rs: Seq<SearchResult>) -> bool {
    &&& es.len() == crate::api::soulseek::peer_files(rs).len()
    &&& forall|i: int|
        0 <= i < es.len() ==> entry_for(
            #[trigger] es[i],
            crate::api::soulseek::peer_files(rs)[i].0,
            crate::api::soulseek::peer_files(rs)[i].1,
        )
}

fn file_entry(r: &SearchResult, f: &FileResult) -> (e: FileEntry)
    ensures
        entry_for(e, *r, *f),
{
    let ext = to_lowercase(f.extension.as_str());
    let audio = is_audio_extension(f.extension.as_str());
    FileEntry {
        username: r.username.clone(),
        folder: extract_folder(f.filename.as_str()),
        ext,
        audio,
        file: SoulseekFileResult {
            filename: f.filename.clone(),
            size: f.size,
            extension: f.extension.clone(),
            bitrate: f.bitrate,
            duration: f.duration,
        },
        slots_free: r.has_free_slot,
        speed: r.average_speed,
        queue: r.queue_length,
    }
}

/// One entry per file of the peers' results, in order.
fn file_entries(rs: &[SearchResult]) -> (out: Vec<FileEntry>)
    ensures
        entries_for(out@, rs@),
{
    let ghost all = rs@;
    let mut out: Vec<FileEntry> = Vec::new();
    let mut i: usize = 0;
    while i < rs.len()
        invariant
            all == rs@,
            i <= rs.len(),
            entries_for(out@, all.take(i as int)),
        decreases rs.len() - i,
    {
        let r = &rs[i];
        let ghost base = out@.len();
        let ghost before = crate::api::soulseek::peer_files(all.take(i as int));
        let mut j: usize = 0;
        while j < r.files.len()
            invariant
                all == rs@,
                i < rs.len(),
                *r == all[i as int],
                j <= r.files@.len(),
                base == before.len(),
                before == crate::api::soulseek::peer_files(all.take(i as int)),
                out@.len() == base + j,
                forall|k: int| 0 <= k < base ==> entry_for(#[trigger] out@[k], before[k].0, before[k].1),
                forall|k: int|
                    base <= k < out@.len() ==> entry_for(#[trigger] out@[k], *r, r.files@[k - base]),
            decreases r.files@.len() - j,
        {
            out.push(file_entry(r, &r.files[j]));
            j = j + 1;
        }
        proof {
            let next = all.take(i + 1);
            assert(next.drop_last() =~= all.take(i as int));
            let add = r.files@.map_values(|f: FileResult| (*r, f));
            assert(crate::api::soulseek::peer_files(next) == before + add);
            assert forall|k: int| 0 <= k < out@.len() implies entry_for(
                #[trigger] out@[k],
                crate::api::soulseek::peer_files(next)[k].0,
                crate::api::soulseek::peer_files(next)[k].1,
            ) by {
                if k >= base {
                    assert((before + add)[k] == add[k - base]);
                } else {
                    assert((before + add)[k] == before[k]);
                }
            }
        }
        i = i + 1;
    }
    assert(all.take(all.len() as int) =~= all);
    out
}

/// The group key of an entry: its peer and folder.
pub open spec fn group_key(e: FileEntry) -> (Seq<char>, Seq<char>) {
    (e.username@, e.folder@)
}

/// The group keys of a list of entries, each once, in order of first
/// appearance.
pub open spec fn first_keys(es: Seq<FileEntry>) -> Seq<(Seq<char>, Seq<char>)>
    decreases es.len(),
{
    if es.len() == 0 {
        Seq::empty()
    } else {
        let ks = first_keys(es.drop_last());
        if ks.contains(group_key(es.last())) {
            ks
        } else {
            ks.push(group_key(es.last()))
        }
    }
}

/// The audio files of a group, in order.
pub open spec fn group_members(es: Seq<FileEntry>, k: (Seq<char>, Seq<char>)) -> Seq<FileEntry> {
    es.filter(|e: FileEntry| group_key(e) == k && e.audio)
}

/// How often `x` occurs in `s`.
pub open spec fn occurrences(s: Seq<Seq<char>>, x: Seq<char>) -> nat {
    s.filter(|y: Seq<char>| y == x).len()
}

/// The extensions of a group's files.
pub open spec fn member_exts(m: Seq<FileEntry>) -> Seq<Seq<char>> {
    m.map_values(|e: FileEntry| e.ext@)
}

/// `f` is one of the most frequent items of `s`.
pub open spec fn most_frequent(f: Seq<char>, s: Seq<Seq<char>>) -> bool {
    &&& s.contains(f)
    &&& forall|i: int| 0 <= i < s.len() ==> occurrences(s, #[trigger] s[i]) <= occurrences(s, f)
}

/// Sum of the known bitrates of a group's files.
pub open spec fn bitrate_sum(m: Seq<FileEntry>) -> nat
    decreases m.len(),
{
    if m.len() == 0 {
        0
    } else {
        bitrate_sum(m.drop_last()) + match m.last().file.bitrate {
            Some(b) => b as nat,
            None => 0,
        }
    }
}

/// Number of a group's files with a known bitrate.
pub open spec fn bitrate_count(m: Seq<FileEntry>) -> nat {
    m.filter(|e: FileEntry| e.file.bitrate is Some).len()
}

/// The bitrate an album is listed with: the mean of the known bitrates,
/// rounded down, or, when none is known, 1000 for FLAC, 320 for MP3 and
/// 256 for anything else.
pub open spec fn album_bitrate(m: Seq<FileEntry>, format: Seq<char>) -> u32 {
    if bitrate_count(m) == 0 {
        if format == "flac"@ {
            1000
        } else if format == "mp3"@ {
            320
        } else {
            256
        }
    } else {
        (bitrate_sum(m) / bitrate_count(m)) as u32
    }
}

/// The album of a group.
pub open spec fn album_of(g: SoulseekAlbumResult, k: (Seq<char>, Seq<char>), es: Seq<FileEntry>) -> bool {
    let m = group_members(es, k);
    &&& g.source@ == "soulseek"@
    &&& g.username@ == k.0 && g.folder@ == k.1
    &&& g.files@ == m.map_values(|e: FileEntry| e.file)
    &&& g.user_slots_free == m[0].slots_free && g.user_speed == m[0].speed
    &&& g.queue_length == m[0].queue
    &&& most_frequent(g.quality.format@, member_exts(m))
    &&& g.quality.bitrate == album_bitrate(m, g.quality.format@)
    &&& g.score == 0
}

fn clone_file(f: &SoulseekFileResult) -> (r: SoulseekFileResult)
    ensures
        r == *f,
{
    SoulseekFileResult {
        filename: f.filename.clone(),
        size: f.size,
        extension: f.extension.clone(),
        bitrate: f.bitrate,
        duration: f.duration,
    }
}

fn clone_entry(e: &FileEntry) -> (r: FileEntry)
    ensures
        r == *e,
{
    FileEntry {
        username: e.username.clone(),
        folder: e.folder.clone(),
        ext: e.ext.clone(),
        audio: e.audio,
        file: clone_file(&e.file),
        slots_free: e.slots_free,
        speed: e.speed,
        queue: e.queue,
    }
}

/// The views of a list of key pairs.
pub open spec fn key_views(ks: Seq<(Vec<char>, Vec<char>)>) -> Seq<(Seq<char>, Seq<char>)> {
    ks.map_values(|k: (Vec<char>, Vec<char>)| (k.0@, k.1@))
}

/// Whether the key `(u, f)` is in `ks`.
fn has_key(ks: &Vec<(Vec<char>, Vec<char>)>, u: &[char], f: &[char]) -> (r: bool)
    ensures
        r == key_views(ks@).contains((u@, f@)),
{
    let mut i: usize = 0;
    while i < ks.len()
        invariant
            i <= ks@.len(),
            forall|j: int| 0 <= j < i ==> key_views(ks@)[j] != (u@, f@),
        decreases ks@.len() - i,
    {
        if chars_eq(ks[i].0.as_slice(), u) && chars_eq(ks[i].1.as_slice(), f) {
            assert(key_views(ks@)[i as int] == (u@, f@));
            return true;
        }
        i = i + 1;
    }
    proof {
        if key_views(ks@).contains((u@, f@)) {
            let j = choose|j: int| 0 <= j < key_views(ks@).len() && key_views(ks@)[j] == (u@, f@);
            assert(key_views(ks@)[j] != (u@, f@));
        }
    }
    false
}

/// The group keys of the entries, in order of first appearance.
fn collect_keys(es: &Vec<FileEntry>) -> (r: Vec<(Vec<char>, Vec<char>)>)
    ensures
        key_views(r@) == first_keys(es@),
{
    let mut ks: Vec<(Vec<char>, Vec<char>)> = Vec::new();
    let mut i: usize = 0;
    while i < es.len()
        invariant
            i <= es@.len(),
            key_views(ks@) == first_keys(es@.take(i as int)),
        decreases es@.len() - i,
    {
        let u = chars_of(es[i].username.as_str());
        let f = chars_of(es[i].folder.as_str());
        assert(es@.take(i + 1).drop_last() =~= es@.take(i as int));
        assert(es@.take(i + 1).last() == es@[i as int]);
        if !has_key(&ks, u.as_slice(), f.as_slice()) {
            let ghost before = key_views(ks@);
            ks.push((u, f));
            assert(key_views(ks@) =~= before.push((es@[i as int].username@, es@[i as int].folder@)));
        }
        i = i + 1;
    }
    assert(es@.take(i as int) =~= es@);
    ks
}

/// The audio files of the group `(u, f)`, in order.
fn collect_members(es: &Vec<FileEntry>, u: &[char], f: &[char]) -> (r: Vec<FileEntry>)
    ensures
        r@ == group_members(es@, (u@, f@)),
{
    let ghost pred = |e: FileEntry| group_key(e) == (u@, f@) && e.audio;
    let mut m: Vec<FileEntry> = Vec::new();
    let mut i: usize = 0;
    while i < es.len()
        invariant
            pred == (|e: FileEntry| group_key(e) == (u@, f@) && e.audio),
            i <= es@.len(),
            m@ == es@.take(i as int).filter(pred),
        decreases es@.len() - i,
    {
        let e = &es[i];
        assert(es@.take(i + 1) =~= es@.take(i as int).push(*e));
        proof {
            es@.take(i as int).lemma_filter_push(*e, pred);
        }
        let same = chars_eq(chars_of(e.username.as_str()).as_slice(), u) && chars_eq(
            chars_of(e.folder.as_str()).as_slice(),
            f,
        );
        if same && e.audio {
            m.push(clone_entry(e));
        }
        i = i + 1;
    }
    assert(es@.take(i as int) =~= es@);
    m
}

/// How often `x` is the extension of a member.
fn count_ext(m: &Vec<FileEntry>, x: &[char]) -> (r: usize)
    ensures
        r == occurrences(member_exts(m@), x@),
{
    let ghost exts = member_exts(m@);
    let ghost pred = |y: Seq<char>| y == x@;
    let mut c: usize = 0;
    let mut i: usize = 0;
    while i < m.len()
        invariant
            exts == member_exts(m@),
            pred == (|y: Seq<char>| y == x@),
            i <= m@.len(),
            c == exts.take(i as int).filter(pred).len(),
            c <= i,
        decreases m@.len() - i,
    {
        assert(exts.take(i + 1) =~= exts.take(i as int).push(m@[i as int].ext@));
        proof {
            exts.take(i as int).lemma_filter_push(m@[i as int].ext@, pred);
        }
        if chars_eq(chars_of(m[i].ext.as_str()).as_slice(), x) {
            c = c + 1;
        }
        i = i + 1;
    }
    assert(exts.take(i as int) =~= exts);
    c
}

/// A most frequent extension of a non-empty group (the first one found).
fn top_format(m: &Vec<FileEntry>) -> (r: String)
    requires
        m@.len() > 0,
    ensures
        most_frequent(r@, member_exts(m@)),
{
    let ghost exts = member_exts(m@);
    let mut best: usize = 0;
    let mut best_count = count_ext(m, chars_of(m[0].ext.as_str()).as_slice());
    let mut i: usize = 1;
    while i < m.len()
        invariant
            exts == member_exts(m@),
            1 <= i <= m@.len(),
            best < m@.len(),
            best_count == occurrences(exts, exts[best as int]),
            forall|j: int| 0 <= j < i ==> occurrences(exts, #[trigger] exts[j]) <= best_count,
        decreases m@.len() - i,
    {
        let c = count_ext(m, chars_of(m[i].ext.as_str()).as_slice());
        if c > best_count {
            best = i;
            best_count = c;
        }
        i = i + 1;
    }
    assert(exts[best as int] == m@[best as int].ext@);
    m[best].ext.clone()
}

/// Sum and number of the known bitrates of a group.
fn bitrate_totals(m: &Vec<FileEntry>) -> (r: (u128, u64))
    ensures
        r.0 == bitrate_sum(m@),
        r.1 == bitrate_count(m@),
{
    let ghost known = |e: FileEntry| e.file.bitrate is Some;
    let mut sum: u128 = 0;
    let mut n: u64 = 0;
    let mut i: usize = 0;
    while i < m.len()
        invariant
            known == (|e: FileEntry| e.file.bitrate is Some),
            i <= m@.len(),
            sum == bitrate_sum(m@.take(i as int)),
            sum <= i * 4294967295,
            n == m@.take(i as int).filter(known).len(),
            n <= i,
        decreases m@.len() - i,
    {
        assert(m@.take(i + 1).drop_last() =~= m@.take(i as int));
        assert(m@.take(i + 1) =~= m@.take(i as int).push(m@[i as int]));
        proof {
            m@.take(i as int).lemma_filter_push(m@[i as int], known);
        }
        match m[i].file.bitrate {
            Some(b) => {
                sum = sum + b as u128;
                n = n + 1;
            },
            None => {},
        }
        i = i + 1;
    }
    assert(m@.take(i as int) =~= m@);
    (sum, n)
}

/// Builds the album of a non-empty group.
fn build_album(u: &[char], f: &[char], m: &Vec<FileEntry>, Ghost(es): Ghost<Seq<FileEntry>>) -> (g:
    SoulseekAlbumResult)
    requires
        m@ == group_members(es, (u@, f@)),
        m@.len() > 0,
    ensures
        album_of(g, (u@, f@), es),
{
    let format = top_format(m);
    let (sum, n) = bitrate_totals(m);
    let bitrate: u32 = if n == 0 {
        let c = chars_of(format.as_str());
        if chars_eq_str(c.as_slice(), "flac") {
            1000
        } else if chars_eq_str(c.as_slice(), "mp3") {
            320
        } else {
            256
        }
    } else {
        proof {
            lemma_sum_bound(m@);
            vstd::arithmetic::div_mod::lemma_div_is_ordered(sum as int, n as int * 4294967295, n as int);
            vstd::arithmetic::div_mod::lemma_div_multiples_vanish(4294967295, n as int);
        }
        (sum / (n as u128)) as u32
    };
    let mut files: Vec<SoulseekFileResult> = Vec::new();
    let mut i: usize = 0;
    while i < m.len()
        invariant
            i <= m@.len(),
            files@ == m@.take(i as int).map_values(|e: FileEntry| e.file),
        decreases m@.len() - i,
    {
        files.push(clone_file(&m[i].file));
        assert(m@.take(i + 1).map_values(|e: FileEntry| e.file) =~= m@.take(i as int).map_values(
            |e: FileEntry| e.file,
        ).push(m@[i as int].file));
        i = i + 1;
    }
    assert(m@.take(i as int) =~= m@);
    SoulseekAlbumResult {
        source: "soulseek".to_owned(),
        username: string_of(u),
        folder: string_of(f),
        files,
        quality: SoulseekQuality { format, bitrate },
        user_slots_free: m[0].slots_free,
        user_speed: m[0].speed,
        queue_length: m[0].queue,
        score: 0,
    }
}

/// The known bitrates sum to at most their number times the largest one.
proof fn lemma_sum_bound(m: Seq<FileEntry>)
    ensures
        bitrate_sum(m) <= bitrate_count(m) * 4294967295,
    decreases m.len(),
{
    if m.len() > 0 {
        lemma_sum_bound(m.drop_last());
        let known = |e: FileEntry| e.file.bitrate is Some;
        assert(m =~= m.drop_last().push(m.last()));
        m.drop_last().lemma_filter_push(m.last(), known);
    }
}

/// Groups the files of Soulseek search results into albums: one album per
/// peer and folder that holds audio files, in order of the first file of
/// each peer and folder, with only its audio files; the peer's details are
/// those of the album's first audio file, the format a most frequent
/// extension and the bitrate the mean of the known ones. Scores are left
/// at 0.
pub fn group_soulseek_results(results: &[SearchResult]) -> (r: Vec<SoulseekAlbumResult>)
    ensures
        exists|es: Seq<FileEntry>|
            #![trigger entries_for(es, results@)]
            entries_for(es, results@) && {
                let ks = first_keys(es).filter(
                    |k: (Seq<char>, Seq<char>)| group_members(es, k).len() > 0,
                );
                &&& r@.len() == ks.len()
                &&& forall|i: int| 0 <= i < r@.len() ==> album_of(#[trigger] r@[i], ks[i], es)
            },
{
    let es = file_entries(results);
    let keys = collect_keys(&es);
    let ghost kv = key_views(keys@);
    let ghost has = |k: (Seq<char>, Seq<char>)| group_members(es@, k).len() > 0;
    let mut out: Vec<SoulseekAlbumResult> = Vec::new();
    let mut i: usize = 0;
    while i < keys.len()
        invariant
            kv == key_views(keys@),
            kv == first_keys(es@),
            has == (|k: (Seq<char>, Seq<char>)| group_members(es@, k).len() > 0),
            i <= keys@.len(),
            out@.len() == kv.take(i as int).filter(has).len(),
            forall|j: int|
                0 <= j < out@.len() ==> album_of(#[trigger] out@[j], kv.take(i as int).filter(has)[j], es@),
        decreases keys@.len() - i,
    {
        let u = &keys[i].0;
        let f = &keys[i].1;
        assert(kv[i as int] == (u@, f@));
        assert(kv.take(i + 1) =~= kv.take(i as int).push(kv[i as int]));
        proof {
            kv.take(i as int).lemma_filter_push(kv[i as int], has);
        }
        let m = collect_members(&es, u.as_slice(), f.as_slice());
        if m.len() > 0 {
            let g = build_album(u.as_slice(), f.as_slice(), &m, Ghost(es@));
            out.push(g);
        }
        i = i + 1;
    }
    assert(kv.take(i as int) =~= kv);
    assert(entries_for(es@, results@));
    out
}

/// Albums hold audio files only, all from the album's folder, and none is
/// empty: for the entries of a set of search results, an album built from
/// a peer and folder that holds audio files has at least one file, and each
/// of its files has an audio extension and lies in the album's folder.
pub proof fn lemma_albums_are_audio_of_their_folder(
    results: Seq<SearchResult>,
    es: Seq<FileEntry>,
    k: (Seq<char>, Seq<char>),
    g: SoulseekAlbumResult,
)
    requires
        entries_for(es, results),
        group_members(es, k).len() > 0,
        album_of(g, k, es),
    ensures
        g.files@.len() > 0,
        forall|j: int|
            0 <= j < g.files@.len() ==> audio_extension(lowercase((#[trigger] g.files@[j]).extension@))
                && folder_of(g.files@[j].filename@) == g.folder@,
{
    let m = group_members(es, k);
    let pred = |e: FileEntry| group_key(e) == k && e.audio;
    assert forall|j: int| 0 <= j < g.files@.len() implies audio_extension(
        lowercase((#[trigger] g.files@[j]).extension@),
    ) && folder_of(g.files@[j].filename@) == g.folder@ by {
        let e = m[j];
        assert(m.contains(e));
        crate::text::lemma_filter_subset(es, pred, e);
        let idx = choose|idx: int| 0 <= idx < es.len() && es[idx] == e;
        let pf = crate::api::soulseek::peer_files(results)[idx];
        assert(entry_for(es[idx], pf.0, pf.1));
        assert(g.files@[j] == e.file);
    }
}

// ---------------------------------------------------------------------------
// Scoring Soulseek albums
// ---------------------------------------------------------------------------

/// A preferred format matches an album's format when, lowercased, it is the
/// format or starts with it.
pub open spec fn format_matches(format_lower: Seq<char>, pref: Seq<char>) -> bool {
    lowercase(pref) == format_lower || starts_with_seq(lowercase(pref), format_lower)
}

/// The bonus for the place of the album's format in the preference list:
/// 100 for the first preference, 20 less for each later place, at least
/// 20; nothing when no preference matches.
pub open spec fn format_bonus(format_lower: Seq<char>, prefs: Seq<Seq<char>>) -> nat
    decreases prefs.len(),
{
    format_bonus_from(format_lower, prefs, 0)
}

/// The format bonus counting places from `i`.
pub open spec fn format_bonus_from(format_lower: Seq<char>, prefs: Seq<Seq<char>>, i: nat) -> nat
    decreases prefs.len() - i,
{
    if i >= prefs.len() {
        0
    } else if format_matches(format_lower, prefs[i as int]) {
        if i >= 4 {
            20
        } else {
            (100 - 20 * i) as nat
        }
    } else {
        format_bonus_from(format_lower, prefs, i + 1)
    }
}

/// A bonus one place further down the preferences: 20 less, no less
/// than 20, and 0 staying 0.
pub open spec fn one_place_down(bonus: nat) -> nat {
    if bonus <= 20 {
        bonus
    } else {
        (bonus - 20) as nat
    }
}

/// Counting from place `i + 1` in the preferences with `q` put in front
/// gives the bonus counted from place `i` one place down.
proof fn lemma_format_bonus_relate(f: Seq<char>, q: Seq<char>, prefs: Seq<Seq<char>>, i: nat)
    ensures
        format_bonus_from(f, seq![q] + prefs, i + 1) == one_place_down(
            format_bonus_from(f, prefs, i),
        ),
    decreases prefs.len() - i,
{
    let l = seq![q] + prefs;
    if i < prefs.len() {
        assert(l[i + 1 as int] == prefs[i as int]);
        if !format_matches(f, prefs[i as int]) {
            lemma_format_bonus_relate(f, q, prefs, i + 1);
        }
    }
}

/// A preferred format's place sets its bonus: a format that the first
/// preference matches gets 100, and putting in front one more preference
/// that does not match it moves it one place down: 20 less, to no less
/// than 20, or 0 when no preference matches it.
pub proof fn lemma_earlier_preference_scores_higher(f: Seq<char>, q: Seq<char>, prefs: Seq<Seq<char>>)
    ensures
        prefs.len() > 0 && format_matches(f, prefs[0]) ==> format_bonus(f, prefs) == 100,
        !format_matches(f, q) ==> format_bonus(f, seq![q] + prefs) == one_place_down(
            format_bonus(f, prefs),
        ),
{
    let l = seq![q] + prefs;
    assert(l[0] == q);
    lemma_format_bonus_relate(f, q, prefs, 0);
}

/// Lossless formats: FLAC, WAV, APE and ALAC.
pub open spec fn lossless_format(format_lower: Seq<char>) -> bool {
    format_lower == "flac"@ || format_lower == "wav"@ || format_lower == "ape"@ || format_lower
        == "alac"@
}

/// The part of an album's score that whole numbers give: the format's
/// place among the preferences, 50 for a lossless format, 25 for reaching
/// the minimum bitrate and 20 when the peer has a free slot.
pub open spec fn base_score_of(
    format: Seq<char>,
    bitrate: u32,
    slots_free: bool,
    prefs: Seq<Seq<char>>,
    min_bitrate: u32,
) -> nat {
    let f = lowercase(format);
    format_bonus(f, prefs) + (if lossless_format(f) { 50nat } else { 0nat }) + (if bitrate
        >= min_bitrate {
        25nat
    } else {
        0nat
    }) + (if slots_free { 20nat } else { 0nat })
}

/// Whether a lowercased format name is one of the lossless formats FLAC,
/// WAV, APE and ALAC.
pub open spec fn is_lossless_name(format_lower: Seq<char>) -> bool {
    format_lower == "flac"@ || format_lower == "wav"@ || format_lower == "ape"@ || format_lower
        == "alac"@
}

/// A lossless format earns 50 points over a lossy one: of two formats
/// that stand at the same place among the preferences, with the same
/// bitrate and free slot, the one whose name is FLAC, WAV, APE or ALAC (in
/// any case) scores exactly 50 more than one whose name is none of these.
pub proof fn lemma_lossless_earns_fifty(
    lossless: Seq<char>,
    lossy: Seq<char>,
    bitrate: u32,
    slots_free: bool,
    prefs: Seq<Seq<char>>,
    min_bitrate: u32,
)
    requires
        is_lossless_name(lowercase(lossless)),
        !is_lossless_name(lowercase(lossy)),
        format_bonus(lowercase(lossless), prefs) == format_bonus(lowercase(lossy), prefs),
    ensures
        base_score_of(lossless, bitrate, slots_free, prefs, min_bitrate) == base_score_of(
            lossy,
            bitrate,
            slots_free,
            prefs,
            min_bitrate,
        ) + 50,
{
    reveal_strlit("flac");
    assert("flac"@ =~= seq!['f', 'l', 'a', 'c']);
    reveal_strlit("wav");
    assert("wav"@ =~= seq!['w', 'a', 'v']);
    reveal_strlit("ape");
    assert("ape"@ =~= seq!['a', 'p', 'e']);
    reveal_strlit("alac");
    assert("alac"@ =~= seq!['a', 'l', 'a', 'c']);
}

/// A format whose name is FLAC, WAV, APE or ALAC (in any case) scores at
/// least 50, whatever its place among the preferences, its bitrate and the
/// peer's slots.
pub proof fn lemma_lossless_scores_fifty(
    format: Seq<char>,
    bitrate: u32,
    slots_free: bool,
    prefs: Seq<Seq<char>>,
    min_bitrate: u32,
)
    requires
        is_lossless_name(lowercase(format)),
    ensures
        base_score_of(format, bitrate, slots_free, prefs, min_bitrate) >= 50,
{
    reveal_strlit("flac");
    reveal_strlit("wav");
    reveal_strlit("ape");
    reveal_strlit("alac");
}

/// The views of a list of strings.
pub open spec fn string_views(v: Seq<String>) -> Seq<Seq<char>> {
    v.map_values(|s: String| s@)
}

/// The whole-number part of a Soulseek album's quality score (see
/// [`base_score_of`]); the bonuses for a higher bitrate, a complete album
/// and a fast peer are fractions and are added by the caller.
pub fn base_score(format: &str, bitrate: u32, slots_free: bool, prefs: &MusicQualityConfig) -> (r: u32)
    ensures
        r == base_score_of(
            format@,
            bitrate,
            slots_free,
            string_views(prefs.preferred_formats@),
            prefs.min_bitrate,
        ),
{
    let ghost pv = string_views(prefs.preferred_formats@);
    let format_lower = to_lowercase(format);
    let fl = chars_of(format_lower.as_str());
    let mut score: u32 = 0;
    let mut i: usize = 0;
    let n = prefs.preferred_formats.len();
    while i < n
        invariant_except_break
            n == prefs.preferred_formats@.len(),
            pv == string_views(prefs.preferred_formats@),
            fl@ == lowercase(format@),
            i <= n,
            score == 0,
            format_bonus(fl@, pv) == format_bonus_from(fl@, pv, i as nat),
        ensures
            score == format_bonus(fl@, pv),
            score <= 100,
        decreases n - i,
    {
        let p = to_lowercase(prefs.preferred_formats[i].as_str());
        let pl = chars_of(p.as_str());
        assert(pv[i as int] == prefs.preferred_formats@[i as int]@);
        let hit = chars_eq(fl.as_slice(), pl.as_slice()) || matches_at(pl.as_slice(), fl.as_slice(), 0);
        proof {
            if fl@.len() <= pl@.len() {
                assert(pl@.subrange(0, fl@.len() as int) =~= pl@.take(fl@.len() as int));
            }
        }
        if hit {
            score = if i >= 4 { 20 } else { 100 - 20 * (i as u32) };
            break;
        }
        i += 1;
    }
    let fv = fl.as_slice();
    if chars_eq_str(fv, "flac") || chars_eq_str(fv, "wav") || chars_eq_str(fv, "ape") || chars_eq_str(fv, "alac") {
        score = score + 50;
    }
    if bitrate >= prefs.min_bitrate {
        score = score + 25;
    }
    if slots_free {
        score = score + 20;
    }
    score
}

/// The albums of `s` with score `k`, in order.
pub open spec fn albums_scored(s: Seq<SoulseekAlbumResult>, k: u32) -> Seq<SoulseekAlbumResult> {
    s.filter(|x: SoulseekAlbumResult| x.score == k)
}

/// Album results ordered by descending score; albums of equal score keep
/// their order.
pub open spec fn albums_by_score(out: Seq<SoulseekAlbumResult>, v: Seq<SoulseekAlbumResult>) -> bool {
    &&& forall|a: int, b: int| 0 <= a < b < out.len() ==> #[trigger] out[a].score >= #[trigger] out[b].score
    &&& forall|k: u32| #[trigger] albums_scored(v, k) == albums_scored(out, k)
}

/// An album result with its score set.
pub open spec fn with_score(a: SoulseekAlbumResult, score: u32) -> SoulseekAlbumResult {
    SoulseekAlbumResult { score: score, ..a }
}

/// An album's score: the whole-number part from its format, bitrate and
/// free slot ([`base_score_of`]) plus the fractional bonuses worked out
/// elsewhere, capped at `u32::MAX`.
pub open spec fn album_score(a: SoulseekAlbumResult, bonus: u32, prefs: MusicQualityConfig) -> u32 {
    let s = base_score_of(
        a.quality.format@,
        a.quality.bitrate,
        a.user_slots_free,
        string_views(prefs.preferred_formats@),
        prefs.min_bitrate,
    ) + bonus;
    if s > u32::MAX {
        u32::MAX
    } else {
        s as u32
    }
}

/// The albums with their scores, the `i`-th taking the `i`-th bonus (none
/// past the bonuses' end).
pub open spec fn scored_albums(
    v: Seq<SoulseekAlbumResult>,
    bonuses: Seq<u32>,
    prefs: MusicQualityConfig,
) -> Seq<SoulseekAlbumResult> {
    Seq::new(
        v.len(),
        |i: int|
            with_score(
                v[i],
                album_score(v[i], if i < bonuses.len() { bonuses[i] } else { 0 }, prefs),
            ),
    )
}

/// Scores grouped Soulseek albums and orders them best first: each album's
/// score is its whole-number part plus its bonus (the `i`-th bonus for the
/// `i`-th album: the fractions for a higher bitrate, a complete album and a
/// fast peer), albums of equal score in the order given.
pub fn rank_albums(
    albums: Vec<SoulseekAlbumResult>,
    bonuses: &[u32],
    prefs: &MusicQualityConfig,
) -> (r: Vec<SoulseekAlbumResult>)
    ensures
        r@.len() == albums@.len(),
        albums_by_score(r@, scored_albums(albums@, bonuses@, *prefs)),
{
    let ghost all = albums@;
    let ghost want = scored_albums(albums@, bonuses@, *prefs);
    let mut rest = albums;
    let mut out: Vec<SoulseekAlbumResult> = Vec::new();
    let mut i: usize = 0;
    let n = rest.len();
    assert(all.skip(0) =~= all);
    while rest.len() > 0
        invariant
            n == all.len(),
            want == scored_albums(all, bonuses@, *prefs),
            rest@.len() + i == n,
            rest@ == all.skip(i as int),
            out@.len() == i,
            forall|q: int| 0 <= q < i ==> #[trigger] out@[q] == want[q],
        decreases rest.len(),
    {
        let mut a = rest.remove(0);
        assert(a == all[i as int]);
        assert(rest@ =~= all.skip(i + 1));
        let bonus: u32 = if i < bonuses.len() { bonuses[i] } else { 0 };
        let base = base_score(a.quality.format.as_str(), a.quality.bitrate, a.user_slots_free, prefs);
        a.score = base.saturating_add(bonus);
        out.push(a);
        i = i + 1;
    }
    assert(out@ =~= want);
    sort_albums_by_score(out)
}

proof fn lemma_insert_album(
    a: Seq<SoulseekAlbumResult>,
    x: SoulseekAlbumResult,
    b: Seq<SoulseekAlbumResult>,
    k: u32,
)
    requires
        forall|q: int| 0 <= q < b.len() ==> (#[trigger] b[q]).score < x.score,
    ensures
        albums_scored(a.push(x) + b, k) == if k == x.score {
            albums_scored(a + b, k).push(x)
        } else {
            albums_scored(a + b, k)
        },
{
    let pred = |x: SoulseekAlbumResult| x.score == k;
    Seq::filter_distributes_over_add(a.push(x), b, pred);
    Seq::filter_distributes_over_add(a, b, pred);
    a.lemma_filter_push(x, pred);
    if k == x.score {
        assert(b.all(|y: SoulseekAlbumResult| !pred(y))) by {
            assert forall|q: int| 0 <= q < b.len() implies !pred(#[trigger] b[q]) by {}
        }
        b.lemma_all_neg_filter_empty(pred);
        assert(b.filter(pred) =~= Seq::<SoulseekAlbumResult>::empty());
        assert(a.filter(pred).push(x) + b.filter(pred) =~= (a.filter(pred) + b.filter(pred)).push(
            x,
        ));
    }
}

/// Orders album results by descending score, albums of equal score in the
/// order given.
pub fn sort_albums_by_score(v: Vec<SoulseekAlbumResult>) -> (r: Vec<SoulseekAlbumResult>)
    ensures
        albums_by_score(r@, v@),
        r@.len() == v@.len(),
{
    let ghost all = v@;
    let mut rest = v;
    let mut out: Vec<SoulseekAlbumResult> = Vec::new();
    let mut i: usize = 0;
    let n = rest.len();
    assert(all.take(0) =~= Seq::<SoulseekAlbumResult>::empty());
    assert(all.skip(0) =~= all);
    while rest.len() > 0
        invariant
            n == all.len(),
            rest@.len() + i == n,
            rest@ == all.skip(i as int),
            out@.len() == i,
            forall|a: int, b: int|
                0 <= a < b < out@.len() ==> #[trigger] out@[a].score >= #[trigger] out@[b].score,
            forall|k: u32| #[trigger] albums_scored(all.take(i as int), k) == albums_scored(out@, k),
        decreases rest.len(),
    {
        let x = rest.remove(0);
        assert(x == all[i as int]);
        assert(rest@ =~= all.skip(i + 1));
        let sx = x.score;
        let mut p: usize = 0;
        while p < out.len()
            invariant
                p <= out.len(),
                forall|q: int| 0 <= q < p ==> (#[trigger] out@[q]).score >= sx,
            ensures
                p == out.len() || out@[p as int].score < sx,
            decreases out.len() - p,
        {
            if out[p].score < sx {
                break;
            }
            p += 1;
        }
        let ghost old_out = out@;
        let ghost a = old_out.subrange(0, p as int);
        let ghost b = old_out.subrange(p as int, old_out.len() as int);
        proof {
            assert forall|q: int| 0 <= q < b.len() implies (#[trigger] b[q]).score < sx by {
                assert(b[q] == old_out[p + q]);
                if q > 0 {
                    assert(old_out[p as int].score >= old_out[p + q].score);
                }
            }
            assert(old_out =~= a + b);
        }
        out.insert(p, x);
        proof {
            assert(out@ =~= a.push(x) + b);
            assert(all.take(i + 1) =~= all.take(i as int).push(x));
            assert forall|k: u32| #[trigger] albums_scored(all.take(i + 1), k) == albums_scored(
                out@,
                k,
            ) by {
                assert(albums_scored(all.take(i as int), k) == albums_scored(old_out, k));
                lemma_insert_album(a, x, b, k);
                all.take(i as int).lemma_filter_push(x, |x: SoulseekAlbumResult| x.score == k);
            }
            assert forall|c: int, d: int| 0 <= c < d < out@.len() implies #[trigger] out@[c].score
                >= #[trigger] out@[d].score by {
                if c < p && d < p {
                    assert(out@[c] == old_out[c] && out@[d] == old_out[d]);
                } else if c < p && d == p {
                    assert(out@[c] == old_out[c]);
                } else if c < p {
                    assert(out@[c] == old_out[c] && out@[d] == old_out[d - 1]);
                } else if c == p {
                    assert(out@[d] == old_out[d - 1]);
                    assert(b[d - 1 - p] == old_out[d - 1]);
                } else {
                    assert(out@[c] == old_out[c - 1] && out@[d] == old_out[d - 1]);
                }
            }
        }
        i += 1;
    }
    assert(all.take(n as int) =~= all);
    out
}

} // verus!
