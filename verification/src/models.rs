//! Database model types.

use vstd::prelude::*;

verus! {

/// Role of a user account.
#[derive(Clone, Copy, Debug, PartialEq, Eq, Structural)]
pub enum UserRole {
    Admin,
    User,
}

impl UserRole {
    /// The lowercase name used in the database and the API.
    pub open spec fn name_spec(self) -> Seq<char> {
        match self {
            UserRole::Admin => "admin"@,
            UserRole::User => "user"@,
        }
    }

    /// The lowercase name used in the database and the API (its `Display`).
    pub fn as_str(&self) -> (r: &'static str)
        ensures
            r@ == self.name_spec(),
    {
        match self {
            UserRole::Admin => "admin",
            UserRole::User => "user",
        }
    }

    /// Parses the lowercase name; `None` for any other text.
    pub fn parse(s: &str) -> (r: Option<UserRole>)
        ensures
            r matches Some(v) ==> v.name_spec() == s@,
            r is None ==> forall|v: UserRole| v.name_spec() != s@,
    {
        let v = crate::text::chars_of(s);
        if crate::text::chars_eq_str(v.as_slice(), "admin") {
            return Some(UserRole::Admin);
        }
        if crate::text::chars_eq_str(v.as_slice(), "user") {
            return Some(UserRole::User);
        }
        proof {
            reveal_strlit("admin");
            reveal_strlit("user");
            assert forall|x: UserRole| x.name_spec() != s@ by {
                match x {
                    UserRole::Admin => {},
                    UserRole::User => {},
                }
            }
        }
        None
    }
}

/// Availability of a movie, episode or track.
#[derive(Clone, Copy, Debug, PartialEq, Eq, Structural)]
pub enum MediaStatus {
    Missing,
    Searching,
    Downloading,
    Processing,
    Available,
}

impl MediaStatus {
    /// The lowercase name used in the database and the API.
    pub open spec fn name_spec(self) -> Seq<char> {
        match self {
            MediaStatus::Missing => "missing"@,
            MediaStatus::Searching => "searching"@,
            MediaStatus::Downloading => "downloading"@,
            MediaStatus::Processing => "processing"@,
            MediaStatus::Available => "available"@,
        }
    }

    /// The lowercase name used in the database and the API (its `Display`).
    pub fn as_str(&self) -> (r: &'static str)
        ensures
            r@ == self.name_spec(),
    {
        match self {
            MediaStatus::Missing => "missing",
            MediaStatus::Searching => "searching",
            MediaStatus::Downloading => "downloading",
            MediaStatus::Processing => "processing",
            MediaStatus::Available => "available",
        }
    }

    /// Parses the lowercase name; `None` for any other text.
    pub fn parse(s: &str) -> (r: Option<MediaStatus>)
        ensures
            r matches Some(v) ==> v.name_spec() == s@,
            r is None ==> forall|v: MediaStatus| v.name_spec() != s@,
    {
        let v = crate::text::chars_of(s);
        if crate::text::chars_eq_str(v.as_slice(), "missing") {
            return Some(MediaStatus::Missing);
        }
        if crate::text::chars_eq_str(v.as_slice(), "searching") {
            return Some(MediaStatus::Searching);
        }
        if crate::text::chars_eq_str(v.as_slice(), "downloading") {
            return Some(MediaStatus::Downloading);
        }
        if crate::text::chars_eq_str(v.as_slice(), "processing") {
            return Some(MediaStatus::Processing);
        }
        if crate::text::chars_eq_str(v.as_slice(), "available") {
            return Some(MediaStatus::Available);
        }
        proof {
            reveal_strlit("missing");
            reveal_strlit("searching");
            reveal_strlit("downloading");
            reveal_strlit("processing");
            reveal_strlit("available");
            assert forall|x: MediaStatus| x.name_spec() != s@ by {
                match x {
                    MediaStatus::Missing => {},
                    MediaStatus::Searching => {},
                    MediaStatus::Downloading => {},
                    MediaStatus::Processing => {},
                    MediaStatus::Available => {},
                }
            }
        }
        None
    }
}

/// Availability of an album.
#[derive(Clone, Copy, Debug, PartialEq, Eq, Structural)]
pub enum AlbumStatus {
    Missing,
    Searching,
    Downloading,
    Processing,
    Partial,
    Available,
}

impl AlbumStatus {
    /// The lowercase name used in the database and the API.
    pub open spec fn name_spec(self) -> Seq<char> {
        match self {
            AlbumStatus::Missing => "missing"@,
            AlbumStatus::Searching => "searching"@,
            AlbumStatus::Downloading => "downloading"@,
            AlbumStatus::Processing => "processing"@,
            AlbumStatus::Partial => "partial"@,
            AlbumStatus::Available => "available"@,
        }
    }

    /// The lowercase name used in the database and the API (its `Display`).
    pub fn as_str(&self) -> (r: &'static str)
        ensures
            r@ == self.name_spec(),
    {
        match self {
            AlbumStatus::Missing => "missing",
            AlbumStatus::Searching => "searching",
            AlbumStatus::Downloading => "downloading",
            AlbumStatus::Processing => "processing",
            AlbumStatus::Partial => "partial",
            AlbumStatus::Available => "available",
        }
    }

    /// Parses the lowercase name; `None` for any other text.
    pub fn parse(s: &str) -> (r: Option<AlbumStatus>)
        ensures
            r matches Some(v) ==> v.name_spec() == s@,
            r is None ==> forall|v: AlbumStatus| v.name_spec() != s@,
    {
        let v = crate::text::chars_of(s);
        if crate::text::chars_eq_str(v.as_slice(), "missing") {
            return Some(AlbumStatus::Missing);
        }
        if crate::text::chars_eq_str(v.as_slice(), "searching") {
            return Some(AlbumStatus::Searching);
        }
        if crate::text::chars_eq_str(v.as_slice(), "downloading") {
            return Some(AlbumStatus::Downloading);
        }
        if crate::text::chars_eq_str(v.as_slice(), "processing") {
            return Some(AlbumStatus::Processing);
        }
        if crate::text::chars_eq_str(v.as_slice(), "partial") {
            return Some(AlbumStatus::Partial);
        }
        if crate::text::chars_eq_str(v.as_slice(), "available") {
            return Some(AlbumStatus::Available);
        }
        proof {
            reveal_strlit("missing");
            reveal_strlit("searching");
            reveal_strlit("downloading");
            reveal_strlit("processing");
            reveal_strlit("partial");
            reveal_strlit("available");
            assert forall|x: AlbumStatus| x.name_spec() != s@ by {
                match x {
                    AlbumStatus::Missing => {},
                    AlbumStatus::Searching => {},
                    AlbumStatus::Downloading => {},
                    AlbumStatus::Processing => {},
                    AlbumStatus::Partial => {},
                    AlbumStatus::Available => {},
                }
            }
        }
        None
    }
}

/// Airing status of a TV show.
#[derive(Clone, Copy, Debug, PartialEq, Eq, Structural)]
pub enum ShowStatus {
    Continuing,
    Ended,
    Canceled,
    Upcoming,
}

impl ShowStatus {
    /// The lowercase name used in the database and the API.
    pub open spec fn name_spec(self) -> Seq<char> {
        match self {
            ShowStatus::Continuing => "continuing"@,
            ShowStatus::Ended => "ended"@,
            ShowStatus::Canceled => "canceled"@,
            ShowStatus::Upcoming => "upcoming"@,
        }
    }

    /// The lowercase name used in the database and the API (its `Display`).
    pub fn as_str(&self) -> (r: &'static str)
        ensures
            r@ == self.name_spec(),
    {
        match self {
            ShowStatus::Continuing => "continuing",
            ShowStatus::Ended => "ended",
            ShowStatus::Canceled => "canceled",
            ShowStatus::Upcoming => "upcoming",
        }
    }

    /// Parses the lowercase name; `None` for any other text.
    pub fn parse(s: &str) -> (r: Option<ShowStatus>)
        ensures
            r matches Some(v) ==> v.name_spec() == s@,
            r is None ==> forall|v: ShowStatus| v.name_spec() != s@,
    {
        let v = crate::text::chars_of(s);
        if crate::text::chars_eq_str(v.as_slice(), "continuing") {
            return Some(ShowStatus::Continuing);
        }
        if crate::text::chars_eq_str(v.as_slice(), "ended") {
            return Some(ShowStatus::Ended);
        }
        if crate::text::chars_eq_str(v.as_slice(), "canceled") {
            return Some(ShowStatus::Canceled);
        }
        if crate::text::chars_eq_str(v.as_slice(), "upcoming") {
            return Some(ShowStatus::Upcoming);
        }
        proof {
            reveal_strlit("continuing");
            reveal_strlit("ended");
            reveal_strlit("canceled");
            reveal_strlit("upcoming");
            assert forall|x: ShowStatus| x.name_spec() != s@ by {
                match x {
                    ShowStatus::Continuing => {},
                    ShowStatus::Ended => {},
                    ShowStatus::Canceled => {},
                    ShowStatus::Upcoming => {},
                }
            }
        }
        None
    }
}

/// State of a torrent download.
#[derive(Clone, Copy, Debug, PartialEq, Eq, Structural)]
pub enum DownloadStatus {
    Queued,
    Downloading,
    Seeding,
    Processing,
    Completed,
    Failed,
    Paused,
}

impl DownloadStatus {
    /// The lowercase name used in the database and the API.
    pub open spec fn name_spec(self) -> Seq<char> {
        match self {
            DownloadStatus::Queued => "queued"@,
            DownloadStatus::Downloading => "downloading"@,
            DownloadStatus::Seeding => "seeding"@,
            DownloadStatus::Processing => "processing"@,
            DownloadStatus::Completed => "completed"@,
            DownloadStatus::Failed => "failed"@,
            DownloadStatus::Paused => "paused"@,
        }
    }

    /// The lowercase name used in the database and the API (its `Display`).
    pub fn as_str(&self) -> (r: &'static str)
        ensures
            r@ == self.name_spec(),
    {
        match self {
            DownloadStatus::Queued => "queued",
            DownloadStatus::Downloading => "downloading",
            DownloadStatus::Seeding => "seeding",
            DownloadStatus::Processing => "processing",
            DownloadStatus::Completed => "completed",
            DownloadStatus::Failed => "failed",
            DownloadStatus::Paused => "paused",
        }
    }

    /// Parses the lowercase name; `None` for any other text.
    pub fn parse(s: &str) -> (r: Option<DownloadStatus>)
        ensures
            r matches Some(v) ==> v.name_spec() == s@,
            r is None ==> forall|v: DownloadStatus| v.name_spec() != s@,
    {
        let v = crate::text::chars_of(s);
        if crate::text::chars_eq_str(v.as_slice(), "queued") {
            return Some(DownloadStatus::Queued);
        }
        if crate::text::chars_eq_str(v.as_slice(), "downloading") {
            return Some(DownloadStatus::Downloading);
        }
        if crate::text::chars_eq_str(v.as_slice(), "seeding") {
            return Some(DownloadStatus::Seeding);
        }
        if crate::text::chars_eq_str(v.as_slice(), "processing") {
            return Some(DownloadStatus::Processing);
        }
        if crate::text::chars_eq_str(v.as_slice(), "completed") {
            return Some(DownloadStatus::Completed);
        }
        if crate::text::chars_eq_str(v.as_slice(), "failed") {
            return Some(DownloadStatus::Failed);
        }
        if crate::text::chars_eq_str(v.as_slice(), "paused") {
            return Some(DownloadStatus::Paused);
        }
        proof {
            reveal_strlit("queued");
            reveal_strlit("downloading");
            reveal_strlit("seeding");
            reveal_strlit("processing");
            reveal_strlit("completed");
            reveal_strlit("failed");
            reveal_strlit("paused");
            assert forall|x: DownloadStatus| x.name_spec() != s@ by {
                match x {
                    DownloadStatus::Queued => {},
                    DownloadStatus::Downloading => {},
                    DownloadStatus::Seeding => {},
                    DownloadStatus::Processing => {},
                    DownloadStatus::Completed => {},
                    DownloadStatus::Failed => {},
                    DownloadStatus::Paused => {},
                }
            }
        }
        None
    }
}

/// Kind of media item.
#[derive(Clone, Copy, Debug, PartialEq, Eq, Structural)]
pub enum MediaType {
    Movie,
    Episode,
    Album,
    Track,
}

impl MediaType {
    /// The lowercase name used in the database and the API.
    pub open spec fn name_spec(self) -> Seq<char> {
        match self {
            MediaType::Movie => "movie"@,
            MediaType::Episode => "episode"@,
            MediaType::Album => "album"@,
            MediaType::Track => "track"@,
        }
    }

    /// The lowercase name used in the database and the API (its `Display`).
    pub fn as_str(&self) -> (r: &'static str)
        ensures
            r@ == self.name_spec(),
    {
        match self {
            MediaType::Movie => "movie",
            MediaType::Episode => "episode",
            MediaType::Album => "album",
            MediaType::Track => "track",
        }
    }

    /// Parses the lowercase name; `None` for any other text.
    pub fn parse(s: &str) -> (r: Option<MediaType>)
        ensures
            r matches Some(v) ==> v.name_spec() == s@,
            r is None ==> forall|v: MediaType| v.name_spec() != s@,
    {
        let v = crate::text::chars_of(s);
        if crate::text::chars_eq_str(v.as_slice(), "movie") {
            return Some(MediaType::Movie);
        }
        if crate::text::chars_eq_str(v.as_slice(), "episode") {
            return Some(MediaType::Episode);
        }
        if crate::text::chars_eq_str(v.as_slice(), "album") {
            return Some(MediaType::Album);
        }
        if crate::text::chars_eq_str(v.as_slice(), "track") {
            return Some(MediaType::Track);
        }
        proof {
            reveal_strlit("movie");
            reveal_strlit("episode");
            reveal_strlit("album");
            reveal_strlit("track");
            assert forall|x: MediaType| x.name_spec() != s@ by {
                match x {
                    MediaType::Movie => {},
                    MediaType::Episode => {},
                    MediaType::Album => {},
                    MediaType::Track => {},
                }
            }
        }
        None
    }
}

/// A user account.
pub struct User {
    pub id: i64,
    pub username: String,
    pub password_hash: String,
    pub role: UserRole,
    pub created_at: String,
    pub updated_at: String,
}

/// A movie in the library.
pub struct Movie {
    pub id: i64,
    pub tmdb_id: i64,
    pub imdb_id: Option<String>,
    pub title: String,
    pub original_title: Option<String>,
    pub year: i32,
    pub overview: Option<String>,
    pub poster_path: Option<String>,
    pub backdrop_path: Option<String>,
    pub runtime_minutes: Option<i32>,
    pub genres: Option<String>,
    pub status: MediaStatus,
    pub monitored: bool,
    pub quality_limit: String,
    pub file_path: Option<String>,
    pub file_size: Option<i64>,
    pub added_at: String,
    pub updated_at: String,
    pub added_by: Option<i64>,
}

/// A TV show in the library.
pub struct TvShow {
    pub id: i64,
    pub tmdb_id: i64,
    pub imdb_id: Option<String>,
    pub title: String,
    pub original_title: Option<String>,
    pub year_start: Option<i32>,
    pub year_end: Option<i32>,
    pub overview: Option<String>,
    pub poster_path: Option<String>,
    pub backdrop_path: Option<String>,
    pub status: ShowStatus,
    pub monitored: bool,
    pub quality_limit: String,
    pub added_at: String,
    pub updated_at: String,
    pub added_by: Option<i64>,
}

/// An episode of a TV show.
pub struct Episode {
    pub id: i64,
    pub show_id: i64,
    pub tmdb_id: Option<i64>,
    pub season_number: i32,
    pub episode_number: i32,
    pub title: Option<String>,
    pub overview: Option<String>,
    pub air_date: Option<String>,
    pub runtime_minutes: Option<i32>,
    pub still_path: Option<String>,
    pub status: MediaStatus,
    pub monitored: bool,
    pub file_path: Option<String>,
    pub file_size: Option<i64>,
    pub created_at: String,
    pub updated_at: String,
}

/// A music artist.
pub struct Artist {
    pub id: i64,
    pub mbid: String,
    pub name: String,
    pub sort_name: Option<String>,
    pub disambiguation: Option<String>,
    pub artist_type: Option<String>,
    pub country: Option<String>,
    pub begin_date: Option<String>,
    pub end_date: Option<String>,
    pub overview: Option<String>,
    pub image_path: Option<String>,
    pub monitored: bool,
    pub quality_limit: String,
    pub added_at: String,
    pub updated_at: String,
    pub added_by: Option<i64>,
}

/// A music album.
pub struct Album {
    pub id: i64,
    pub mbid: String,
    pub artist_id: i64,
    pub title: String,
    pub album_type: Option<String>,
    pub release_date: Option<String>,
    pub overview: Option<String>,
    pub cover_path: Option<String>,
    pub total_tracks: Option<i32>,
    pub status: AlbumStatus,
    pub monitored: bool,
    pub quality_limit: String,
    pub added_at: String,
    pub updated_at: String,
}

/// A track of an album.
pub struct Track {
    pub id: i64,
    pub mbid: Option<String>,
    pub album_id: i64,
    pub artist_id: Option<i64>,
    pub title: String,
    pub track_number: i32,
    pub disc_number: i32,
    pub duration_ms: Option<i32>,
    pub status: MediaStatus,
    pub monitored: bool,
    pub file_path: Option<String>,
    pub file_size: Option<i64>,
    pub audio_format: Option<String>,
    pub bitrate: Option<i32>,
    pub sample_rate: Option<i32>,
    pub bit_depth: Option<i32>,
    pub created_at: String,
    pub updated_at: String,
}

/// A configured torrent indexer.
pub struct Indexer {
    pub id: i64,
    pub name: String,
    pub indexer_type: String,
    pub url: String,
    pub api_key: Option<String>,
    pub enabled: bool,
    pub priority: i32,
    pub categories: Option<String>,
    pub last_check: Option<String>,
    pub last_error: Option<String>,
    pub created_at: String,
}

/// An entry of the activity log.
pub struct Activity {
    pub id: i64,
    pub event_type: String,
    pub message: String,
    pub media_type: Option<String>,
    pub media_id: Option<i64>,
    pub download_id: Option<i64>,
    pub user_id: Option<i64>,
    pub metadata: Option<String>,
    pub created_at: String,
}

/// A login session.
pub struct Session {
    pub id: i64,
    pub user_id: i64,
    pub token_hash: String,
    pub expires_at: String,
    pub created_at: String,
}

} // verus!
