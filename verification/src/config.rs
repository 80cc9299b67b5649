//! Configuration types and their default values.
//!
//! Loading from files and the environment happens outside the library;
//! these are the values that loading fills in.

use vstd::prelude::*;
use std::path::PathBuf;

verus! {

#[verifier::external_type_specification]
#[verifier::external_body]
pub struct ExPathBuf(PathBuf);

/// The path that `PathBuf::from` makes of a string: a path with the
/// string's contents, and so the same path for the same string.
pub uninterp spec fn path_of(s: Seq<char>) -> PathBuf;

/// `PathBuf::from` a string. The contract claims only that the result is
/// the path named by [`path_of`] for the string's characters, that is,
/// that the same string gives the same path; what the path's components
/// are is left unsaid.
#[verifier::external_body]
pub(crate) fn path_from(s: &str) -> (r: PathBuf)
    ensures
        r == path_of(s@),
{
    PathBuf::from(s)
}

/// Server configuration.
pub struct ServerConfig {
    pub host: String,
    pub port: u16,
    pub jwt_secret: Option<String>,
}

pub(crate) fn default_host() -> (r: String)
    ensures
        r@ == "0.0.0.0"@,
{
    "0.0.0.0".to_owned()
}

pub(crate) fn default_port() -> (r: u16)
    ensures
        r == 8080,
{
    8080
}

impl Default for ServerConfig {
    fn default() -> (r: Self)
        ensures
            r.host@ == "0.0.0.0"@,
            r.port == 8080,
            r.jwt_secret is None,
    {
        ServerConfig { host: default_host(), port: default_port(), jwt_secret: None }
    }
}

/// Database configuration.
pub struct DatabaseConfig {
    pub path: PathBuf,
}

/// The database file by default: `./data/lcars.db`.
pub(crate) fn default_db_path() -> (r: PathBuf)
    ensures
        r == path_of("./data/lcars.db"@),
{
    path_from("./data/lcars.db")
}

impl Default for DatabaseConfig {
    fn default() -> (r: Self) {
        DatabaseConfig { path: default_db_path() }
    }
}

/// TMDB API configuration.
pub struct TmdbConfig {
    pub api_key: Option<String>,
}

impl Default for TmdbConfig {
    fn default() -> (r: Self)
        ensures
            r.api_key is None,
    {
        TmdbConfig { api_key: None }
    }
}

/// MusicBrainz configuration.
pub struct MusicBrainzConfig {
    pub rate_limit_ms: u64,
}

/// MusicBrainz allows at most one request per second.
pub(crate) fn default_rate_limit() -> (r: u64)
    ensures
        r == 1000,
{
    1000
}

impl Default for MusicBrainzConfig {
    fn default() -> (r: Self)
        ensures
            r.rate_limit_ms == 1000,
    {
        MusicBrainzConfig { rate_limit_ms: default_rate_limit() }
    }
}

/// The download directory by default: `./downloads`.
pub(crate) fn default_download_dir() -> (r: PathBuf)
    ensures
        r == path_of("./downloads"@),
{
    path_from("./downloads")
}

pub(crate) fn default_max_connections() -> (r: u32)
    ensures
        r == 100,
{
    100
}

pub(crate) fn default_port_range() -> (r: (u16, u16))
    ensures
        r == (6881u16, 6889u16),
{
    (6881, 6889)
}

pub(crate) fn default_seeding_enabled() -> (r: bool)
    ensures
        r,
{
    true
}

pub(crate) fn default_time_limit() -> (r: u64)
    ensures
        r == 48,
{
    48
}

/// Kind of storage mount.
#[derive(Clone, Copy, Debug, PartialEq, Eq, Structural)]
pub enum MountType {
    Local,
    Smb,
}

/// Mount point configuration.
pub struct MountConfig {
    pub name: String,
    pub mount_type: MountType,
    pub path: Option<PathBuf>,
    pub host: Option<String>,
    pub share: Option<String>,
    pub username: Option<String>,
    pub password: Option<String>,
    pub mount_point: Option<PathBuf>,
    pub enabled: bool,
}

pub(crate) fn default_enabled() -> (r: bool)
    ensures
        r,
{
    true
}

/// File naming patterns.
pub struct NamingConfig {
    pub movie_pattern: String,
    pub tv_pattern: String,
    pub music_pattern: String,
}

pub(crate) fn default_movie_pattern() -> (r: String)
    ensures
        r@ == "movie/{title} ({year})/{title} ({year}) - {quality}.{ext}"@,
{
    "movie/{title} ({year})/{title} ({year}) - {quality}.{ext}".to_owned()
}

pub(crate) fn default_tv_pattern() -> (r: String)
    ensures
        r@ == "tv/{title}/S{season:02}/{title} - S{season:02}E{episode:02} - {episode_title}.{ext}"@,
{
    "tv/{title}/S{season:02}/{title} - S{season:02}E{episode:02} - {episode_title}.{ext}".to_owned()
}

pub(crate) fn default_music_pattern() -> (r: String)
    ensures
        r@ == "music/{artist}/{album}/{title}.{ext}"@,
{
    "music/{artist}/{album}/{title}.{ext}".to_owned()
}

impl Default for NamingConfig {
    fn default() -> (r: Self)
        ensures
            r.movie_pattern@ == "movie/{title} ({year})/{title} ({year}) - {quality}.{ext}"@,
            r.tv_pattern@
                == "tv/{title}/S{season:02}/{title} - S{season:02}E{episode:02} - {episode_title}.{ext}"@,
            r.music_pattern@ == "music/{artist}/{album}/{title}.{ext}"@,
    {
        NamingConfig {
            movie_pattern: default_movie_pattern(),
            tv_pattern: default_tv_pattern(),
            music_pattern: default_music_pattern(),
        }
    }
}

/// What a storage rule does with a file.
#[derive(Clone, Copy, Debug, PartialEq, Eq, Structural)]
pub enum StorageAction {
    Move,
    Copy,
}

/// Storage rule for post-download processing.
pub struct StorageRule {
    pub action: StorageAction,
    pub destination: String,
    pub media_types: Vec<String>,
}

/// Storage configuration.
pub struct StorageConfig {
    pub mounts: Vec<MountConfig>,
    pub naming: NamingConfig,
    pub rules: Vec<StorageRule>,
}

impl Default for StorageConfig {
    fn default() -> (r: Self)
        ensures
            r.mounts@.len() == 0,
            r.rules@.len() == 0,
    {
        StorageConfig { mounts: Vec::new(), naming: NamingConfig::default(), rules: Vec::new() }
    }
}

/// Scheduler configuration (cron expressions with seconds).
pub struct SchedulerConfig {
    pub search_missing: String,
    pub refresh_metadata: String,
    pub check_new_episodes: String,
    pub check_new_releases: String,
    pub cleanup_completed: String,
}

pub(crate) fn default_search_missing() -> (r: String)
    ensures
        r@ == "0 0 */6 * * *"@,
{
    "0 0 */6 * * *".to_owned()
}

pub(crate) fn default_refresh_metadata() -> (r: String)
    ensures
        r@ == "0 0 2 * * *"@,
{
    "0 0 2 * * *".to_owned()
}

pub(crate) fn default_check_new_episodes() -> (r: String)
    ensures
        r@ == "0 0 */12 * * *"@,
{
    "0 0 */12 * * *".to_owned()
}

pub(crate) fn default_check_new_releases() -> (r: String)
    ensures
        r@ == "0 0 3 * * *"@,
{
    "0 0 3 * * *".to_owned()
}

pub(crate) fn default_cleanup_completed() -> (r: String)
    ensures
        r@ == "0 0 * * * *"@,
{
    "0 0 * * * *".to_owned()
}

impl Default for SchedulerConfig {
    fn default() -> (r: Self)
        ensures
            r.search_missing@ == "0 0 */6 * * *"@,
            r.refresh_metadata@ == "0 0 2 * * *"@,
            r.check_new_episodes@ == "0 0 */12 * * *"@,
            r.check_new_releases@ == "0 0 3 * * *"@,
            r.cleanup_completed@ == "0 0 * * * *"@,
    {
        SchedulerConfig {
            search_missing: default_search_missing(),
            refresh_metadata: default_refresh_metadata(),
            check_new_episodes: default_check_new_episodes(),
            check_new_releases: default_check_new_releases(),
            cleanup_completed: default_cleanup_completed(),
        }
    }
}

/// Music quality preferences used when ranking Soulseek results.
pub struct MusicQualityConfig {
    pub preferred_formats: Vec<String>,
    pub min_bitrate: u32,
    pub prefer_complete_albums: bool,
}

} // verus!
