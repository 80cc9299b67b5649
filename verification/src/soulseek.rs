//! Soulseek bookkeeping: searches and the results peers send for them,
//! downloads and their progress, and the files peers offer.

use vstd::prelude::*;
use std::path::PathBuf;
use std::time::Instant;
use crate::error::AppError;
use crate::number::{i64_to_chars, int_display};
use crate::regexes::{lowercase, to_lowercase};
use crate::text::{
    append_chars, chars_eq, chars_eq_str, chars_of, contains_chars, contains_seq, map_set,
    replace_set, rfind_in, rfind_set, slice_chars, string_of, views, words, words_by, CharSet,
};

verus! {

#[verifier::external_type_specification]
#[verifier::external_body]
pub struct ExInstant(Instant);

/// `Instant::now`. Nothing is stated of the instant: it is the clock's.
#[verifier::external_body]
pub(crate) fn instant_now() -> Instant {
    Instant::now()
}

/// State of an active search.
pub struct SearchState {
    /// The search query string.
    pub query: String,
    /// Search ticket ID.
    pub ticket: u32,
    /// When the search was started.
    pub started_at: Instant,
    /// Accumulated results from all peers.
    pub results: Vec<SearchResult>,
    /// Whether the search is complete.
    pub complete: bool,
}

/// Number of files in a list of peer results.
pub open spec fn files_total(results: Seq<SearchResult>) -> nat
    decreases results.len(),
{
    if results.len() == 0 {
        0
    } else {
        files_total(results.drop_last()) + results.last().files@.len()
    }
}

impl SearchState {
    /// Creates a new search state, started now, with no results.
    pub fn new(query: String, ticket: u32) -> (r: Self)
        ensures
            r.query == query && r.ticket == ticket,
            r.results@.len() == 0,
            !r.complete,
    {
        SearchState { query, ticket, started_at: instant_now(), results: Vec::new(), complete: false }
    }

    /// Adds the results of one peer.
    pub fn add_results(&mut self, result: SearchResult)
        ensures
            final(self).results@ == old(self).results@.push(result),
            final(self).query == old(self).query && final(self).ticket == old(self).ticket,
            final(self).complete == old(self).complete,
            final(self).started_at == old(self).started_at,
    {
        self.results.push(result);
    }

    /// Marks the search as complete.
    pub fn mark_complete(&mut self)
        ensures
            final(self).complete,
            final(self).results@ == old(self).results@,
            final(self).query == old(self).query && final(self).ticket == old(self).ticket,
            final(self).started_at == old(self).started_at,
    {
        self.complete = true;
    }

    /// Total number of files found.
    pub fn total_files(&self) -> (r: usize)
        requires
            files_total(self.results@) <= usize::MAX,
        ensures
            r == files_total(self.results@),
    {
        let mut total: usize = 0;
        let mut i: usize = 0;
        while i < self.results.len()
            invariant
                i <= self.results@.len(),
                total == files_total(self.results@.take(i as int)),
                files_total(self.results@) <= usize::MAX,
            decreases self.results@.len() - i,
        {
            proof {
                assert(self.results@.take(i + 1).drop_last() =~= self.results@.take(i as int));
                lemma_files_total_prefix(self.results@, i + 1);
            }
            total = total + self.results[i].files.len();
            i = i + 1;
        }
        assert(self.results@.take(i as int) =~= self.results@);
        total
    }
}

/// Adding one peer's results adds its files to the total and leaves the
/// earlier results as they were: the count that `total_files` gives after
/// `add_results` is the count before plus the new peer's files.
pub proof fn lemma_added_results_counted(results: Seq<SearchResult>, r: SearchResult)
    ensures
        files_total(results.push(r)) == files_total(results) + r.files@.len(),
        results.push(r).drop_last() == results,
        results.push(r).last() == r,
{
    assert(results.push(r).drop_last() =~= results);
}

/// The files of a prefix are no more than those of the whole list.
proof fn lemma_files_total_prefix(rs: Seq<SearchResult>, k: int)
    requires
        0 <= k <= rs.len(),
    ensures
        files_total(rs.take(k)) <= files_total(rs),
    decreases rs.len(),
{
    if k < rs.len() {
        assert(rs.drop_last().take(k) =~= rs.take(k));
        lemma_files_total_prefix(rs.drop_last(), k);
    } else {
        assert(rs.take(k) =~= rs);
    }
}

/// Search results from a single peer.
pub struct SearchResult {
    /// Username of the peer sharing the files.
    pub username: String,
    /// List of matching files.
    pub files: Vec<FileResult>,
    /// Whether the peer has free download slots.
    pub has_free_slot: bool,
    /// Average upload speed in bytes/second.
    pub average_speed: u32,
    /// Number of files in peer's queue.
    pub queue_length: u32,
}

/// A single file from search results.
pub struct FileResult {
    /// Full path of the file on the peer's system.
    pub filename: String,
    /// File size in bytes.
    pub size: u64,
    /// File extension (e.g., "mp3", "flac").
    pub extension: String,
    /// Bitrate in kbps (if available from attributes).
    pub bitrate: Option<u32>,
    /// Duration in seconds (if available from attributes).
    pub duration: Option<u32>,
    /// Sample rate in Hz (if available from attributes).
    pub sample_rate: Option<u32>,
    /// Bit depth (if available from attributes).
    pub bit_depth: Option<u32>,
}

/// A file attribute as the peer protocol carries it: a place code and a
/// value.
#[derive(Clone, Copy)]
pub struct FileAttribute {
    pub place: u32,
    pub attribute: u32,
}

/// A shared file as the peer protocol carries it.
pub struct ProtocolFile {
    pub name: String,
    pub size: u64,
    pub extension: String,
    pub attributes: Vec<FileAttribute>,
}

/// The value of the last attribute with the given place code.
pub open spec fn attribute_at(attrs: Seq<FileAttribute>, place: u32) -> Option<u32>
    decreases attrs.len(),
{
    if attrs.len() == 0 {
        None
    } else if attrs.last().place == place {
        Some(attrs.last().attribute)
    } else {
        attribute_at(attrs.drop_last(), place)
    }
}

/// The text after the last `.` of a file name, or the whole name when it
/// has none.
pub open spec fn after_last_dot(name: Seq<char>) -> Seq<char> {
    match rfind_in(name, CharSet::Single('.')) {
        Some(i) => name.skip(i + 1),
        None => name,
    }
}

/// The extension a protocol file is listed with: the protocol's own, or
/// else the end of the file name, lowercased either way.
pub open spec fn listed_extension(f: ProtocolFile) -> Seq<char> {
    if f.extension@.len() > 0 {
        lowercase(f.extension@)
    } else {
        lowercase(after_last_dot(f.name@))
    }
}

/// The extension a protocol file is listed with.
fn extension_of(file: &ProtocolFile) -> (r: String)
    ensures
        r@ == listed_extension(*file),
{
    if !file.extension.as_str().is_empty() {
        to_lowercase(file.extension.as_str())
    } else {
        let name = chars_of(file.name.as_str());
        match rfind_set(name.as_slice(), CharSet::Single('.')) {
            Some(i) => {
                let tail = slice_chars(name.as_slice(), i + 1, name.len());
                assert(tail@ =~= name@.skip(i + 1));
                assert(name@ == file.name@);
                assert(after_last_dot(file.name@) == tail@);
                let t = string_of(tail.as_slice());
                to_lowercase(t.as_str())
            },
            None => {
                assert(after_last_dot(file.name@) == file.name@);
                to_lowercase(file.name.as_str())
            },
        }
    }
}

/// The value of the last attribute with the given place code.
fn attribute_value(attrs: &[FileAttribute], place: u32) -> (r: Option<u32>)
    ensures
        r == attribute_at(attrs@, place),
{
    let mut found: Option<u32> = None;
    let mut i: usize = 0;
    while i < attrs.len()
        invariant
            i <= attrs@.len(),
            found == attribute_at(attrs@.take(i as int), place),
        decreases attrs@.len() - i,
    {
        assert(attrs@.take(i + 1).drop_last() =~= attrs@.take(i as int));
        if attrs[i].place == place {
            found = Some(attrs[i].attribute);
        }
        i = i + 1;
    }
    assert(attrs@.take(i as int) =~= attrs@);
    found
}

impl FileResult {
    /// Builds a search result file from the protocol's description of it.
    /// Attribute places: 0 bitrate, 1 duration, 4 sample rate, 5 bit depth.
    pub fn from_protocol_file(file: &ProtocolFile) -> (r: Self)
        ensures
            r.filename == file.name && r.size == file.size,
            r.extension@ == listed_extension(*file),
            r.bitrate == attribute_at(file.attributes@, 0),
            r.duration == attribute_at(file.attributes@, 1),
            r.sample_rate == attribute_at(file.attributes@, 4),
            r.bit_depth == attribute_at(file.attributes@, 5),
    {
        let attrs = file.attributes.as_slice();
        FileResult {
            filename: file.name.clone(),
            size: file.size,
            extension: extension_of(file),
            bitrate: attribute_value(attrs, 0),
            duration: attribute_value(attrs, 1),
            sample_rate: attribute_value(attrs, 4),
            bit_depth: attribute_value(attrs, 5),
        }
    }
}

/// Statistics about the Soulseek engine.
pub struct SoulseekStats {
    /// Whether connected to the server.
    pub connected: bool,
    /// Number of active searches.
    pub active_searches: usize,
    /// Number of active downloads.
    pub active_downloads: usize,
    /// Number of completed downloads.
    pub completed_downloads: usize,
    /// Number of active uploads.
    pub active_uploads: usize,
    /// Number of queued uploads.
    pub queued_uploads: usize,
    /// Total bytes uploaded (lifetime).
    pub total_uploaded: u64,
    /// Number of shared files.
    pub shared_files: u64,
    /// Number of shared folders.
    pub shared_folders: u64,
}

/// Statistics about shared files.
pub struct ShareStatsResponse {
    /// Directories being shared.
    pub directories: Vec<String>,
    /// Total number of shared files.
    pub total_files: u64,
    /// Total number of shared folders.
    pub total_folders: u64,
    /// Total size of shared files in bytes.
    pub total_size: u64,
    /// When the index was last updated (ISO 8601 string).
    pub last_indexed: Option<String>,
    /// Whether sharing is enabled.
    pub sharing_enabled: bool,
}

/// Status of a Soulseek download.
#[derive(Debug, Clone, Copy, PartialEq, Eq, Structural)]
pub enum DownloadStatus {
    /// Waiting for connection to peer.
    Connecting,
    /// Queued on the remote peer.
    Queued,
    /// Currently downloading.
    Downloading,
    /// Download completed successfully.
    Completed,
    /// Download failed.
    Failed,
    /// Download was cancelled.
    Cancelled,
}

impl DownloadStatus {
    /// The status's name.
    pub open spec fn name_spec(self) -> Seq<char> {
        match self {
            DownloadStatus::Connecting => "connecting"@,
            DownloadStatus::Queued => "queued"@,
            DownloadStatus::Downloading => "downloading"@,
            DownloadStatus::Completed => "completed"@,
            DownloadStatus::Failed => "failed"@,
            DownloadStatus::Cancelled => "cancelled"@,
        }
    }

    /// The status's name, as it is displayed and serialized.
    pub fn as_str(&self) -> (r: &'static str)
        ensures
            r@ == self.name_spec(),
    {
        match self {
            DownloadStatus::Connecting => "connecting",
            DownloadStatus::Queued => "queued",
            DownloadStatus::Downloading => "downloading",
            DownloadStatus::Completed => "completed",
            DownloadStatus::Failed => "failed",
            DownloadStatus::Cancelled => "cancelled",
        }
    }
}

/// State of a Soulseek download.
pub struct DownloadState {
    /// Unique identifier for this download.
    pub id: String,
    /// Username of the peer sharing the file.
    pub username: String,
    /// Full path of the file on the remote peer.
    pub filename: String,
    /// File size in bytes.
    pub size: u64,
    /// Current download status.
    pub status: DownloadStatus,
    /// Bytes downloaded so far.
    pub downloaded: u64,
    /// Download speed in bytes/second.
    pub speed: u64,
    /// Position in the remote user's queue (if queued).
    pub queue_position: Option<u32>,
    /// Error message if download failed.
    pub error: Option<String>,
    /// Local path where the file will be saved.
    pub local_path: Option<PathBuf>,
    /// Optional media type link (track, album, etc.).
    pub media_type: Option<String>,
    /// Optional media ID to link to our library.
    pub media_id: Option<i64>,
    /// Token for the transfer.
    pub ticket: u32,
}

/// The fields that say which file a download is and where it goes: they
/// stay as they are while the download progresses.
pub open spec fn same_transfer(a: DownloadState, b: DownloadState) -> bool {
    &&& a.id == b.id && a.username == b.username && a.filename == b.filename
    &&& a.size == b.size && a.ticket == b.ticket
    &&& a.media_type == b.media_type && a.media_id == b.media_id
}

/// Progress in percent, capped at 100; 0 for an empty file.
pub open spec fn percent_of(downloaded: u64, size: u64) -> u8 {
    if size == 0 {
        0
    } else if downloaded * 100 / size as int >= 100 {
        100
    } else {
        (downloaded * 100 / size as int) as u8
    }
}

impl DownloadState {
    /// Creates a new download, connecting, with nothing downloaded.
    pub fn new(id: String, username: String, filename: String, size: u64, ticket: u32) -> (r: Self)
        ensures
            r.id == id && r.username == username && r.filename == filename,
            r.size == size && r.ticket == ticket,
            r.status == DownloadStatus::Connecting,
            r.downloaded == 0 && r.speed == 0,
            r.queue_position is None && r.error is None && r.local_path is None,
            r.media_type is None && r.media_id is None,
    {
        DownloadState {
            id,
            username,
            filename,
            size,
            status: DownloadStatus::Connecting,
            downloaded: 0,
            speed: 0,
            queue_position: None,
            error: None,
            local_path: None,
            media_type: None,
            media_id: None,
            ticket,
        }
    }

    /// Records progress: the download is now downloading.
    pub fn update_progress(&mut self, downloaded: u64, speed: u64)
        ensures
            final(self).downloaded == downloaded && final(self).speed == speed,
            final(self).status == DownloadStatus::Downloading,
            same_transfer(*final(self), *old(self)),
            final(self).queue_position == old(self).queue_position,
            final(self).error == old(self).error,
            final(self).local_path == old(self).local_path,
    {
        self.downloaded = downloaded;
        self.speed = speed;
        self.status = DownloadStatus::Downloading;
    }

    /// Records that the download is queued at the given position.
    pub fn mark_queued(&mut self, position: u32)
        ensures
            final(self).status == DownloadStatus::Queued,
            final(self).queue_position == Some(position),
            same_transfer(*final(self), *old(self)),
            final(self).downloaded == old(self).downloaded && final(self).speed == old(self).speed,
            final(self).error == old(self).error,
            final(self).local_path == old(self).local_path,
    {
        self.status = DownloadStatus::Queued;
        self.queue_position = Some(position);
    }

    /// Records that the download completed into `local_path`: the whole
    /// file is downloaded.
    pub fn mark_completed(&mut self, local_path: PathBuf)
        ensures
            final(self).status == DownloadStatus::Completed,
            final(self).downloaded == old(self).size,
            final(self).local_path == Some(local_path),
            same_transfer(*final(self), *old(self)),
            final(self).speed == old(self).speed,
            final(self).queue_position == old(self).queue_position,
            final(self).error == old(self).error,
    {
        self.status = DownloadStatus::Completed;
        self.downloaded = self.size;
        self.local_path = Some(local_path);
    }

    /// Records that the download failed with `error`.
    pub fn mark_failed(&mut self, error: String)
        ensures
            final(self).status == DownloadStatus::Failed,
            final(self).error == Some(error),
            same_transfer(*final(self), *old(self)),
            final(self).downloaded == old(self).downloaded && final(self).speed == old(self).speed,
            final(self).queue_position == old(self).queue_position,
            final(self).local_path == old(self).local_path,
    {
        self.status = DownloadStatus::Failed;
        self.error = Some(error);
    }

    /// Progress percentage (0-100).
    pub fn progress_percent(&self) -> (r: u8)
        ensures
            r == percent_of(self.downloaded, self.size),
            r <= 100,
    {
        if self.size == 0 {
            return 0;
        }
        let wide: u128 = self.downloaded as u128 * 100;
        let p: u128 = wide / (self.size as u128);
        if p >= 100 {
            100
        } else {
            p as u8
        }
    }
}

/// A completed download of a non-empty file is at 100 percent.
pub proof fn lemma_completed_is_full(d: DownloadState)
    requires
        d.status == DownloadStatus::Completed,
        d.downloaded == d.size,
        d.size > 0,
    ensures
        percent_of(d.downloaded, d.size) == 100,
{
    assert(d.downloaded * 100 / d.size as int == 100) by (nonlinear_arith)
        requires
            d.downloaded == d.size,
            d.size > 0,
    ;
}

/// Request to initiate a download.
pub struct DownloadRequest {
    /// Username of the peer sharing the file.
    pub username: String,
    /// Full path of the file on the remote peer.
    pub filename: String,
    /// File size in bytes.
    pub size: u64,
    /// Optional media type (track, album, episode).
    pub media_type: Option<String>,
    /// Optional media ID to link to our library.
    pub media_id: Option<i64>,
}

/// Information about a browsed directory.
pub struct BrowsedDirectory {
    /// Path of the directory.
    pub path: String,
    /// Number of files in the directory.
    pub file_count: usize,
    /// Files in this directory.
    pub files: Vec<BrowsedFile>,
}

/// A file from a browsed directory.
pub struct BrowsedFile {
    /// Filename (without full path).
    pub name: String,
    /// Full path on the remote system.
    pub full_path: String,
    /// File size in bytes.
    pub size: u64,
    /// File extension.
    pub extension: String,
    /// Bitrate (if available).
    pub bitrate: Option<u32>,
    /// Duration in seconds (if available).
    pub duration: Option<u32>,
}

// ---------------------------------------------------------------------------
// Shared files
// ---------------------------------------------------------------------------

/// Audio file attributes extracted from metadata.
#[derive(Clone, Copy)]
pub struct FileAttributes {
    /// Bitrate in kbps.
    pub bitrate: Option<u32>,
    /// Duration in seconds.
    pub duration: Option<u32>,
    /// Sample rate in Hz.
    pub sample_rate: Option<u32>,
    /// Bit depth.
    pub bit_depth: Option<u32>,
    /// Whether the file uses variable bitrate.
    pub vbr: Option<bool>,
}

impl Default for FileAttributes {
    fn default() -> (r: Self)
        ensures
            r.bitrate is None && r.duration is None && r.sample_rate is None,
            r.bit_depth is None && r.vbr is None,
    {
        FileAttributes { bitrate: None, duration: None, sample_rate: None, bit_depth: None, vbr: None }
    }
}

/// The protocol attribute for an optional value at a place.
pub open spec fn attr_entry(place: u32, v: Option<u32>) -> Seq<FileAttribute> {
    match v {
        Some(x) => seq![FileAttribute { place, attribute: x }],
        None => Seq::empty(),
    }
}

impl FileAttributes {
    /// The protocol attributes of the known values, by place: 0 bitrate,
    /// 1 duration, 2 VBR (1 or 0), 4 sample rate, 5 bit depth.
    pub open spec fn protocol_spec(&self) -> Seq<FileAttribute> {
        attr_entry(0, self.bitrate) + attr_entry(1, self.duration) + attr_entry(
            2,
            match self.vbr {
                Some(v) => Some(if v { 1u32 } else { 0u32 }),
                None => None,
            },
        ) + attr_entry(4, self.sample_rate) + attr_entry(5, self.bit_depth)
    }

    /// Converts to protocol attributes for Soulseek messages.
    pub fn to_protocol_attributes(&self) -> (r: Vec<FileAttribute>)
        ensures
            r@ == self.protocol_spec(),
    {
        let mut attrs: Vec<FileAttribute> = Vec::new();
        if let Some(bitrate) = self.bitrate {
            attrs.push(FileAttribute { place: 0, attribute: bitrate });
        }
        assert(attrs@ =~= attr_entry(0, self.bitrate));
        let ghost a1 = attrs@;
        if let Some(duration) = self.duration {
            attrs.push(FileAttribute { place: 1, attribute: duration });
        }
        assert(attrs@ =~= a1 + attr_entry(1, self.duration));
        let ghost a2 = attrs@;
        if let Some(vbr) = self.vbr {
            attrs.push(FileAttribute { place: 2, attribute: if vbr { 1 } else { 0 } });
        }
        assert(attrs@ =~= a2 + attr_entry(
            2,
            match self.vbr {
                Some(v) => Some(if v { 1u32 } else { 0u32 }),
                None => None,
            },
        ));
        let ghost a3 = attrs@;
        if let Some(sample_rate) = self.sample_rate {
            attrs.push(FileAttribute { place: 4, attribute: sample_rate });
        }
        assert(attrs@ =~= a3 + attr_entry(4, self.sample_rate));
        let ghost a4 = attrs@;
        if let Some(bit_depth) = self.bit_depth {
            attrs.push(FileAttribute { place: 5, attribute: bit_depth });
        }
        assert(attrs@ =~= a4 + attr_entry(5, self.bit_depth));
        attrs
    }
}

/// A file in the share index.
pub struct SharedFile {
    /// Absolute path on disk.
    pub path: PathBuf,
    /// Path as seen by peers (uses backslashes for Soulseek compatibility).
    pub virtual_path: String,
    /// File size in bytes.
    pub size: u64,
    /// File extension (lowercase).
    pub extension: String,
    /// Audio attributes if available.
    pub attributes: FileAttributes,
}

/// Statistics about the share index.
pub struct ShareStats {
    /// Total number of shared files.
    pub total_files: u64,
    /// Total number of shared folders.
    pub total_folders: u64,
    /// When the index was last updated.
    pub last_indexed: Option<Instant>,
    /// Total size of all shared files in bytes.
    pub total_size: u64,
}

/// The audio formats shared files are probed for, by lowercase extension.
pub open spec fn shared_audio_extension(e: Seq<char>) -> bool {
    e == "mp3"@ || e == "flac"@ || e == "ogg"@ || e == "m4a"@ || e == "aac"@ || e == "wav"@
        || e == "wma"@ || e == "ape"@ || e == "opus"@ || e == "aiff"@
}

/// Whether a (lowercase) extension is a supported audio format.
pub fn is_audio_file(extension: &str) -> (r: bool)
    ensures
        r == shared_audio_extension(extension@),
{
    let c = chars_of(extension);
    let s = c.as_slice();
    chars_eq_str(s, "mp3") || chars_eq_str(s, "flac") || chars_eq_str(s, "ogg") || chars_eq_str(
        s,
        "m4a",
    ) || chars_eq_str(s, "aac") || chars_eq_str(s, "wav") || chars_eq_str(s, "wma")
        || chars_eq_str(s, "ape") || chars_eq_str(s, "opus") || chars_eq_str(s, "aiff")
}

/// `path` relative to `base` (`Path::strip_prefix`, or `path` itself when
/// `base` is not a prefix of it), as text (`to_string_lossy`).
pub uninterp spec fn relative_text(path: Seq<char>, base: Seq<char>) -> Seq<char>;

/// `Path::strip_prefix` of two path strings, falling back to the path, as
/// text. The contract names the result only.
#[verifier::external_body]
pub(crate) fn strip_base(path: &str, base: &str) -> (r: String)
    ensures
        r@ == relative_text(path@, base@),
{
    let p = std::path::Path::new(path);
    p.strip_prefix(base).unwrap_or(p).to_string_lossy().into_owned()
}

/// The path peers see for a shared path: the share's name, then the path
/// relative to the share with backslashes for slashes; the share's name
/// alone for the share itself.
pub open spec fn virtual_path_of(path: Seq<char>, base: Seq<char>, base_name: Seq<char>) -> Seq<char> {
    let rel = map_set(relative_text(path, base), CharSet::Single('/'), '\\');
    if rel.len() == 0 {
        base_name
    } else {
        base_name + seq!['\\'] + rel
    }
}

/// Creates the virtual path of a shared path.
pub fn make_virtual_path(path: &str, base_dir: &str, base_dir_name: &str) -> (r: String)
    ensures
        r@ == virtual_path_of(path@, base_dir@, base_dir_name@),
{
    let rel = strip_base(path, base_dir);
    let rel = replace_set(chars_of(rel.as_str()).as_slice(), CharSet::Single('/'), '\\');
    if rel.len() == 0 {
        base_dir_name.to_owned()
    } else {
        let mut r = chars_of(base_dir_name);
        r.push('\\');
        append_chars(&mut r, rel.as_slice());
        string_of(r.as_slice())
    }
}

/// `PathBuf::clone`: a path with the same contents.
pub assume_specification[ <PathBuf as Clone>::clone ](p: &PathBuf) -> (r: PathBuf)
    ensures
        r == *p,
;

impl Clone for SharedFile {
    fn clone(&self) -> (r: Self)
        ensures
            r == *self,
    {
        SharedFile {
            path: self.path.clone(),
            virtual_path: self.virtual_path.clone(),
            size: self.size,
            extension: self.extension.clone(),
            attributes: self.attributes,
        }
    }
}

/// A directory of shared files as the peer protocol carries it.
pub struct ProtocolDirectory {
    pub name: String,
    pub files: Vec<ProtocolFile>,
}

/// Index of all shared files: the files by virtual path (each path once),
/// and the files of each directory.
pub struct ShareIndex {
    directories: Vec<(String, Vec<SharedFile>)>,
    files_by_path: Vec<SharedFile>,
    stats: ShareStats,
}

/// The virtual paths of a list of files are distinct.
pub open spec fn distinct_paths(fs: Seq<SharedFile>) -> bool {
    forall|a: int, b: int|
        0 <= a < b < fs.len() ==> (#[trigger] fs[a]).virtual_path@ != (#[trigger] fs[b]).virtual_path@
}

/// The directory names of a list of directories are distinct.
pub open spec fn distinct_dirs(ds: Seq<(String, Vec<SharedFile>)>) -> bool {
    forall|a: int, b: int| 0 <= a < b < ds.len() ==> (#[trigger] ds[a]).0@ != (#[trigger] ds[b]).0@
}

/// Whether a file with virtual path `k` is listed.
pub open spec fn has_path(fs: Seq<SharedFile>, k: Seq<char>) -> bool {
    exists|i: int| 0 <= i < fs.len() && (#[trigger] fs[i]).virtual_path@ == k
}

/// Whether a directory named `k` is listed.
pub open spec fn has_dir(ds: Seq<(String, Vec<SharedFile>)>, k: Seq<char>) -> bool {
    exists|i: int| 0 <= i < ds.len() && (#[trigger] ds[i]).0@ == k
}

/// The name of a shared file as its directory lists it: the last
/// backslash-separated part of its virtual path.
pub open spec fn listed_name(vp: Seq<char>) -> Seq<char> {
    match rfind_in(vp, CharSet::Single('\\')) {
        Some(i) => vp.skip(i + 1),
        None => vp,
    }
}

/// The protocol description of a shared file.
pub open spec fn protocol_file_of(p: ProtocolFile, f: SharedFile) -> bool {
    &&& p.name@ == listed_name(f.virtual_path@)
    &&& p.size == f.size && p.extension == f.extension
    &&& p.attributes@ == f.attributes.protocol_spec()
}

/// The terms of a search: the words of the lowercased query.
pub open spec fn search_terms(query: Seq<char>) -> Seq<Seq<char>> {
    words_by(lowercase(query), CharSet::WhiteSpace)
}

/// Whether a file matches search terms: its lowercased virtual path
/// contains every term.
pub open spec fn matches_terms(f: SharedFile, terms: Seq<Seq<char>>) -> bool {
    forall|t: int| 0 <= t < terms.len() ==> contains_seq(lowercase(f.virtual_path@), #[trigger] terms[t])
}

/// The file list after recording `f`: `f` in place of the file with its
/// virtual path, or appended.
pub open spec fn files_after_insert(before: Seq<SharedFile>, after: Seq<SharedFile>, f: SharedFile) -> bool {
    if has_path(before, f.virtual_path@) {
        &&& after.len() == before.len()
        &&& forall|j: int|
            0 <= j < before.len() ==> #[trigger] after[j] == if before[j].virtual_path@
                == f.virtual_path@ {
                f
            } else {
                before[j]
            }
    } else {
        after == before.push(f)
    }
}

/// What recording a file does to the lookup by virtual path: afterwards
/// the file is listed, it is the only file listed under its path, and every
/// other path is listed exactly when it was before.
pub proof fn lemma_recorded_file_is_found(before: Seq<SharedFile>, after: Seq<SharedFile>, f: SharedFile)
    requires
        distinct_paths(before),
        files_after_insert(before, after, f),
    ensures
        after.contains(f),
        forall|i: int|
            0 <= i < after.len() && (#[trigger] after[i]).virtual_path@ == f.virtual_path@ ==> after[i]
                == f,
        forall|k: Seq<char>| k != f.virtual_path@ ==> (has_path(after, k) <==> has_path(before, k)),
{
    if has_path(before, f.virtual_path@) {
        let i = choose|i: int| 0 <= i < before.len() && (#[trigger] before[i]).virtual_path@
            == f.virtual_path@;
        assert(after[i] == f);
        assert forall|k: Seq<char>| k != f.virtual_path@ implies (has_path(after, k) <==> has_path(
            before,
            k,
        )) by {
            if has_path(after, k) {
                let j = choose|j: int| 0 <= j < after.len() && (#[trigger] after[j]).virtual_path@ == k;
                assert(before[j].virtual_path@ == k);
            }
            if has_path(before, k) {
                let j = choose|j: int| 0 <= j < before.len() && (#[trigger] before[j]).virtual_path@
                    == k;
                assert(after[j].virtual_path@ == k);
            }
        }
    } else {
        assert(after[before.len() as int] == f);
        assert forall|i: int|
            0 <= i < after.len() && (#[trigger] after[i]).virtual_path@ == f.virtual_path@ implies after[i]
                == f by {
            if i < before.len() {
                assert(before[i].virtual_path@ == f.virtual_path@);
            }
        }
        assert forall|k: Seq<char>| k != f.virtual_path@ implies (has_path(after, k) <==> has_path(
            before,
            k,
        )) by {
            if has_path(after, k) {
                let j = choose|j: int| 0 <= j < after.len() && (#[trigger] after[j]).virtual_path@ == k;
                assert(j < before.len());
                assert(before[j].virtual_path@ == k);
            }
            if has_path(before, k) {
                let j = choose|j: int| 0 <= j < before.len() && (#[trigger] before[j]).virtual_path@
                    == k;
                assert(after[j].virtual_path@ == k);
            }
        }
    }
}

/// The directory list after recording `f` under `dir`: `f` appended to the
/// files of the directory, or a new directory with `f` appended.
pub open spec fn dirs_after_insert(
    before: Seq<(String, Vec<SharedFile>)>,
    after: Seq<(String, Vec<SharedFile>)>,
    dir: String,
    f: SharedFile,
) -> bool {
    if has_dir(before, dir@) {
        &&& after.len() == before.len()
        &&& forall|j: int|
            0 <= j < before.len() ==> if (#[trigger] before[j]).0@ == dir@ {
                after[j].0 == before[j].0 && after[j].1@ == before[j].1@.push(f)
            } else {
                after[j] == before[j]
            }
    } else {
        &&& after.len() == before.len() + 1
        &&& forall|j: int| 0 <= j < before.len() ==> #[trigger] after[j] == before[j]
        &&& after.last().0 == dir
        &&& after.last().1@ == seq![f]
    }
}

fn position_of_path(fs: &Vec<SharedFile>, k: &[char]) -> (r: Option<usize>)
    ensures
        r matches Some(j) ==> j < fs@.len() && fs@[j as int].virtual_path@ == k@,
        r is None ==> !has_path(fs@, k@),
{
    let mut i: usize = 0;
    while i < fs.len()
        invariant
            i <= fs@.len(),
            forall|j: int| 0 <= j < i ==> (#[trigger] fs@[j]).virtual_path@ != k@,
        decreases fs@.len() - i,
    {
        if chars_eq(chars_of(fs[i].virtual_path.as_str()).as_slice(), k) {
            return Some(i);
        }
        i = i + 1;
    }
    None
}

fn position_of_dir(ds: &Vec<(String, Vec<SharedFile>)>, k: &[char]) -> (r: Option<usize>)
    ensures
        r matches Some(j) ==> j < ds@.len() && ds@[j as int].0@ == k@,
        r is None ==> !has_dir(ds@, k@),
{
    let mut i: usize = 0;
    while i < ds.len()
        invariant
            i <= ds@.len(),
            forall|j: int| 0 <= j < i ==> (#[trigger] ds@[j]).0@ != k@,
        decreases ds@.len() - i,
    {
        if chars_eq(chars_of(ds[i].0.as_str()).as_slice(), k) {
            return Some(i);
        }
        i = i + 1;
    }
    None
}

impl ShareIndex {
    /// Well-formedness: each virtual path and each directory name once.
    #[verifier::type_invariant]
    pub closed spec fn wf(&self) -> bool {
        distinct_paths(self.files_by_path@) && distinct_dirs(self.directories@)
    }

    /// The indexed files.
    pub closed spec fn files_spec(&self) -> Seq<SharedFile> {
        self.files_by_path@
    }

    /// The directories, each with its files.
    pub closed spec fn dirs_spec(&self) -> Seq<(String, Vec<SharedFile>)> {
        self.directories@
    }

    /// The statistics.
    pub closed spec fn stats_spec(&self) -> ShareStats {
        self.stats
    }

    /// Creates an empty share index.
    pub fn new() -> (r: Self)
        ensures
            r.wf(),
            r.files_spec().len() == 0 && r.dirs_spec().len() == 0,
            r.stats_spec().total_files == 0 && r.stats_spec().total_folders == 0,
            r.stats_spec().total_size == 0 && r.stats_spec().last_indexed is None,
    {
        ShareIndex {
            directories: Vec::new(),
            files_by_path: Vec::new(),
            stats: ShareStats { total_files: 0, total_folders: 0, last_indexed: None, total_size: 0 },
        }
    }

    /// Gets a file by its virtual path (slashes read as backslashes).
    pub fn get_file(&self, virtual_path: &str) -> (r: Option<&SharedFile>)
        ensures
            r matches Some(f) ==> self.files_spec().contains(*f) && f.virtual_path@ == map_set(
                virtual_path@,
                CharSet::Single('/'),
                '\\',
            ),
            r is None ==> !has_path(self.files_spec(), map_set(virtual_path@, CharSet::Single('/'), '\\')),
    {
        let norm = replace_set(chars_of(virtual_path).as_slice(), CharSet::Single('/'), '\\');
        match position_of_path(&self.files_by_path, norm.as_slice()) {
            Some(j) => {
                assert(self.files_by_path@.contains(self.files_by_path@[j as int]));
                Some(&self.files_by_path[j])
            },
            None => None,
        }
    }

    /// Records a scanned file under its directory's virtual path: in the
    /// file list it replaces a file with the same virtual path or is
    /// appended; it is appended to its directory's files, the directory
    /// being appended when new. Statistics are left as they are.
    pub fn insert_file(&mut self, dir_path: String, file: SharedFile)
        ensures
            final(self).wf(),
            final(self).stats_spec() == old(self).stats_spec(),
            files_after_insert(old(self).files_spec(), final(self).files_spec(), file),
            dirs_after_insert(old(self).dirs_spec(), final(self).dirs_spec(), dir_path, file),
    {
        proof {
            use_type_invariant(&*self);
        }
        let mut files: Vec<SharedFile> = Vec::new();
        std::mem::swap(&mut files, &mut self.files_by_path);
        let mut dirs: Vec<(String, Vec<SharedFile>)> = Vec::new();
        std::mem::swap(&mut dirs, &mut self.directories);
        let copy = file.clone();
        let key = chars_of(file.virtual_path.as_str());
        let ghost fs = files@;
        match position_of_path(&files, key.as_slice()) {
            Some(j) => {
                files.set(j, copy);
                proof {
                    assert forall|a: int, b: int| 0 <= a < b < files@.len() implies (
                    #[trigger] files@[a]).virtual_path@ != (
                    #[trigger] files@[b]).virtual_path@ by {
                        assert(fs[a].virtual_path@ != fs[b].virtual_path@);
                    }
                    assert forall|q: int| 0 <= q < fs.len() implies #[trigger] files@[q] == if fs[q].virtual_path@
                        == file.virtual_path@ {
                        file
                    } else {
                        fs[q]
                    } by {
                        if q != j {
                            if fs[q].virtual_path@ == file.virtual_path@ {
                                if q < j {
                                    assert(fs[q].virtual_path@ != fs[j as int].virtual_path@);
                                } else {
                                    assert(fs[j as int].virtual_path@ != fs[q].virtual_path@);
                                }
                            }
                        }
                    }
                }
            },
            None => {
                files.push(copy);
                proof {
                    assert forall|a: int, b: int| 0 <= a < b < files@.len() implies (
                    #[trigger] files@[a]).virtual_path@ != (
                    #[trigger] files@[b]).virtual_path@ by {
                        if b < fs.len() {
                            assert(fs[a].virtual_path@ != fs[b].virtual_path@);
                        } else {
                            assert(files@[a] == fs[a]);
                        }
                    }
                }
            },
        }
        let dk = chars_of(dir_path.as_str());
        let ghost ds = dirs@;
        match position_of_dir(&dirs, dk.as_slice()) {
            Some(j) => {
                let (name, mut files) = dirs.remove(j);
                files.push(file);
                dirs.insert(j, (name, files));
                proof {
                    assert forall|a: int, b: int| 0 <= a < b < dirs@.len() implies (
                    #[trigger] dirs@[a]).0@ != (#[trigger] dirs@[b]).0@ by {
                        assert(ds[a].0@ != ds[b].0@);
                    }
                    assert forall|q: int| 0 <= q < ds.len() implies if (#[trigger] ds[q]).0@ == dir_path@ {
                        dirs@[q].0 == ds[q].0 && dirs@[q].1@ == ds[q].1@.push(file)
                    } else {
                        dirs@[q] == ds[q]
                    } by {
                        if q != j && ds[q].0@ == dir_path@ {
                            if q < j {
                                assert(ds[q].0@ != ds[j as int].0@);
                            } else {
                                assert(ds[j as int].0@ != ds[q].0@);
                            }
                        }
                    }
                }
            },
            None => {
                let mut files: Vec<SharedFile> = Vec::new();
                files.push(file);
                dirs.push((dir_path, files));
                proof {
                    assert forall|a: int, b: int| 0 <= a < b < dirs@.len() implies (
                    #[trigger] dirs@[a]).0@ != (#[trigger] dirs@[b]).0@ by {
                        if b < ds.len() {
                            assert(ds[a].0@ != ds[b].0@);
                        } else {
                            assert(dirs@[a] == ds[a]);
                        }
                    }
                }
            },
        }
        self.files_by_path = files;
        self.directories = dirs;
    }

    /// Sets the statistics once a scan is done: the numbers of files and of
    /// folders, the total size, and the time of the scan.
    pub fn finish_scan(&mut self, total_size: u64, now: Instant)
        ensures
            final(self).files_spec() == old(self).files_spec(),
            final(self).dirs_spec() == old(self).dirs_spec(),
            final(self).stats_spec().total_files == old(self).files_spec().len(),
            final(self).stats_spec().total_folders == old(self).dirs_spec().len(),
            final(self).stats_spec().total_size == total_size,
            final(self).stats_spec().last_indexed == Some(now),
    {
        proof {
            use_type_invariant(&*self);
        }
        self.stats = ShareStats {
            total_files: self.files_by_path.len() as u64,
            total_folders: self.directories.len() as u64,
            last_indexed: Some(now),
            total_size,
        };
    }

    /// Searches for files: every word of the lowercased query must occur in
    /// the file's lowercased virtual path; an empty query finds nothing.
    /// Files come in index order.
    pub fn search(&self, query: &str) -> (r: Vec<&SharedFile>)
        ensures
            search_terms(query@).len() == 0 ==> r@.len() == 0,
            search_terms(query@).len() > 0 ==> r@.map_values(|f: &SharedFile| *f)
                == self.files_spec().filter(|f: SharedFile| matches_terms(f, search_terms(query@))),
    {
        let lq = to_lowercase(query);
        let terms = words(chars_of(lq.as_str()).as_slice(), CharSet::WhiteSpace);
        let ghost tv = views(terms@);
        assert(tv == search_terms(query@));
        let mut r: Vec<&SharedFile> = Vec::new();
        if terms.len() == 0 {
            return r;
        }
        let ghost pred = |f: SharedFile| matches_terms(f, tv);
        let ghost fs = self.files_by_path@;
        let mut i: usize = 0;
        while i < self.files_by_path.len()
            invariant
                fs == self.files_by_path@,
                tv == views(terms@),
                pred == (|f: SharedFile| matches_terms(f, tv)),
                i <= fs.len(),
                r@.map_values(|f: &SharedFile| *f) == fs.take(i as int).filter(pred),
            decreases fs.len() - i,
        {
            let f = &self.files_by_path[i];
            assert(fs.take(i + 1) =~= fs.take(i as int).push(*f));
            proof {
                fs.take(i as int).lemma_filter_push(*f, pred);
            }
            let lp = to_lowercase(f.virtual_path.as_str());
            let lpc = chars_of(lp.as_str());
            let mut t: usize = 0;
            let mut all = true;
            while t < terms.len() && all
                invariant
                    t <= terms@.len(),
                    tv == views(terms@),
                    lpc@ == lowercase(f.virtual_path@),
                    all ==> forall|q: int| 0 <= q < t ==> contains_seq(lpc@, #[trigger] tv[q]),
                    !all ==> !matches_terms(*f, tv),
                decreases terms@.len() - t,
            {
                assert(tv[t as int] == terms@[t as int]@);
                if !contains_chars(lpc.as_slice(), terms[t].as_slice()) {
                    all = false;
                }
                t = t + 1;
            }
            let ghost before = r@.map_values(|f: &SharedFile| *f);
            if all {
                r.push(f);
                assert(r@.map_values(|f: &SharedFile| *f) =~= before.push(*f));
            }
            i = i + 1;
        }
        assert(fs.take(i as int) =~= fs);
        r
    }

    /// The index as the peer protocol's list of directories: each directory
    /// with its files, each file by its listed name, size, extension and
    /// attributes.
    pub fn to_protocol_directories(&self) -> (r: Vec<ProtocolDirectory>)
        ensures
            r@.len() == self.dirs_spec().len(),
            forall|i: int|
                0 <= i < r@.len() ==> (#[trigger] r@[i]).name == self.dirs_spec()[i].0 && r@[i].files@.len()
                    == self.dirs_spec()[i].1@.len() && forall|k: int|
                    0 <= k < r@[i].files@.len() ==> protocol_file_of(
                        #[trigger] r@[i].files@[k],
                        self.dirs_spec()[i].1@[k],
                    ),
    {
        let mut r: Vec<ProtocolDirectory> = Vec::new();
        let mut i: usize = 0;
        while i < self.directories.len()
            invariant
                i <= self.directories@.len(),
                r@.len() == i,
                forall|q: int|
                    0 <= q < i ==> (#[trigger] r@[q]).name == self.directories@[q].0 && r@[q].files@.len()
                        == self.directories@[q].1@.len() && forall|k: int|
                        0 <= k < r@[q].files@.len() ==> protocol_file_of(
                            #[trigger] r@[q].files@[k],
                            self.directories@[q].1@[k],
                        ),
            decreases self.directories@.len() - i,
        {
            let d = &self.directories[i];
            let mut files: Vec<ProtocolFile> = Vec::new();
            let mut k: usize = 0;
            while k < d.1.len()
                invariant
                    k <= d.1@.len(),
                    files@.len() == k,
                    forall|q: int| 0 <= q < k ==> protocol_file_of(#[trigger] files@[q], d.1@[q]),
                decreases d.1@.len() - k,
            {
                let f = &d.1[k];
                let vp = chars_of(f.virtual_path.as_str());
                let name = match rfind_set(vp.as_slice(), CharSet::Single('\\')) {
                    Some(p) => {
                        let t = slice_chars(vp.as_slice(), p + 1, vp.len());
                        assert(t@ =~= vp@.skip(p + 1));
                        string_of(t.as_slice())
                    },
                    None => string_of(vp.as_slice()),
                };
                files.push(ProtocolFile {
                    name,
                    size: f.size,
                    extension: f.extension.clone(),
                    attributes: f.attributes.to_protocol_attributes(),
                });
                k = k + 1;
            }
            r.push(ProtocolDirectory { name: d.0.clone(), files });
            i = i + 1;
        }
        r
    }

    /// The statistics.
    pub fn stats(&self) -> (r: &ShareStats)
        ensures
            *r == self.stats_spec(),
    {
        &self.stats
    }

    /// The number of shared files.
    pub fn file_count(&self) -> (r: u64)
        ensures
            r == self.stats_spec().total_files,
    {
        self.stats.total_files
    }

    /// The number of shared folders.
    pub fn folder_count(&self) -> (r: u64)
        ensures
            r == self.stats_spec().total_folders,
    {
        self.stats.total_folders
    }
}

// ---------------------------------------------------------------------------
// Browsing another user's shares
// ---------------------------------------------------------------------------

/// The browse entry of a shared file: its name after the last `/` or `\`,
/// its full path, size and lowercased extension (from the protocol, else
/// from the name), and its bitrate and duration attributes.
pub open spec fn browsed_file_of(b: BrowsedFile, f: ProtocolFile) -> bool {
    let name = crate::api::music::last_component(f.name@);
    &&& b.name@ == name
    &&& b.full_path == f.name && b.size == f.size
    &&& b.extension@ == (if f.extension@.len() > 0 {
        lowercase(f.extension@)
    } else {
        lowercase(after_last_dot(name))
    })
    &&& b.bitrate == attribute_at(f.attributes@, 0)
    &&& b.duration == attribute_at(f.attributes@, 1)
}

fn browsed_file(f: ProtocolFile) -> (b: BrowsedFile)
    ensures
        browsed_file_of(b, f),
{
    let name = crate::api::music::soulseek_file_name(f.name.as_str());
    let extension = if !f.extension.as_str().is_empty() {
        to_lowercase(f.extension.as_str())
    } else {
        let nc = chars_of(name.as_str());
        match rfind_set(nc.as_slice(), CharSet::Single('.')) {
            Some(i) => {
                let t = slice_chars(nc.as_slice(), i + 1, nc.len());
                assert(t@ =~= nc@.skip(i + 1));
                to_lowercase(string_of(t.as_slice()).as_str())
            },
            None => to_lowercase(name.as_str()),
        }
    };
    let bitrate = attribute_value(f.attributes.as_slice(), 0);
    let duration = attribute_value(f.attributes.as_slice(), 1);
    BrowsedFile { name, full_path: f.name, size: f.size, extension, bitrate, duration }
}

/// Converts the directories a peer shares into browse entries, in order.
pub fn convert_shared_directories(dirs: Vec<ProtocolDirectory>) -> (r: Vec<BrowsedDirectory>)
    ensures
        r@.len() == dirs@.len(),
        forall|i: int|
            0 <= i < r@.len() ==> (#[trigger] r@[i]).path == dirs@[i].name && r@[i].files@.len()
                == dirs@[i].files@.len() && r@[i].file_count == r@[i].files@.len() && forall|k: int|
                0 <= k < r@[i].files@.len() ==> browsed_file_of(
                    #[trigger] r@[i].files@[k],
                    dirs@[i].files@[k],
                ),
{
    let ghost all = dirs@;
    let mut rest = dirs;
    let n = rest.len();
    let mut r: Vec<BrowsedDirectory> = Vec::new();
    let mut i: usize = 0;
    assert(all.skip(0) =~= all);
    while rest.len() > 0
        invariant
            n == all.len(),
            rest@.len() + i == n,
            rest@ == all.skip(i as int),
            r@.len() == i,
            forall|q: int|
                0 <= q < i ==> (#[trigger] r@[q]).path == all[q].name && r@[q].files@.len()
                    == all[q].files@.len() && r@[q].file_count == r@[q].files@.len() && forall|k: int|
                    0 <= k < r@[q].files@.len() ==> browsed_file_of(
                        #[trigger] r@[q].files@[k],
                        all[q].files@[k],
                    ),
        decreases rest.len(),
    {
        let d = rest.remove(0);
        assert(d == all[i as int]);
        assert(rest@ =~= all.skip(i + 1));
        let ghost fs = d.files@;
        let mut files_in = d.files;
        let m = files_in.len();
        let mut out: Vec<BrowsedFile> = Vec::new();
        let mut k: usize = 0;
        assert(fs.skip(0) =~= fs);
        while files_in.len() > 0
            invariant
                m == fs.len(),
                files_in@.len() + k == m,
                files_in@ == fs.skip(k as int),
                out@.len() == k,
                forall|q: int| 0 <= q < k ==> browsed_file_of(#[trigger] out@[q], fs[q]),
            decreases files_in.len(),
        {
            let f = files_in.remove(0);
            assert(f == fs[k as int]);
            assert(files_in@ =~= fs.skip(k + 1));
            out.push(browsed_file(f));
            k = k + 1;
        }
        let count = out.len();
        r.push(BrowsedDirectory { path: d.name, file_count: count, files: out });
        i = i + 1;
    }
    r
}

// ---------------------------------------------------------------------------
// Peer message framing
// ---------------------------------------------------------------------------

/// The little-endian 32-bit number in four bytes.
pub open spec fn le_u32(b0: u8, b1: u8, b2: u8, b3: u8) -> nat {
    b0 as nat + b1 as nat * 256 + b2 as nat * 65536 + b3 as nat * 16777216
}

/// A complete peer message at the front of a buffer: its length in bytes
/// (the 4-byte length prefix included) and its message code.
pub struct PeerFrame {
    pub total_len: u64,
    pub code: u32,
}

/// Finds the complete peer message at the front of a buffer: a buffer
/// holds one when it has the 8 header bytes (length, code) and all the
/// bytes its length prefix announces after the prefix.
pub fn next_peer_frame(buffer: &[u8]) -> (r: Option<PeerFrame>)
    ensures
        buffer@.len() < 8 ==> r is None,
        buffer@.len() >= 8 ==> {
            let msg_len = le_u32(buffer@[0], buffer@[1], buffer@[2], buffer@[3]);
            if buffer@.len() < 4 + msg_len {
                r is None
            } else {
                r matches Some(f) && f.total_len == 4 + msg_len && f.code == le_u32(
                    buffer@[4],
                    buffer@[5],
                    buffer@[6],
                    buffer@[7],
                )
            }
        },
{
    if buffer.len() < 8 {
        return None;
    }
    let msg_len: u64 = buffer[0] as u64 + buffer[1] as u64 * 256 + buffer[2] as u64 * 65536
        + buffer[3] as u64 * 16777216;
    if (buffer.len() as u64) < 4 + msg_len {
        return None;
    }
    let code: u32 = buffer[4] as u32 + buffer[5] as u32 * 256 + buffer[6] as u32 * 65536
        + buffer[7] as u32 * 16777216;
    Some(PeerFrame { total_len: 4 + msg_len, code })
}

// ---------------------------------------------------------------------------
// Events
// ---------------------------------------------------------------------------

/// Event emitted by the Soulseek engine for status updates and progress
/// tracking.
pub enum SoulseekEvent {
    /// Successfully connected to the Soulseek server.
    Connected,
    /// Disconnected from the Soulseek server.
    Disconnected { reason: String },
    /// Login attempt failed.
    LoginFailed { reason: String },
    /// Received search results from a peer.
    SearchResult {
        ticket: u32,
        username: String,
        files: Vec<FileResult>,
        has_free_slot: bool,
        average_speed: u32,
        queue_length: u32,
    },
    /// Search completed (no more results expected).
    SearchComplete { ticket: u32 },
    /// A download has been queued.
    DownloadQueued { id: String, username: String, filename: String },
    /// A download has started transferring.
    DownloadStarted { id: String },
    /// Download progress update.
    DownloadProgress { id: String, progress: u64, total: u64, speed: u64 },
    /// Download completed successfully.
    DownloadComplete { id: String, path: PathBuf },
    /// Download failed with an error.
    DownloadFailed { id: String, error: String },
}


// ---------------------------------------------------------------------------
// Answering the server
// ---------------------------------------------------------------------------

/// A message from the Soulseek server, as far as the engine acts on it.
pub enum ServerMessage {
    /// The login was accepted.
    LoginSucceeded,
    /// The login was refused, with the server's reason.
    LoginRefused { reason: String },
    /// The server closed our session.
    Kicked,
    /// The address of a peer we asked for.
    PeerAddress { username: String, ip: (u8, u8, u8, u8), port: u32 },
    /// Any other message; it is only logged.
    Other,
}

/// What the engine does in answer to a server message, in order.
pub enum EngineAction {
    /// Send our online status (2: online).
    SetOnlineStatus(u32),
    /// Send the port we listen on for peers.
    SetListenPort(u32),
    /// Broadcast an event.
    Emit(SoulseekEvent),
    /// Hand a peer's address to whoever asked for it.
    CompletePeerAddress { username: String, ip: (u8, u8, u8, u8), port: u32 },
}

/// The engine's answer to a server message: the new value of its connected
/// flag, if it changes; the actions to take; and the error to report, if
/// any.
pub struct MessageOutcome {
    pub connected: Option<bool>,
    pub actions: Vec<EngineAction>,
    pub error: Option<AppError>,
}

/// How the engine answers a server message: a successful login connects
/// it, announces the connection, and sends the online status and the
/// listening port; a refused login is announced and reported as
/// unauthorized; being kicked disconnects it; a peer's address is handed
/// on; anything else changes nothing.
pub fn on_server_message(listen_port: u16, message: ServerMessage) -> (r: MessageOutcome)
    ensures
        match message {
            ServerMessage::LoginSucceeded => {
                &&& r.connected == Some(true)
                &&& r.error is None
                &&& r.actions@ == seq![
                    EngineAction::Emit(SoulseekEvent::Connected),
                    EngineAction::SetOnlineStatus(2),
                    EngineAction::SetListenPort(listen_port as u32),
                ]
            },
            ServerMessage::LoginRefused { reason } => {
                &&& r.connected is None
                &&& r.error == Some(AppError::Unauthorized)
                &&& r.actions@ == seq![EngineAction::Emit(SoulseekEvent::LoginFailed { reason })]
            },
            ServerMessage::Kicked => {
                &&& r.connected == Some(false)
                &&& r.error is None
                &&& r.actions@.len() == 1
                &&& r.actions@[0] matches EngineAction::Emit(SoulseekEvent::Disconnected { reason })
                    && reason@ == "Kicked from server"@
            },
            ServerMessage::PeerAddress { username, ip, port } => {
                &&& r.connected is None
                &&& r.error is None
                &&& r.actions@ == seq![EngineAction::CompletePeerAddress { username, ip, port }]
            },
            ServerMessage::Other => r.connected is None && r.error is None && r.actions@.len() == 0,
        },
{
    match message {
        ServerMessage::LoginSucceeded => {
            let actions = vec![
                EngineAction::Emit(SoulseekEvent::Connected),
                EngineAction::SetOnlineStatus(2),
                EngineAction::SetListenPort(listen_port as u32),
            ];
            MessageOutcome { connected: Some(true), actions, error: None }
        },
        ServerMessage::LoginRefused { reason } => MessageOutcome {
            connected: None,
            actions: vec![EngineAction::Emit(SoulseekEvent::LoginFailed { reason })],
            error: Some(AppError::Unauthorized),
        },
        ServerMessage::Kicked => MessageOutcome {
            connected: Some(false),
            actions: vec![
                EngineAction::Emit(
                    SoulseekEvent::Disconnected { reason: "Kicked from server".to_owned() },
                ),
            ],
            error: None,
        },
        ServerMessage::PeerAddress { username, ip, port } => MessageOutcome {
            connected: None,
            actions: vec![EngineAction::CompletePeerAddress { username, ip, port }],
            error: None,
        },
        ServerMessage::Other => MessageOutcome { connected: None, actions: Vec::new(), error: None },
    }
}

/// How the engine answers the end of its server connection: it is
/// disconnected and says so.
pub fn on_connection_closed() -> (r: MessageOutcome)
    ensures
        r.connected == Some(false),
        r.error is None,
        r.actions@.len() == 1,
        r.actions@[0] matches EngineAction::Emit(SoulseekEvent::Disconnected { reason }) && reason@
            == "Connection closed"@,
{
    MessageOutcome {
        connected: Some(false),
        actions: vec![
            EngineAction::Emit(SoulseekEvent::Disconnected { reason: "Connection closed".to_owned() }),
        ],
        error: None,
    }
}

// ---------------------------------------------------------------------------
// Answering peers
// ---------------------------------------------------------------------------

/// The answer to a peer's transfer request.
pub enum TransferAnswer {
    /// The upload may start now.
    Allowed { ticket: u32, file_size: u64 },
    /// The upload does not start now, for the reason given.
    Rejected { ticket: u32, reason: String },
}

/// The reason a queued upload is given: its place in the queue, the first
/// when the queue does not know it.
pub open spec fn queued_reason(queue_position: Option<u32>) -> Seq<char> {
    "Queued (position "@ + int_display(
        match queue_position {
            Some(p) => p as int,
            None => 1,
        },
    ) + ")"@
}

/// How a peer's request for a shared file is answered: a file we do not
/// share is refused; a shared file is allowed when an upload slot is free,
/// and otherwise waits in the queue, the answer giving its place (the first
/// when the queue does not know it). The file's size is given by the share
/// lookup; the queue's state by the caller.
pub fn transfer_answer(
    ticket: u32,
    shared_size: Option<u64>,
    free_slot: bool,
    queue_position: Option<u32>,
) -> (r: TransferAnswer)
    ensures
        shared_size is None ==> (r matches TransferAnswer::Rejected { ticket: t, reason } && t == ticket
            && reason@ == "File not shared"@),
        shared_size is Some && free_slot ==> (r == (TransferAnswer::Allowed {
            ticket,
            file_size: shared_size->0,
        })),
        shared_size is Some && !free_slot ==> (r matches TransferAnswer::Rejected { ticket: t, reason }
            && t == ticket && reason@ == queued_reason(queue_position)),
{
    match shared_size {
        None => TransferAnswer::Rejected { ticket, reason: "File not shared".to_owned() },
        Some(size) => {
            if free_slot {
                TransferAnswer::Allowed { ticket, file_size: size }
            } else {
                let position: u32 = match queue_position {
                    Some(p) => p,
                    None => 1,
                };
                let mut m = chars_of("Queued (position ");
                append_chars(&mut m, i64_to_chars(position as i64).as_slice());
                append_chars(&mut m, chars_of(")").as_slice());
                TransferAnswer::Rejected { ticket, reason: string_of(m.as_slice()) }
            }
        },
    }
}

// ---------------------------------------------------------------------------
// The engine's searches and downloads
// ---------------------------------------------------------------------------

/// The tickets of a list of searches are distinct.
pub open spec fn distinct_tickets(s: Seq<SearchState>) -> bool {
    forall|a: int, b: int| 0 <= a < b < s.len() ==> (#[trigger] s[a]).ticket != (#[trigger] s[b]).ticket
}

/// The ids of a list of downloads are distinct.
pub open spec fn distinct_ids(s: Seq<DownloadState>) -> bool {
    forall|a: int, b: int| 0 <= a < b < s.len() ==> (#[trigger] s[a]).id@ != (#[trigger] s[b]).id@
}

/// Whether a search with ticket `t` is listed.
pub open spec fn has_ticket(s: Seq<SearchState>, t: u32) -> bool {
    exists|i: int| 0 <= i < s.len() && (#[trigger] s[i]).ticket == t
}

/// Whether a download with id `k` is listed.
pub open spec fn has_id(s: Seq<DownloadState>, k: Seq<char>) -> bool {
    exists|i: int| 0 <= i < s.len() && (#[trigger] s[i]).id@ == k
}

/// Whether a download is under way: connecting, queued or downloading.
pub open spec fn download_active(d: DownloadState) -> bool {
    d.status == DownloadStatus::Connecting || d.status == DownloadStatus::Queued || d.status
        == DownloadStatus::Downloading
}

/// The searches after `s` was recorded: `s` in place of the search with its
/// ticket, or appended.
pub open spec fn searches_after_start(before: Seq<SearchState>, after: Seq<SearchState>, s: SearchState) -> bool {
    if has_ticket(before, s.ticket) {
        &&& after.len() == before.len()
        &&& forall|j: int|
            0 <= j < before.len() ==> #[trigger] after[j] == if before[j].ticket == s.ticket {
                s
            } else {
                before[j]
            }
    } else {
        after == before.push(s)
    }
}

/// A started search can be looked up by its ticket: after recording `s`,
/// `s` is listed, it is the only search with its ticket, and every other
/// ticket is listed exactly when it was before.
pub proof fn lemma_started_search_is_found(before: Seq<SearchState>, after: Seq<SearchState>, s: SearchState)
    requires
        distinct_tickets(before),
        searches_after_start(before, after, s),
    ensures
        after.contains(s),
        forall|i: int| 0 <= i < after.len() && (#[trigger] after[i]).ticket == s.ticket ==> after[i] == s,
        forall|t: u32| t != s.ticket ==> (has_ticket(after, t) <==> has_ticket(before, t)),
{
    if has_ticket(before, s.ticket) {
        let i = choose|i: int| 0 <= i < before.len() && (#[trigger] before[i]).ticket == s.ticket;
        assert(after[i] == s);
        assert forall|t: u32| t != s.ticket implies (has_ticket(after, t) <==> has_ticket(before, t)) by {
            if has_ticket(after, t) {
                let j = choose|j: int| 0 <= j < after.len() && (#[trigger] after[j]).ticket == t;
                assert(before[j].ticket == t);
            }
            if has_ticket(before, t) {
                let j = choose|j: int| 0 <= j < before.len() && (#[trigger] before[j]).ticket == t;
                assert(after[j].ticket == t);
            }
        }
    } else {
        assert(after[before.len() as int] == s);
        assert forall|i: int| 0 <= i < after.len() && (#[trigger] after[i]).ticket == s.ticket implies after[i]
            == s by {
            if i < before.len() {
                assert(before[i].ticket == s.ticket);
            }
        }
        assert forall|t: u32| t != s.ticket implies (has_ticket(after, t) <==> has_ticket(before, t)) by {
            if has_ticket(after, t) {
                let j = choose|j: int| 0 <= j < after.len() && (#[trigger] after[j]).ticket == t;
                assert(j < before.len());
                assert(before[j].ticket == t);
            }
            if has_ticket(before, t) {
                let j = choose|j: int| 0 <= j < before.len() && (#[trigger] before[j]).ticket == t;
                assert(after[j].ticket == t);
            }
        }
    }
}

/// A cancelled search is gone: filtering out a ticket leaves no search
/// with it, and keeps every other search.
pub proof fn lemma_cancelled_search_is_gone(before: Seq<SearchState>, t: u32)
    ensures
        !has_ticket(before.filter(|x: SearchState| x.ticket != t), t),
        forall|u: u32| u != t ==> (has_ticket(before.filter(|x: SearchState| x.ticket != t), u)
            <==> has_ticket(before, u)),
{
    let keep = |x: SearchState| x.ticket != t;
    let f = before.filter(keep);
    if has_ticket(f, t) {
        let j = choose|j: int| 0 <= j < f.len() && (#[trigger] f[j]).ticket == t;
        crate::text::lemma_filter_subset(before, keep, f[j]);
    }
    assert forall|u: u32| u != t implies (has_ticket(f, u) <==> has_ticket(before, u)) by {
        if has_ticket(f, u) {
            let j = choose|j: int| 0 <= j < f.len() && (#[trigger] f[j]).ticket == u;
            assert(f.contains(f[j]));
            crate::text::lemma_filter_subset(before, keep, f[j]);
            let k = choose|k: int| 0 <= k < before.len() && before[k] == f[j];
            assert(before[k].ticket == u);
        }
        if has_ticket(before, u) {
            let k = choose|k: int| 0 <= k < before.len() && (#[trigger] before[k]).ticket == u;
            crate::text::lemma_filter_keeps(before, keep, k);
            let j = choose|j: int| 0 <= j < f.len() && f[j] == before[k];
            assert(f[j].ticket == u);
        }
    }
}

/// A search after a peer's results for `ticket` were added: the search
/// with that ticket has them appended; any other search is unchanged.
pub open spec fn results_added(before: SearchState, after: SearchState, ticket: u32, result: SearchResult) -> bool {
    if before.ticket == ticket {
        &&& after.results@ == before.results@.push(result)
        &&& after.query == before.query && after.ticket == before.ticket
        &&& after.complete == before.complete && after.started_at == before.started_at
    } else {
        after == before
    }
}

/// The searches and downloads the Soulseek engine keeps: one search per
/// ticket and one download per id, in the order they were first recorded.
pub struct SoulseekRegistry {
    searches: Vec<SearchState>,
    downloads: Vec<DownloadState>,
}

impl SoulseekRegistry {
    /// Each ticket and each download id is recorded once.
    #[verifier::type_invariant]
    pub closed spec fn wf(&self) -> bool {
        distinct_tickets(self.searches@) && distinct_ids(self.downloads@)
    }

    /// The searches.
    pub closed spec fn searches_spec(&self) -> Seq<SearchState> {
        self.searches@
    }

    /// The downloads.
    pub closed spec fn downloads_spec(&self) -> Seq<DownloadState> {
        self.downloads@
    }

    /// A registry with no searches and no downloads.
    pub fn new() -> (r: Self)
        ensures
            r.searches_spec().len() == 0,
            r.downloads_spec().len() == 0,
    {
        SoulseekRegistry { searches: Vec::new(), downloads: Vec::new() }
    }

    /// Records a search under its ticket, in place of a search with the
    /// same ticket or after the others.
    pub fn start_search(&mut self, search: SearchState)
        ensures
            final(self).downloads_spec() == old(self).downloads_spec(),
            searches_after_start(old(self).searches_spec(), final(self).searches_spec(), search),
    {
        proof {
            use_type_invariant(&*self);
        }
        let mut searches: Vec<SearchState> = Vec::new();
        std::mem::swap(&mut searches, &mut self.searches);
        let ghost before = searches@;
        let t = search.ticket;
        match search_position(&searches, t) {
            Some(j) => {
                searches.set(j, search);
                proof {
                    assert forall|a: int, b: int| 0 <= a < b < searches@.len() implies (
                    #[trigger] searches@[a]).ticket != (#[trigger] searches@[b]).ticket by {
                        assert(before[a].ticket != before[b].ticket);
                    }
                    assert forall|q: int| 0 <= q < before.len() implies #[trigger] searches@[q] == if before[q].ticket == t {
                        searches@[j as int]
                    } else {
                        before[q]
                    } by {
                        if q != j && before[q].ticket == t {
                            if q < j {
                                assert(before[q].ticket != before[j as int].ticket);
                            } else {
                                assert(before[j as int].ticket != before[q].ticket);
                            }
                        }
                    }
                }
            },
            None => {
                searches.push(search);
                proof {
                    assert forall|a: int, b: int| 0 <= a < b < searches@.len() implies (
                    #[trigger] searches@[a]).ticket != (#[trigger] searches@[b]).ticket by {
                        if b < before.len() {
                            assert(before[a].ticket != before[b].ticket);
                        } else {
                            assert(searches@[a] == before[a]);
                        }
                    }
                }
            },
        }
        self.searches = searches;
    }

    /// The search with the given ticket, if any.
    pub fn search(&self, ticket: u32) -> (r: Option<&SearchState>)
        ensures
            r matches Some(s) ==> self.searches_spec().contains(*s) && s.ticket == ticket,
            r is None ==> !has_ticket(self.searches_spec(), ticket),
    {
        match search_position(&self.searches, ticket) {
            Some(j) => {
                assert(self.searches@.contains(self.searches@[j as int]));
                Some(&self.searches[j])
            },
            None => None,
        }
    }

    /// Adds a peer's results to the search with the given ticket; tells
    /// whether there is such a search (results for an unknown ticket are
    /// dropped).
    pub fn add_search_results(&mut self, ticket: u32, result: SearchResult) -> (found: bool)
        ensures
            found == has_ticket(old(self).searches_spec(), ticket),
            final(self).downloads_spec() == old(self).downloads_spec(),
            final(self).searches_spec().len() == old(self).searches_spec().len(),
            forall|j: int|
                0 <= j < old(self).searches_spec().len() ==> results_added(
                    old(self).searches_spec()[j],
                    #[trigger] final(self).searches_spec()[j],
                    ticket,
                    result,
                ),
    {
        proof {
            use_type_invariant(&*self);
        }
        let mut searches: Vec<SearchState> = Vec::new();
        std::mem::swap(&mut searches, &mut self.searches);
        let ghost before = searches@;
        let found = match search_position(&searches, ticket) {
            Some(j) => {
                let mut s = searches.remove(j);
                s.add_results(result);
                searches.insert(j, s);
                true
            },
            None => false,
        };
        self.searches = searches;
        found
    }

    /// Forgets the search with the given ticket.
    pub fn cancel_search(&mut self, ticket: u32) -> (r: Result<(), AppError>)
        ensures
            final(self).downloads_spec() == old(self).downloads_spec(),
            has_ticket(old(self).searches_spec(), ticket) ==> r is Ok && final(self).searches_spec()
                == old(self).searches_spec().filter(|x: SearchState| x.ticket != ticket),
            !has_ticket(old(self).searches_spec(), ticket) ==> (r matches Err(AppError::NotFound(m))
                && m@ == "Search with ticket "@ + int_display(ticket as int) + " not found"@)
                && final(self).searches_spec() == old(self).searches_spec(),
    {
        proof {
            use_type_invariant(&*self);
        }
        let mut searches: Vec<SearchState> = Vec::new();
        std::mem::swap(&mut searches, &mut self.searches);
        let ghost before = searches@;
        let r = match search_position(&searches, ticket) {
            Some(j) => {
                searches.remove(j);
                proof {
                    lemma_remove_only_match(before, j as int, ticket);
                }
                Ok(())
            },
            None => {
                let mut m = chars_of("Search with ticket ");
                append_chars(&mut m, i64_to_chars(ticket as i64).as_slice());
                append_chars(&mut m, chars_of(" not found").as_slice());
                Err(AppError::NotFound(string_of(m.as_slice())))
            },
        };
        self.searches = searches;
        r
    }

    /// Records a download under its id, in place of a download with the
    /// same id or after the others.
    pub fn add_download(&mut self, download: DownloadState)
        ensures
            final(self).searches_spec() == old(self).searches_spec(),
            has_id(old(self).downloads_spec(), download.id@) ==> {
                &&& final(self).downloads_spec().len() == old(self).downloads_spec().len()
                &&& forall|j: int|
                    0 <= j < old(self).downloads_spec().len() ==> #[trigger] final(self).downloads_spec()[j]
                        == if old(self).downloads_spec()[j].id@ == download.id@ {
                        download
                    } else {
                        old(self).downloads_spec()[j]
                    }
            },
            !has_id(old(self).downloads_spec(), download.id@) ==> final(self).downloads_spec()
                == old(self).downloads_spec().push(download),
    {
        proof {
            use_type_invariant(&*self);
        }
        let mut downloads: Vec<DownloadState> = Vec::new();
        std::mem::swap(&mut downloads, &mut self.downloads);
        let ghost before = downloads@;
        let key = chars_of(download.id.as_str());
        match download_position(&downloads, key.as_slice()) {
            Some(j) => {
                downloads.set(j, download);
                proof {
                    assert forall|a: int, b: int| 0 <= a < b < downloads@.len() implies (
                    #[trigger] downloads@[a]).id@ != (#[trigger] downloads@[b]).id@ by {
                        assert(before[a].id@ != before[b].id@);
                    }
                    assert forall|q: int| 0 <= q < before.len() implies #[trigger] downloads@[q] == if before[q].id@ == key@ {
                        downloads@[j as int]
                    } else {
                        before[q]
                    } by {
                        if q != j && before[q].id@ == key@ {
                            if q < j {
                                assert(before[q].id@ != before[j as int].id@);
                            } else {
                                assert(before[j as int].id@ != before[q].id@);
                            }
                        }
                    }
                }
            },
            None => {
                downloads.push(download);
                proof {
                    assert forall|a: int, b: int| 0 <= a < b < downloads@.len() implies (
                    #[trigger] downloads@[a]).id@ != (#[trigger] downloads@[b]).id@ by {
                        if b < before.len() {
                            assert(before[a].id@ != before[b].id@);
                        } else {
                            assert(downloads@[a] == before[a]);
                        }
                    }
                }
            },
        }
        self.downloads = downloads;
    }

    /// The download with the given id, if any.
    pub fn download(&self, id: &str) -> (r: Option<&DownloadState>)
        ensures
            r matches Some(d) ==> self.downloads_spec().contains(*d) && d.id@ == id@,
            r is None ==> !has_id(self.downloads_spec(), id@),
    {
        let key = chars_of(id);
        match download_position(&self.downloads, key.as_slice()) {
            Some(j) => {
                assert(self.downloads@.contains(self.downloads@[j as int]));
                Some(&self.downloads[j])
            },
            None => None,
        }
    }

    /// All downloads, in the order they were first recorded.
    pub fn downloads(&self) -> (r: &[DownloadState])
        ensures
            r@ == self.downloads_spec(),
    {
        self.downloads.as_slice()
    }

    /// Marks the download with the given id as cancelled.
    pub fn cancel_download(&mut self, id: &str) -> (r: Result<(), AppError>)
        ensures
            final(self).searches_spec() == old(self).searches_spec(),
            final(self).downloads_spec().len() == old(self).downloads_spec().len(),
            has_id(old(self).downloads_spec(), id@) ==> r is Ok,
            !has_id(old(self).downloads_spec(), id@) ==> (r matches Err(AppError::NotFound(m)) && m@
                == "Download with ID "@ + id@ + " not found"@),
            forall|j: int|
                0 <= j < old(self).downloads_spec().len() ==> #[trigger] final(self).downloads_spec()[j]
                    == if old(self).downloads_spec()[j].id@ == id@ {
                    DownloadState { status: DownloadStatus::Cancelled, ..old(self).downloads_spec()[j] }
                } else {
                    old(self).downloads_spec()[j]
                },
    {
        proof {
            use_type_invariant(&*self);
        }
        let mut downloads: Vec<DownloadState> = Vec::new();
        std::mem::swap(&mut downloads, &mut self.downloads);
        let ghost before = downloads@;
        let key = chars_of(id);
        let r = match download_position(&downloads, key.as_slice()) {
            Some(j) => {
                let mut d = downloads.remove(j);
                d.status = DownloadStatus::Cancelled;
                downloads.insert(j, d);
                proof {
                    assert forall|a: int, b: int| 0 <= a < b < downloads@.len() implies (
                    #[trigger] downloads@[a]).id@ != (#[trigger] downloads@[b]).id@ by {
                        assert(before[a].id@ != before[b].id@);
                    }
                    assert forall|q: int| 0 <= q < before.len() implies #[trigger] downloads@[q] == if before[q].id@ == id@ {
                        DownloadState { status: DownloadStatus::Cancelled, ..before[q] }
                    } else {
                        before[q]
                    } by {
                        if q != j && before[q].id@ == id@ {
                            if q < j {
                                assert(before[q].id@ != before[j as int].id@);
                            } else {
                                assert(before[j as int].id@ != before[q].id@);
                            }
                        }
                    }
                }
                Ok(())
            },
            None => {
                let mut m = chars_of("Download with ID ");
                append_chars(&mut m, key.as_slice());
                append_chars(&mut m, chars_of(" not found").as_slice());
                Err(AppError::NotFound(string_of(m.as_slice())))
            },
        };
        self.downloads = downloads;
        r
    }

    /// The engine's statistics: whether it is connected; how many searches
    /// are not complete, how many downloads are under way and how many are
    /// completed; the upload counts as given (active, queued, bytes sent);
    /// and the shared files and folders of the share index.
    pub fn stats(&self, connected: bool, uploads: (usize, usize, u64), shares: &ShareIndex) -> (r:
        SoulseekStats)
        ensures
            r.connected == connected,
            r.active_uploads == uploads.0 && r.queued_uploads == uploads.1,
            r.total_uploaded == uploads.2,
            r.shared_files == shares.stats_spec().total_files,
            r.shared_folders == shares.stats_spec().total_folders,
            r.active_searches == self.searches_spec().filter(|x: SearchState| !x.complete).len(),
            r.active_downloads == self.downloads_spec().filter(|d: DownloadState| download_active(d)).len(),
            r.completed_downloads == self.downloads_spec().filter(
                |d: DownloadState| d.status == DownloadStatus::Completed,
            ).len(),
    {
        let ghost ss = self.searches@;
        let ghost open = |x: SearchState| !x.complete;
        let mut active_searches: usize = 0;
        let mut i: usize = 0;
        while i < self.searches.len()
            invariant
                ss == self.searches@,
                open == (|x: SearchState| !x.complete),
                i <= ss.len(),
                active_searches == ss.take(i as int).filter(open).len(),
                active_searches <= i,
            decreases ss.len() - i,
        {
            proof {
                ss.take(i as int).lemma_filter_push(ss[i as int], open);
                assert(ss.take(i + 1) =~= ss.take(i as int).push(ss[i as int]));
            }
            if !self.searches[i].complete {
                active_searches = active_searches + 1;
            }
            i = i + 1;
        }
        assert(ss.take(ss.len() as int) =~= ss);
        let ghost ds = self.downloads@;
        let ghost busy = |d: DownloadState| download_active(d);
        let ghost done = |d: DownloadState| d.status == DownloadStatus::Completed;
        let mut active_downloads: usize = 0;
        let mut completed_downloads: usize = 0;
        let mut k: usize = 0;
        while k < self.downloads.len()
            invariant
                ds == self.downloads@,
                busy == (|d: DownloadState| download_active(d)),
                done == (|d: DownloadState| d.status == DownloadStatus::Completed),
                k <= ds.len(),
                active_downloads == ds.take(k as int).filter(busy).len(),
                completed_downloads == ds.take(k as int).filter(done).len(),
                active_downloads <= k,
                completed_downloads <= k,
            decreases ds.len() - k,
        {
            proof {
                ds.take(k as int).lemma_filter_push(ds[k as int], busy);
                ds.take(k as int).lemma_filter_push(ds[k as int], done);
                assert(ds.take(k + 1) =~= ds.take(k as int).push(ds[k as int]));
            }
            let st = self.downloads[k].status;
            if st == DownloadStatus::Connecting || st == DownloadStatus::Queued || st == DownloadStatus::Downloading {
                active_downloads = active_downloads + 1;
            }
            if st == DownloadStatus::Completed {
                completed_downloads = completed_downloads + 1;
            }
            k = k + 1;
        }
        assert(ds.take(ds.len() as int) =~= ds);
        SoulseekStats {
            connected,
            active_searches,
            active_downloads,
            completed_downloads,
            active_uploads: uploads.0,
            queued_uploads: uploads.1,
            total_uploaded: uploads.2,
            shared_files: shares.file_count(),
            shared_folders: shares.folder_count(),
        }
    }
}

fn search_position(ss: &Vec<SearchState>, t: u32) -> (r: Option<usize>)
    ensures
        r matches Some(j) ==> j < ss@.len() && ss@[j as int].ticket == t,
        r is None ==> !has_ticket(ss@, t),
{
    let mut i: usize = 0;
    while i < ss.len()
        invariant
            i <= ss@.len(),
            forall|j: int| 0 <= j < i ==> (#[trigger] ss@[j]).ticket != t,
        decreases ss@.len() - i,
    {
        if ss[i].ticket == t {
            return Some(i);
        }
        i = i + 1;
    }
    None
}

fn download_position(ds: &Vec<DownloadState>, k: &[char]) -> (r: Option<usize>)
    ensures
        r matches Some(j) ==> j < ds@.len() && ds@[j as int].id@ == k@,
        r is None ==> !has_id(ds@, k@),
{
    let mut i: usize = 0;
    while i < ds.len()
        invariant
            i <= ds@.len(),
            forall|j: int| 0 <= j < i ==> (#[trigger] ds@[j]).id@ != k@,
        decreases ds@.len() - i,
    {
        if chars_eq(chars_of(ds[i].id.as_str()).as_slice(), k) {
            return Some(i);
        }
        i = i + 1;
    }
    None
}

/// Removing the only search with ticket `t` keeps the others in order.
proof fn lemma_remove_only_match(s: Seq<SearchState>, j: int, t: u32)
    requires
        0 <= j < s.len(),
        s[j].ticket == t,
        distinct_tickets(s),
    ensures
        s.remove(j) == s.filter(|x: SearchState| x.ticket != t),
    decreases s.len(),
{
    let keep = |x: SearchState| x.ticket != t;
    if j == s.len() - 1 {
        assert(s.remove(j) =~= s.drop_last());
        assert(s =~= s.drop_last().push(s.last()));
        s.drop_last().lemma_filter_push(s.last(), keep);
        assert forall|q: int| 0 <= q < s.drop_last().len() implies keep(#[trigger] s.drop_last()[q]) by {
            assert(s[q].ticket != s[j].ticket);
        }
        lemma_filter_all(s.drop_last(), keep);
    } else {
        let init = s.drop_last();
        assert(s =~= init.push(s.last()));
        init.lemma_filter_push(s.last(), keep);
        assert(distinct_tickets(init)) by {
            assert forall|a: int, b: int| 0 <= a < b < init.len() implies (#[trigger] init[a]).ticket != (#[trigger] init[b]).ticket by {
                assert(s[a].ticket != s[b].ticket);
            }
        }
        lemma_remove_only_match(init, j, t);
        assert(s.last().ticket != t) by {
            assert(s[j].ticket != s[s.len() - 1].ticket);
        }
        assert(s.remove(j) =~= init.remove(j).push(s.last()));
    }
}

/// Filtering by a predicate every item meets keeps the sequence.
proof fn lemma_filter_all<A>(s: Seq<A>, p: spec_fn(A) -> bool)
    requires
        forall|q: int| 0 <= q < s.len() ==> p(#[trigger] s[q]),
    ensures
        s.filter(p) == s,
    decreases s.len(),
{
    if s.len() > 0 {
        let init = s.drop_last();
        assert(s =~= init.push(s.last()));
        init.lemma_filter_push(s.last(), p);
        assert forall|q: int| 0 <= q < init.len() implies p(#[trigger] init[q]) by {
            assert(init[q] == s[q]);
        }
        lemma_filter_all(init, p);
    } else {
        assert(s.filter(p) =~= s);
    }
}

} // verus!
