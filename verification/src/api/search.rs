//! The metadata search endpoints' types.

use vstd::prelude::*;

verus! {

/// Query parameters for search.
pub struct SearchQuery {
    /// Search query string.
    pub q: String,
}

/// Query parameters for album search.
pub struct SearchAlbumsQuery {
    /// Search query string.
    pub q: String,
    /// Optional artist MBID to filter results.
    pub artist_mbid: Option<String>,
}

/// MusicBrainz artist search result.
pub struct MbArtistResult {
    pub mbid: String,
    pub name: String,
    pub sort_name: String,
    pub disambiguation: Option<String>,
    pub artist_type: Option<String>,
    pub country: Option<String>,
    pub begin_date: Option<String>,
    pub end_date: Option<String>,
    pub score: Option<u8>,
}

/// MusicBrainz album (release group) search result.
pub struct MbAlbumResult {
    pub mbid: String,
    pub title: String,
    pub primary_type: Option<String>,
    pub secondary_types: Vec<String>,
    pub first_release_date: Option<String>,
    pub artist_name: Option<String>,
    pub artist_mbid: Option<String>,
    pub score: Option<u8>,
}

} // verus!
