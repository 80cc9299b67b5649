use lcars::api::music::{
    artist_exists_error, base_score, calculate_album_status, check_mbid, fts_search_term, new_release_groups, release_to_fetch, release_track_total, ReleaseGroupRef, default_source, new_artist_settings, extract_folder, group_soulseek_results,
    is_audio_extension, is_valid_uuid, page_window, plan_unified_download, soulseek_file_name,
    soulseek_source_uri, sort_albums_by_score, rank_albums, wants_source, DownloadPlan, SoulseekFileDownload,
    UnifiedDownloadRequest, UpdateAlbumRequest, UpdateArtistRequest, UpdateTrackRequest,
};
use lcars::error::AppError;
use lcars::models::{AlbumStatus, MediaStatus, Track};
use lcars::soulseek::{FileResult, SearchResult};

fn track(status: MediaStatus) -> Track {
    Track {
        id: 1,
        mbid: None,
        album_id: 1,
        artist_id: None,
        title: "t".to_string(),
        track_number: 1,
        disc_number: 1,
        duration_ms: None,
        status,
        monitored: true,
        file_path: None,
        file_size: None,
        audio_format: None,
        bitrate: None,
        sample_rate: None,
        bit_depth: None,
        created_at: String::new(),
        updated_at: String::new(),
    }
}

#[test]
fn album_status_from_tracks() {
    assert_eq!(calculate_album_status(&[]), AlbumStatus::Missing);
    assert_eq!(
        calculate_album_status(&[track(MediaStatus::Missing), track(MediaStatus::Searching)]),
        AlbumStatus::Missing
    );
    assert_eq!(
        calculate_album_status(&[track(MediaStatus::Available), track(MediaStatus::Available)]),
        AlbumStatus::Available
    );
    assert_eq!(
        calculate_album_status(&[track(MediaStatus::Available), track(MediaStatus::Missing)]),
        AlbumStatus::Partial
    );
}

#[test]
fn uuid_format() {
    assert!(is_valid_uuid("5441c29d-3602-4898-b1a1-b77fa23b8e50"));
    assert!(is_valid_uuid("5441C29D-3602-4898-B1A1-B77FA23B8E50"));
    assert!(!is_valid_uuid("5441c29d-3602-4898-b1a1-b77fa23b8e5"));
    assert!(!is_valid_uuid("5441c29d03602-4898-b1a1-b77fa23b8e50"));
    assert!(!is_valid_uuid("5441c29d-3602-4898-b1a1-b77fa23b8e5g"));
    assert!(!is_valid_uuid(""));
}

#[test]
fn folders_and_extensions() {
    assert_eq!(extract_folder("Music\\Artist\\Album\\01.flac"), "Music/Artist/Album");
    assert_eq!(extract_folder("a/b/c.mp3"), "a/b");
    assert_eq!(extract_folder("song.mp3"), "");
    assert!(is_audio_extension("FLAC"));
    assert!(is_audio_extension("m4a"));
    assert!(!is_audio_extension("txt"));
    assert!(!is_audio_extension("jpg"));
}

#[test]
fn paging() {
    assert_eq!(page_window(None, None), (1, 20, 0));
    assert_eq!(page_window(Some(0), Some(0)), (1, 1, 0));
    assert_eq!(page_window(Some(3), Some(500)), (3, 100, 200));
    assert_eq!(page_window(Some(u32::MAX), Some(100)), (u32::MAX, 100, u32::MAX));
}

#[test]
fn unified_download_checks() {
    let req = |source: &str, magnet: Option<&str>, username: Option<&str>, files: Option<Vec<SoulseekFileDownload>>| UnifiedDownloadRequest {
        source: source.to_string(),
        magnet: magnet.map(|m| m.to_string()),
        username: username.map(|u| u.to_string()),
        files,
    };
    assert_eq!(default_source(), "torrent");
    match plan_unified_download(req("torrent", Some("magnet:?xt=abc"), None, None)) {
        Ok(DownloadPlan::Torrent { magnet }) => assert_eq!(magnet, "magnet:?xt=abc"),
        _ => panic!("expected a torrent plan"),
    }
    match plan_unified_download(req("torrent", Some("http://x"), None, None)) {
        Err(AppError::BadRequest(m)) => assert_eq!(m, "Invalid magnet link format"),
        _ => panic!("expected a bad request"),
    }
    match plan_unified_download(req("torrent", None, None, None)) {
        Err(AppError::BadRequest(m)) => assert_eq!(m, "Magnet link required for torrent downloads"),
        _ => panic!("expected a bad request"),
    }
    match plan_unified_download(req("soulseek", None, Some("bob"), Some(vec![]))) {
        Err(AppError::BadRequest(m)) => assert_eq!(m, "At least one file required for download"),
        _ => panic!("expected a bad request"),
    }
    match plan_unified_download(req("soulseek", None, None, None)) {
        Err(AppError::BadRequest(m)) => assert_eq!(m, "Username required for Soulseek downloads"),
        _ => panic!("expected a bad request"),
    }
    let files = vec![SoulseekFileDownload { filename: "a\\b.flac".to_string(), size: 3 }];
    match plan_unified_download(req("soulseek", None, Some("bob"), Some(files))) {
        Ok(DownloadPlan::Soulseek { username, files }) => {
            assert_eq!(username, "bob");
            assert_eq!(files.len(), 1);
        }
        _ => panic!("expected a soulseek plan"),
    }
    match plan_unified_download(req("ftp", None, None, None)) {
        Err(AppError::BadRequest(m)) => {
            assert_eq!(m, "Invalid source: ftp. Must be 'torrent' or 'soulseek'")
        }
        _ => panic!("expected a bad request"),
    }
}

#[test]
fn soulseek_names() {
    assert_eq!(soulseek_source_uri("bob", "a\\b.flac"), "soulseek://bob/a\\b.flac");
    assert_eq!(soulseek_file_name("Music\\Artist/01.flac"), "01.flac");
    assert_eq!(soulseek_file_name("plain.mp3"), "plain.mp3");
    let s = vec!["indexers".to_string()];
    assert!(wants_source(&s, "indexers"));
    assert!(!wants_source(&s, "soulseek"));
    assert!(wants_source(&["all".to_string()], "soulseek"));
}

fn file(name: &str, ext: &str, bitrate: Option<u32>) -> FileResult {
    FileResult {
        filename: name.to_string(),
        size: 10,
        extension: ext.to_string(),
        bitrate,
        duration: None,
        sample_rate: None,
        bit_depth: None,
    }
}

#[test]
fn soulseek_albums_grouped_by_peer_and_folder() {
    let results = vec![
        SearchResult {
            username: "alice".to_string(),
            files: vec![
                file("Music\\A\\01.flac", "flac", Some(900)),
                file("Music\\A\\02.FLAC", "FLAC", Some(1100)),
                file("Music\\A\\cover.jpg", "jpg", None),
                file("Music\\B\\notes.txt", "txt", None),
            ],
            has_free_slot: true,
            average_speed: 100,
            queue_length: 2,
        },
        SearchResult {
            username: "bob".to_string(),
            files: vec![file("x/1.mp3", "mp3", None), file("x/2.mp3", "mp3", None)],
            has_free_slot: false,
            average_speed: 5,
            queue_length: 9,
        },
    ];
    let albums = group_soulseek_results(&results);
    assert_eq!(albums.len(), 2);
    assert_eq!(albums[0].username, "alice");
    assert_eq!(albums[0].folder, "Music/A");
    assert_eq!(albums[0].files.len(), 2);
    assert_eq!(albums[0].quality.format, "flac");
    assert_eq!(albums[0].quality.bitrate, 1000);
    assert_eq!(albums[0].source, "soulseek");
    assert!(albums[0].user_slots_free);
    assert_eq!(albums[1].username, "bob");
    assert_eq!(albums[1].quality.format, "mp3");
    assert_eq!(albums[1].quality.bitrate, 320);
    assert_eq!(albums[1].queue_length, 9);

    let mut scored = albums;
    scored[1].score = 50;
    scored[0].score = 10;
    let sorted = sort_albums_by_score(scored);
    assert_eq!(sorted[0].username, "bob");
    assert_eq!(sorted[1].username, "alice");
}

#[test]
fn add_artist_checks_the_mbid() {
    assert_eq!(
        check_mbid("  5b11f4ce-a62d-471e-81fc-a69a8278c7da ").ok(),
        Some("5b11f4ce-a62d-471e-81fc-a69a8278c7da".to_string())
    );
    match check_mbid("   ") {
        Err(AppError::BadRequest(m)) => assert_eq!(m, "MusicBrainz ID is required"),
        _ => panic!("blank id accepted"),
    }
    match check_mbid("not-a-uuid") {
        Err(AppError::BadRequest(m)) => {
            assert_eq!(m, "Invalid MusicBrainz ID format (must be UUID)")
        }
        _ => panic!("malformed id accepted"),
    }
}

#[test]
fn duplicate_artist_message_names_the_mbid() {
    match artist_exists_error("abc") {
        AppError::BadRequest(m) => assert_eq!(m, "Artist with MusicBrainz ID abc already exists"),
        _ => panic!("wrong variant"),
    }
}

#[test]
fn new_artist_defaults_to_monitored_flac() {
    assert_eq!(new_artist_settings(None, None), (true, "flac".to_string()));
    assert_eq!(
        new_artist_settings(Some(false), Some("mp3".to_string())),
        (false, "mp3".to_string())
    );
}

fn quality_prefs(formats: &[&str], min_bitrate: u32) -> lcars::config::MusicQualityConfig {
    lcars::config::MusicQualityConfig {
        preferred_formats: formats.iter().map(|f| f.to_string()).collect(),
        min_bitrate,
        prefer_complete_albums: true,
    }
}

#[test]
fn album_base_score_adds_whole_bonuses() {
    let prefs = quality_prefs(&["flac", "MP3"], 256);
    assert_eq!(base_score("FLAC", 900, true, &prefs), 100 + 50 + 25 + 20);
    assert_eq!(base_score("mp3", 128, false, &prefs), 80);
    assert_eq!(base_score("mp", 320, false, &prefs), 80 + 25);
    assert_eq!(base_score("ogg", 320, true, &prefs), 25 + 20);
    assert_eq!(base_score("wav", 0, false, &prefs), 50);
    let many = quality_prefs(&["a", "b", "c", "d", "e", "opus"], 0);
    assert_eq!(base_score("opus", 0, false, &many), 20 + 25);
}

#[test]
fn music_updates_need_a_field() {
    assert!(UpdateArtistRequest { monitored: None, quality_limit: None }.check().is_err());
    assert!(UpdateArtistRequest { monitored: Some(true), quality_limit: None }.check().is_ok());
    assert!(matches!(
        UpdateAlbumRequest { monitored: None, quality_limit: None }.check(),
        Err(AppError::BadRequest(m)) if m == "No fields to update"
    ));
    assert!(UpdateAlbumRequest { monitored: None, quality_limit: Some("flac".to_string()) }.check().is_ok());
    assert!(UpdateTrackRequest { monitored: None }.check().is_err());
    assert!(UpdateTrackRequest { monitored: Some(false) }.check().is_ok());
}

#[test]
fn search_text_becomes_a_quoted_prefix_term() {
    assert_eq!(fts_search_term("  beatles "), "\"beatles\"*");
    assert_eq!(fts_search_term(" a\"b "), "\"a\"\"b\"*");
    assert_eq!(fts_search_term(""), "\"\"*");
}

fn group(id: &str, secondary: &[&str]) -> ReleaseGroupRef {
    ReleaseGroupRef {
        id: id.to_string(),
        secondary_types: secondary.iter().map(|s| s.to_string()).collect(),
    }
}

#[test]
fn only_plain_new_release_groups_become_albums() {
    let groups = vec![group("a", &[]), group("b", &["Compilation"]), group("c", &[]), group("d", &["Live"])];
    assert_eq!(new_release_groups(&groups, &[]), vec![true, false, true, false]);
    let existing = vec!["c".to_string()];
    assert_eq!(new_release_groups(&groups, &existing), vec![true, false, false, false]);
    assert!(new_release_groups(&[], &existing).is_empty());
}

#[test]
fn official_release_is_fetched_first() {
    let s = |x: Option<&str>| x.map(|v| v.to_string());
    assert_eq!(release_to_fetch(&[s(Some("Bootleg")), s(None), s(Some("Official")), s(Some("Official"))]), Some(2));
    assert_eq!(release_to_fetch(&[s(Some("Promotion")), s(None)]), Some(0));
    assert_eq!(release_to_fetch(&[]), None);
}

#[test]
fn release_tracks_add_up_over_media() {
    assert_eq!(release_track_total(&[12, 9, 1]), 22);
    assert_eq!(release_track_total(&[]), 0);
}

#[test]
fn grouped_albums_rank_by_whole_score_plus_bonus() {
    let results = vec![
        SearchResult {
            username: "alice".to_string(),
            files: vec![file("A/01.mp3", "mp3", Some(128))],
            has_free_slot: false,
            average_speed: 1,
            queue_length: 0,
        },
        SearchResult {
            username: "bob".to_string(),
            files: vec![file("B/01.flac", "flac", Some(900))],
            has_free_slot: true,
            average_speed: 1,
            queue_length: 0,
        },
    ];
    let prefs = quality_prefs(&["flac", "mp3"], 256);
    let albums = group_soulseek_results(&results);
    let ranked = rank_albums(albums, &[7, 3], &prefs);
    assert_eq!(ranked[0].username, "bob");
    assert_eq!(ranked[0].score, 100 + 50 + 25 + 20 + 3);
    assert_eq!(ranked[1].username, "alice");
    assert_eq!(ranked[1].score, 80 + 7);
    let unbonused = rank_albums(group_soulseek_results(&results), &[], &prefs);
    assert_eq!(unbonused[1].score, 80);
}
