use lcars::api::soulseek::{
    search_results_response, validated_search_query, SearchRequest, SearchResultsQuery,
    StatusResponse,
};
use lcars::soulseek::{
    DownloadState, DownloadStatus, FileAttribute, FileResult, ProtocolFile, SearchResult,
    SearchState,
};
use std::path::PathBuf;

fn file(name: &str, ext: &str, size: u64, bitrate: Option<u32>) -> FileResult {
    FileResult {
        filename: name.to_string(),
        size,
        extension: ext.to_string(),
        bitrate,
        duration: None,
        sample_rate: None,
        bit_depth: None,
    }
}

fn peer(user: &str, files: Vec<FileResult>, free: bool, speed: u32, queue: u32) -> SearchResult {
    SearchResult {
        username: user.to_string(),
        files,
        has_free_slot: free,
        average_speed: speed,
        queue_length: queue,
    }
}

fn empty_query() -> SearchResultsQuery {
    SearchResultsQuery {
        min_bitrate: None,
        extensions: None,
        free_slots_only: None,
        sort_by: None,
        limit: None,
        offset: None,
    }
}

fn sample_search() -> SearchState {
    let mut s = SearchState::new("artist album".to_string(), 7);
    s.add_results(peer(
        "alice",
        vec![
            file("a\\1.flac", "FLAC", 300, Some(900)),
            file("a\\2.mp3", "mp3", 100, Some(320)),
        ],
        true,
        500,
        3,
    ));
    s.add_results(peer("bob", vec![file("b/1.mp3", "mp3", 200, None)], false, 900, 1));
    s
}

#[test]
fn test_search_results_query_defaults() {
    let query = SearchResultsQuery {
        min_bitrate: None,
        extensions: None,
        free_slots_only: None,
        sort_by: None,
        limit: None,
        offset: None,
    };
    assert!(query.min_bitrate.is_none());
    assert!(query.free_slots_only.unwrap_or(false) == false);
}

#[test]
fn status_response_fields() {
    let response = StatusResponse {
        connected: true,
        active_searches: 2,
        active_downloads: 5,
        completed_downloads: 10,
    };
    assert!(response.connected);
    assert_eq!(response.active_searches, 2);
}

#[test]
fn search_state_bookkeeping() {
    let mut s = sample_search();
    assert_eq!(s.total_files(), 3);
    assert!(!s.complete);
    s.mark_complete();
    assert!(s.complete);
    assert_eq!(s.ticket, 7);
}

#[test]
fn results_unfiltered_in_found_order() {
    let s = sample_search();
    let r = search_results_response(7, &s, &empty_query());
    assert_eq!(r.result_count, 3);
    assert_eq!(r.status, "searching");
    assert_eq!(r.query, "artist album");
    let names: Vec<&str> = r.results.iter().map(|f| f.filename.as_str()).collect();
    assert_eq!(names, vec!["a\\1.flac", "a\\2.mp3", "b/1.mp3"]);
    assert_eq!(r.results[2].username, "bob");
    assert_eq!(r.results[2].upload_speed, 900);
}

#[test]
fn results_filtered_and_sorted() {
    let s = sample_search();
    let mut q = empty_query();
    q.min_bitrate = Some(320);
    let r = search_results_response(7, &s, &q);
    assert_eq!(r.result_count, 3);
    assert_eq!(r.results.len(), 2);

    let mut q = empty_query();
    q.extensions = Some(" MP3 , ogg".to_string());
    q.sort_by = Some("size".to_string());
    let r = search_results_response(7, &s, &q);
    let names: Vec<&str> = r.results.iter().map(|f| f.filename.as_str()).collect();
    assert_eq!(names, vec!["b/1.mp3", "a\\2.mp3"]);

    let mut q = empty_query();
    q.sort_by = Some("bitrate".to_string());
    let r = search_results_response(7, &s, &q);
    let names: Vec<&str> = r.results.iter().map(|f| f.filename.as_str()).collect();
    assert_eq!(names, vec!["a\\1.flac", "a\\2.mp3", "b/1.mp3"]);

    let mut q = empty_query();
    q.sort_by = Some("queue".to_string());
    q.free_slots_only = Some(false);
    let r = search_results_response(7, &s, &q);
    assert_eq!(r.results[0].username, "bob");

    let mut q = empty_query();
    q.free_slots_only = Some(true);
    q.offset = Some(1);
    q.limit = Some(5);
    let r = search_results_response(7, &s, &q);
    assert_eq!(r.results.len(), 1);
    assert_eq!(r.results[0].filename, "a\\2.mp3");

    let mut q = empty_query();
    q.offset = Some(10);
    assert!(search_results_response(7, &s, &q).results.is_empty());
}

#[test]
fn empty_search_query_is_refused() {
    let e = validated_search_query(&SearchRequest { query: "   ".to_string() });
    assert!(matches!(e, Err(lcars::error::AppError::BadRequest(_))));
    let ok = validated_search_query(&SearchRequest { query: "  a b ".to_string() });
    assert_eq!(ok.unwrap(), "a b");
}

#[test]
fn protocol_file_attributes() {
    let f = ProtocolFile {
        name: "Music\\Artist\\Song.FLAC".to_string(),
        size: 10,
        extension: String::new(),
        attributes: vec![
            FileAttribute { place: 0, attribute: 320 },
            FileAttribute { place: 1, attribute: 200 },
            FileAttribute { place: 0, attribute: 1000 },
            FileAttribute { place: 5, attribute: 24 },
            FileAttribute { place: 9, attribute: 1 },
        ],
    };
    let r = FileResult::from_protocol_file(&f);
    assert_eq!(r.extension, "flac");
    assert_eq!(r.bitrate, Some(1000));
    assert_eq!(r.duration, Some(200));
    assert_eq!(r.sample_rate, None);
    assert_eq!(r.bit_depth, Some(24));
    let g = ProtocolFile {
        name: "noext".to_string(),
        size: 1,
        extension: "MP3".to_string(),
        attributes: vec![],
    };
    assert_eq!(FileResult::from_protocol_file(&g).extension, "mp3");
}

#[test]
fn download_lifecycle() {
    let mut d = DownloadState::new("id".into(), "bob".into(), "f.flac".into(), 200, 9);
    assert_eq!(d.status, DownloadStatus::Connecting);
    assert_eq!(d.progress_percent(), 0);
    d.mark_queued(4);
    assert_eq!(d.status, DownloadStatus::Queued);
    assert_eq!(d.queue_position, Some(4));
    d.update_progress(50, 10);
    assert_eq!(d.status, DownloadStatus::Downloading);
    assert_eq!(d.progress_percent(), 25);
    d.mark_completed(PathBuf::from("/tmp/f.flac"));
    assert_eq!(d.status, DownloadStatus::Completed);
    assert_eq!(d.progress_percent(), 100);
    assert_eq!(d.local_path, Some(PathBuf::from("/tmp/f.flac")));
    let mut e = DownloadState::new("id2".into(), "bob".into(), "g".into(), 0, 1);
    assert_eq!(e.progress_percent(), 0);
    e.mark_failed("peer gone".into());
    assert_eq!(e.status, DownloadStatus::Failed);
    assert_eq!(e.error, Some("peer gone".to_string()));
    assert_eq!(DownloadStatus::Cancelled.as_str(), "cancelled");
}

use lcars::soulseek::{
    convert_shared_directories, is_audio_file, make_virtual_path, next_peer_frame,
    FileAttributes, ProtocolDirectory, ShareIndex, SharedFile,
};

#[test]
fn test_virtual_path() {
    let vp = make_virtual_path(
        "/home/user/music/Artist/Album/song.mp3",
        "/home/user/music",
        "music",
    );
    assert_eq!(vp, "music\\Artist\\Album\\song.mp3");
    assert_eq!(make_virtual_path("/home/user/music", "/home/user/music", "music"), "music");
}

#[test]
fn test_is_audio_file() {
    assert!(is_audio_file("mp3"));
    assert!(is_audio_file("flac"));
    assert!(is_audio_file("ogg"));
    assert!(!is_audio_file("txt"));
    assert!(!is_audio_file("pdf"));
}

#[test]
fn test_parse_peer_message_incomplete() {
    assert!(next_peer_frame(&[0u8, 0, 0, 0]).is_none());
}

#[test]
fn test_parse_peer_message_partial() {
    assert!(next_peer_frame(&[10u8, 0, 0, 0, 1, 2, 3]).is_none());
}

#[test]
fn peer_frames() {
    let f = next_peer_frame(&[4u8, 0, 0, 0, 9, 1, 0, 0, 99]).unwrap();
    assert_eq!(f.total_len, 8);
    assert_eq!(f.code, 265);
    assert!(next_peer_frame(&[6u8, 0, 0, 0, 9, 0, 0, 0, 1]).is_none());
}

fn shared(vp: &str, ext: &str) -> SharedFile {
    SharedFile {
        path: PathBuf::from(format!("/x/{}", vp)),
        virtual_path: vp.to_string(),
        size: 5,
        extension: ext.to_string(),
        attributes: FileAttributes {
            bitrate: Some(320),
            duration: None,
            sample_rate: Some(44100),
            bit_depth: None,
            vbr: Some(true),
        },
    }
}

#[test]
fn share_index_records_searches_and_lists() {
    let mut idx = ShareIndex::new();
    idx.insert_file("music\\Artist".to_string(), shared("music\\Artist\\artist_album_song.mp3", "mp3"));
    idx.insert_file("music".to_string(), shared("music\\other_file.txt", "txt"));
    idx.insert_file("music\\Artist".to_string(), shared("music\\Artist\\artist_album_song.mp3", "mp3"));
    idx.finish_scan(15, std::time::Instant::now());
    assert_eq!(idx.file_count(), 2);
    assert_eq!(idx.folder_count(), 2);
    assert_eq!(idx.stats().total_size, 15);
    let hits = idx.search("ARTIST song");
    assert_eq!(hits.len(), 1);
    assert_eq!(hits[0].virtual_path, "music\\Artist\\artist_album_song.mp3");
    assert!(idx.search("nonexistent").is_empty());
    assert!(idx.search("   ").is_empty());
    assert!(idx.get_file("music/other_file.txt").is_some());
    let dirs = idx.to_protocol_directories();
    assert_eq!(dirs.len(), 2);
    assert_eq!(dirs[0].name, "music\\Artist");
    assert_eq!(dirs[0].files.len(), 2);
    assert_eq!(dirs[0].files[0].name, "artist_album_song.mp3");
    let places: Vec<u32> = dirs[0].files[0].attributes.iter().map(|a| a.place).collect();
    assert_eq!(places, vec![0, 2, 4]);
    assert_eq!(dirs[0].files[0].attributes[1].attribute, 1);
}

#[test]
fn browse_conversion() {
    let dirs = vec![ProtocolDirectory {
        name: "Music\\Album".to_string(),
        files: vec![ProtocolFile {
            name: "Music\\Album\\01 Song.FLAC".to_string(),
            size: 7,
            extension: String::new(),
            attributes: vec![FileAttribute { place: 1, attribute: 180 }],
        }],
    }];
    let b = convert_shared_directories(dirs);
    assert_eq!(b.len(), 1);
    assert_eq!(b[0].file_count, 1);
    assert_eq!(b[0].files[0].name, "01 Song.FLAC");
    assert_eq!(b[0].files[0].extension, "flac");
    assert_eq!(b[0].files[0].duration, Some(180));
    assert_eq!(b[0].files[0].bitrate, None);
    assert_eq!(b[0].path, "Music\\Album");
}

#[test]
fn recorded_file_replaces_same_path() {
    let mut idx = ShareIndex::new();
    idx.insert_file("music".to_string(), shared("music\\a.mp3", "mp3"));
    idx.insert_file("music".to_string(), shared("music\\b.mp3", "mp3"));
    let mut newer = shared("music\\a.mp3", "mp3");
    newer.size = 99;
    idx.insert_file("music".to_string(), newer);
    assert_eq!(idx.get_file("music/a.mp3").map(|f| f.size), Some(99));
    assert_eq!(idx.get_file("music\\b.mp3").map(|f| f.size), Some(5));
    assert!(idx.get_file("music/c.mp3").is_none());
}

use lcars::soulseek::{
    on_connection_closed, on_server_message, transfer_answer, EngineAction, ServerMessage,
    SoulseekEvent, SoulseekRegistry, TransferAnswer,
};

#[test]
fn server_messages_drive_the_engine() {
    let ok = on_server_message(2234, ServerMessage::LoginSucceeded);
    assert_eq!(ok.connected, Some(true));
    assert!(ok.error.is_none());
    assert_eq!(ok.actions.len(), 3);
    assert!(matches!(ok.actions[0], EngineAction::Emit(SoulseekEvent::Connected)));
    assert!(matches!(ok.actions[1], EngineAction::SetOnlineStatus(2)));
    assert!(matches!(ok.actions[2], EngineAction::SetListenPort(2234)));

    let refused = on_server_message(2234, ServerMessage::LoginRefused { reason: "INVALIDPASS".to_string() });
    assert_eq!(refused.connected, None);
    assert!(matches!(refused.error, Some(lcars::error::AppError::Unauthorized)));
    assert!(matches!(&refused.actions[0], EngineAction::Emit(SoulseekEvent::LoginFailed { reason }) if reason == "INVALIDPASS"));

    let kicked = on_server_message(2234, ServerMessage::Kicked);
    assert_eq!(kicked.connected, Some(false));
    assert!(matches!(&kicked.actions[0], EngineAction::Emit(SoulseekEvent::Disconnected { reason }) if reason == "Kicked from server"));

    let addr = on_server_message(
        2234,
        ServerMessage::PeerAddress { username: "bob".to_string(), ip: (10, 0, 0, 7), port: 2235 },
    );
    assert!(matches!(&addr.actions[0], EngineAction::CompletePeerAddress { username, ip: (10, 0, 0, 7), port: 2235 } if username == "bob"));

    let other = on_server_message(2234, ServerMessage::Other);
    assert!(other.actions.is_empty() && other.connected.is_none() && other.error.is_none());

    let closed = on_connection_closed();
    assert_eq!(closed.connected, Some(false));
    assert!(matches!(&closed.actions[0], EngineAction::Emit(SoulseekEvent::Disconnected { reason }) if reason == "Connection closed"));
}

#[test]
fn transfer_requests_are_answered() {
    assert!(matches!(
        transfer_answer(7, None, true, None),
        TransferAnswer::Rejected { ticket: 7, reason } if reason == "File not shared"
    ));
    assert!(matches!(
        transfer_answer(7, Some(4096), true, Some(3)),
        TransferAnswer::Allowed { ticket: 7, file_size: 4096 }
    ));
    assert!(matches!(
        transfer_answer(8, Some(4096), false, Some(3)),
        TransferAnswer::Rejected { ticket: 8, reason } if reason == "Queued (position 3)"
    ));
    assert!(matches!(
        transfer_answer(9, Some(1), false, None),
        TransferAnswer::Rejected { ticket: 9, reason } if reason == "Queued (position 1)"
    ));
}

#[test]
fn registry_tracks_searches_by_ticket() {
    let mut reg = SoulseekRegistry::new();
    reg.start_search(SearchState::new("artist album".to_string(), 11));
    reg.start_search(SearchState::new("other".to_string(), 12));
    assert!(reg.add_search_results(11, peer("alice", vec![], true, 100, 0)));
    assert!(!reg.add_search_results(99, peer("bob", vec![], true, 100, 0)));
    assert_eq!(reg.search(11).map(|s| s.results.len()), Some(1));
    assert_eq!(reg.search(12).map(|s| s.query.clone()), Some("other".to_string()));
    reg.start_search(SearchState::new("again".to_string(), 11));
    assert_eq!(reg.search(11).map(|s| s.results.len()), Some(0));
    assert!(reg.cancel_search(12).is_ok());
    assert!(reg.search(12).is_none());
    match reg.cancel_search(12) {
        Err(lcars::error::AppError::NotFound(m)) => assert_eq!(m, "Search with ticket 12 not found"),
        _ => panic!("cancelled twice"),
    }
}

#[test]
fn registry_tracks_downloads_and_counts() {
    let mut reg = SoulseekRegistry::new();
    let mut a = DownloadState::new("a".into(), "bob".into(), "x.flac".into(), 10, 1);
    a.update_progress(5, 1);
    let mut b = DownloadState::new("b".into(), "bob".into(), "y.flac".into(), 10, 2);
    b.mark_completed(PathBuf::from("/tmp/y.flac"));
    let c = DownloadState::new("c".into(), "eve".into(), "z.flac".into(), 10, 3);
    reg.add_download(a);
    reg.add_download(b);
    reg.add_download(c);
    assert!(reg.cancel_download("c").is_ok());
    assert_eq!(reg.download("c").map(|d| d.status), Some(DownloadStatus::Cancelled));
    match reg.cancel_download("zz") {
        Err(lcars::error::AppError::NotFound(m)) => assert_eq!(m, "Download with ID zz not found"),
        _ => panic!("unknown download cancelled"),
    }
    reg.start_search(SearchState::new("q".to_string(), 1));
    let shares = ShareIndex::new();
    let stats = reg.stats(true, (1, 2, 300), &shares);
    assert!(stats.connected);
    assert_eq!(stats.active_searches, 1);
    assert_eq!(stats.active_downloads, 1);
    assert_eq!(stats.completed_downloads, 1);
    assert_eq!((stats.active_uploads, stats.queued_uploads, stats.total_uploaded), (1, 2, 300));
    assert_eq!((stats.shared_files, stats.shared_folders), (0, 0));
    assert_eq!(reg.downloads().len(), 3);
}

#[test]
fn progress_of_huge_transfers_does_not_overflow() {
    let mut d = DownloadState::new("big".into(), "bob".into(), "f".into(), u64::MAX, 1);
    d.update_progress(u64::MAX / 2, 1);
    assert_eq!(d.progress_percent(), 49);
    let mut e = DownloadState::new("over".into(), "bob".into(), "g".into(), 200, 1);
    e.update_progress(300, 1);
    assert_eq!(e.progress_percent(), 100);
}
