use lcars::indexer::{MediaSearchType, Release, SearchQuery};
use lcars::parser::{Quality, Source};
use lcars::providers::{
    build_placeholder_magnet, eztv_releases, eztv_search_url, extract_topic_id, leetx_release,
    leetx_search_url, rutracker_releases, rutracker_search_url, size_parts, size_parts_russian,
    yts_build_magnet, yts_parse_quality, yts_releases, yts_search_url, EztvTorrent,
    PartialRelease, ProviderKind, YtsMovie, YtsTorrent,
};

#[test]
fn test_eztv_provider_capabilities() {
    let provider = ProviderKind::Eztv;
    assert_eq!(provider.name(), "EZTV");
    assert!(!provider.supports_movies());
    assert!(provider.supports_tv());
    assert!(!provider.supports_music());
}

#[test]
fn test_yts_provider_capabilities() {
    let provider = ProviderKind::Yts;
    assert_eq!(provider.name(), "YTS");
    assert!(provider.supports_movies());
    assert!(!provider.supports_tv());
    assert!(!provider.supports_music());
}

#[test]
fn test_rutracker_provider_capabilities() {
    let provider = ProviderKind::Rutracker;
    assert_eq!(provider.name(), "Rutracker");
    assert!(!provider.supports_movies());
    assert!(!provider.supports_tv());
    assert!(provider.supports_music());
}

#[test]
fn leetx_capabilities() {
    let provider = ProviderKind::Leetx;
    assert_eq!(provider.name(), "1337x");
    assert!(provider.supports_movies() && provider.supports_tv() && provider.supports_music());
}

#[test]
fn test_parse_quality() {
    assert_eq!(yts_parse_quality("2160p"), Quality::P2160);
    assert_eq!(yts_parse_quality("1080p"), Quality::P1080);
    assert_eq!(yts_parse_quality("720p"), Quality::P720);
    assert_eq!(yts_parse_quality("480p"), Quality::P480);
    assert_eq!(yts_parse_quality("unknown"), Quality::Unknown);
}

#[test]
fn test_build_magnet() {
    let magnet = yts_build_magnet("ABC123", "Test Movie");
    assert!(magnet.starts_with("magnet:?xt=urn:btih:ABC123"));
    assert!(magnet.contains("dn=Test%20Movie"));
}

#[test]
fn yts_magnet_exact() {
    let magnet = yts_build_magnet("H", "a/b é");
    assert_eq!(
        magnet,
        "magnet:?xt=urn:btih:H&dn=a%2Fb%20%C3%A9&tr=udp://open.demonii.com:1337/announce&tr=udp://tracker.openbittorrent.com:80&tr=udp://tracker.coppersurfer.tk:6969&tr=udp://glotorrents.pw:6969/announce&tr=udp://tracker.opentrackr.org:1337/announce&tr=udp://torrent.gresille.org:80/announce&tr=udp://p4p.arenabg.com:1337&tr=udp://tracker.leechers-paradise.org:6969"
    );
}

#[test]
fn test_extract_topic_id() {
    assert_eq!(
        extract_topic_id("viewtopic.php?t=1234567"),
        Some("1234567".to_string())
    );
    assert_eq!(
        extract_topic_id("/forum/viewtopic.php?t=999&other=param"),
        Some("999".to_string())
    );
    assert_eq!(extract_topic_id("invalid"), None);
}

#[test]
fn topic_id_needs_digits() {
    assert_eq!(extract_topic_id("viewtopic.php?t=abc"), None);
    assert_eq!(extract_topic_id("t=42"), Some("42".to_string()));
}

#[test]
fn test_placeholder_magnet() {
    let magnet = build_placeholder_magnet("12345", "Test Album FLAC");
    assert!(magnet.starts_with("magnet:?xt=urn:btih:"));
    assert!(magnet.contains("dn=Test%20Album%20FLAC"));
}

#[test]
fn placeholder_magnet_exact() {
    let magnet = build_placeholder_magnet("12345", "A B");
    assert_eq!(
        magnet,
        "magnet:?xt=urn:btih:RUTRACKER00000000000000000000000000012345&dn=A%20B&tr=http://bt.t-ru.org/ann?magnet"
    );
}

#[test]
fn search_urls() {
    let q = SearchQuery::new("Breaking Bad").year(2008).episode(1, 1);
    assert_eq!(
        eztv_search_url("https://eztv.re/api/get-torrents", &q),
        "https://eztv.re/api/get-torrents?limit=50&page=1&query=Breaking%20Bad%202008%20S01E01"
    );
    let q = SearchQuery::new("x").imdb_id("tt0903747");
    assert_eq!(
        eztv_search_url("https://eztv.re/api/get-torrents", &q),
        "https://eztv.re/api/get-torrents?imdb_id=0903747&limit=50"
    );
    let q = SearchQuery::new("The Matrix").year(1999);
    assert_eq!(
        yts_search_url("https://yts.mx/api/v2/list_movies.json", &q),
        "https://yts.mx/api/v2/list_movies.json?limit=50&query_term=The%20Matrix&query_term=1999&sort_by=seeds"
    );
    let q = SearchQuery::new("Dune").media_type(MediaSearchType::Movie);
    assert_eq!(
        leetx_search_url("https://1337x.to", &q),
        "https://1337x.to/category-search/Dune/1/"
    );
    assert_eq!(
        leetx_search_url("https://1337x.to", &SearchQuery::new("Dune")),
        "https://1337x.to/search/Dune/1/"
    );
    let mut q = SearchQuery::new("ignored");
    q.artist = Some("Pink Floyd".to_string());
    q.album = Some("Animals".to_string());
    assert_eq!(
        rutracker_search_url("https://rutracker.org", &q),
        "https://rutracker.org/forum/tracker.php?nm=Pink%20Floyd%20Animals&f=409"
    );
}

fn eztv(title: &str, season: Option<i32>, episode: Option<i32>) -> EztvTorrent {
    EztvTorrent {
        id: 1,
        title: title.to_string(),
        magnet_url: format!("magnet:{}", title),
        size_bytes: "1234".to_string(),
        seeds: 10,
        peers: 4,
        date_released_unix: 1700000000,
        season,
        episode,
        imdb_id: String::new(),
    }
}

#[test]
fn eztv_conversion_and_episode_filter() {
    let torrents = vec![
        eztv("Show.S01E01.720p.HDTV-GRP", Some(1), Some(1)),
        eztv("Show.S01E02.1080p.WEB-DL-GRP", Some(1), Some(2)),
    ];
    let q = SearchQuery::new("Show").episode(1, 2);
    let rs = eztv_releases(&torrents, &q);
    assert_eq!(rs.len(), 1);
    let r = &rs[0];
    assert_eq!(r.title, "Show.S01E02.1080p.WEB-DL-GRP");
    assert_eq!(r.indexer, "EZTV");
    assert_eq!(r.size_bytes, 1234);
    assert_eq!(r.seeders, 10);
    assert_eq!(r.leechers, 0);
    assert_eq!(r.quality, Quality::P1080);
    assert_eq!(r.uploaded_at, Some("1700000000".to_string()));
    assert_eq!(r.id, Release::generate_id("EZTV", &r.title, &r.magnet));
    let all = eztv_releases(&torrents, &SearchQuery::new("Show"));
    assert_eq!(all.len(), 2);
}

fn yts_torrent(quality: &str, codec: Option<&str>) -> YtsTorrent {
    YtsTorrent {
        hash: "HASH".to_string(),
        quality: quality.to_string(),
        torrent_type: "bluray".to_string(),
        video_codec: codec.map(|c| c.to_string()),
        audio_channels: "5.1".to_string(),
        size_bytes: 99,
        seeds: 7,
        peers: 3,
        date_uploaded: "2020-01-01".to_string(),
    }
}

#[test]
fn yts_conversion() {
    let movies = vec![
        YtsMovie {
            id: 1,
            title: "The Matrix".to_string(),
            year: 1999,
            imdb_code: "tt0133093".to_string(),
            torrents: vec![yts_torrent("1080p", None), yts_torrent("2160p", Some("x265"))],
        },
        YtsMovie {
            id: 2,
            title: "Dune".to_string(),
            year: 2021,
            imdb_code: "tt1160419".to_string(),
            torrents: vec![yts_torrent("720p", Some("x264"))],
        },
    ];
    let rs = yts_releases("ok", "", &movies).unwrap();
    assert_eq!(rs.len(), 3);
    assert_eq!(rs[0].title, "The.Matrix.1999.1080p.x264.YTS");
    assert_eq!(rs[1].title, "The.Matrix.1999.2160p.x265.YTS");
    assert_eq!(rs[2].title, "Dune.2021.720p.x264.YTS");
    assert_eq!(rs[1].quality, Quality::P2160);
    assert_eq!(rs[0].source, Source::BluRay);
    assert_eq!(rs[0].group, Some("YTS".to_string()));
    assert_eq!(rs[0].audio, Some("5.1".to_string()));
    assert_eq!(rs[0].codec, None);
    assert_eq!(rs[0].leechers, 3);
    assert!(rs[0].magnet.starts_with("magnet:?xt=urn:btih:HASH&dn=The.Matrix.1999.1080p.x264.YTS&tr="));
    match yts_releases("error", "bad request", &movies) {
        Err(lcars::error::AppError::Internal(m)) => assert_eq!(m, "YTS API error: bad request"),
        _ => panic!("expected an error"),
    }
}

#[test]
fn rutracker_conversion_takes_thirty() {
    let rows: Vec<PartialRelease> = (0..35)
        .map(|i| PartialRelease {
            title: format!("Artist - Album {} (2020) [FLAC]", i),
            topic_id: format!("{}", i),
            seeders: i,
            leechers: 1,
            size_bytes: 10,
        })
        .collect();
    let rs = rutracker_releases(&rows);
    assert_eq!(rs.len(), 30);
    assert_eq!(rs[3].title, "Artist - Album 3 (2020) [FLAC]");
    assert_eq!(rs[3].seeders, 3);
    assert_eq!(rs[3].codec, Some("Flac".to_string()));
    assert_eq!(rs[3].audio, Some("Flac".to_string()));
    assert_eq!(rs[3].indexer, "Rutracker");
    assert_eq!(rs[3].quality, Quality::Unknown);
    assert!(rs[3].magnet.starts_with("magnet:?xt=urn:btih:RUTRACKER0000"));
}

#[test]
fn leetx_release_fields() {
    let r = leetx_release(
        "Movie.2024.1080p.BluRay.x264-GROUP".to_string(),
        "magnet:?xt=urn:btih:abc".to_string(),
        5,
        6,
        7,
    );
    assert_eq!(r.indexer, "1337x");
    assert_eq!(r.quality, Quality::P1080);
    assert_eq!(r.group, Some("GROUP".to_string()));
    assert_eq!(r.uploaded_at, None);
}

#[test]
fn size_parts_split_number_and_unit() {
    assert_eq!(size_parts("1.5 GB"), Some(("1.5".to_string(), 1073741824)));
    assert_eq!(size_parts("500MB"), Some(("500".to_string(), 1048576)));
    assert_eq!(size_parts(" 1 kb "), Some(("1".to_string(), 1024)));
    assert_eq!(size_parts("100 B"), Some(("100".to_string(), 1)));
    assert_eq!(size_parts("7 XB"), Some(("7".to_string(), 1)));
    assert_eq!(size_parts("   "), None);
    assert_eq!(size_parts_russian("1,5 ГБ"), Some(("1.5".to_string(), 1073741824)));
    assert_eq!(size_parts_russian("500\u{a0}МБ"), Some(("500".to_string(), 1048576)));
    assert_eq!(size_parts_russian("2 TB"), Some(("2".to_string(), 1099511627776)));
}

// The byte count is the number text read as a float, times the unit's
// multiplier; floats stay outside the library, so the tests finish the
// computation here on what the library splits out.
fn bytes_of(parts: Option<(String, u64)>) -> u64 {
    match parts {
        Some((num, multiplier)) => {
            let n: f64 = num.parse().unwrap_or(0.0);
            (n * multiplier as f64) as u64
        }
        None => 0,
    }
}

#[test]
fn test_parse_size() {
    assert_eq!(bytes_of(size_parts("1.5 GB")), 1610612736);
    assert_eq!(bytes_of(size_parts("500 MB")), 524288000);
    assert_eq!(bytes_of(size_parts("1 KB")), 1024);
    assert_eq!(bytes_of(size_parts("100 B")), 100);
}

#[test]
fn test_parse_size_no_space() {
    assert_eq!(bytes_of(size_parts("1.5GB")), 1610612736);
    assert_eq!(bytes_of(size_parts("500MB")), 524288000);
}

#[test]
fn test_parse_size_russian() {
    assert!(bytes_of(size_parts_russian("1.5 ГБ")) > 1_000_000_000);
    assert!(bytes_of(size_parts_russian("500 МБ")) > 400_000_000);
}
