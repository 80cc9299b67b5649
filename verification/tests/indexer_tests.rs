use lcars::indexer::{merge_releases, IndexerTestResult, MediaSearchType, Release, SearchQuery};
use lcars::parser::{Quality, Source};
use lcars::providers::{IndexerManager, ProviderKind};

fn release(magnet: &str, seeders: u32, quality: Quality) -> Release {
    Release {
        id: "1".to_string(),
        title: "test".to_string(),
        indexer: "test".to_string(),
        magnet: magnet.to_string(),
        size_bytes: 0,
        seeders,
        leechers: 10,
        quality,
        source: Source::BluRay,
        codec: None,
        audio: None,
        group: None,
        proper: false,
        repack: false,
        uploaded_at: None,
    }
}

#[test]
fn test_search_query_builder() {
    let query = SearchQuery::new("Breaking Bad")
        .media_type(MediaSearchType::TvEpisode)
        .year(2008)
        .episode(1, 1);

    assert_eq!(query.query, "Breaking Bad");
    assert_eq!(query.year, Some(2008));
    assert_eq!(query.season, Some(1));
    assert_eq!(query.episode, Some(1));
    assert_eq!(query.build_query_string(), "Breaking Bad 2008 S01E01");
}

#[test]
fn test_release_id_generation() {
    let id1 = Release::generate_id("1337x", "Movie.2024.1080p", "magnet:?xt=urn:btih:abc");
    let id2 = Release::generate_id("1337x", "Movie.2024.1080p", "magnet:?xt=urn:btih:abc");
    let id3 = Release::generate_id("eztv", "Movie.2024.1080p", "magnet:?xt=urn:btih:abc");

    assert_eq!(id1, id2);
    assert_ne!(id1, id3);
    assert_eq!(id1.len(), 16);
    assert!(id1.chars().all(|c| c.is_ascii_hexdigit() && !c.is_ascii_uppercase()));
}

#[test]
fn test_release_scoring() {
    let high_quality = Release {
        id: "1".to_string(),
        title: "test".to_string(),
        indexer: "test".to_string(),
        magnet: "magnet:test".to_string(),
        size_bytes: 0,
        seeders: 100,
        leechers: 10,
        quality: Quality::P2160,
        source: Source::BluRay,
        codec: None,
        audio: None,
        group: None,
        proper: false,
        repack: false,
        uploaded_at: None,
    };

    let low_quality = Release {
        quality: Quality::P720,
        source: Source::Cam,
        seeders: 10,
        ..high_quality.clone()
    };

    assert!(high_quality.score() > low_quality.score());
}

#[test]
fn exact_release_score() {
    // 4 * 100 + 5 * 20 + min(250, 100) * 2 + 10
    let mut r = release("m", 250, Quality::P2160);
    r.proper = true;
    assert_eq!(r.score(), 400 + 100 + 200 + 10);
    let r = release("m", 3, Quality::Unknown);
    assert_eq!(r.score(), 100 + 6);
}

#[test]
fn query_strings() {
    assert_eq!(SearchQuery::new("Dune").year(2021).build_query_string(), "Dune 2021");
    assert_eq!(SearchQuery::new("Show").episode(2, 10).build_query_string(), "Show S02E10");
    assert_eq!(SearchQuery::new("Plain").build_query_string(), "Plain");
    let q = SearchQuery::new("X").imdb_id("tt0133093");
    assert_eq!(q.imdb_id, Some("tt0133093".to_string()));
}

#[test]
fn merge_keeps_one_release_per_magnet_and_sorts() {
    let a = release("magnet:a", 5, Quality::P720);
    let b = release("magnet:a", 50, Quality::P720);
    let c = release("magnet:c", 1, Quality::P2160);
    let d = release("magnet:d", 1, Quality::P480);
    let merged = merge_releases(vec![vec![a, c], vec![b, d]]);
    assert_eq!(merged.len(), 3);
    assert_eq!(merged[0].magnet, "magnet:c");
    assert_eq!(merged[1].magnet, "magnet:a");
    assert_eq!(merged[1].seeders, 50);
    assert_eq!(merged[2].magnet, "magnet:d");
    for w in merged.windows(2) {
        assert!(w[0].score() >= w[1].score());
    }
}

#[test]
fn merge_equal_scores_keep_found_order() {
    let a = release("magnet:1", 1, Quality::P720);
    let b = release("magnet:2", 1, Quality::P720);
    let c = release("magnet:3", 1, Quality::P720);
    let merged = merge_releases(vec![vec![a], vec![b, c]]);
    let magnets: Vec<&str> = merged.iter().map(|r| r.magnet.as_str()).collect();
    assert_eq!(magnets, vec!["magnet:1", "magnet:2", "magnet:3"]);
}

#[test]
fn merge_of_nothing_is_empty() {
    assert!(merge_releases(vec![]).is_empty());
    assert!(merge_releases(vec![vec![], vec![]]).is_empty());
}

#[test]
fn default_manager_providers() {
    let m = IndexerManager::new();
    assert_eq!(
        m.providers(),
        &[ProviderKind::Leetx, ProviderKind::Eztv, ProviderKind::Yts, ProviderKind::Rutracker]
    );
    let movies = m.suitable_providers(&SearchQuery::new("x").media_type(MediaSearchType::Movie));
    assert_eq!(movies, vec![ProviderKind::Leetx, ProviderKind::Yts]);
    let music =
        m.suitable_providers(&SearchQuery::new("x").media_type(MediaSearchType::MusicAlbum));
    assert_eq!(music, vec![ProviderKind::Leetx, ProviderKind::Rutracker]);
    let all = m.suitable_providers(&SearchQuery::new("x"));
    assert_eq!(all.len(), 4);
    let shared = IndexerManager::new_shared();
    assert_eq!(shared.providers().len(), 4);
}

#[test]
fn indexer_test_result_fields() {
    let r = IndexerTestResult {
        name: "YTS".to_string(),
        success: true,
        response_time_ms: 12,
        error: None,
    };
    assert!(r.success && r.error.is_none());
}

#[test]
fn release_id_is_first_eight_digest_bytes() {
    assert_eq!(
        Release::generate_id("1337x", "Movie.2024.1080p", "magnet:?xt=urn:btih:abc"),
        "7f4b3b525e90fa28"
    );
}
