use lcars::config::NamingConfig;
use lcars::naming::{replace_placeholder_padded, sanitize_filename, NamingEngine};

fn test_config() -> NamingConfig {
    NamingConfig {
        movie_pattern: "movies/{title} ({year})/{title} ({year}) - {quality}.{ext}".to_string(),
        tv_pattern:
            "tv/{title}/S{season:02}/{title} - S{season:02}E{episode:02} - {episode_title}.{ext}"
                .to_string(),
        music_pattern: "music/{artist}/{album}/{track:02} - {title}.{ext}".to_string(),
    }
}

#[test]
fn test_generate_movie_path() {
    let engine = NamingEngine::new(test_config());
    let path = engine.generate_movie_path("The Matrix", 1999, "1080p", "mkv");
    assert_eq!(path, "movies/The Matrix (1999)/The Matrix (1999) - 1080p.mkv");
}

#[test]
fn test_generate_movie_path_special_chars() {
    let engine = NamingEngine::new(test_config());
    let path = engine.generate_movie_path("Mission: Impossible", 1996, "720p", "mp4");
    assert_eq!(
        path,
        "movies/Mission_ Impossible (1996)/Mission_ Impossible (1996) - 720p.mp4"
    );
}

#[test]
fn test_generate_episode_path() {
    let engine = NamingEngine::new(test_config());
    let path = engine.generate_episode_path("Breaking Bad", 5, 16, "Felina", "1080p", "mkv");
    assert_eq!(path, "tv/Breaking Bad/S05/Breaking Bad - S05E16 - Felina.mkv");
}

#[test]
fn test_generate_episode_path_single_digit() {
    let engine = NamingEngine::new(test_config());
    let path = engine.generate_episode_path("Friends", 1, 1, "Pilot", "720p", "mp4");
    assert_eq!(path, "tv/Friends/S01/Friends - S01E01 - Pilot.mp4");
}

#[test]
fn test_generate_track_path() {
    let engine = NamingEngine::new(test_config());
    let path = engine.generate_track_path(
        "Pink Floyd",
        "The Dark Side of the Moon",
        "Time",
        4,
        1,
        "flac",
    );
    assert_eq!(path, "music/Pink Floyd/The Dark Side of the Moon/04 - Time.flac");
}

#[test]
fn test_generate_track_path_special_chars() {
    let engine = NamingEngine::new(test_config());
    let path = engine.generate_track_path(
        "AC/DC",
        "Back in Black",
        "You Shook Me All Night Long",
        6,
        1,
        "mp3",
    );
    assert_eq!(path, "music/AC_DC/Back in Black/06 - You Shook Me All Night Long.mp3");
}

#[test]
fn test_sanitize_filename_basic() {
    assert_eq!(sanitize_filename("Normal Name"), "Normal Name");
}

#[test]
fn test_sanitize_filename_special_chars() {
    assert_eq!(sanitize_filename("File: Name?"), "File_ Name");
    assert_eq!(sanitize_filename("Path/To\\File"), "Path_To_File");
    assert_eq!(sanitize_filename("<>:\"|?*"), "");
}

#[test]
fn test_sanitize_filename_trim() {
    assert_eq!(sanitize_filename("  Name  "), "Name");
    assert_eq!(sanitize_filename("..Name.."), "Name");
    assert_eq!(sanitize_filename("__Name__"), "Name");
}

#[test]
fn test_sanitize_filename_collapse_underscores() {
    assert_eq!(
        sanitize_filename("Name___With___Underscores"),
        "Name_With_Underscores"
    );
}

#[test]
fn test_sanitize_filename_unicode() {
    assert_eq!(sanitize_filename("Café Résumé"), "Café Résumé");
    assert_eq!(sanitize_filename("日本語"), "日本語");
}

#[test]
fn test_custom_pattern() {
    let config = NamingConfig {
        movie_pattern: "{title}/{title}.{ext}".to_string(),
        tv_pattern: "{title}/Season {season:02}/{episode:02}.{ext}".to_string(),
        music_pattern: "{artist} - {album} - {title}.{ext}".to_string(),
    };
    let engine = NamingEngine::new(config);
    assert_eq!(engine.generate_movie_path("Test", 2020, "1080p", "mkv"), "Test/Test.mkv");
    assert_eq!(
        engine.generate_episode_path("Show", 2, 5, "Episode", "720p", "mp4"),
        "Show/Season 02/05.mp4"
    );
    assert_eq!(
        engine.generate_track_path("Artist", "Album", "Song", 1, 1, "flac"),
        "Artist - Album - Song.flac"
    );
}

#[test]
fn sanitize_collapses_spaces_and_keeps_inner_dots() {
    assert_eq!(sanitize_filename("a   b.c"), "a b.c");
    assert_eq!(sanitize_filename("x\u{1}y"), "x_y");
}

#[test]
fn sanitize_cuts_long_names_at_200_bytes() {
    let long = "a".repeat(250);
    assert_eq!(sanitize_filename(&long), "a".repeat(200));
}

#[test]
fn sanitize_is_idempotent_on_short_names() {
    let once = sanitize_filename(" __a:b  c.. ");
    assert_eq!(sanitize_filename(&once), once);
}

#[test]
fn padded_placeholder_takes_width_from_pattern() {
    let config = NamingConfig {
        movie_pattern: "{title}".to_string(),
        tv_pattern: "E{episode:03}-{season}".to_string(),
        music_pattern: "{track}".to_string(),
    };
    let engine = NamingEngine::new(config);
    assert_eq!(engine.generate_episode_path("S", 7, 5, "", "", "x"), "E005-7");
    assert_eq!(engine.generate_episode_path("S", -3, -5, "", "", "x"), "E-05--3");
}

#[test]
fn default_patterns() {
    let engine = NamingEngine::new(NamingConfig::default());
    assert_eq!(
        engine.movie_pattern(),
        "movie/{title} ({year})/{title} ({year}) - {quality}.{ext}"
    );
    assert_eq!(engine.music_pattern(), "music/{artist}/{album}/{title}.{ext}");
}

fn chars(s: &str) -> Vec<char> {
    s.chars().collect()
}

fn padded(pattern: &str, name: &str, value: i32) -> String {
    replace_placeholder_padded(&chars(pattern), &chars(name), value).into_iter().collect()
}

#[test]
fn test_replace_placeholder_padded() {
    assert_eq!(padded("S{season:02}E{episode:02}", "season", 1), "S01E{episode:02}");
    assert_eq!(padded("Track {track:03}", "track", 5), "Track 005");
}

#[test]
fn test_replace_placeholder_padded_without_width() {
    assert_eq!(padded("Disc {disc}", "disc", 2), "Disc 2");
    assert_eq!(padded("E{episode:02} E{episode}", "episode", 7), "E07 E{episode}");
}

#[test]
fn long_names_are_cut_on_a_character_boundary() {
    let exact = format!("{}é", "a".repeat(198));
    assert_eq!(sanitize_filename(&exact), exact);
    let split = format!("{}é", "a".repeat(199));
    assert_eq!(sanitize_filename(&split), "a".repeat(199));
    assert_eq!(sanitize_filename(&"日".repeat(100)), "日".repeat(66));
    let long_ascii = "b".repeat(500);
    assert_eq!(sanitize_filename(&long_ascii).len(), 200);
}
