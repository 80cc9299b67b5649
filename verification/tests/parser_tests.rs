use lcars::parser::{parse_music_release, parse_release_name, AudioFormat, MusicSource, Quality, Source};

#[test]
fn test_parse_movie_release() {
    let parsed = parse_release_name("Movie.2024.1080p.BluRay.x264-GROUP");
    assert_eq!(parsed.year, Some(2024));
    assert_eq!(parsed.quality, Quality::P1080);
    assert_eq!(parsed.source, Source::BluRay);
    assert_eq!(parsed.codec, Some("X264".to_string()));
    assert_eq!(parsed.group, Some("GROUP".to_string()));
}

#[test]
fn test_parse_tv_release() {
    let parsed = parse_release_name("Show.Name.S01E05.1080p.WEB-DL.AAC-GROUP");
    assert_eq!(parsed.season, Some(1));
    assert_eq!(parsed.episode, Some(5));
    assert_eq!(parsed.quality, Quality::P1080);
    assert_eq!(parsed.source, Source::WebDl);
    assert_eq!(parsed.audio, Some("AAC".to_string()));
}

#[test]
fn test_parse_4k_release() {
    let parsed = parse_release_name("Movie.2023.2160p.WEB-DL.x265.HEVC.DTS-GROUP");
    assert_eq!(parsed.quality, Quality::P2160);
    assert_eq!(parsed.source, Source::WebDl);
    assert_eq!(parsed.codec, Some("X265".to_string()));
    assert_eq!(parsed.audio, Some("DTS".to_string()));
}

#[test]
fn test_parse_proper_repack() {
    let parsed = parse_release_name("Movie.2024.1080p.BluRay.PROPER-GROUP");
    assert!(parsed.proper);
    assert!(!parsed.repack);

    let parsed = parse_release_name("Movie.2024.1080p.BluRay.REPACK-GROUP");
    assert!(!parsed.proper);
    assert!(parsed.repack);
}

#[test]
fn test_parse_music_release() {
    let parsed = parse_music_release("Artist Name - Album Title (2024) [FLAC]");
    assert_eq!(parsed.artist, Some("Artist Name".to_string()));
    assert_eq!(parsed.album, Some("Album Title".to_string()));
    assert_eq!(parsed.year, Some(2024));
    assert_eq!(parsed.audio_format, Some(AudioFormat::Flac));
}

#[test]
fn test_parse_music_with_bitrate() {
    let parsed = parse_music_release("Artist - Album (2023) [MP3 320kbps]");
    assert_eq!(parsed.audio_format, Some(AudioFormat::Mp3));
    assert_eq!(parsed.bitrate, Some(320));
}

#[test]
fn test_parse_music_high_res() {
    let parsed = parse_music_release("Artist - Album [2024] [FLAC] [24bit-96kHz]");
    assert_eq!(parsed.audio_format, Some(AudioFormat::Flac));
    assert_eq!(parsed.bit_depth, Some(24));
    assert_eq!(parsed.sample_rate, Some("96kHz".to_string()));
}

#[test]
fn test_quality_scores() {
    assert!(Quality::P2160.score() > Quality::P1080.score());
    assert!(Quality::P1080.score() > Quality::P720.score());
    assert!(Quality::P720.score() > Quality::P480.score());
}

#[test]
fn test_source_scores() {
    assert!(Source::BluRay.score() > Source::WebDl.score());
    assert!(Source::WebDl.score() > Source::Cam.score());
}

#[test]
fn test_audio_format_lossless() {
    assert!(AudioFormat::Flac.is_lossless());
    assert!(AudioFormat::Alac.is_lossless());
    assert!(!AudioFormat::Mp3.is_lossless());
    assert!(!AudioFormat::Aac.is_lossless());
}

#[test]
fn quality_and_source_names() {
    assert_eq!(Quality::from_str("1080P"), Quality::P1080);
    assert_eq!(Quality::from_str("4k"), Quality::Unknown);
    assert_eq!(Quality::from_str("nonsense"), Quality::Unknown);
    assert_eq!(Source::from_str("web-dl"), Source::WebDl);
    assert_eq!(Source::from_str("bluray"), Source::BluRay);
    assert_eq!(AudioFormat::from_str("flac"), AudioFormat::Flac);
    assert_eq!(MusicSource::from_str("vinyl"), MusicSource::Vinyl);
}

#[test]
fn exact_scores() {
    assert_eq!(Quality::P2160.score(), 4);
    assert_eq!(Quality::Unknown.score(), 0);
    assert_eq!(Source::BluRay.score(), 5);
}

#[test]
fn release_title_is_text_before_year() {
    let parsed = parse_release_name("The.Matrix.1999.1080p.BluRay.x264-GROUP");
    assert_eq!(parsed.title, "The Matrix");
    assert_eq!(parsed.year, Some(1999));
}

#[test]
fn unknown_release_name() {
    let parsed = parse_release_name("something");
    assert_eq!(parsed.quality, Quality::Unknown);
    assert_eq!(parsed.source, Source::Unknown);
    assert_eq!(parsed.year, None);
    assert!(!parsed.proper && !parsed.repack);
}
