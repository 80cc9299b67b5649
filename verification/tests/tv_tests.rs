use lcars::api::tv::{
    air_year, check_magnet, check_tmdb_id, episode_download_name, group_episodes_by_season,
    new_episodes, new_show_settings, parse_tmdb_status, seasons_to_fetch, show_exists_error,
    show_status_from_db, UpdateEpisodeRequest, UpdateSeasonRequest, UpdateShowRequest,
};
use lcars::error::AppError;
use lcars::tmdb::TmdbSeasonSummary;
use lcars::models::{Episode, MediaStatus, ShowStatus};

fn ep(season: i32, number: i32, status: MediaStatus) -> Episode {
    Episode {
        id: (season * 100 + number) as i64,
        show_id: 1,
        tmdb_id: None,
        season_number: season,
        episode_number: number,
        title: None,
        overview: None,
        air_date: None,
        runtime_minutes: None,
        still_path: None,
        status,
        monitored: true,
        file_path: None,
        file_size: None,
        created_at: String::new(),
        updated_at: String::new(),
    }
}

#[test]
fn seasons_are_grouped_in_order() {
    let eps = vec![
        ep(2, 1, MediaStatus::Available),
        ep(1, 2, MediaStatus::Missing),
        ep(1, 1, MediaStatus::Available),
        ep(0, 1, MediaStatus::Missing),
        ep(2, 2, MediaStatus::Available),
    ];
    let seasons = group_episodes_by_season(eps);
    let numbers: Vec<i32> = seasons.iter().map(|s| s.season_number).collect();
    assert_eq!(numbers, vec![0, 1, 2]);
    let s1: Vec<i32> = seasons[1].episodes.iter().map(|e| e.episode_number).collect();
    assert_eq!(s1, vec![2, 1]);
    assert_eq!(seasons[1].available_count, 1);
    assert_eq!(seasons[1].total_count, 2);
    assert_eq!(seasons[2].available_count, 2);
    assert!(group_episodes_by_season(vec![]).is_empty());
}

#[test]
fn tmdb_statuses() {
    assert_eq!(parse_tmdb_status(Some("Returning Series")), ShowStatus::Continuing);
    assert_eq!(parse_tmdb_status(Some("Ended")), ShowStatus::Ended);
    assert_eq!(parse_tmdb_status(Some("Canceled")), ShowStatus::Canceled);
    assert_eq!(parse_tmdb_status(Some("In Production")), ShowStatus::Upcoming);
    assert_eq!(parse_tmdb_status(Some("Planned")), ShowStatus::Upcoming);
    assert_eq!(parse_tmdb_status(Some("Pilot")), ShowStatus::Continuing);
    assert_eq!(parse_tmdb_status(None), ShowStatus::Continuing);
    assert_eq!(show_status_from_db("ended"), ShowStatus::Ended);
    assert_eq!(show_status_from_db("bogus"), ShowStatus::Continuing);
}

#[test]
fn download_helpers() {
    assert!(check_magnet("magnet:?xt=urn:btih:1234").is_ok());
    assert!(check_magnet("not-a-valid-magnet-link").is_err());
    assert_eq!(episode_download_name(None, 1, 5), "S01E05");
    assert_eq!(episode_download_name(None, 12, 105), "S12E105");
    assert_eq!(episode_download_name(Some("Pilot".to_string()), 1, 1), "Pilot");
}

#[test]
fn add_show_rejects_non_positive_ids() {
    assert!(check_tmdb_id(1399).is_ok());
    for id in [0, -5] {
        match check_tmdb_id(id) {
            Err(AppError::BadRequest(m)) => assert_eq!(m, "Invalid TMDB ID"),
            _ => panic!("id {} accepted", id),
        }
    }
}

#[test]
fn duplicate_show_message_names_the_id() {
    match show_exists_error(1399) {
        AppError::BadRequest(m) => assert_eq!(m, "TV show with TMDB ID 1399 already exists"),
        _ => panic!("wrong variant"),
    }
}

#[test]
fn new_show_defaults_to_monitored_1080p() {
    assert_eq!(new_show_settings(None, None), (true, "1080p".to_string()));
    assert_eq!(
        new_show_settings(Some(false), Some("2160p".to_string())),
        (false, "2160p".to_string())
    );
}

#[test]
fn air_year_reads_the_year_of_a_date() {
    assert_eq!(air_year(Some("2008-01-20")), Some(2008));
    assert_eq!(air_year(Some("2011")), Some(2011));
    assert_eq!(air_year(Some("")), None);
    assert_eq!(air_year(Some("soon-ish")), None);
    assert_eq!(air_year(None), None);
}

fn summary(season_number: i32, episode_count: i32) -> TmdbSeasonSummary {
    TmdbSeasonSummary {
        id: season_number,
        name: format!("Season {}", season_number),
        overview: None,
        air_date: None,
        episode_count,
        poster_path: None,
        season_number,
    }
}

#[test]
fn empty_specials_season_is_not_fetched() {
    let seasons = vec![summary(0, 0), summary(1, 10), summary(2, 8)];
    assert_eq!(seasons_to_fetch(&seasons), vec![1, 2]);
    let with_specials = vec![summary(0, 3), summary(1, 10)];
    assert_eq!(seasons_to_fetch(&with_specials), vec![0, 1]);
}

#[test]
fn refreshed_episodes_split_into_new_and_stored() {
    let existing = vec![(1, 1), (1, 2)];
    let fetched = vec![(1, 1), (1, 2), (1, 3), (2, 1)];
    assert_eq!(new_episodes(&existing, &fetched), vec![false, false, true, true]);
}

#[test]
fn updates_need_a_field() {
    let none = UpdateShowRequest { monitored: None, quality_limit: None };
    assert!(matches!(none.check(), Err(AppError::BadRequest(m)) if m == "No fields to update"));
    assert!(UpdateShowRequest { monitored: None, quality_limit: Some("720p".to_string()) }.check().is_ok());
    assert!(UpdateSeasonRequest { monitored: None }.check().is_err());
    assert!(UpdateSeasonRequest { monitored: Some(false) }.check().is_ok());
    assert!(UpdateEpisodeRequest { monitored: None }.check().is_err());
    assert!(UpdateEpisodeRequest { monitored: Some(true) }.check().is_ok());
}
