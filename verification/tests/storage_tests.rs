use lcars::config::{DatabaseConfig, MountConfig, MountType, NamingConfig, StorageAction, StorageConfig, StorageRule};
use lcars::error::AppError;
use lcars::models::MediaType;
use lcars::storage::{check_mount_path, is_media_extension, LocalMount, StorageManager};
use std::path::PathBuf;

fn mount(name: &str, kind: MountType, path: Option<&str>, enabled: bool) -> MountConfig {
    MountConfig {
        name: name.to_string(),
        mount_type: kind,
        path: path.map(PathBuf::from),
        host: None,
        share: None,
        username: None,
        password: None,
        mount_point: None,
        enabled,
    }
}

fn rule(dest: &str, types: &[&str]) -> StorageRule {
    StorageRule {
        action: StorageAction::Move,
        destination: dest.to_string(),
        media_types: types.iter().map(|t| t.to_string()).collect(),
    }
}

fn naming() -> NamingConfig {
    NamingConfig {
        movie_pattern: "m/{title}.{ext}".to_string(),
        tv_pattern: "t/{title}.{ext}".to_string(),
        music_pattern: "a/{title}.{ext}".to_string(),
    }
}

#[test]
fn test_local_mount_name() {
    let m = LocalMount::new("test".to_string(), PathBuf::from("/tmp/x"));
    assert_eq!(m.name(), "test");
    assert_eq!(m.mount_type(), "local");
    assert_eq!(m.root(), &PathBuf::from("/tmp/x"));
}

#[test]
fn test_path_traversal_prevention() {
    assert!(matches!(check_mount_path("../escape"), Err(AppError::BadRequest(_))));
    assert!(matches!(check_mount_path("foo/../../bar"), Err(AppError::BadRequest(_))));
    assert!(matches!(check_mount_path("../etc/passwd"), Err(AppError::BadRequest(_))));
}

#[test]
fn mount_paths() {
    assert_eq!(check_mount_path("a/./b//c.txt").unwrap(), vec!["a", "b", "c.txt"]);
    assert_eq!(check_mount_path("./x").unwrap(), vec!["x"]);
    match check_mount_path("/etc/passwd") {
        Err(AppError::BadRequest(m)) => assert_eq!(m, "Invalid path component: RootDir"),
        _ => panic!(),
    }
}

#[test]
fn manager_from_config() {
    let config = StorageConfig {
        mounts: vec![
            mount("media", MountType::Local, Some("/a"), true),
            mount("off", MountType::Local, None, false),
            mount("nas", MountType::Smb, None, true),
            mount("media", MountType::Local, Some("/b"), true),
        ],
        naming: naming(),
        rules: vec![rule("media", &["movie"]), rule("media", &[])],
    };
    let m = StorageManager::new(config).unwrap();
    let mut names = m.list_mounts();
    names.sort();
    assert_eq!(names, vec!["media"]);
    assert_eq!(m.get_mount("media").unwrap().root(), &PathBuf::from("/b"));
    assert!(m.get_mount("nas").is_none());
    assert_eq!(m.naming().movie_pattern(), "m/{title}.{ext}");
    assert_eq!(m.applicable_rules(MediaType::Movie), vec![0, 1]);
    assert_eq!(m.applicable_rules(MediaType::Track), vec![1]);
}

#[test]
fn manager_refusals() {
    let config = StorageConfig {
        mounts: vec![mount("media", MountType::Local, None, true)],
        naming: naming(),
        rules: vec![],
    };
    match StorageManager::new(config) {
        Err(AppError::Internal(m)) => {
            assert_eq!(m, "Local mount 'media' missing required 'path' field")
        }
        _ => panic!(),
    }
    let config = StorageConfig {
        mounts: vec![mount("media", MountType::Local, Some("/a"), true)],
        naming: naming(),
        rules: vec![rule("media", &[]), rule("elsewhere", &[])],
    };
    match StorageManager::new_shared(config) {
        Err(AppError::Internal(m)) => {
            assert_eq!(m, "Storage rule references unknown mount: 'elsewhere'")
        }
        _ => panic!(),
    }
}

#[test]
fn rule_media_types_ignore_ascii_case() {
    let config = StorageConfig {
        mounts: vec![mount("m", MountType::Local, Some("/a"), true)],
        naming: naming(),
        rules: vec![rule("m", &["EPISODE", "album"])],
    };
    let m = StorageManager::new(config).unwrap();
    assert_eq!(m.applicable_rules(MediaType::Episode), vec![0]);
    assert!(m.applicable_rules(MediaType::Movie).is_empty());
}

#[test]
fn media_extensions() {
    assert!(is_media_extension("MKV", MediaType::Movie));
    assert!(!is_media_extension("flac", MediaType::Episode));
    assert!(is_media_extension("Flac", MediaType::Album));
    assert!(!is_media_extension("txt", MediaType::Track));
}

#[test]
fn database_lives_under_data_by_default() {
    assert_eq!(DatabaseConfig::default().path, std::path::PathBuf::from("./data/lcars.db"));
}

#[test]
fn first_applicable_rule_with_an_available_mount_is_chosen() {
    let config = StorageConfig {
        mounts: vec![
            mount("fast", MountType::Local, Some("/fast"), true),
            mount("slow", MountType::Local, Some("/slow"), true),
        ],
        naming: naming(),
        rules: vec![rule("fast", &["album"]), rule("fast", &["movie"]), rule("slow", &[])],
    };
    let m = StorageManager::new(config).unwrap();
    assert_eq!(m.choose_rule(MediaType::Movie, &[true, true, true]).unwrap(), Some(1));
    assert_eq!(m.choose_rule(MediaType::Movie, &[true, false, true]).unwrap(), Some(2));
    assert_eq!(m.choose_rule(MediaType::Movie, &[true, false, false]).unwrap(), None);
    assert_eq!(m.choose_rule(MediaType::Track, &[true]).unwrap(), None);
    assert_eq!(m.choose_rule(MediaType::Album, &[true, false, false]).unwrap(), Some(0));
}
