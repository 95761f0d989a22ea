use clamav_client::models::Platform;
use clamav_client::paths::{
    common_binary_dirs, dedup_paths, default_full_targets, keep_existing_unique,
    normalize_targets, platform_name, signature_locations, unique_existing,
    watch_paths_from_config, default_quick_paths, downloads_dir, UserFolders,
};
use clamav_client::storage::sanitized_config;
use clamav_client::models::AppConfig;

fn s(v: &[&str]) -> Vec<String> {
    v.iter().map(|x| x.to_string()).collect()
}

#[test]
fn platform_names() {
    assert_eq!(platform_name("linux"), "Linux");
    assert_eq!(platform_name("windows"), "Windows");
    assert_eq!(platform_name("macos"), "macOS");
    assert_eq!(platform_name("freebsd"), "Freebsd");
    assert_eq!(platform_name("ébsd"), "Ébsd");
    assert_eq!(platform_name(""), "Inconnu");
}

#[test]
fn kept_paths_follow_flags_once() {
    let paths = s(&["/a", "/b", "/a", "/c", "/b"]);
    let kept = keep_existing_unique(&paths, &vec![true, false, true, true, true]);
    assert_eq!(kept, s(&["/a", "/c", "/b"]));
}

#[test]
fn unique_existing_drops_missing() {
    assert_eq!(unique_existing(&s(&["/", "/no/such/dir/x", "/"])), s(&["/"]));
    assert_eq!(unique_existing(&s(&["/", "//", "/./"])), s(&["/"]));
    assert_eq!(normalize_targets(&s(&[])), Vec::<String>::new());
}

#[test]
fn watch_paths_without_downloads() {
    let f = UserFolders { home: None, desktop: None, documents: None, downloads: Some("/".into()) };
    assert_eq!(watch_paths_from_config(&s(&["/", "/missing/q"]), false, &f), s(&["/"]));
    assert_eq!(watch_paths_from_config(&s(&["/missing/q"]), true, &f), s(&["/"]));
}

#[test]
fn full_targets_per_platform() {
    assert_eq!(default_full_targets(Platform::Linux, None), s(&["/"]));
    assert_eq!(default_full_targets(Platform::Windows, Some("Q:".into())), Vec::<String>::new());
}

#[test]
fn binary_dirs_are_sorted_without_repeats() {
    let dirs = common_binary_dirs(Platform::Linux, &s(&["/usr/bin", "/opt/x", "/usr/bin"]));
    assert_eq!(dirs, s(&["/opt/x", "/snap/bin", "/usr/bin", "/usr/local/bin"]));
    assert_eq!(dedup_paths(&s(&["a", "a", "b", "a"])), s(&["a", "b", "a"]));
    assert_eq!(dedup_paths(&s(&["/u/", "/u", "/v"])), s(&["/u/", "/v"]));
}

#[test]
fn signature_folders() {
    assert_eq!(signature_locations(Platform::Linux), s(&["/var/lib/clamav", "/usr/local/share/clamav"]));
    assert_eq!(signature_locations(Platform::Windows)[0], "C:\\ProgramData\\.clamwin\\db");
}


#[test]
fn saved_settings_keep_existing_folders() {
    let c = AppConfig {
        watched_paths: s(&["/", "/missing/w", "/"]),
        auto_quarantine: false,
        use_clamd_by_default: true,
        auto_scan_downloads: false,
        auto_update_signatures: true,
        auto_update_interval_hours: 3,
        auto_start_realtime: false,
    };
    let r = sanitized_config(c);
    assert_eq!(r.watched_paths, s(&["/"]));
    assert_eq!(r.auto_update_interval_hours, 3);
    assert!(r.use_clamd_by_default);
}

#[test]
fn paths_kept_once_as_paths() {
    let kept = keep_existing_unique(&s(&["/a/", "/a", "/a/./b", "/a/b"]), &vec![true, true, true, true]);
    assert_eq!(kept, s(&["/a/", "/a/./b"]));
}

#[test]
fn quick_folders_fall_back_to_home() {
    let f = UserFolders { home: Some("/".into()), desktop: None, documents: None, downloads: None };
    assert_eq!(default_quick_paths(&f), s(&["/"]));
    let f = UserFolders { home: Some("/".into()), desktop: Some("/".into()), documents: Some("/nope/docs".into()), downloads: None };
    assert_eq!(default_quick_paths(&f), s(&["/"]));
    let f = UserFolders { home: None, desktop: None, documents: None, downloads: Some("/dl".into()) };
    assert_eq!(downloads_dir(&f), Some("/dl".to_string()));
    let f = UserFolders { home: Some("/no/home/here".into()), desktop: None, documents: None, downloads: None };
    assert_eq!(downloads_dir(&f), None);
}
