use clamav_client::clamav::dashboard_from;
use clamav_client::engine::ToolPaths;
use clamav_client::auto_update::AutoUpdate;
use clamav_client::engine::ScanEngineKind;
use clamav_client::models::{AppConfig, ClamError, QuarantineEntry, ScanMode, ThreatMatch};
use clamav_client::quarantine::{
    delete_item, find_entry, plan_quarantine, quarantine_destination, record_quarantined,
    restore_item, sanitize_name,
};
use clamav_client::realtime::{
    is_transient_error, realtime_report, should_skip, stopped_status, with_overrides,
    RealtimeProtection, RecentScans,
};
use clamav_client::scan_run::ScanRun;
use clamav_client::storage::{
    append_scan_history, append_update_history, freshclam_conf_content, read_app_config,
    StoragePaths,
};
use clamav_client::models::UpdateReport;
use clamav_client::paths::UserFolders;
use clamav_client::realtime::{on_change, on_scan_result, wants_scan, ChangeKind, WorkerAction};

fn no_folders() -> UserFolders {
    UserFolders { home: None, desktop: None, documents: None, downloads: None }
}

fn threat(path: &str, sig: &str) -> ThreatMatch {
    ThreatMatch { path: path.to_string(), signature: sig.to_string() }
}

fn entry(id: &str) -> QuarantineEntry {
    QuarantineEntry {
        id: id.to_string(),
        original_path: format!("/home/{id}"),
        quarantined_path: format!("/q/{id}"),
        signature: "Sig".to_string(),
        detected_at: 1,
        file_name: id.to_string(),
        size: 3,
    }
}

#[test]
fn auto_update_starts_once_and_stops() {
    let mut u = AutoUpdate::new(24);
    assert!(!u.is_running());
    assert_eq!(u.start(), Some(24 * 3600));
    assert!(u.is_running());
    assert_eq!(u.start(), None);
    assert!(u.keeps_going());
    u.update_last_update(1234);
    assert_eq!(u.get_last_update(), Some(1234));
    assert!(u.stop());
    assert!(!u.is_running());
    assert!(!u.stop());
    u.set_interval(2);
    assert_eq!(u.start(), Some(7200));
    assert!(!u.keeps_going());
    assert_eq!(u.get_last_update(), Some(1234));
}

#[test]
fn quarantine_names_are_sanitized() {
    assert_eq!(sanitize_name("my file (1).exe"), "my_file__1_.exe");
    assert_eq!(sanitize_name("été.txt"), "_t_.txt");
    assert_eq!(sanitize_name("ok-name_2.bin"), "ok-name_2.bin");
    assert_eq!(sanitize_name(&sanitize_name("a b/c")), sanitize_name("a b/c"));
    assert_eq!(quarantine_destination("/q", "id1", "x y.exe"), "/q/id1-x_y.exe");
}

#[test]
fn quarantine_plan_keeps_threat_details() {
    let e = plan_quarantine(&threat("/home/a/virus.exe", "Eicar"), "/q", "abc".into(), 77, 68);
    assert_eq!(e.file_name, "virus.exe");
    assert_eq!(e.quarantined_path, "/q/abc-virus.exe");
    assert_eq!(e.original_path, "/home/a/virus.exe");
    assert_eq!(e.signature, "Eicar");
    assert_eq!((e.detected_at, e.size), (77, 68));
    let e = plan_quarantine(&threat("/", "Eicar"), "/q", "abc".into(), 0, 0);
    assert_eq!(e.file_name, "infected.bin");
}

#[test]
fn quarantine_index_round_trip() {
    let mut index = vec![entry("a"), entry("b")];
    record_quarantined(&mut index, entry("c"));
    assert_eq!(index.iter().map(|e| e.id.as_str()).collect::<Vec<_>>(), vec!["c", "a", "b"]);
    assert_eq!(find_entry(&index, "b"), Some(2));
    let restored = restore_item(&mut index, "c").unwrap();
    assert_eq!(restored.id, "c");
    assert_eq!(index.iter().map(|e| e.id.as_str()).collect::<Vec<_>>(), vec!["a", "b"]);
    assert_eq!(delete_item(&mut index, "zz").unwrap_err(), ClamError::QuarantineItemNotFound);
    assert_eq!(index.len(), 2);
    let deleted = delete_item(&mut index, "a").unwrap();
    assert_eq!(deleted.quarantined_path, "/q/a");
    assert_eq!(index.len(), 1);
    assert_eq!(ClamError::QuarantineItemNotFound.message(), "Élément de quarantaine introuvable");
}

#[test]
fn recent_files_are_skipped_for_five_seconds() {
    let mut cache = RecentScans::new();
    let p = "/d/file".to_string();
    let s = 1_000_000_000u64;
    assert!(!should_skip(&mut cache, &p, s));
    assert!(should_skip(&mut cache, &p, 3 * s));
    assert!(should_skip(&mut cache, &p, 6 * s - 1));
    assert!(!should_skip(&mut cache, &p, 6 * s));
    assert!(!should_skip(&mut cache, &"/d/other".to_string(), 6 * s + 1));
    assert_eq!(cache.len(), 2);
    assert!(should_skip(&mut cache, &"/d/other/".to_string(), 6 * s + 2));
    assert!(!should_skip(&mut cache, &"/d/third".to_string(), 20 * s));
    assert_eq!(cache.len(), 1);
}

fn config() -> AppConfig {
    AppConfig {
        watched_paths: vec!["/".to_string()],
        auto_quarantine: false,
        use_clamd_by_default: true,
        auto_scan_downloads: false,
        auto_update_signatures: false,
        auto_update_interval_hours: 6,
        auto_start_realtime: false,
    }
}

#[test]
fn realtime_settings_and_status() {
    let c = with_overrides(config(), Some(true), None);
    assert!(c.auto_quarantine && c.use_clamd_by_default);
    let p = RealtimeProtection::start(&c, &no_folders()).unwrap();
    assert_eq!(p.watched_paths, vec!["/"]);
    let s = p.status(true, Some("/".to_string()));
    assert!(s.enabled && s.downloads_protected && s.auto_quarantine && s.using_clamd);
    let s = p.status(false, Some("/home".to_string()));
    assert!(!s.enabled && !s.downloads_protected);
    let s = p.status(false, Some("//".to_string()));
    assert!(s.downloads_protected);
    let s = p.into_status(&UserFolders { home: None, desktop: None, documents: None, downloads: Some("/".into()) });
    assert!(s.enabled && s.downloads_protected);
    let s = p.into_status(&no_folders());
    assert!(s.enabled && !s.downloads_protected);
    let mut none = config();
    none.watched_paths = vec!["/not/here/at/all".into()];
    assert_eq!(RealtimeProtection::start(&none, &no_folders()).unwrap_err(), ClamError::NoWatchedFolder);
    let s = stopped_status(&vec!["/w".to_string()], &config());
    assert!(!s.enabled && s.using_clamd && !s.downloads_protected);
    assert!(is_transient_error("freshclam est en cours d'exécution"));
    assert!(!is_transient_error("io error"));
}

#[test]
fn realtime_report_counts_one_file() {
    let r = realtime_report("id".into(), 5, "/x".into(), "clamscan".into(), vec![threat("/x", "A"), threat("/x", "B")], vec![], "raw".into());
    assert_eq!((r.scanned_files, r.infected_files, r.clean_files), (1, 2, 0));
    assert_eq!(r.status, "infected");
    assert_eq!(r.mode, ScanMode::Realtime);
    assert_eq!(r.targets, vec!["/x"]);
}

#[test]
fn histories_put_newest_first() {
    let r1 = realtime_report("1".into(), 0, "/a".into(), "e".into(), vec![], vec![], String::new());
    let r2 = realtime_report("2".into(), 0, "/b".into(), "e".into(), vec![], vec![], String::new());
    let h = append_scan_history(append_scan_history(vec![], r1), r2);
    assert_eq!(h.iter().map(|r| r.id.as_str()).collect::<Vec<_>>(), vec!["2", "1"]);
    let u = UpdateReport { id: "u".into(), started_at: 1, finished_at: 2, success: true, output: String::new() };
    assert_eq!(append_update_history(vec![], u)[0].id, "u");
}

#[test]
fn storage_layout_and_freshclam_conf() {
    let s = StoragePaths::new("/data");
    assert_eq!(s.logs_file, "/data/scan-history.json");
    assert_eq!(s.updates_file, "/data/signature-updates.json");
    assert_eq!(s.quarantine_dir, "/data/quarantine");
    assert_eq!(s.quarantine_index_file, "/data/quarantine-index.json");
    assert_eq!(s.config_file, "/data/config.json");
    assert_eq!(s.runtime_db_dir, "/data/clamav-db");
    assert_eq!(s.freshclam_conf_file, "/data/freshclam.conf");
    assert_eq!(
        freshclam_conf_content(&s),
        "DatabaseDirectory /data/clamav-db\nDatabaseMirror database.clamav.net\nChecks 12\nForeground yes\n"
    );
}

#[test]
fn settings_fall_back_to_defaults() {
    let c = read_app_config("  \n", Some(config()), &no_folders());
    assert!(c.auto_quarantine && !c.use_clamd_by_default && c.auto_scan_downloads);
    assert_eq!(c.auto_update_interval_hours, 24);
    let c = read_app_config("{}", None, &no_folders());
    assert_eq!(c.auto_update_interval_hours, 24);
    let c = read_app_config("{...}", Some(config()), &no_folders());
    assert_eq!(c.auto_update_interval_hours, 6);
    assert!(!c.auto_quarantine);
}

#[test]
fn scan_run_follows_lines() {
    let mut run = ScanRun::new("s1".into(), ScanMode::Custom, ScanEngineKind::Clamscan, 3);
    assert!(run.on_line("   \n").is_none());
    let o = run.on_line("/a: OK\n").unwrap();
    assert!(o.threat.is_none());
    assert_eq!((o.progress.current, o.progress.total), (1, 3));
    assert_eq!(o.progress.status, "Analyse en cours");
    assert_eq!(o.progress.path.as_deref(), Some("/a"));
    let o = run.on_line("/b: Eicar FOUND\n").unwrap();
    assert_eq!(o.threat.unwrap().path, "/b");
    assert_eq!(o.progress.status, "Menace détectée");
    assert_eq!(o.progress.infected_count, 1);
    let o = run.on_line("Scanned files: 2\n").unwrap();
    assert_eq!(o.progress.current, 2);
    assert!(run.needs_quarantine(true) && !run.needs_quarantine(false));
    let (report, last) = run.finish(Some(1), "", vec![], ScanMode::Custom, 100, 350, vec!["/".into()], "clamscan".into());
    assert_eq!(report.scanned_files, 2);
    assert_eq!(report.infected_files, 1);
    assert_eq!(report.clean_files, 1);
    assert_eq!(report.status, "infected");
    assert_eq!(report.duration_ms, 250);
    assert_eq!(report.raw_output, "/a: OK\n/b: Eicar FOUND\nScanned files: 2");
    assert_eq!((last.current, last.total), (2, 2));
    assert_eq!(last.status, "Scan terminé avec menace");
}

#[test]
fn failed_silent_scan_says_so() {
    let run = ScanRun::new("s2".into(), ScanMode::Quick, ScanEngineKind::Clamdscan, 0);
    assert_eq!(run.total_files, 1);
    let (report, last) = run.finish(Some(2), "  ", vec![], ScanMode::Quick, 0, 0, vec![], "clamdscan".into());
    assert_eq!(report.error_count, 1);
    assert_eq!(report.status, "error");
    assert_eq!(report.scanned_files, 1);
    assert_eq!(report.clean_files, 1);
    assert!(report.raw_output.starts_with("Une erreur système ClamAV"));
    assert_eq!(last.status, "Scan terminé");
}

#[test]
fn full_scan_progress_uses_lines_seen() {
    let mut run = ScanRun::new("s3".into(), ScanMode::Full, ScanEngineKind::Clamscan, 10);
    assert_eq!(run.total_files, usize::MAX / 2);
    let o = run.on_line("/x: OK").unwrap();
    assert_eq!((o.progress.current, o.progress.total), (1, 1));
    let (report, _) = run.finish(Some(0), "LibClamAV Warning: old db", vec![], ScanMode::Full, 0, 1, vec![], "clamscan".into());
    assert_eq!(report.scanned_files, 1);
    assert_eq!(report.status, "clean");
    assert_eq!(report.raw_output, "/x: OK\nLibClamAV Warning: old db");
}

#[test]
fn denied_paths_are_reported() {
    let mut run = ScanRun::new("s4".into(), ScanMode::Custom, ScanEngineKind::Clamscan, 2);
    run.on_line("/root/x: Access denied ERROR");
    let (report, _) = run.finish(Some(2), "", vec![], ScanMode::Custom, 0, 1, vec![], "clamscan".into());
    assert_eq!(report.access_denied_paths, vec!["/root/x"]);
    assert_eq!(report.access_denied_count, 1);
    assert_eq!(report.error_count, 1);
}

#[test]
fn added_report_becomes_dashboards_last_scan() {
    let old = realtime_report("old".into(), 0, "/a".into(), "e".into(), vec![threat("/a", "X")], vec![], String::new());
    let new = realtime_report("new".into(), 1, "/b".into(), "e".into(), vec![threat("/b", "Y"), threat("/b", "Z")], vec![], String::new());
    let history = append_scan_history(append_scan_history(vec![], old), new);
    let tools = ToolPaths { clamscan: None, clamdscan: None, freshclam: None, clamd: None, database_dir: None, source: "system".into() };
    let d = dashboard_from(&history, 0, false, &config(), &tools, "linux", vec![]);
    assert_eq!(d.total_scans, 2);
    assert_eq!(d.total_threats, 3);
    assert_eq!(d.last_scan.unwrap().id, "new");
}

#[test]
fn worker_decisions() {
    assert!(wants_scan(ChangeKind::Create, true));
    assert!(wants_scan(ChangeKind::Modify, true));
    assert!(!wants_scan(ChangeKind::Other, true));
    assert!(!wants_scan(ChangeKind::Modify, false));
    assert_eq!(on_scan_result(Ok(0), true), WorkerAction::Ignore);
    assert_eq!(on_scan_result(Ok(2), true), WorkerAction::Record { quarantine: true });
    assert_eq!(on_scan_result(Ok(1), false), WorkerAction::Record { quarantine: false });
    assert_eq!(on_scan_result(Err("freshclam est en cours".into()), true), WorkerAction::Ignore);
    assert_eq!(on_scan_result(Err("io error".into()), true), WorkerAction::Log);
    let mut cache = RecentScans::new();
    let p = "/d/f".to_string();
    assert_eq!(on_change(&mut cache, &p, ChangeKind::Other, true, 1), WorkerAction::Ignore);
    assert_eq!(cache.len(), 0);
    assert_eq!(on_change(&mut cache, &p, ChangeKind::Create, false, 1), WorkerAction::Ignore);
    assert_eq!(on_change(&mut cache, &p, ChangeKind::Create, true, 1), WorkerAction::Scan);
    assert_eq!(on_change(&mut cache, &p, ChangeKind::Modify, true, 2), WorkerAction::Ignore);
    assert_eq!(cache.len(), 1);
}
