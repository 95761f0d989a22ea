use clamav_client::clamav::{
    candidate_runtime_roots, dashboard_from, prepare_scan, prepare_signature_update,
    prepare_single_scan, resolve_targets, signature_update_report, single_scan_outcome,
    system_status_from,
};
use clamav_client::engine::{
    signature_dir_ready, signature_probe_paths,
    build_scan_args, build_single_file_args, executable_names_exec, is_seed_extension,
    permission_hint, platform_folder_name, select_scan_engine, ScanEngineKind, ToolPaths,
};
use clamav_client::models::{AppConfig, ClamError, Platform, ScanMode, ScanReport, ScanRequest};
use clamav_client::paths::UserFolders;

fn no_folders() -> UserFolders {
    UserFolders { home: None, desktop: None, documents: None, downloads: None }
}

fn tools(clamscan: bool, clamdscan: bool, freshclam: bool, db: bool) -> ToolPaths {
    ToolPaths {
        clamscan: clamscan.then(|| "/usr/bin/clamscan".to_string()),
        clamdscan: clamdscan.then(|| "/usr/bin/clamdscan".to_string()),
        freshclam: freshclam.then(|| "/usr/bin/freshclam".to_string()),
        clamd: None,
        database_dir: db.then(|| "/data/clamav-db".to_string()),
        source: "system".to_string(),
    }
}

fn config() -> AppConfig {
    AppConfig {
        watched_paths: vec![],
        auto_quarantine: true,
        use_clamd_by_default: false,
        auto_scan_downloads: false,
        auto_update_signatures: true,
        auto_update_interval_hours: 24,
        auto_start_realtime: true,
    }
}

#[test]
fn engine_prefers_clamd_only_when_asked_and_not_full() {
    let t = tools(true, true, false, false);
    let (p, k) = select_scan_engine(&t, true, ScanMode::Quick).unwrap();
    assert_eq!((p.as_str(), k), ("/usr/bin/clamdscan", ScanEngineKind::Clamdscan));
    let (p, k) = select_scan_engine(&t, true, ScanMode::Full).unwrap();
    assert_eq!((p.as_str(), k), ("/usr/bin/clamscan", ScanEngineKind::Clamscan));
    let (p, k) = select_scan_engine(&t, false, ScanMode::Custom).unwrap();
    assert_eq!((p.as_str(), k), ("/usr/bin/clamscan", ScanEngineKind::Clamscan));
    let only_clamd = tools(false, true, false, false);
    let (_, k) = select_scan_engine(&only_clamd, false, ScanMode::Full).unwrap();
    assert_eq!(k, ScanEngineKind::Clamdscan);
    let none = tools(false, false, true, false);
    assert_eq!(select_scan_engine(&none, true, ScanMode::Quick).unwrap_err(), ClamError::NoScanEngine);
}

#[test]
fn scan_arguments() {
    let db = "/db".to_string();
    assert_eq!(
        build_scan_args(ScanEngineKind::Clamscan, Some(&db)),
        vec!["--recursive", "--infected", "--stdout", "--verbose", "--database=/db"]
    );
    assert_eq!(
        build_scan_args(ScanEngineKind::Clamdscan, Some(&db)),
        vec!["--fdpass", "--infected", "--multiscan", "--verbose"]
    );
    assert_eq!(build_single_file_args(ScanEngineKind::Clamscan, None), vec!["--infected", "--stdout"]);
    assert_eq!(
        build_single_file_args(ScanEngineKind::Clamscan, Some(&db)),
        vec!["--infected", "--stdout", "--database=/db"]
    );
    assert_eq!(build_single_file_args(ScanEngineKind::Clamdscan, Some(&db)), vec!["--fdpass", "--infected"]);
}

#[test]
fn executable_names_per_platform() {
    let names = vec!["clamscan".to_string(), "clamd".to_string()];
    assert_eq!(
        executable_names_exec(&names, Platform::Windows),
        vec!["clamscan.exe", "clamscan", "clamd.exe", "clamd"]
    );
    assert_eq!(executable_names_exec(&names, Platform::Linux), vec!["clamscan", "clamd"]);
}

#[test]
fn platform_texts() {
    assert_eq!(platform_folder_name(Platform::MacOs), "macos");
    assert!(permission_hint(Platform::Linux).starts_with("Sur Linux"));
    assert!(permission_hint(Platform::Windows).contains("administrateur"));
    assert!(is_seed_extension("cvd") && is_seed_extension("cdiff") && is_seed_extension("cfg"));
    assert!(!is_seed_extension("txt") && !is_seed_extension("CVD"));
}

#[test]
fn custom_scan_without_existing_target_fails() {
    let request = ScanRequest {
        mode: ScanMode::Custom,
        targets: vec!["/definitely/not/here/x".to_string()],
        use_clamd: false,
        quarantine_detected: false,
    };
    assert_eq!(resolve_targets(&request, &config(), Platform::Linux, None, &no_folders()).unwrap_err(), ClamError::NoValidTarget);
}

#[test]
fn custom_scan_keeps_existing_targets_once() {
    let dir = "/".to_string();
    let request = ScanRequest {
        mode: ScanMode::Custom,
        targets: vec![dir.clone(), "/not/here/at/all".to_string(), dir.clone()],
        use_clamd: false,
        quarantine_detected: false,
    };
    assert_eq!(resolve_targets(&request, &config(), Platform::Linux, None, &no_folders()).unwrap(), vec![dir]);
}

#[test]
fn full_scan_targets_root() {
    let request = ScanRequest { mode: ScanMode::Full, targets: vec![], use_clamd: true, quarantine_detected: false };
    assert_eq!(resolve_targets(&request, &config(), Platform::Linux, None, &no_folders()).unwrap(), vec!["/"]);
}

#[test]
fn scan_plan_puts_targets_after_options() {
    let dir = "/".to_string();
    let request = ScanRequest { mode: ScanMode::Custom, targets: vec![dir.clone()], use_clamd: false, quarantine_detected: false };
    let plan = prepare_scan(&tools(true, false, false, true), &request, &config(), Platform::Linux, None, &no_folders()).unwrap();
    assert_eq!(plan.engine_name, "clamscan");
    assert_eq!(plan.engine_kind, ScanEngineKind::Clamscan);
    assert!(!plan.system_wide);
    assert_eq!(
        plan.args,
        vec!["--recursive".to_string(), "--infected".into(), "--stdout".into(), "--verbose".into(), "--database=/data/clamav-db".into(), dir]
    );
    let none = prepare_scan(&tools(false, false, false, false), &request, &config(), Platform::Linux, None, &no_folders());
    assert_eq!(none.unwrap_err(), ClamError::NoScanEngine);
}

#[test]
fn windows_paths_get_forward_slashes() {
    let t = tools(true, false, false, false);
    let (_, _, args) = prepare_single_scan(false, &t, false, &"C:\\Users\\a\\x.exe".to_string(), Platform::Windows).unwrap();
    assert_eq!(args, vec!["--infected", "--stdout", "C:/Users/a/x.exe"]);
    let (_, _, args) = prepare_single_scan(false, &t, false, &"/a\\b".to_string(), Platform::Linux).unwrap();
    assert_eq!(args.last().unwrap(), "/a\\b");
}

#[test]
fn single_scan_waits_for_updates() {
    let t = tools(true, false, false, false);
    assert_eq!(prepare_single_scan(true, &t, false, &"/x".to_string(), Platform::Linux).unwrap_err(), ClamError::FreshclamRunning);
    assert_eq!(ClamError::FreshclamRunning.message(), "freshclam est en cours d'exécution, mise à jour des signatures en cours");
}

#[test]
fn single_scan_outcome_reads_threats() {
    let (engine, threats, raw) = single_scan_outcome("/usr/bin/clamscan".to_string(), "/x: Eicar FOUND\n", "warn");
    assert_eq!(engine, "/usr/bin/clamscan");
    assert_eq!(raw, "/x: Eicar FOUND\n\nwarn");
    assert_eq!(threats.len(), 1);
    assert_eq!(threats[0].signature, "Eicar");
}

#[test]
fn signature_update_arguments_and_report() {
    let conf = "/data/freshclam.conf".to_string();
    let (program, args) = prepare_signature_update(&tools(false, false, true, true), Some(&conf)).unwrap();
    assert_eq!(program, "/usr/bin/freshclam");
    assert_eq!(args, vec!["--stdout", "--datadir=/data/clamav-db", "--config-file=/data/freshclam.conf"]);
    assert_eq!(prepare_signature_update(&tools(true, false, false, true), None).unwrap_err(), ClamError::FreshclamNotFound);
    assert_eq!(ClamError::FreshclamNotFound.message(), "freshclam introuvable sur cette machine");
    let r = signature_update_report("u1".into(), 10, 20, true, "  updated\n", "");
    assert_eq!(r.output, "updated");
    assert!(r.success);
    let r = signature_update_report("u2".into(), 10, 20, false, "", " boom ");
    assert_eq!(r.output, "boom");
}

#[test]
fn runtime_roots_layout() {
    let res = "/res".to_string();
    let roots = candidate_runtime_roots(Some(&res), "/src", Platform::Linux);
    assert_eq!(roots, vec!["/res/vendor/clamav/linux", "/res/clamav/linux", "/src/vendor/clamav/linux"]);
    assert_eq!(candidate_runtime_roots(None, "/src", Platform::MacOs), vec!["/src/vendor/clamav/macos"]);
}

fn report(infected: usize) -> ScanReport {
    ScanReport {
        id: format!("r{infected}"),
        mode: ScanMode::Quick,
        started_at: 0,
        finished_at: 5,
        targets: vec![],
        engine: "clamscan".into(),
        scanned_files: 10,
        infected_files: infected,
        clean_files: 10 - infected,
        error_count: 0,
        access_denied_count: 0,
        access_denied_paths: vec![],
        duration_ms: 5,
        status: "clean".into(),
        threats: vec![],
        quarantined: vec![],
        raw_output: String::new(),
    }
}

#[test]
fn dashboard_totals() {
    let logs = vec![report(2), report(0), report(3)];
    let d = dashboard_from(&logs, 4, true, &config(), &tools(true, false, true, false), "linux", vec!["/q".into()]);
    assert_eq!(d.total_scans, 3);
    assert_eq!(d.total_threats, 5);
    assert_eq!(d.quarantined_items, 4);
    assert_eq!(d.last_scan.unwrap().id, "r2");
    assert!(d.engine_ready && d.freshclam_ready && !d.clamd_ready);
    assert_eq!(d.platform, "Linux");
    let empty = dashboard_from(&vec![], 0, false, &config(), &tools(false, false, false, false), "freebsd", vec![]);
    assert!(empty.last_scan.is_none());
    assert_eq!(empty.platform, "Freebsd");
    assert!(!empty.engine_ready);
}

#[test]
fn system_status_fields() {
    let mut t = tools(true, true, true, true);
    t.source = "bundled".into();
    let s = system_status_from(Platform::Windows, "windows", &t, false, true, vec!["/d".into()], None);
    assert_eq!(s.platform, "Windows");
    assert_eq!(s.permission_level, "standard");
    assert!(!s.can_scan_system_paths);
    assert!(s.bundled_runtime_available);
    assert!(s.signatures_found);
    assert_eq!(s.database_path.as_deref(), Some("/data/clamav-db"));
    let s = system_status_from(Platform::MacOs, "macos", &tools(false, false, false, false), true, false, vec![], None);
    assert_eq!(s.platform, "macOS");
    assert_eq!(s.permission_level, "elevated");
    assert!(!s.bundled_runtime_available);
}

#[test]
fn engine_name_is_the_programs_file_name() {
    let mut t = tools(true, false, false, false);
    t.clamscan = Some("/opt/av/bin/clamscan-custom".to_string());
    let request = ScanRequest { mode: ScanMode::Custom, targets: vec!["/".to_string()], use_clamd: false, quarantine_detected: false };
    let plan = prepare_scan(&t, &request, &config(), Platform::Linux, None, &no_folders()).unwrap();
    assert_eq!(plan.engine_name, "clamscan-custom");
    assert_eq!(plan.targets, vec!["/"]);
}

#[test]
fn quick_scan_uses_the_users_folders() {
    let request = ScanRequest { mode: ScanMode::Quick, targets: vec![], use_clamd: false, quarantine_detected: false };
    let folders = UserFolders { home: Some("/".into()), desktop: None, documents: None, downloads: Some("/not/here/dl".into()) };
    let mut c = config();
    c.watched_paths = vec![];
    // the downloads folder does not exist and the home folder is not used when another folder is known
    assert_eq!(resolve_targets(&request, &c, Platform::Linux, None, &folders).unwrap_err(), ClamError::NoValidTarget);
    let folders = UserFolders { home: Some("/".into()), desktop: None, documents: None, downloads: None };
    assert_eq!(resolve_targets(&request, &c, Platform::Linux, None, &folders).unwrap(), vec!["/"]);
}

#[test]
fn signature_probes_are_the_folder_and_its_four_files() {
    assert_eq!(
        signature_probe_paths("/db"),
        vec!["/db", "/db/main.cvd", "/db/main.cld", "/db/daily.cvd", "/db/daily.cld"]
    );
    assert!(!signature_dir_ready("/definitely/not/a/db/folder"));
    assert!(!signature_dir_ready("/"));
}
