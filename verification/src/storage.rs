//! Where the client keeps its files, and how its histories and settings
//! change. Reading and writing the files themselves is left to the caller.
use vstd::prelude::*;
use vstd::string::*;
use crate::models::{has_default_switches, AppConfig, ScanReport, UpdateReport};
use crate::paths::{
    default_watch_paths, is_default_watch, is_normalized, joined_path, joined_with, path_join,
    plain_component, verbatim_prefixed, UserFolders,
};
use crate::scan_output::strs;
use crate::text::{trim, trim_str};

verus! {

/// The files and folders of the client, all inside `data_dir`.
#[derive(Debug)]
pub struct StoragePaths {
    pub data_dir: String,
    pub logs_file: String,
    pub updates_file: String,
    pub quarantine_dir: String,
    pub quarantine_index_file: String,
    pub config_file: String,
    pub runtime_db_dir: String,
    pub freshclam_conf_file: String,
}

impl Clone for StoragePaths {
    fn clone(&self) -> (r: Self)
        ensures
            r == *self,
    {
        StoragePaths {
            data_dir: self.data_dir.clone(),
            logs_file: self.logs_file.clone(),
            updates_file: self.updates_file.clone(),
            quarantine_dir: self.quarantine_dir.clone(),
            quarantine_index_file: self.quarantine_index_file.clone(),
            config_file: self.config_file.clone(),
            runtime_db_dir: self.runtime_db_dir.clone(),
            freshclam_conf_file: self.freshclam_conf_file.clone(),
        }
    }
}

impl StoragePaths {
    /// The layout of the client's files under `data_dir`.
    pub open spec fn laid_out_in(&self, data_dir: Seq<char>) -> bool {
        &&& self.data_dir@ == data_dir
        &&& self.logs_file@ == joined_path(data_dir, "scan-history.json"@)
        &&& self.updates_file@ == joined_path(data_dir, "signature-updates.json"@)
        &&& self.quarantine_dir@ == joined_path(data_dir, "quarantine"@)
        &&& self.quarantine_index_file@ == joined_path(data_dir, "quarantine-index.json"@)
        &&& self.config_file@ == joined_path(data_dir, "config.json"@)
        &&& self.runtime_db_dir@ == joined_path(data_dir, "clamav-db"@)
        &&& self.freshclam_conf_file@ == joined_path(data_dir, "freshclam.conf"@)
    }

    /// Each file is `data_dir`, at most one separator, then its name.
    pub open spec fn directly_in(&self, data_dir: Seq<char>) -> bool {
        &&& joined_with(data_dir, "scan-history.json"@, self.logs_file@)
        &&& joined_with(data_dir, "signature-updates.json"@, self.updates_file@)
        &&& joined_with(data_dir, "quarantine"@, self.quarantine_dir@)
        &&& joined_with(data_dir, "quarantine-index.json"@, self.quarantine_index_file@)
        &&& joined_with(data_dir, "config.json"@, self.config_file@)
        &&& joined_with(data_dir, "clamav-db"@, self.runtime_db_dir@)
        &&& joined_with(data_dir, "freshclam.conf"@, self.freshclam_conf_file@)
    }

    /// The client's files in the application data folder `data_dir`.
    pub fn new(data_dir: &str) -> (r: StoragePaths)
        ensures
            r.laid_out_in(data_dir@),
            !verbatim_prefixed(data_dir@) ==> r.directly_in(data_dir@),
    {
        proof {
            reveal_strlit("scan-history.json");
            reveal_strlit("signature-updates.json");
            reveal_strlit("quarantine");
            reveal_strlit("quarantine-index.json");
            reveal_strlit("config.json");
            reveal_strlit("clamav-db");
            reveal_strlit("freshclam.conf");
            lemma_long_name_plain("scan-history.json"@);
            lemma_long_name_plain("signature-updates.json"@);
            lemma_long_name_plain("quarantine"@);
            lemma_long_name_plain("quarantine-index.json"@);
            lemma_long_name_plain("config.json"@);
            lemma_long_name_plain("clamav-db"@);
            lemma_long_name_plain("freshclam.conf"@);
        }
        StoragePaths {
            data_dir: String::from_str(data_dir),
            logs_file: path_join(data_dir, "scan-history.json"),
            updates_file: path_join(data_dir, "signature-updates.json"),
            quarantine_dir: path_join(data_dir, "quarantine"),
            quarantine_index_file: path_join(data_dir, "quarantine-index.json"),
            config_file: path_join(data_dir, "config.json"),
            runtime_db_dir: path_join(data_dir, "clamav-db"),
            freshclam_conf_file: path_join(data_dir, "freshclam.conf"),
        }
    }
}

/// A name of three characters or more without separators is a plain component.
pub proof fn lemma_long_name_plain(name: Seq<char>)
    requires
        name.len() > 2,
        !name.contains('/'),
        !name.contains('\\'),
        !name.contains(':'),
    ensures
        plain_component(name),
{
    assert(seq!['.'].len() == 1);
    assert(seq!['.', '.'].len() == 2);
}

/// The configuration written for `freshclam`: the database folder, the
/// official mirror, twelve checks a day, and no daemon mode.
pub open spec fn freshclam_conf_spec(runtime_db_dir: Seq<char>) -> Seq<char> {
    "DatabaseDirectory "@ + runtime_db_dir
        + "\nDatabaseMirror database.clamav.net\nChecks 12\nForeground yes\n"@
}

/// The text of the `freshclam` configuration file.
pub fn freshclam_conf_content(paths: &StoragePaths) -> (r: String)
    ensures
        r@ == freshclam_conf_spec(paths.runtime_db_dir@),
{
    let mut s = String::from_str("DatabaseDirectory ");
    s.append(paths.runtime_db_dir.as_str());
    s.append("\nDatabaseMirror database.clamav.net\nChecks 12\nForeground yes\n");
    s
}

/// The scan history once `report` is added: newest first.
pub fn append_scan_history(items: Vec<ScanReport>, report: ScanReport) -> (r: Vec<ScanReport>)
    ensures
        r@ == seq![report] + items@,
{
    let ghost before = items@;
    let ghost added = report;
    let mut items = items;
    items.insert(0, report);
    assert(items@ =~= seq![added] + before);
    items
}

/// The update history once `report` is added: newest first.
pub fn append_update_history(items: Vec<UpdateReport>, report: UpdateReport) -> (r: Vec<
    UpdateReport,
>)
    ensures
        r@ == seq![report] + items@,
{
    let ghost before = items@;
    let ghost added = report;
    let mut items = items;
    items.insert(0, report);
    assert(items@ =~= seq![added] + before);
    items
}

/// The settings read from the content of the settings file: the defaults
/// when the file is blank or could not be parsed (`parsed` is what parsing
/// it gave), else what was parsed.
pub fn read_app_config(content: &str, parsed: Option<AppConfig>, folders: &UserFolders) -> (r: AppConfig)
    ensures
        trim(content@).len() != 0 && parsed is Some ==> r.same_as(&parsed->0),
        trim(content@).len() == 0 || parsed is None ==> has_default_switches(r) && is_default_watch(
            *folders,
            crate::scan_output::strs(r.watched_paths@),
        ),
{
    let t = trim_str(content);
    if t.as_str().is_empty() {
        return AppConfig::default(folders);
    }
    match parsed {
        Some(c) => c,
        None => AppConfig::default(folders),
    }
}

/// The settings as saved: the watched folders reduced to those that exist,
/// each once; the rest unchanged.
pub fn sanitized_config(config: AppConfig) -> (r: AppConfig)
    ensures
        is_normalized(strs(config.watched_paths@), strs(r.watched_paths@)),
        r.auto_quarantine == config.auto_quarantine,
        r.use_clamd_by_default == config.use_clamd_by_default,
        r.auto_scan_downloads == config.auto_scan_downloads,
        r.auto_update_signatures == config.auto_update_signatures,
        r.auto_update_interval_hours == config.auto_update_interval_hours,
        r.auto_start_realtime == config.auto_start_realtime,
{
    let mut config = config;
    let watched = crate::paths::normalize_targets(&config.watched_paths);
    config.watched_paths = watched;
    config
}

impl AppConfig {
    /// The settings of a first start for the user's folders `folders`: watch
    /// the default folders, quarantine automatically, use `clamscan`, protect
    /// the downloads folder, update the signatures every 24 hours, and start
    /// real-time protection.
    pub fn default(folders: &UserFolders) -> (r: AppConfig)
        ensures
            has_default_switches(r),
            is_default_watch(*folders, strs(r.watched_paths@)),
    {
        AppConfig {
            watched_paths: default_watch_paths(folders),
            auto_quarantine: true,
            use_clamd_by_default: false,
            auto_scan_downloads: true,
            auto_update_signatures: true,
            auto_update_interval_hours: 24,
            auto_start_realtime: true,
        }
    }
}

} // verus!
