//! The records that the client keeps, shows and stores.
//!
//! Points in time are milliseconds since the Unix epoch (UTC), and paths
//! are the strings that display them.
use vstd::string::*;
use vstd::prelude::*;

verus! {

/// The operating system the client runs on; the paths and hints it uses
/// depend on it.
#[derive(Debug, Clone, Copy, PartialEq, Eq, Structural)]
pub enum Platform {
    Windows,
    MacOs,
    Linux,
}

/// What a scan covers.
#[derive(Debug, Clone, Copy, PartialEq, Eq, Structural)]
pub enum ScanMode {
    Quick,
    Full,
    Custom,
    Realtime,
}

/// A request to scan, as the interface sends it.
#[derive(Debug)]
pub struct ScanRequest {
    pub mode: ScanMode,
    pub targets: Vec<String>,
    pub use_clamd: bool,
    pub quarantine_detected: bool,
}

/// A file the engine reported as infected, with the signature that matched.
#[derive(Debug)]
pub struct ThreatMatch {
    pub path: String,
    pub signature: String,
}

impl Clone for ThreatMatch {
    fn clone(&self) -> (r: Self)
        ensures
            r == *self,
    {
        ThreatMatch { path: self.path.clone(), signature: self.signature.clone() }
    }
}

/// A file moved into quarantine.
#[derive(Debug)]
pub struct QuarantineEntry {
    pub id: String,
    pub original_path: String,
    pub quarantined_path: String,
    pub signature: String,
    /// Milliseconds since the Unix epoch.
    pub detected_at: i64,
    pub file_name: String,
    pub size: u64,
}

impl Clone for QuarantineEntry {
    fn clone(&self) -> (r: Self)
        ensures
            r == *self,
    {
        QuarantineEntry {
            id: self.id.clone(),
            original_path: self.original_path.clone(),
            quarantined_path: self.quarantined_path.clone(),
            signature: self.signature.clone(),
            detected_at: self.detected_at,
            file_name: self.file_name.clone(),
            size: self.size,
        }
    }
}

/// The outcome of one scan.
#[derive(Debug)]
pub struct ScanReport {
    pub id: String,
    pub mode: ScanMode,
    /// Milliseconds since the Unix epoch.
    pub started_at: i64,
    /// Milliseconds since the Unix epoch.
    pub finished_at: i64,
    pub targets: Vec<String>,
    pub engine: String,
    pub scanned_files: usize,
    pub infected_files: usize,
    pub clean_files: usize,
    pub error_count: usize,
    pub access_denied_count: usize,
    pub access_denied_paths: Vec<String>,
    pub duration_ms: i64,
    pub status: String,
    pub threats: Vec<ThreatMatch>,
    pub quarantined: Vec<QuarantineEntry>,
    pub raw_output: String,
}

/// A copy of a vector of strings.
pub fn copy_strings(v: &Vec<String>) -> (r: Vec<String>)
    ensures
        r@ == v@,
{
    let r = v.clone();
    assert(r@ =~= v@);
    r
}

/// A copy of a vector of threats.
pub fn copy_threats(v: &Vec<ThreatMatch>) -> (r: Vec<ThreatMatch>)
    ensures
        r@ == v@,
{
    let r = v.clone();
    assert(r@ =~= v@);
    r
}

/// A copy of a vector of quarantine entries.
pub fn copy_entries(v: &Vec<QuarantineEntry>) -> (r: Vec<QuarantineEntry>)
    ensures
        r@ == v@,
{
    let r = v.clone();
    assert(r@ =~= v@);
    r
}

impl ScanReport {
    /// The two reports hold the same values.
    pub open spec fn same_as(&self, other: &ScanReport) -> bool {
        &&& self.id == other.id
        &&& self.mode == other.mode
        &&& self.started_at == other.started_at
        &&& self.finished_at == other.finished_at
        &&& self.targets@ == other.targets@
        &&& self.engine == other.engine
        &&& self.scanned_files == other.scanned_files
        &&& self.infected_files == other.infected_files
        &&& self.clean_files == other.clean_files
        &&& self.error_count == other.error_count
        &&& self.access_denied_count == other.access_denied_count
        &&& self.access_denied_paths@ == other.access_denied_paths@
        &&& self.duration_ms == other.duration_ms
        &&& self.status == other.status
        &&& self.threats@ == other.threats@
        &&& self.quarantined@ == other.quarantined@
        &&& self.raw_output == other.raw_output
    }
}

impl Clone for ScanReport {
    fn clone(&self) -> (r: Self)
        ensures
            r.same_as(self),
    {
        ScanReport {
            id: self.id.clone(),
            mode: self.mode,
            started_at: self.started_at,
            finished_at: self.finished_at,
            targets: copy_strings(&self.targets),
            engine: self.engine.clone(),
            scanned_files: self.scanned_files,
            infected_files: self.infected_files,
            clean_files: self.clean_files,
            error_count: self.error_count,
            access_denied_count: self.access_denied_count,
            access_denied_paths: copy_strings(&self.access_denied_paths),
            duration_ms: self.duration_ms,
            status: self.status.clone(),
            threats: copy_threats(&self.threats),
            quarantined: copy_entries(&self.quarantined),
            raw_output: self.raw_output.clone(),
        }
    }
}

/// The outcome of one signature update.
#[derive(Debug)]
pub struct UpdateReport {
    pub id: String,
    /// Milliseconds since the Unix epoch.
    pub started_at: i64,
    /// Milliseconds since the Unix epoch.
    pub finished_at: i64,
    pub success: bool,
    pub output: String,
}

/// The figures the dashboard shows.
#[derive(Debug)]
pub struct DashboardStats {
    pub total_scans: usize,
    pub total_threats: usize,
    pub quarantined_items: usize,
    pub last_scan: Option<ScanReport>,
    pub realtime_enabled: bool,
    pub engine_ready: bool,
    pub freshclam_ready: bool,
    pub clamd_ready: bool,
    pub platform: String,
    pub quick_targets: Vec<String>,
    pub auto_scan_downloads: bool,
    pub engine_source: String,
}

/// Where a scan stands, for the progress bar; the percentage shown beside
/// it is computed from `current` and `total` by the interface.
#[derive(Debug)]
pub struct ScanProgressEvent {
    pub scan_id: String,
    pub current: usize,
    pub total: usize,
    pub status: String,
    pub path: Option<String>,
    pub infected_count: usize,
}

/// The state of real-time protection.
#[derive(Debug)]
pub struct RealtimeStatus {
    pub enabled: bool,
    pub watched_paths: Vec<String>,
    pub auto_quarantine: bool,
    pub using_clamd: bool,
    pub downloads_protected: bool,
}

/// What the client found of the engine and of its own rights.
#[derive(Debug)]
pub struct SystemStatus {
    pub platform: String,
    pub clamscan_path: Option<String>,
    pub clamdscan_path: Option<String>,
    pub freshclam_path: Option<String>,
    pub clamd_path: Option<String>,
    pub signatures_found: bool,
    pub recommended_paths: Vec<String>,
    pub downloads_path: Option<String>,
    pub elevated_session: bool,
    pub permission_level: String,
    pub permission_hint: String,
    pub can_scan_system_paths: bool,
    pub engine_source: String,
    pub bundled_runtime_available: bool,
    pub database_path: Option<String>,
}

/// A threat to announce to the interface.
#[derive(Debug)]
pub struct ThreatEventPayload {
    pub scan_id: Option<String>,
    pub threat: ThreatMatch,
    pub quarantined: Vec<QuarantineEntry>,
}

/// The user's settings.
#[derive(Debug)]
pub struct AppConfig {
    pub watched_paths: Vec<String>,
    pub auto_quarantine: bool,
    pub use_clamd_by_default: bool,
    pub auto_scan_downloads: bool,
    pub auto_update_signatures: bool,
    pub auto_update_interval_hours: u64,
    pub auto_start_realtime: bool,
}

impl AppConfig {
    /// The two configurations hold the same values.
    pub open spec fn same_as(&self, other: &AppConfig) -> bool {
        &&& self.watched_paths@ == other.watched_paths@
        &&& self.auto_quarantine == other.auto_quarantine
        &&& self.use_clamd_by_default == other.use_clamd_by_default
        &&& self.auto_scan_downloads == other.auto_scan_downloads
        &&& self.auto_update_signatures == other.auto_update_signatures
        &&& self.auto_update_interval_hours == other.auto_update_interval_hours
        &&& self.auto_start_realtime == other.auto_start_realtime
    }
}

impl Clone for AppConfig {
    fn clone(&self) -> (r: Self)
        ensures
            r.same_as(self),
    {
        AppConfig {
            watched_paths: copy_strings(&self.watched_paths),
            auto_quarantine: self.auto_quarantine,
            use_clamd_by_default: self.use_clamd_by_default,
            auto_scan_downloads: self.auto_scan_downloads,
            auto_update_signatures: self.auto_update_signatures,
            auto_update_interval_hours: self.auto_update_interval_hours,
            auto_start_realtime: self.auto_start_realtime,
        }
    }
}

/// The settings a first start uses, whatever paths it watches.
pub open spec fn has_default_switches(c: AppConfig) -> bool {
    &&& c.auto_quarantine
    &&& !c.use_clamd_by_default
    &&& c.auto_scan_downloads
    &&& c.auto_update_signatures
    &&& c.auto_update_interval_hours == 24
    &&& c.auto_start_realtime
}

/// Why an operation of the client failed.
#[derive(Debug, Clone, Copy, PartialEq, Eq, Structural)]
pub enum ClamError {
    /// No `freshclam` binary was found.
    FreshclamNotFound,
    /// Neither `clamscan` nor `clamdscan` was found.
    NoScanEngine,
    /// The scan has no target that exists.
    NoValidTarget,
    /// No quarantine entry has the given id.
    QuarantineItemNotFound,
    /// Real-time protection has no folder to watch.
    NoWatchedFolder,
    /// A signature update is running, so a single-file scan must wait.
    FreshclamRunning,
}

impl ClamError {
    /// The message shown to the user.
    pub fn message(&self) -> (r: String)
        ensures
            r@ == self.message_spec(),
    {
        match self {
            ClamError::FreshclamNotFound => String::from_str("freshclam introuvable sur cette machine"),
            ClamError::NoScanEngine => String::from_str(
                "Aucun moteur ClamAV exploitable n'a ete trouve sur cette machine",
            ),
            ClamError::NoValidTarget => String::from_str("Aucune cible valide à analyser"),
            ClamError::QuarantineItemNotFound => String::from_str(
                "Élément de quarantaine introuvable",
            ),
            ClamError::NoWatchedFolder => String::from_str(
                "Aucun dossier surveillé n'est configuré pour la protection temps réel",
            ),
            ClamError::FreshclamRunning => String::from_str(
                "freshclam est en cours d'exécution, mise à jour des signatures en cours",
            ),
        }
    }

    pub open spec fn message_spec(&self) -> Seq<char> {
        match self {
            ClamError::FreshclamNotFound => "freshclam introuvable sur cette machine"@,
            ClamError::NoScanEngine => "Aucun moteur ClamAV exploitable n'a ete trouve sur cette machine"@,
            ClamError::NoValidTarget => "Aucune cible valide à analyser"@,
            ClamError::QuarantineItemNotFound => "Élément de quarantaine introuvable"@,
            ClamError::NoWatchedFolder => "Aucun dossier surveillé n'est configuré pour la protection temps réel"@,
            ClamError::FreshclamRunning => "freshclam est en cours d'exécution, mise à jour des signatures en cours"@,
        }
    }
}

} // verus!
