//! Real-time protection: the folders it watches, the status it shows, the
//! files it does not scan twice within five seconds, and the report of a
//! threat it finds. Watching the folders and scanning the files is left to
//! the caller.
use vstd::prelude::*;
use vstd::string::*;
use crate::models::{AppConfig, ClamError, QuarantineEntry, RealtimeStatus, ScanMode, ScanReport, ThreatMatch};
use crate::paths::{
    downloads_dir, is_watched, opt_text, paths_equal, same_path, user_downloads,
    watch_paths_from_config, UserFolders,
};
use crate::scan_output::strs;
use crate::text::{chars_of, contains_exec, has_sub};

verus! {

/// The settings of running real-time protection.
#[derive(Debug)]
pub struct RealtimeProtection {
    pub watched_paths: Vec<String>,
    pub auto_quarantine: bool,
    pub use_clamd: bool,
}

/// The status of protection with the settings `config` that watches
/// `watched` and is not running.
pub open spec fn config_status(s: RealtimeStatus, watched: Seq<String>, config: AppConfig) -> bool {
    &&& !s.enabled
    &&& s.watched_paths@ == watched
    &&& s.auto_quarantine == config.auto_quarantine
    &&& s.using_clamd == config.use_clamd_by_default
    &&& s.downloads_protected == config.auto_scan_downloads
}

/// The status of protection that is not running, with the settings
/// `config`, once it watched `watched`.
pub fn stopped_status(watched: &Vec<String>, config: &AppConfig) -> (r: RealtimeStatus)
    ensures
        config_status(r, watched@, *config),
{
    RealtimeStatus {
        enabled: false,
        watched_paths: crate::models::copy_strings(watched),
        auto_quarantine: config.auto_quarantine,
        using_clamd: config.use_clamd_by_default,
        downloads_protected: config.auto_scan_downloads,
    }
}

/// The status shown while protection does not run: what it would watch with
/// the settings `config` and the user's folders `folders`.
pub fn idle_realtime_status(config: &AppConfig, folders: &UserFolders) -> (r: RealtimeStatus)
    ensures
        !r.enabled,
        r.auto_quarantine == config.auto_quarantine,
        r.using_clamd == config.use_clamd_by_default,
        r.downloads_protected == config.auto_scan_downloads,
        is_watched(
            strs(config.watched_paths@),
            config.auto_scan_downloads,
            *folders,
            strs(r.watched_paths@),
        ),
{
    let watched = watch_paths_from_config(&config.watched_paths, config.auto_scan_downloads, folders);
    stopped_status(&watched, config)
}

/// The settings with the choices made when protection is started, where
/// they are given.
pub fn with_overrides(config: AppConfig, auto_quarantine: Option<bool>, use_clamd: Option<bool>) -> (r: AppConfig)
    ensures
        r.watched_paths@ == config.watched_paths@,
        r.auto_quarantine == match auto_quarantine {
            Some(v) => v,
            None => config.auto_quarantine,
        },
        r.use_clamd_by_default == match use_clamd {
            Some(v) => v,
            None => config.use_clamd_by_default,
        },
        r.auto_scan_downloads == config.auto_scan_downloads,
        r.auto_update_signatures == config.auto_update_signatures,
        r.auto_update_interval_hours == config.auto_update_interval_hours,
        r.auto_start_realtime == config.auto_start_realtime,
{
    let mut config = config;
    match auto_quarantine {
        Some(v) => {
            config.auto_quarantine = v;
        },
        None => {},
    }
    match use_clamd {
        Some(v) => {
            config.use_clamd_by_default = v;
        },
        None => {},
    }
    config
}

/// The downloads folder `downloads` is, as a path, one of `watched`.
pub open spec fn downloads_watched(watched: Seq<Seq<char>>, downloads: Option<Seq<char>>) -> bool {
    match downloads {
        Some(d) => exists|k: int| 0 <= k < watched.len() && same_path(d, #[trigger] watched[k]),
        None => false,
    }
}

/// Whether `d` is, as a path, one of `watched`.
pub fn path_watched(watched: &Vec<String>, d: &String) -> (r: bool)
    ensures
        r == downloads_watched(strs(watched@), Some(d@)),
{
    let ghost ws = strs(watched@);
    let mut i: usize = 0;
    while i < watched.len()
        invariant
            i <= watched@.len(),
            ws == strs(watched@),
            forall|k: int| 0 <= k < i ==> !same_path(d@, #[trigger] ws[k]),
        decreases watched@.len() - i,
    {
        if paths_equal(d.as_str(), watched[i].as_str()) {
            assert(same_path(d@, ws[i as int]));
            return true;
        }
        i = i + 1;
    }
    false
}

impl RealtimeProtection {
    /// Protection watching `watched` with the settings `config`, or
    /// `NoWatchedFolder` when there is nothing to watch.
    pub fn with_watched_paths(config: &AppConfig, watched: Vec<String>) -> (r: Result<
        RealtimeProtection,
        ClamError,
    >)
        ensures
            watched@.len() == 0 ==> (r matches Err(e) && e == ClamError::NoWatchedFolder),
            watched@.len() > 0 ==> (r matches Ok(p) && p.watched_paths@ == watched@
                && p.auto_quarantine == config.auto_quarantine && p.use_clamd
                == config.use_clamd_by_default),
    {
        if watched.len() == 0 {
            return Err(ClamError::NoWatchedFolder);
        }
        Ok(
            RealtimeProtection {
                watched_paths: watched,
                auto_quarantine: config.auto_quarantine,
                use_clamd: config.use_clamd_by_default,
            },
        )
    }

    /// Protection with the settings `config` and the user's folders
    /// `folders`: it watches the folders `watch_paths_from_config` gives, or
    /// fails with `NoWatchedFolder` when that is none.
    pub fn start(config: &AppConfig, folders: &UserFolders) -> (r: Result<RealtimeProtection, ClamError>)
        ensures
            r matches Err(e) ==> e == ClamError::NoWatchedFolder && is_watched(
                strs(config.watched_paths@),
                config.auto_scan_downloads,
                *folders,
                Seq::empty(),
            ),
            r matches Ok(p) ==> {
                &&& p.watched_paths@.len() > 0
                &&& p.auto_quarantine == config.auto_quarantine
                &&& p.use_clamd == config.use_clamd_by_default
                &&& is_watched(
                    strs(config.watched_paths@),
                    config.auto_scan_downloads,
                    *folders,
                    strs(p.watched_paths@),
                )
            },
    {
        let watched = watch_paths_from_config(&config.watched_paths, config.auto_scan_downloads, folders);
        proof {
            if watched@.len() == 0 {
                assert(strs(watched@) =~= Seq::<Seq<char>>::empty());
            }
        }
        Self::with_watched_paths(config, watched)
    }

    /// The status of this protection, given the user's downloads folder:
    /// downloads count as protected when that folder is, as a path, one of
    /// those watched.
    pub fn status(&self, enabled: bool, downloads: Option<String>) -> (r: RealtimeStatus)
        ensures
            r.enabled == enabled,
            r.watched_paths@ == self.watched_paths@,
            r.auto_quarantine == self.auto_quarantine,
            r.using_clamd == self.use_clamd,
            r.downloads_protected == downloads_watched(strs(self.watched_paths@), opt_text(downloads)),
    {
        let protected = match &downloads {
            Some(d) => path_watched(&self.watched_paths, d),
            None => false,
        };
        RealtimeStatus {
            enabled,
            watched_paths: crate::models::copy_strings(&self.watched_paths),
            auto_quarantine: self.auto_quarantine,
            using_clamd: self.use_clamd,
            downloads_protected: protected,
        }
    }

    /// The status of this running protection: `status` for the downloads
    /// folder `downloads_dir` finds with the user's folders `folders`.
    pub fn into_status(&self, folders: &UserFolders) -> (r: RealtimeStatus)
        ensures
            r.enabled,
            r.watched_paths@ == self.watched_paths@,
            r.auto_quarantine == self.auto_quarantine,
            r.using_clamd == self.use_clamd,
            r.downloads_protected == downloads_watched(
                strs(self.watched_paths@),
                user_downloads(*folders, true),
            ) || r.downloads_protected == downloads_watched(
                strs(self.watched_paths@),
                user_downloads(*folders, false),
            ),
    {
        self.status(true, downloads_dir(folders))
    }
}

// ---------------------------------------------------------------------------
// Files seen recently.

/// How long, in nanoseconds, a file is not scanned again: five seconds.
pub open spec fn rescan_delay_ns() -> u64 {
    5_000_000_000
}

/// The path and time of each entry.
pub open spec fn entry_views(s: Seq<(String, u64)>) -> Seq<(Seq<char>, u64)> {
    s.map_values(|e: (String, u64)| (e.0@, e.1))
}

/// The entries of `s` scanned less than five seconds before `now`; an entry
/// from after `now` counts as scanned at `now`.
pub open spec fn fresh_entries(s: Seq<(Seq<char>, u64)>, now: u64) -> Seq<(Seq<char>, u64)>
    decreases s.len(),
{
    if s.len() == 0 {
        Seq::empty()
    } else {
        let rest = fresh_entries(s.drop_last(), now);
        let e = s.last();
        let elapsed: int = if now >= e.1 {
            now - e.1
        } else {
            0
        };
        if elapsed < rescan_delay_ns() {
            rest.push(e)
        } else {
            rest
        }
    }
}

/// Some entry of `s` is about `path`, as a path (the query compared with
/// each key, as `HashMap::contains_key` does).
pub open spec fn has_path(s: Seq<(Seq<char>, u64)>, path: Seq<char>) -> bool {
    exists|k: int| 0 <= k < s.len() && same_path(path, (#[trigger] s[k]).0)
}

/// No entry of `s` is, as a path, equal to one before it: each path is a
/// key once.
pub open spec fn distinct_paths(s: Seq<(Seq<char>, u64)>) -> bool {
    forall|i: int, j: int| 0 <= i < j < s.len() ==> !same_path(#[trigger] s[j].0, #[trigger] s[i].0)
}

/// The files scanned recently, each once, with the time (in nanoseconds on
/// a clock that only goes forward) it was last scanned.
#[derive(Debug)]
pub struct RecentScans {
    entries: Vec<(String, u64)>,
}

impl RecentScans {
    #[verifier::type_invariant]
    spec fn keys_once(self) -> bool {
        distinct_paths(entry_views(self.entries@))
    }

    /// The files remembered, with their times, oldest first.
    pub closed spec fn seen(self) -> Seq<(Seq<char>, u64)> {
        entry_views(self.entries@)
    }

    pub fn new() -> (r: RecentScans)
        ensures
            r.seen().len() == 0,
    {
        let r = RecentScans { entries: Vec::new() };
        assert(entry_views(r.entries@) =~= Seq::<(Seq<char>, u64)>::empty());
        r
    }

    /// The number of files remembered.
    pub fn len(&self) -> (r: usize)
        ensures
            r == self.seen().len(),
    {
        self.entries.len()
    }
}

/// The entries kept by `fresh_entries` are entries of `s`, in order.
proof fn lemma_fresh_from(s: Seq<(Seq<char>, u64)>, now: u64, a: int)
    requires
        0 <= a < fresh_entries(s, now).len(),
    ensures
        exists|i: int| 0 <= i < s.len() && fresh_entries(s, now)[a] == #[trigger] s[i] && fresh_entries(s.take(i), now).len() == a,
    decreases s.len(),
{
    let f = fresh_entries(s, now);
    let rest = fresh_entries(s.drop_last(), now);
    assert(s.drop_last().take(s.len() - 1) =~= s.drop_last());
    assert(s.take(s.len() - 1) =~= s.drop_last());
    if a < rest.len() {
        lemma_fresh_from(s.drop_last(), now, a);
        let i = choose|i: int| 0 <= i < s.drop_last().len() && rest[a] == #[trigger] s.drop_last()[i] && fresh_entries(s.drop_last().take(i), now).len() == a;
        assert(s.drop_last().take(i) =~= s.take(i));
        assert(f[a] == rest[a]);
        assert(s[i] == s.drop_last()[i]);
    } else {
        assert(f.len() == rest.len() + 1);
        assert(f[a] == s.last());
        assert(s[s.len() - 1] == s.last());
    }
}

/// The lengths of `fresh_entries` grow with the prefix taken.
proof fn lemma_fresh_prefix_len(s: Seq<(Seq<char>, u64)>, now: u64, i: int, j: int)
    requires
        0 <= i <= j <= s.len(),
    ensures
        fresh_entries(s.take(i), now).len() <= fresh_entries(s.take(j), now).len(),
    decreases j - i,
{
    if i < j {
        lemma_fresh_prefix_len(s, now, i, j - 1);
        assert(s.take(j).drop_last() =~= s.take(j - 1));
    }
}

/// Keeping the fresh entries keeps each path once.
proof fn lemma_fresh_distinct(s: Seq<(Seq<char>, u64)>, now: u64)
    requires
        distinct_paths(s),
    ensures
        distinct_paths(fresh_entries(s, now)),
{
    let f = fresh_entries(s, now);
    assert forall|a: int, b: int| 0 <= a < b < f.len() implies !same_path(#[trigger] f[b].0, #[trigger] f[a].0) by {
        lemma_fresh_from(s, now, a);
        lemma_fresh_from(s, now, b);
        let i = choose|i: int| 0 <= i < s.len() && f[a] == #[trigger] s[i] && fresh_entries(s.take(i), now).len() == a;
        let j = choose|j: int| 0 <= j < s.len() && f[b] == #[trigger] s[j] && fresh_entries(s.take(j), now).len() == b;
        if j <= i {
            lemma_fresh_prefix_len(s, now, j, i);
        }
        assert(i < j);
    }
}

/// Whether a change to `path` at time `now` is ignored: the entries five
/// seconds old or older are forgotten; the change is ignored when `path` is
/// still remembered (as a path), and otherwise `path` is remembered at
/// `now`.
pub fn should_skip(cache: &mut RecentScans, path: &String, now: u64) -> (r: bool)
    ensures
        r == has_path(fresh_entries(old(cache).seen(), now), path@),
        r ==> final(cache).seen() == fresh_entries(old(cache).seen(), now),
        !r ==> final(cache).seen() == fresh_entries(old(cache).seen(), now).push((path@, now)),
{
    proof {
        use_type_invariant(&*cache);
    }
    let ghost all = entry_views(cache.entries@);
    let mut kept: Vec<(String, u64)> = Vec::new();
    let mut i: usize = 0;
    assert(all.take(0) =~= Seq::<(Seq<char>, u64)>::empty());
    assert(entry_views(kept@) =~= Seq::<(Seq<char>, u64)>::empty());
    while i < cache.entries.len()
        invariant
            i <= cache.entries@.len(),
            all == entry_views(cache.entries@),
            entry_views(kept@) == fresh_entries(all.take(i as int), now),
        decreases cache.entries@.len() - i,
    {
        proof {
            assert(all.take(i + 1).drop_last() =~= all.take(i as int));
            assert(all.take(i + 1).last() == (cache.entries@[i as int].0@, cache.entries@[i as int].1));
        }
        let t = cache.entries[i].1;
        let elapsed: u64 = if now >= t {
            now - t
        } else {
            0
        };
        if elapsed < 5_000_000_000 {
            let ghost before = kept@;
            let p = cache.entries[i].0.clone();
            kept.push((p, t));
            assert(entry_views(kept@) =~= entry_views(before).push((p@, t)));
        }
        i = i + 1;
    }
    assert(all.take(cache.entries@.len() as int) =~= all);
    let ghost fresh = entry_views(kept@);
    proof {
        lemma_fresh_distinct(all, now);
    }
    let mut j: usize = 0;
    let mut found = false;
    while j < kept.len() && !found
        invariant
            j <= kept@.len(),
            fresh == entry_views(kept@),
            found ==> has_path(fresh, path@),
            !found ==> forall|k: int| 0 <= k < j ==> !same_path(path@, #[trigger] fresh[k].0),
        decreases kept@.len() - j,
    {
        if paths_equal(path.as_str(), kept[j].0.as_str()) {
            assert(same_path(path@, fresh[j as int].0));
            found = true;
        }
        j = j + 1;
    }
    if !found {
        kept.push((path.clone(), now));
        assert(entry_views(kept@) =~= fresh.push((path@, now)));
        assert forall|a: int, b: int| 0 <= a < b < entry_views(kept@).len() implies !same_path(
            #[trigger] entry_views(kept@)[b].0,
            #[trigger] entry_views(kept@)[a].0,
        ) by {
            if b == fresh.len() {
                assert(entry_views(kept@)[a] == fresh[a]);
            } else {
                assert(entry_views(kept@)[a] == fresh[a]);
                assert(entry_views(kept@)[b] == fresh[b]);
            }
        }
    }
    cache.entries = kept;
    found
}

// ---------------------------------------------------------------------------
// What the worker does with a change and with a scan.

/// The kinds of change the watcher reports.
#[derive(Debug, Clone, Copy, PartialEq, Eq, Structural)]
pub enum ChangeKind {
    Create,
    Modify,
    Other,
}

/// Whether a change is worth scanning: a file was created or modified and
/// is (still) a regular file.
pub fn wants_scan(kind: ChangeKind, is_file: bool) -> (r: bool)
    ensures
        r == ((kind == ChangeKind::Create || kind == ChangeKind::Modify) && is_file),
{
    (kind == ChangeKind::Create || kind == ChangeKind::Modify) && is_file
}

/// What the worker does with a change or with the scan of a changed file.
#[derive(Debug, Clone, Copy, PartialEq, Eq, Structural)]
pub enum WorkerAction {
    /// Nothing: no history entry and no event.
    Ignore,
    /// Scan the changed file.
    Scan,
    /// Threats were found: record a report, quarantining the files first
    /// when `quarantine` is set, and announce each threat.
    Record { quarantine: bool },
    /// The scan failed for a lasting reason: log it and go on.
    Log,
}

/// What the worker does with a change of kind `kind` to `path` at `now`,
/// given whether `path` is a regular file and the files seen before.
pub open spec fn change_action(
    kind: ChangeKind,
    is_file: bool,
    seen: Seq<(Seq<char>, u64)>,
    path: Seq<char>,
    now: u64,
) -> WorkerAction {
    if !((kind == ChangeKind::Create || kind == ChangeKind::Modify) && is_file) {
        WorkerAction::Ignore
    } else if has_path(fresh_entries(seen, now), path) {
        WorkerAction::Ignore
    } else {
        WorkerAction::Scan
    }
}

/// What the worker does once a changed file is scanned: `Ok` with the
/// number of threats found, or `Err` with the failure's message.
pub open spec fn scan_action(outcome: Result<usize, Seq<char>>, auto_quarantine: bool) -> WorkerAction {
    match outcome {
        Ok(n) => if n == 0 {
            WorkerAction::Ignore
        } else {
            WorkerAction::Record { quarantine: auto_quarantine }
        },
        Err(m) => if has_sub(m, "freshclam"@) {
            WorkerAction::Ignore
        } else {
            WorkerAction::Log
        },
    }
}

/// The worker's step on a change: a change that is not the creation or
/// modification of a regular file is ignored and leaves the files seen as
/// they were; otherwise `should_skip` decides, and the file is scanned when
/// it was not seen in the last five seconds.
pub fn on_change(cache: &mut RecentScans, path: &String, kind: ChangeKind, is_file: bool, now: u64) -> (r: WorkerAction)
    ensures
        r == change_action(kind, is_file, old(cache).seen(), path@, now),
        r == WorkerAction::Ignore || r == WorkerAction::Scan,
        !((kind == ChangeKind::Create || kind == ChangeKind::Modify) && is_file) ==> final(cache).seen()
            == old(cache).seen(),
        (kind == ChangeKind::Create || kind == ChangeKind::Modify) && is_file ==> {
            &&& (r == WorkerAction::Ignore ==> final(cache).seen() == fresh_entries(
                old(cache).seen(),
                now,
            ))
            &&& (r == WorkerAction::Scan ==> final(cache).seen() == fresh_entries(
                old(cache).seen(),
                now,
            ).push((path@, now)))
        },
{
    if !wants_scan(kind, is_file) {
        return WorkerAction::Ignore;
    }
    if should_skip(cache, path, now) {
        WorkerAction::Ignore
    } else {
        WorkerAction::Scan
    }
}

/// The worker's step once a changed file is scanned.
pub fn on_scan_result(outcome: Result<usize, String>, auto_quarantine: bool) -> (r: WorkerAction)
    ensures
        r == scan_action(
            match outcome {
                Ok(n) => Ok(n),
                Err(m) => Err(m@),
            },
            auto_quarantine,
        ),
{
    match outcome {
        Ok(n) => if n == 0 {
            WorkerAction::Ignore
        } else {
            WorkerAction::Record { quarantine: auto_quarantine }
        },
        Err(m) => if is_transient_error(m.as_str()) {
            WorkerAction::Ignore
        } else {
            WorkerAction::Log
        },
    }
}

// ---------------------------------------------------------------------------
// What a threat found on the fly gives.

/// The report of a file found infected by real-time protection: one file
/// scanned, all its threats infected, status `infected`.
pub fn realtime_report(
    id: String,
    now: i64,
    path: String,
    engine: String,
    threats: Vec<ThreatMatch>,
    quarantined: Vec<QuarantineEntry>,
    raw_output: String,
) -> (r: ScanReport)
    ensures
        r.id == id,
        r.mode == ScanMode::Realtime,
        r.started_at == now,
        r.finished_at == now,
        r.targets@ == seq![path],
        r.engine == engine,
        r.scanned_files == 1,
        r.infected_files == threats@.len(),
        r.clean_files == 0,
        r.error_count == 0,
        r.access_denied_count == 0,
        r.access_denied_paths@.len() == 0,
        r.duration_ms == 0,
        r.status@ == "infected"@,
        r.threats@ == threats@,
        r.quarantined@ == quarantined@,
        r.raw_output == raw_output,
{
    let mut targets: Vec<String> = Vec::new();
    targets.push(path);
    let infected = threats.len();
    ScanReport {
        id,
        mode: ScanMode::Realtime,
        started_at: now,
        finished_at: now,
        targets,
        engine,
        scanned_files: 1,
        infected_files: infected,
        clean_files: 0,
        error_count: 0,
        access_denied_count: 0,
        access_denied_paths: Vec::new(),
        duration_ms: 0,
        status: String::from_str("infected"),
        threats,
        quarantined,
        raw_output,
    }
}

/// Whether a failed scan of one file is passed over quietly: those that
/// failed because of a signature update.
pub fn is_transient_error(message: &str) -> (r: bool)
    ensures
        r == has_sub(message@, "freshclam"@),
{
    contains_exec(&chars_of(message), &chars_of("freshclam"))
}

} // verus!
