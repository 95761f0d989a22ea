//! The client's dealings with the engine: which programs it uses, what it
//! runs them on and with, and the reports and figures it makes of them.
//! Running the programs and reading their output is left to the caller.
use vstd::prelude::*;
use vstd::string::*;
use crate::engine::{
    binary_search, build_scan_args, build_single_file_args, engine_choice, find_binary,
    first_answered, first_yes, found_first, option_arg, option_with, permission_hint,
    permission_hint_spec, platform_folder_name, platform_folder_spec, scan_args_spec,
    select_scan_engine, signature_dir_ready, single_file_args_spec, ScanEngineKind, ToolPaths,
};
use crate::models::{
    AppConfig, ClamError, DashboardStats, Platform, ScanMode, ScanReport, ScanRequest,
    SystemStatus, ThreatMatch, UpdateReport,
};
use crate::paths::{
    default_full_targets, default_quick_paths, downloads_dir, file_name_of, file_name_part,
    full_target_spec, is_default_quick, is_normalized, is_quick_targets, is_watched,
    joined_path, normalize_targets, opt_text, path_exists, path_join, platform_name,
    platform_name_spec, quick_paths_from_config, signature_locations, signature_locations_spec,
    user_downloads, watch_paths_from_config, UserFolders,
};
use crate::scan_output::{
    combine_output, combined_output_spec, payload_threats_spec, strs, threat_views,
    threats_in_payload, unreadable_threat_line,
};
use crate::storage::StoragePaths;
use crate::text::{chars_of, lines_of, string_from, trim, trim_str};

verus! {

// ---------------------------------------------------------------------------
// Finding the programs.

/// `base` with the components `parts` joined to it one after another.
pub open spec fn path_under(base: Seq<char>, parts: Seq<Seq<char>>) -> Seq<char>
    decreases parts.len(),
{
    if parts.len() == 0 {
        base
    } else {
        joined_path(path_under(base, parts.drop_last()), parts.last())
    }
}

/// The folders where a bundled engine may be: under the application's
/// resources (`vendor/clamav/<platform>`, then `clamav/<platform>`) when it
/// has a resource folder, then under the source tree (`vendor/clamav/<platform>`).
pub open spec fn runtime_roots_spec(
    resource_dir: Option<Seq<char>>,
    manifest_dir: Seq<char>,
    platform: Platform,
) -> Seq<Seq<char>> {
    let folder = platform_folder_spec(platform);
    let last = seq![path_under(manifest_dir, seq!["vendor"@, "clamav"@, folder])];
    match resource_dir {
        Some(res) => seq![
            path_under(res, seq!["vendor"@, "clamav"@, folder]),
            path_under(res, seq!["clamav"@, folder]),
        ] + last,
        None => last,
    }
}

proof fn lemma_under3(base: Seq<char>, p1: Seq<char>, p2: Seq<char>, p3: Seq<char>)
    ensures
        path_under(base, seq![p1, p2, p3]) == joined_path(joined_path(joined_path(base, p1), p2), p3),
{
    let s3 = seq![p1, p2, p3];
    let s2 = seq![p1, p2];
    let s1 = seq![p1];
    assert(s3.drop_last() =~= s2);
    assert(s2.drop_last() =~= s1);
    assert(s1.drop_last() =~= Seq::<Seq<char>>::empty());
    assert(path_under(base, s1.drop_last()) == base);
    assert(s1.last() == p1);
    assert(s2.last() == p2);
    assert(path_under(base, s1) == joined_path(base, p1));
    assert(path_under(base, s2) == joined_path(path_under(base, s1), p2));
}

proof fn lemma_under2(base: Seq<char>, p1: Seq<char>, p2: Seq<char>)
    ensures
        path_under(base, seq![p1, p2]) == joined_path(joined_path(base, p1), p2),
{
    let s2 = seq![p1, p2];
    let s1 = seq![p1];
    assert(s2.drop_last() =~= s1);
    assert(s1.drop_last() =~= Seq::<Seq<char>>::empty());
    assert(path_under(base, s1.drop_last()) == base);
    assert(s1.last() == p1);
    assert(s2.last() == p2);
    assert(path_under(base, s1) == joined_path(base, p1));
}

/// The folders where a bundled engine may be.
pub fn candidate_runtime_roots(resource_dir: Option<&String>, manifest_dir: &str, platform: Platform) -> (r: Vec<String>)
    ensures
        strs(r@) == runtime_roots_spec(
            match resource_dir {
                Some(d) => Some(d@),
                None => None,
            },
            manifest_dir@,
            platform,
        ),
{
    let folder = platform_folder_name(platform);
    let mut roots: Vec<String> = Vec::new();
    match resource_dir {
        Some(res) => {
            let a = path_join(res.as_str(), "vendor");
            let b = path_join(a.as_str(), "clamav");
            let c = path_join(b.as_str(), folder.as_str());
            proof {
                lemma_under3(res@, "vendor"@, "clamav"@, folder@);
            }
            roots.push(c);
            let d = path_join(res.as_str(), "clamav");
            let e = path_join(d.as_str(), folder.as_str());
            proof {
                lemma_under2(res@, "clamav"@, folder@);
            }
            roots.push(e);
        },
        None => {},
    }
    let a = path_join(manifest_dir, "vendor");
    let b = path_join(a.as_str(), "clamav");
    let c = path_join(b.as_str(), folder.as_str());
    proof {
        lemma_under3(manifest_dir@, "vendor"@, "clamav"@, folder@);
    }
    let ghost before = roots@;
    roots.push(c);
    assert(strs(roots@) =~= strs(before).push(c@));
    assert(strs(roots@) =~= runtime_roots_spec(
        match resource_dir {
            Some(d) => Some(d@),
            None => None,
        },
        manifest_dir@,
        platform,
    ));
    roots
}

/// What was found of a bundled engine: the folder of its seed database, the
/// client's own database folder, and its programs when it has `clamscan` or
/// `freshclam`. The caller copies the seed database before using it.
#[derive(Debug)]
pub struct EmbeddedRuntime {
    pub seed_db_dir: String,
    pub runtime_db_dir: String,
    pub tools: Option<ToolPaths>,
}

/// The first of `roots` that exists: existence is asked of the file system
/// for every root, and the result is `first_answered` for the answers.
pub fn first_existing_root(roots: &Vec<String>) -> (r: Option<String>)
    ensures
        found_first(strs(roots@), opt_text(r)),
{
    let mut answers: Vec<bool> = Vec::new();
    let mut i: usize = 0;
    while i < roots.len()
        invariant
            i <= roots@.len(),
            answers@.len() == i,
        decreases roots@.len() - i,
    {
        answers.push(path_exists(roots[i].as_str()));
        i = i + 1;
    }
    let r = first_answered(roots, &answers);
    assert(first_yes(strs(roots@), answers@) == opt_text(r));
    r
}

/// The program `name`, looked for in `dirs` and then in the usual folders.
pub fn find_program(name: &str, dirs: &Vec<String>, platform: Platform, path_dirs: &Vec<String>) -> (r: Option<String>)
    ensures
        binary_search(seq![name@], strs(dirs@), platform, strs(path_dirs@), opt_text(r)),
{
    let mut names: Vec<String> = Vec::new();
    names.push(String::from_str(name));
    assert(strs(names@) =~= seq![name@]);
    find_binary(&names, dirs, platform, path_dirs)
}

/// The programs of a bundled engine whose `bin` folder is `bin`, with the
/// client's database folder `db`: each program is what `find_binary` gives
/// for it with `bin` as search folder; there are none when neither
/// `clamscan` nor `freshclam` was found.
pub open spec fn bundled_tools(
    bin: Seq<char>,
    db: Seq<char>,
    platform: Platform,
    path_dirs: Seq<Seq<char>>,
    t: Option<ToolPaths>,
) -> bool {
    match t {
        Some(t) => {
            &&& t.source@ == "bundled"@
            &&& opt_text(t.database_dir) == Some(db)
            &&& (t.clamscan is Some || t.freshclam is Some)
            &&& binary_search(seq!["clamscan"@], seq![bin], platform, path_dirs, opt_text(t.clamscan))
            &&& binary_search(seq!["clamdscan"@], seq![bin], platform, path_dirs, opt_text(t.clamdscan))
            &&& binary_search(seq!["freshclam"@], seq![bin], platform, path_dirs, opt_text(t.freshclam))
            &&& binary_search(seq!["clamd"@], seq![bin], platform, path_dirs, opt_text(t.clamd))
        },
        None => {
            &&& binary_search(seq!["clamscan"@], seq![bin], platform, path_dirs, None)
            &&& binary_search(seq!["freshclam"@], seq![bin], platform, path_dirs, None)
        },
    }
}

/// The bundled engine found in the root `root` (if one exists), with the
/// client's database folder `db`.
pub open spec fn embedded_from(
    root: Option<Seq<char>>,
    db: Seq<char>,
    platform: Platform,
    path_dirs: Seq<Seq<char>>,
    r: Option<EmbeddedRuntime>,
) -> bool {
    match root {
        None => r is None,
        Some(rt) => r matches Some(e) && e.seed_db_dir@ == joined_path(rt, "db"@)
            && e.runtime_db_dir@ == db && bundled_tools(
            joined_path(rt, "bin"@),
            db,
            platform,
            path_dirs,
            e.tools,
        ),
    }
}

/// The bundled engine: found when the application's resource folders
/// (`roots`) and the client's files (`storage`) are known, in the first of
/// the roots that exists; its programs are those of its `bin` folder (or
/// the usual folders), and it is usable when `clamscan` or `freshclam` is
/// among them.
pub fn discover_embedded_runtime(
    roots: Option<&Vec<String>>,
    storage: Option<&StoragePaths>,
    platform: Platform,
    path_dirs: &Vec<String>,
) -> (r: Option<EmbeddedRuntime>)
    ensures
        roots is None || storage is None ==> r is None,
        roots matches Some(rs) ==> (storage matches Some(s) ==> exists|root: Option<Seq<char>>|
            found_first(strs(rs@), root) && #[trigger] embedded_from(
                root,
                s.runtime_db_dir@,
                platform,
                strs(path_dirs@),
                r,
            )),
{
    let roots = match roots {
        Some(r) => r,
        None => {
            return None;
        },
    };
    let storage = match storage {
        Some(s) => s,
        None => {
            return None;
        },
    };
    let root = match first_existing_root(roots) {
        Some(p) => p,
        None => {
            assert(embedded_from(None, storage.runtime_db_dir@, platform, strs(path_dirs@), None));
            return None;
        },
    };
    let bin_dir = path_join(root.as_str(), "bin");
    let seed_db_dir = path_join(root.as_str(), "db");
    let runtime_db_dir = storage.runtime_db_dir.clone();
    let mut dirs: Vec<String> = Vec::new();
    dirs.push(bin_dir);
    assert(strs(dirs@) =~= seq![bin_dir@]);
    let clamscan = find_program("clamscan", &dirs, platform, path_dirs);
    let clamdscan = find_program("clamdscan", &dirs, platform, path_dirs);
    let freshclam = find_program("freshclam", &dirs, platform, path_dirs);
    let clamd = find_program("clamd", &dirs, platform, path_dirs);
    let tools = if clamscan.is_none() && freshclam.is_none() {
        None
    } else {
        Some(
            ToolPaths {
                clamscan,
                clamdscan,
                freshclam,
                clamd,
                database_dir: Some(runtime_db_dir.clone()),
                source: String::from_str("bundled"),
            },
        )
    };
    let r = Some(EmbeddedRuntime { seed_db_dir, runtime_db_dir, tools });
    assert(embedded_from(Some(root@), storage.runtime_db_dir@, platform, strs(path_dirs@), r));
    r
}

/// A copy of the programs found.
pub fn copy_tools(t: &ToolPaths) -> (r: ToolPaths)
    ensures
        r.same_as(t),
{
    ToolPaths {
        clamscan: t.clamscan.clone(),
        clamdscan: t.clamdscan.clone(),
        freshclam: t.freshclam.clone(),
        clamd: t.clamd.clone(),
        database_dir: t.database_dir.clone(),
        source: t.source.clone(),
    }
}

impl ToolPaths {
    /// The programs the client uses: those of the bundled engine when it is
    /// usable; else those `find_binary` finds in the folders of `PATH` and
    /// the platform's usual folders, with the client's own database folder
    /// when it holds signatures.
    pub fn discover(
        embedded: Option<&EmbeddedRuntime>,
        storage: Option<&StoragePaths>,
        platform: Platform,
        path_dirs: &Vec<String>,
    ) -> (r: ToolPaths)
        ensures
            (embedded matches Some(e) && e.tools is Some) ==> r.same_as(&embedded->0.tools->0),
            !(embedded matches Some(e) && e.tools is Some) ==> {
                &&& r.source@ == "system"@
                &&& (storage is None ==> r.database_dir is None)
                &&& (r.database_dir matches Some(d) ==> storage matches Some(s) && d
                    == s.runtime_db_dir)
                &&& binary_search(seq!["clamscan"@], Seq::empty(), platform, strs(path_dirs@), opt_text(r.clamscan))
                &&& binary_search(seq!["clamdscan"@], Seq::empty(), platform, strs(path_dirs@), opt_text(r.clamdscan))
                &&& binary_search(seq!["freshclam"@], Seq::empty(), platform, strs(path_dirs@), opt_text(r.freshclam))
                &&& binary_search(seq!["clamd"@], Seq::empty(), platform, strs(path_dirs@), opt_text(r.clamd))
            },
    {
        match embedded {
            Some(e) => match &e.tools {
                Some(t) => {
                    return copy_tools(t);
                },
                None => {},
            },
            None => {},
        }
        let database_dir = match storage {
            Some(s) => {
                if signature_dir_ready(s.runtime_db_dir.as_str()) {
                    Some(s.runtime_db_dir.clone())
                } else {
                    None
                }
            },
            None => None,
        };
        let none: Vec<String> = Vec::new();
        assert(strs(none@) =~= Seq::<Seq<char>>::empty());
        ToolPaths {
            clamscan: find_program("clamscan", &none, platform, path_dirs),
            clamdscan: find_program("clamdscan", &none, platform, path_dirs),
            freshclam: find_program("freshclam", &none, platform, path_dirs),
            clamd: find_program("clamd", &none, platform, path_dirs),
            database_dir,
            source: String::from_str("system"),
        }
    }
}

// ---------------------------------------------------------------------------
// What a scan covers and how the program is run.

/// `t` is what `resolve_targets` keeps for a scan `request` with the
/// settings `config`, for some answers of the file system: the quick-scan
/// folders for a quick scan, the system root for a full one, and the paths
/// of the request otherwise; those that exist, each once.
pub open spec fn targets_for(
    request: ScanRequest,
    config: AppConfig,
    platform: Platform,
    system_drive: Option<Seq<char>>,
    folders: UserFolders,
    t: Seq<Seq<char>>,
) -> bool {
    match request.mode {
        ScanMode::Quick => is_quick_targets(
            strs(config.watched_paths@),
            config.auto_scan_downloads,
            folders,
            t,
        ),
        ScanMode::Full => t == Seq::<Seq<char>>::empty() || t == seq![
            full_target_spec(platform, system_drive),
        ],
        _ => is_normalized(strs(request.targets@), t),
    }
}

/// The targets of a scan, or `NoValidTarget` exactly when none is kept.
pub fn resolve_targets(
    request: &ScanRequest,
    config: &AppConfig,
    platform: Platform,
    system_drive: Option<String>,
    folders: &UserFolders,
) -> (r: Result<Vec<String>, ClamError>)
    ensures
        r matches Ok(v) ==> v@.len() > 0 && targets_for(
            *request,
            *config,
            platform,
            opt_text(system_drive),
            *folders,
            strs(v@),
        ),
        r matches Err(e) ==> e == ClamError::NoValidTarget && targets_for(
            *request,
            *config,
            platform,
            opt_text(system_drive),
            *folders,
            Seq::empty(),
        ),
{
    let ghost drive = opt_text(system_drive);
    let targets = match request.mode {
        ScanMode::Quick => quick_paths_from_config(
            &config.watched_paths,
            config.auto_scan_downloads,
            folders,
        ),
        ScanMode::Full => default_full_targets(platform, system_drive),
        _ => normalize_targets(&request.targets),
    };
    assert(targets_for(*request, *config, platform, drive, *folders, strs(targets@)));
    if targets.len() == 0 {
        assert(strs(targets@) =~= Seq::<Seq<char>>::empty());
        Err(ClamError::NoValidTarget)
    } else {
        Ok(targets)
    }
}

/// `s` with every backslash turned into a slash, as paths are handed to the
/// engine on Windows.
pub open spec fn forward_slashes(s: Seq<char>) -> Seq<char> {
    s.map_values(|c: char| if c == '\\' { '/' } else { c })
}

/// A path as it is handed to the engine: with forward slashes on Windows,
/// unchanged elsewhere.
pub open spec fn engine_path_arg(platform: Platform, p: Seq<char>) -> Seq<char> {
    if platform == Platform::Windows {
        forward_slashes(p)
    } else {
        p
    }
}

/// A path as it is handed to the engine.
pub fn path_argument(platform: Platform, p: &String) -> (r: String)
    ensures
        r@ == engine_path_arg(platform, p@),
{
    if platform != Platform::Windows {
        return p.clone();
    }
    let v = chars_of(p.as_str());
    let mut out: Vec<char> = Vec::new();
    let mut i: usize = 0;
    while i < v.len()
        invariant
            i <= v@.len(),
            out@ =~= forward_slashes(v@.take(i as int)),
        decreases v@.len() - i,
    {
        let c = v[i];
        if c == '\\' {
            out.push('/');
        } else {
            out.push(c);
        }
        assert(forward_slashes(v@.take(i + 1)) =~= forward_slashes(v@.take(i as int)).push(
            if c == '\\' { '/' } else { c },
        ));
        i = i + 1;
    }
    assert(v@.take(v@.len() as int) =~= v@);
    string_from(out.as_slice())
}

/// How a scan is run: the program, its kind, the name shown for it, the
/// targets, the full argument list, and whether it covers the whole system.
#[derive(Debug)]
pub struct ScanPlan {
    pub engine_path: String,
    pub engine_kind: ScanEngineKind,
    pub engine_name: String,
    pub targets: Vec<String>,
    pub args: Vec<String>,
    pub system_wide: bool,
}

/// The file name shown for the program at `engine_path`: its last
/// component, or `clamscan` when it has none.
pub open spec fn engine_name_spec(engine_path: Seq<char>) -> Seq<char> {
    match file_name_part(engine_path) {
        Some(n) => n,
        None => "clamscan"@,
    }
}

/// `p` is the plan of a scan with the program `engine_path` of kind `kind`,
/// the database folder `database_dir`, the targets `targets`, on
/// `platform`, of the whole system or not.
pub open spec fn plan_of(
    p: ScanPlan,
    engine_path: String,
    kind: ScanEngineKind,
    database_dir: Option<Seq<char>>,
    targets: Seq<String>,
    platform: Platform,
    system_wide: bool,
) -> bool {
    &&& p.engine_path == engine_path
    &&& p.engine_kind == kind
    &&& p.engine_name@ == engine_name_spec(engine_path@)
    &&& p.targets@ == targets
    &&& strs(p.args@) == scan_args_spec(kind, database_dir) + strs(targets).map_values(
        |t: Seq<char>| engine_path_arg(platform, t),
    )
    &&& p.system_wide == system_wide
}

/// The plan of a scan with the program `engine_path` of kind `kind` over
/// `targets`: the program's options followed by the targets, as handed to
/// the engine, and the program's file name.
pub fn plan_scan(
    engine_path: String,
    engine_kind: ScanEngineKind,
    database_dir: Option<&String>,
    targets: Vec<String>,
    platform: Platform,
    system_wide: bool,
) -> (r: ScanPlan)
    ensures
        plan_of(
            r,
            engine_path,
            engine_kind,
            match database_dir {
                Some(d) => Some(d@),
                None => None,
            },
            targets@,
            platform,
            system_wide,
        ),
{
    let engine_name = match file_name_of(engine_path.as_str()) {
        Some(n) => n,
        None => String::from_str("clamscan"),
    };
    let mut args = build_scan_args(engine_kind, database_dir);
    let ghost options = strs(args@);
    let mut i: usize = 0;
    while i < targets.len()
        invariant
            i <= targets@.len(),
            strs(args@) == options + strs(targets@).take(i as int).map_values(
                |t: Seq<char>| engine_path_arg(platform, t),
            ),
        decreases targets@.len() - i,
    {
        let ghost before = args@;
        let a = path_argument(platform, &targets[i]);
        args.push(a);
        assert(strs(args@) =~= strs(before).push(a@));
        assert(strs(targets@).take(i + 1).map_values(|t: Seq<char>| engine_path_arg(platform, t))
            =~= strs(targets@).take(i as int).map_values(
            |t: Seq<char>| engine_path_arg(platform, t),
        ).push(engine_path_arg(platform, targets@[i as int]@)));
        i = i + 1;
    }
    assert(strs(targets@).take(targets@.len() as int) =~= strs(targets@));
    ScanPlan { engine_path, engine_kind, engine_name, targets, args, system_wide }
}

/// The plan of a scan: the program chosen (or `NoScanEngine`), then its
/// targets (or `NoValidTarget` when none is kept), and the plan
/// `plan_scan` makes of them.
pub fn prepare_scan(
    tools: &ToolPaths,
    request: &ScanRequest,
    config: &AppConfig,
    platform: Platform,
    system_drive: Option<String>,
    folders: &UserFolders,
) -> (r: Result<ScanPlan, ClamError>)
    ensures
        engine_choice(tools.clamscan, tools.clamdscan, request.use_clamd, request.mode) is None
            ==> r == Err::<ScanPlan, ClamError>(ClamError::NoScanEngine),
        engine_choice(tools.clamscan, tools.clamdscan, request.use_clamd, request.mode) matches Some(
            c,
        ) ==> {
            &&& (r matches Err(e) ==> e == ClamError::NoValidTarget && targets_for(
                *request,
                *config,
                platform,
                opt_text(system_drive),
                *folders,
                Seq::empty(),
            ))
            &&& (r matches Ok(p) ==> p.targets@.len() > 0 && targets_for(
                *request,
                *config,
                platform,
                opt_text(system_drive),
                *folders,
                strs(p.targets@),
            ) && plan_of(
                p,
                c.0,
                c.1,
                opt_text(tools.database_dir),
                p.targets@,
                platform,
                request.mode == ScanMode::Full,
            ))
        },
{
    let (engine_path, engine_kind) = match select_scan_engine(
        tools,
        request.use_clamd,
        request.mode,
    ) {
        Ok(choice) => choice,
        Err(e) => {
            return Err(e);
        },
    };
    let targets = match resolve_targets(request, config, platform, system_drive, folders) {
        Ok(t) => t,
        Err(e) => {
            return Err(e);
        },
    };
    Ok(
        plan_scan(
            engine_path,
            engine_kind,
            tools.database_dir.as_ref(),
            targets,
            platform,
            request.mode == ScanMode::Full,
        ),
    )
}

// ---------------------------------------------------------------------------
// A scan of one file, for real-time protection.

/// How one file is scanned: `FreshclamRunning` while signatures are being
/// updated; else the program chosen as for a real-time scan (or
/// `NoScanEngine`), its kind, and its options followed by the file.
pub fn prepare_single_scan(
    freshclam_running: bool,
    tools: &ToolPaths,
    use_clamd: bool,
    file_path: &String,
    platform: Platform,
) -> (r: Result<(String, ScanEngineKind, Vec<String>), ClamError>)
    ensures
        freshclam_running ==> r == Err::<(String, ScanEngineKind, Vec<String>), ClamError>(ClamError::FreshclamRunning),
        !freshclam_running && engine_choice(
            tools.clamscan,
            tools.clamdscan,
            use_clamd,
            ScanMode::Realtime,
        ) is None ==> r == Err::<(String, ScanEngineKind, Vec<String>), ClamError>(ClamError::NoScanEngine),
        !freshclam_running && engine_choice(
            tools.clamscan,
            tools.clamdscan,
            use_clamd,
            ScanMode::Realtime,
        ) is Some ==> r is Ok,
        r matches Ok((engine, kind, args)) ==> {
            &&& !freshclam_running
            &&& engine_choice(tools.clamscan, tools.clamdscan, use_clamd, ScanMode::Realtime)
                == Some((engine, kind))
            &&& strs(args@) == single_file_args_spec(kind, opt_text(tools.database_dir)).push(
                engine_path_arg(platform, file_path@),
            )
        },
{
    if freshclam_running {
        return Err(ClamError::FreshclamRunning);
    }
    let (engine, kind) = match select_scan_engine(tools, use_clamd, ScanMode::Realtime) {
        Ok(choice) => choice,
        Err(e) => {
            return Err(e);
        },
    };
    let mut args = build_single_file_args(kind, tools.database_dir.as_ref());
    let ghost options = args@;
    let a = path_argument(platform, file_path);
    args.push(a);
    assert(strs(args@) =~= strs(options).push(a@));
    Ok((engine, kind, args))
}

/// What a scan of one file gives: the program used, the threats its output
/// reports, and that output (standard output, then error output).
pub fn single_scan_outcome(engine: String, stdout: &str, stderr: &str) -> (r: (
    String,
    Vec<ThreatMatch>,
    String,
))
    requires
        forall|i: int|
            0 <= i < lines_of(combined_output_spec(stdout@, stderr@)).len()
                ==> !unreadable_threat_line(
                #[trigger] lines_of(combined_output_spec(stdout@, stderr@))[i],
            ),
    ensures
        r.0 == engine,
        r.2@ == combined_output_spec(stdout@, stderr@),
        threat_views(r.1@) == payload_threats_spec(r.2@),
{
    let payload = combine_output(stdout, stderr);
    let threats = threats_in_payload(payload.as_str());
    (engine, threats, payload)
}

// ---------------------------------------------------------------------------
// Signature updates.

/// The arguments of `freshclam`: print to standard output, use the client's
/// database folder when there is one, and its configuration file when it
/// exists (`config_file`).
pub open spec fn freshclam_args_spec(
    database_dir: Option<Seq<char>>,
    config_file: Option<Seq<char>>,
) -> Seq<Seq<char>> {
    let a = seq!["--stdout"@];
    let b = match database_dir {
        Some(d) => a.push(option_with("--datadir="@, d)),
        None => a,
    };
    match config_file {
        Some(c) => b.push(option_with("--config-file="@, c)),
        None => b,
    }
}

/// The program and arguments of a signature update, or `FreshclamNotFound`.
pub fn prepare_signature_update(tools: &ToolPaths, config_file: Option<&String>) -> (r: Result<
    (String, Vec<String>),
    ClamError,
>)
    ensures
        tools.freshclam is None ==> r == Err::<(String, Vec<String>), ClamError>(
            ClamError::FreshclamNotFound,
        ),
        tools.freshclam matches Some(f) ==> (r matches Ok((program, args)) && program == f
            && strs(args@) == freshclam_args_spec(
            opt_text(tools.database_dir),
            match config_file {
                Some(c) => Some(c@),
                None => None,
            },
        )),
{
    let freshclam = match &tools.freshclam {
        Some(f) => f.clone(),
        None => {
            return Err(ClamError::FreshclamNotFound);
        },
    };
    let mut args: Vec<String> = Vec::new();
    args.push(String::from_str("--stdout"));
    match &tools.database_dir {
        Some(d) => {
            args.push(option_arg("--datadir=", d.as_str()));
        },
        None => {},
    }
    match config_file {
        Some(c) => {
            args.push(option_arg("--config-file=", c.as_str()));
        },
        None => {},
    }
    assert(strs(args@) =~= freshclam_args_spec(
        opt_text(tools.database_dir),
        match config_file {
            Some(c) => Some(c@),
            None => None,
        },
    ));
    Ok((freshclam, args))
}

/// The report of a signature update: what `freshclam` printed, trimmed.
pub fn signature_update_report(
    id: String,
    started_at: i64,
    finished_at: i64,
    success: bool,
    stdout: &str,
    stderr: &str,
) -> (r: UpdateReport)
    ensures
        r.id == id,
        r.started_at == started_at,
        r.finished_at == finished_at,
        r.success == success,
        r.output@ == trim(combined_output_spec(stdout@, stderr@)),
{
    let payload = combine_output(stdout, stderr);
    UpdateReport { id, started_at, finished_at, success, output: trim_str(payload.as_str()) }
}

// ---------------------------------------------------------------------------
// What the interface shows.

/// The parts of the system status that follow from the platform, the
/// programs found and the rights of the session.
pub open spec fn status_shows(
    r: SystemStatus,
    platform: Platform,
    os: Seq<char>,
    tools: ToolPaths,
    elevated_session: bool,
) -> bool {
    &&& r.platform@ == platform_name_spec(os)
    &&& r.clamscan_path == tools.clamscan
    &&& r.clamdscan_path == tools.clamdscan
    &&& r.freshclam_path == tools.freshclam
    &&& r.clamd_path == tools.clamd
    &&& r.elevated_session == elevated_session
    &&& r.permission_level@ == if elevated_session {
        "elevated"@
    } else {
        "standard"@
    }
    &&& r.permission_hint@ == permission_hint_spec(platform)
    &&& r.can_scan_system_paths == elevated_session
    &&& r.engine_source == tools.source
    &&& r.bundled_runtime_available == (tools.source@ == "bundled"@)
    &&& r.database_path == tools.database_dir
}

/// The system status, given what was found on the machine: whether
/// signatures are there, the recommended folders and the downloads folder.
pub fn system_status_from(
    platform: Platform,
    os: &str,
    tools: &ToolPaths,
    elevated_session: bool,
    signatures_found: bool,
    recommended_paths: Vec<String>,
    downloads_path: Option<String>,
) -> (r: SystemStatus)
    ensures
        status_shows(r, platform, os@, *tools, elevated_session),
        r.signatures_found == signatures_found,
        r.recommended_paths@ == recommended_paths@,
        r.downloads_path == downloads_path,
{
    let permission_level = if elevated_session {
        String::from_str("elevated")
    } else {
        String::from_str("standard")
    };
    let bundled = crate::text::same_text(tools.source.as_str(), "bundled");
    SystemStatus {
        platform: platform_name(os),
        clamscan_path: tools.clamscan.clone(),
        clamdscan_path: tools.clamdscan.clone(),
        freshclam_path: tools.freshclam.clone(),
        clamd_path: tools.clamd.clone(),
        signatures_found,
        recommended_paths,
        downloads_path,
        elevated_session,
        permission_level,
        permission_hint: permission_hint(platform),
        can_scan_system_paths: elevated_session,
        engine_source: tools.source.clone(),
        bundled_runtime_available: bundled,
        database_path: tools.database_dir.clone(),
    }
}

/// Whether signatures are found, for the answers `locations` of the usual
/// database folders and the answer `database` of the database folder in use
/// (if there is one): when one of them holds signatures.
pub open spec fn signatures_found_given(locations: Seq<bool>, database: Option<bool>) -> bool {
    locations.contains(true) || database == Some(true)
}

/// Whether signatures are found, for the answers of each folder.
pub fn signatures_found_from(locations: &Vec<bool>, database: Option<bool>) -> (r: bool)
    ensures
        r == signatures_found_given(locations@, database),
{
    let mut i: usize = 0;
    while i < locations.len()
        invariant
            i <= locations@.len(),
            forall|k: int| 0 <= k < i ==> !locations@[k],
        decreases locations@.len() - i,
    {
        if locations[i] {
            assert(locations@[i as int] == true);
            return true;
        }
        i = i + 1;
    }
    match database {
        Some(b) => b,
        None => false,
    }
}

/// The system status: signatures count as found when one of the usual
/// database folders, or the database folder in use, holds them (each is
/// asked with `signature_dir_ready`, and `signatures_found_from` combines
/// the answers); the recommended folders are the default quick-scan folders,
/// and the downloads folder is the one `downloads_dir` finds.
pub fn get_system_status(
    platform: Platform,
    os: &str,
    tools: &ToolPaths,
    elevated_session: bool,
    folders: &UserFolders,
) -> (r: SystemStatus)
    ensures
        status_shows(r, platform, os@, *tools, elevated_session),
        exists|locations: Seq<bool>, database: Option<bool>|
            locations.len() == signature_locations_spec(platform).len() && (database is Some
                <==> tools.database_dir is Some) && #[trigger] signatures_found_given(
                locations,
                database,
            ) == r.signatures_found,
        is_default_quick(*folders, strs(r.recommended_paths@)),
        opt_text(r.downloads_path) == user_downloads(*folders, true) || opt_text(r.downloads_path)
            == user_downloads(*folders, false),
{
    let locations = signature_locations(platform);
    let mut answers: Vec<bool> = Vec::new();
    let mut i: usize = 0;
    while i < locations.len()
        invariant
            i <= locations@.len(),
            answers@.len() == i,
        decreases locations@.len() - i,
    {
        answers.push(signature_dir_ready(locations[i].as_str()));
        i = i + 1;
    }
    let database = match &tools.database_dir {
        Some(d) => Some(signature_dir_ready(d.as_str())),
        None => None,
    };
    let signatures_found = signatures_found_from(&answers, database);
    assert(strs(locations@).len() == locations@.len());
    assert(signatures_found_given(answers@, database) == signatures_found);
    let recommended = default_quick_paths(folders);
    let downloads = downloads_dir(folders);
    system_status_from(
        platform,
        os,
        tools,
        elevated_session,
        signatures_found,
        recommended,
        downloads,
    )
}

/// The number of infected files over the reports `logs`.
pub open spec fn total_infected(logs: Seq<ScanReport>) -> int
    decreases logs.len(),
{
    if logs.len() == 0 {
        0
    } else {
        total_infected(logs.drop_last()) + logs.last().infected_files
    }
}

/// The infected files of the first reports of a history are no more than
/// those of the whole history.
pub proof fn lemma_total_infected_grows(logs: Seq<ScanReport>, i: int)
    requires
        0 <= i <= logs.len(),
    ensures
        0 <= total_infected(logs.take(i)) <= total_infected(logs),
    decreases logs.len() - i,
{
    if i == logs.len() {
        assert(logs.take(i) =~= logs);
        lemma_total_infected_nonneg(logs);
    } else {
        assert(logs.take(i + 1).drop_last() =~= logs.take(i));
        lemma_total_infected_grows(logs, i + 1);
        lemma_total_infected_nonneg(logs.take(i));
    }
}

/// A count of infected files is never negative.
pub proof fn lemma_total_infected_nonneg(logs: Seq<ScanReport>)
    ensures
        total_infected(logs) >= 0,
    decreases logs.len(),
{
    if logs.len() > 0 {
        lemma_total_infected_nonneg(logs.drop_last());
    }
}

/// The dashboard figures that follow from the history, the quarantine, the
/// settings and the programs found.
pub open spec fn dashboard_shows(
    r: DashboardStats,
    logs: Seq<ScanReport>,
    quarantined_items: usize,
    realtime_enabled: bool,
    config: AppConfig,
    tools: ToolPaths,
    os: Seq<char>,
) -> bool {
    &&& r.total_scans == logs.len()
    &&& r.total_threats == total_infected(logs)
    &&& r.quarantined_items == quarantined_items
    &&& (logs.len() == 0 ==> r.last_scan is None)
    &&& (logs.len() > 0 ==> (r.last_scan matches Some(s) && s.same_as(&logs[0])))
    &&& r.realtime_enabled == realtime_enabled
    &&& r.engine_ready == (tools.clamscan is Some || tools.clamdscan is Some)
    &&& r.freshclam_ready == tools.freshclam is Some
    &&& r.clamd_ready == (tools.clamdscan is Some || tools.clamd is Some)
    &&& r.platform@ == platform_name_spec(os)
    &&& r.auto_scan_downloads == config.auto_scan_downloads
    &&& r.engine_source == tools.source
}

/// The dashboard, given the folders a quick scan covers.
pub fn dashboard_from(
    logs: &Vec<ScanReport>,
    quarantined_items: usize,
    realtime_enabled: bool,
    config: &AppConfig,
    tools: &ToolPaths,
    os: &str,
    quick_targets: Vec<String>,
) -> (r: DashboardStats)
    requires
        total_infected(logs@) <= usize::MAX,
    ensures
        dashboard_shows(r, logs@, quarantined_items, realtime_enabled, *config, *tools, os@),
        r.quick_targets@ == quick_targets@,
{
    let mut total: usize = 0;
    let mut i: usize = 0;
    while i < logs.len()
        invariant
            i <= logs@.len(),
            total == total_infected(logs@.take(i as int)),
            total_infected(logs@) <= usize::MAX,
        decreases logs@.len() - i,
    {
        proof {
            assert(logs@.take(i + 1).drop_last() =~= logs@.take(i as int));
            lemma_total_infected_grows(logs@, i + 1);
        }
        total = total + logs[i].infected_files;
        i = i + 1;
    }
    assert(logs@.take(logs@.len() as int) =~= logs@);
    let last_scan = if logs.len() > 0 {
        Some(logs[0].clone())
    } else {
        None
    };
    DashboardStats {
        total_scans: logs.len(),
        total_threats: total,
        quarantined_items,
        last_scan,
        realtime_enabled,
        engine_ready: tools.clamscan.is_some() || tools.clamdscan.is_some(),
        freshclam_ready: tools.freshclam.is_some(),
        clamd_ready: tools.clamdscan.is_some() || tools.clamd.is_some(),
        platform: platform_name(os),
        quick_targets,
        auto_scan_downloads: config.auto_scan_downloads,
        engine_source: tools.source.clone(),
    }
}

/// The dashboard: the history's figures, the quarantine's size, whether
/// protection runs, the programs found, and the folders watched with the
/// settings `config` and the user's folders `folders`.
pub fn build_dashboard(
    logs: &Vec<ScanReport>,
    quarantined_items: usize,
    realtime_enabled: bool,
    config: &AppConfig,
    tools: &ToolPaths,
    os: &str,
    folders: &UserFolders,
) -> (r: DashboardStats)
    requires
        total_infected(logs@) <= usize::MAX,
    ensures
        dashboard_shows(r, logs@, quarantined_items, realtime_enabled, *config, *tools, os@),
        is_watched(
            strs(config.watched_paths@),
            config.auto_scan_downloads,
            *folders,
            strs(r.quick_targets@),
        ),
{
    let quick = watch_paths_from_config(&config.watched_paths, config.auto_scan_downloads, folders);
    dashboard_from(logs, quarantined_items, realtime_enabled, config, tools, os, quick)
}

} // verus!
