//! Finding the engine's programs and databases, choosing the program that
//! scans, and the arguments it is given.
use vstd::prelude::*;
use vstd::string::*;
use crate::models::{ClamError, Platform, ScanMode};
use crate::paths::{
    common_binary_dirs, common_dirs_spec, joined_path, opt_text, path_exists, path_join, };
use crate::scan_output::strs;

verus! {

/// The programs and the signature database the client uses, and where they
/// come from (`bundled` with the client, or `system`).
#[derive(Debug)]
pub struct ToolPaths {
    pub clamscan: Option<String>,
    pub clamdscan: Option<String>,
    pub freshclam: Option<String>,
    pub clamd: Option<String>,
    pub database_dir: Option<String>,
    pub source: String,
}

impl ToolPaths {
    pub open spec fn same_as(&self, o: &ToolPaths) -> bool {
        &&& self.clamscan == o.clamscan
        &&& self.clamdscan == o.clamdscan
        &&& self.freshclam == o.freshclam
        &&& self.clamd == o.clamd
        &&& self.database_dir == o.database_dir
        &&& self.source == o.source
    }
}

/// Which of the two scanning programs is used.
#[derive(Debug, Clone, Copy, PartialEq, Eq, Structural)]
pub enum ScanEngineKind {
    /// `clamscan`, which loads the signatures itself.
    Clamscan,
    /// `clamdscan`, which asks the `clamd` daemon.
    Clamdscan,
}

/// The program chosen to scan: `clamdscan` when the daemon is wanted and the
/// scan is not a full one, if it is there; else `clamscan`; else `clamdscan`.
pub open spec fn engine_choice(
    clamscan: Option<String>,
    clamdscan: Option<String>,
    use_clamd: bool,
    mode: ScanMode,
) -> Option<(String, ScanEngineKind)> {
    if use_clamd && mode != ScanMode::Full && clamdscan is Some {
        Some((clamdscan->0, ScanEngineKind::Clamdscan))
    } else if clamscan is Some {
        Some((clamscan->0, ScanEngineKind::Clamscan))
    } else if clamdscan is Some {
        Some((clamdscan->0, ScanEngineKind::Clamdscan))
    } else {
        None
    }
}

/// The program that scans and its kind, or `NoScanEngine` when neither
/// program was found.
pub fn select_scan_engine(tools: &ToolPaths, use_clamd: bool, mode: ScanMode) -> (r: Result<
    (String, ScanEngineKind),
    ClamError,
>)
    ensures
        match engine_choice(tools.clamscan, tools.clamdscan, use_clamd, mode) {
            Some(c) => r == Ok::<(String, ScanEngineKind), ClamError>(c),
            None => r == Err::<(String, ScanEngineKind), ClamError>(ClamError::NoScanEngine),
        },
        !use_clamd && tools.clamscan is Some ==> r == Ok::<(String, ScanEngineKind), ClamError>(
            (tools.clamscan->0, ScanEngineKind::Clamscan),
        ),
        r matches Ok((p, k)) && k == ScanEngineKind::Clamdscan ==> (use_clamd && mode
            != ScanMode::Full) || tools.clamscan is None,
{
    let prefer_clamd = use_clamd && mode != ScanMode::Full;
    if prefer_clamd {
        match &tools.clamdscan {
            Some(path) => {
                return Ok((path.clone(), ScanEngineKind::Clamdscan));
            },
            None => {},
        }
    }
    match &tools.clamscan {
        Some(path) => {
            return Ok((path.clone(), ScanEngineKind::Clamscan));
        },
        None => {},
    }
    match &tools.clamdscan {
        Some(path) => {
            return Ok((path.clone(), ScanEngineKind::Clamdscan));
        },
        None => {},
    }
    Err(ClamError::NoScanEngine)
}

/// `--database=<dir>` or `--datadir=<dir>` style options.
pub open spec fn option_with(flag: Seq<char>, value: Seq<char>) -> Seq<char> {
    flag + value
}

/// The options given to the scanning program for a scan of folders.
pub open spec fn scan_args_spec(kind: ScanEngineKind, database_dir: Option<Seq<char>>) -> Seq<
    Seq<char>,
> {
    match kind {
        ScanEngineKind::Clamdscan => seq!["--fdpass"@, "--infected"@, "--multiscan"@, "--verbose"@],
        ScanEngineKind::Clamscan => {
            let base = seq!["--recursive"@, "--infected"@, "--stdout"@, "--verbose"@];
            match database_dir {
                Some(d) => base.push(option_with("--database="@, d)),
                None => base,
            }
        },
    }
}

/// The options given to the scanning program for one file.
pub open spec fn single_file_args_spec(
    kind: ScanEngineKind,
    database_dir: Option<Seq<char>>,
) -> Seq<Seq<char>> {
    match kind {
        ScanEngineKind::Clamdscan => seq!["--fdpass"@, "--infected"@],
        ScanEngineKind::Clamscan => {
            let base = seq!["--infected"@, "--stdout"@];
            match database_dir {
                Some(d) => base.push(option_with("--database="@, d)),
                None => base,
            }
        },
    }
}

/// `flag` followed by `value`, as one argument.
pub fn option_arg(flag: &str, value: &str) -> (r: String)
    ensures
        r@ == option_with(flag@, value@),
{
    let mut s = String::from_str(flag);
    s.append(value);
    s
}

/// The options given to the scanning program for a scan of folders.
pub fn build_scan_args(kind: ScanEngineKind, database_dir: Option<&String>) -> (r: Vec<String>)
    ensures
        strs(r@) == scan_args_spec(kind, match database_dir {
            Some(d) => Some(d@),
            None => None,
        }),
{
    let mut r: Vec<String> = Vec::new();
    match kind {
        ScanEngineKind::Clamdscan => {
            r.push(String::from_str("--fdpass"));
            r.push(String::from_str("--infected"));
            r.push(String::from_str("--multiscan"));
            r.push(String::from_str("--verbose"));
        },
        ScanEngineKind::Clamscan => {
            r.push(String::from_str("--recursive"));
            r.push(String::from_str("--infected"));
            r.push(String::from_str("--stdout"));
            r.push(String::from_str("--verbose"));
            match database_dir {
                Some(d) => {
                    r.push(option_arg("--database=", d.as_str()));
                },
                None => {},
            }
        },
    }
    assert(strs(r@) =~= scan_args_spec(kind, match database_dir {
        Some(d) => Some(d@),
        None => None,
    }));
    r
}

/// The options given to the scanning program for one file.
pub fn build_single_file_args(kind: ScanEngineKind, database_dir: Option<&String>) -> (r: Vec<
    String,
>)
    ensures
        strs(r@) == single_file_args_spec(kind, match database_dir {
            Some(d) => Some(d@),
            None => None,
        }),
{
    let mut r: Vec<String> = Vec::new();
    match kind {
        ScanEngineKind::Clamdscan => {
            r.push(String::from_str("--fdpass"));
            r.push(String::from_str("--infected"));
        },
        ScanEngineKind::Clamscan => {
            r.push(String::from_str("--infected"));
            r.push(String::from_str("--stdout"));
            match database_dir {
                Some(d) => {
                    r.push(option_arg("--database=", d.as_str()));
                },
                None => {},
            }
        },
    }
    assert(strs(r@) =~= single_file_args_spec(kind, match database_dir {
        Some(d) => Some(d@),
        None => None,
    }));
    r
}

/// The file names a program called `names[i]` may have: with `.exe` first
/// and then bare on Windows, bare elsewhere.
pub open spec fn executable_names(names: Seq<Seq<char>>, platform: Platform) -> Seq<Seq<char>>
    decreases names.len(),
{
    if names.len() == 0 {
        Seq::empty()
    } else {
        let rest = executable_names(names.drop_last(), platform);
        let n = names.last();
        if platform == Platform::Windows {
            rest + seq![n + ".exe"@, n]
        } else {
            rest.push(n)
        }
    }
}

pub fn executable_names_exec(names: &Vec<String>, platform: Platform) -> (r: Vec<String>)
    ensures
        strs(r@) == executable_names(strs(names@), platform),
{
    let ghost ns = strs(names@);
    let mut r: Vec<String> = Vec::new();
    let mut i: usize = 0;
    assert(ns.take(0) =~= Seq::<Seq<char>>::empty());
    assert(strs(r@) =~= Seq::<Seq<char>>::empty());
    while i < names.len()
        invariant
            i <= names@.len(),
            ns == strs(names@),
            strs(r@) == executable_names(ns.take(i as int), platform),
        decreases names@.len() - i,
    {
        proof {
            assert(ns.take(i + 1).drop_last() =~= ns.take(i as int));
            assert(ns.take(i + 1).last() == names@[i as int]@);
        }
        let ghost before = strs(r@);
        if platform == Platform::Windows {
            r.push(option_arg(names[i].as_str(), ".exe"));
            r.push(names[i].clone());
            assert(strs(r@) =~= before + seq![names@[i as int]@ + ".exe"@, names@[i as int]@]);
        } else {
            r.push(names[i].clone());
            assert(strs(r@) =~= before.push(names@[i as int]@));
        }
        i = i + 1;
    }
    assert(ns.take(names@.len() as int) =~= ns);
    r
}

/// The candidate paths of a search: each name of `exes` joined to each
/// folder of `dirs`, folder by folder.
pub open spec fn candidate_paths(dirs: Seq<Seq<char>>, exes: Seq<Seq<char>>) -> Seq<Seq<char>>
    decreases dirs.len(),
{
    if dirs.len() == 0 {
        Seq::empty()
    } else {
        candidate_paths(dirs.drop_last(), exes) + exes.map_values(
            |e: Seq<char>| joined_path(dirs.last(), e),
        )
    }
}

/// The first of `cands`, from position `i` on, whose answer in `answers` is
/// yes (a missing answer counts as no).
pub open spec fn first_yes_from(cands: Seq<Seq<char>>, answers: Seq<bool>, i: int) -> Option<
    Seq<char>,
>
    decreases cands.len() - i,
{
    if i < 0 || i >= cands.len() {
        None
    } else if i < answers.len() && answers[i] {
        Some(cands[i])
    } else {
        first_yes_from(cands, answers, i + 1)
    }
}

/// The first of `cands` whose answer in `answers` is yes.
pub open spec fn first_yes(cands: Seq<Seq<char>>, answers: Seq<bool>) -> Option<Seq<char>> {
    first_yes_from(cands, answers, 0)
}

/// `r` is the first of `cands` that exists, for some answers of the file
/// system, one per candidate.
pub open spec fn found_first(cands: Seq<Seq<char>>, r: Option<Seq<char>>) -> bool {
    exists|answers: Seq<bool>| answers.len() == cands.len() && #[trigger] first_yes(cands, answers) == r
}

/// The first of `cands` whose answer in `answers` is yes.
pub fn first_answered(cands: &Vec<String>, answers: &Vec<bool>) -> (r: Option<String>)
    ensures
        opt_text(r) == first_yes(strs(cands@), answers@),
{
    let ghost cs = strs(cands@);
    let mut i: usize = 0;
    while i < cands.len()
        invariant
            i <= cands@.len(),
            cs == strs(cands@),
            first_yes(cs, answers@) == first_yes_from(cs, answers@, i as int),
        decreases cands@.len() - i,
    {
        if i < answers.len() && answers[i] {
            assert(cs[i as int] == cands@[i as int]@);
            return Some(cands[i].clone());
        }
        assert(first_yes_from(cs, answers@, i as int) == first_yes_from(cs, answers@, i + 1));
        i = i + 1;
    }
    None
}

/// The candidate paths: each name of `exes` joined to each folder of `dirs`.
pub fn candidates_exec(dirs: &Vec<String>, exes: &Vec<String>) -> (r: Vec<String>)
    ensures
        strs(r@) == candidate_paths(strs(dirs@), strs(exes@)),
{
    let ghost ds = strs(dirs@);
    let ghost es = strs(exes@);
    let mut r: Vec<String> = Vec::new();
    let mut i: usize = 0;
    assert(ds.take(0) =~= Seq::<Seq<char>>::empty());
    assert(strs(r@) =~= Seq::<Seq<char>>::empty());
    while i < dirs.len()
        invariant
            i <= dirs@.len(),
            ds == strs(dirs@),
            es == strs(exes@),
            strs(r@) == candidate_paths(ds.take(i as int), es),
        decreases dirs@.len() - i,
    {
        let ghost start = strs(r@);
        let ghost d = dirs@[i as int]@;
        let mut j: usize = 0;
        assert(es.take(0).map_values(|e: Seq<char>| joined_path(d, e)) =~= Seq::<Seq<char>>::empty());
        assert(strs(r@) =~= start + es.take(0).map_values(|e: Seq<char>| joined_path(d, e)));
        while j < exes.len()
            invariant
                i < dirs@.len(),
                j <= exes@.len(),
                es == strs(exes@),
                d == dirs@[i as int]@,
                strs(r@) == start + es.take(j as int).map_values(|e: Seq<char>| joined_path(d, e)),
            decreases exes@.len() - j,
        {
            let ghost before = strs(r@);
            let c = path_join(dirs[i].as_str(), exes[j].as_str());
            r.push(c);
            assert(strs(r@) =~= before.push(c@));
            assert(es.take(j + 1).map_values(|e: Seq<char>| joined_path(d, e)) =~= es.take(
                j as int,
            ).map_values(|e: Seq<char>| joined_path(d, e)).push(joined_path(d, exes@[j as int]@)));
            assert(strs(r@) =~= start + es.take(j + 1).map_values(|e: Seq<char>| joined_path(d, e)));
            j = j + 1;
        }
        assert(es.take(exes@.len() as int) =~= es);
        assert(ds.take(i + 1).drop_last() =~= ds.take(i as int));
        assert(ds.take(i + 1).last() == d);
        i = i + 1;
    }
    assert(ds.take(dirs@.len() as int) =~= ds);
    r
}

/// The first candidate, each name of `exes` joined to each folder of `dirs`,
/// folder by folder, whose answer in `answers` is yes.
pub fn first_existing_with(dirs: &Vec<String>, exes: &Vec<String>, answers: &Vec<bool>) -> (r: Option<String>)
    ensures
        opt_text(r) == first_yes(candidate_paths(strs(dirs@), strs(exes@)), answers@),
{
    let cands = candidates_exec(dirs, exes);
    first_answered(&cands, answers)
}

/// The first candidate, each name of `exes` joined to each folder of `dirs`,
/// folder by folder, that exists: existence is asked of the file system for
/// every candidate, and the result is `first_existing_with` for the answers.
pub fn first_existing(dirs: &Vec<String>, exes: &Vec<String>) -> (r: Option<String>)
    ensures
        found_first(candidate_paths(strs(dirs@), strs(exes@)), opt_text(r)),
{
    let cands = candidates_exec(dirs, exes);
    let mut answers: Vec<bool> = Vec::new();
    let mut i: usize = 0;
    while i < cands.len()
        invariant
            i <= cands@.len(),
            answers@.len() == i,
        decreases cands@.len() - i,
    {
        answers.push(path_exists(cands[i].as_str()));
        i = i + 1;
    }
    let r = first_answered(&cands, &answers);
    assert(first_yes(candidate_paths(strs(dirs@), strs(exes@)), answers@) == opt_text(r));
    r
}

/// `r` is what `find_binary` gives for the names `names` searched first in
/// `dirs`, then in the folders of `PATH` (`path_dirs`) and the platform's
/// usual folders, for some answers of the file system.
pub open spec fn binary_search(
    names: Seq<Seq<char>>,
    dirs: Seq<Seq<char>>,
    platform: Platform,
    path_dirs: Seq<Seq<char>>,
    r: Option<Seq<char>>,
) -> bool {
    found_first(
        candidate_paths(dirs + common_dirs_spec(platform, path_dirs), executable_names(names, platform)),
        r,
    )
}

/// A program called one of `names`: the first of its file names joined to a
/// folder that exists, trying every file name in each folder before the next
/// folder, the folders `search_dirs` first and then those of `PATH`
/// (`path_dirs`) and the platform's usual folders.
pub fn find_binary(
    names: &Vec<String>,
    search_dirs: &Vec<String>,
    platform: Platform,
    path_dirs: &Vec<String>,
) -> (r: Option<String>)
    ensures
        binary_search(strs(names@), strs(search_dirs@), platform, strs(path_dirs@), opt_text(r)),
{
    let exes = executable_names_exec(names, platform);
    let common = common_binary_dirs(platform, path_dirs);
    let mut dirs: Vec<String> = Vec::new();
    let mut i: usize = 0;
    while i < search_dirs.len()
        invariant
            i <= search_dirs@.len(),
            strs(dirs@) == strs(search_dirs@).take(i as int),
        decreases search_dirs@.len() - i,
    {
        let ghost before = dirs@;
        dirs.push(search_dirs[i].clone());
        assert(strs(dirs@) =~= strs(before).push(search_dirs@[i as int]@));
        assert(strs(search_dirs@).take(i + 1) =~= strs(search_dirs@).take(i as int).push(
            search_dirs@[i as int]@,
        ));
        i = i + 1;
    }
    assert(strs(search_dirs@).take(search_dirs@.len() as int) =~= strs(search_dirs@));
    let ghost given = strs(dirs@);
    let mut k: usize = 0;
    while k < common.len()
        invariant
            k <= common@.len(),
            strs(dirs@) == given + strs(common@).take(k as int),
        decreases common@.len() - k,
    {
        let ghost before = dirs@;
        dirs.push(common[k].clone());
        assert(strs(dirs@) =~= strs(before).push(common@[k as int]@));
        assert(strs(common@).take(k + 1) =~= strs(common@).take(k as int).push(common@[k as int]@));
        assert(strs(dirs@) =~= given + strs(common@).take(k + 1));
        k = k + 1;
    }
    assert(strs(common@).take(common@.len() as int) =~= strs(common@));
    first_existing(&dirs, &exes)
}

/// Whether a folder holds signatures, for the answers of the file system,
/// in order, to whether each path of `signature_probes` of the folder
/// exists: the folder, then `main.cvd`, `main.cld`, `daily.cvd` and
/// `daily.cld` in it.
pub open spec fn signature_ready_given(answers: Seq<bool>) -> bool {
    answers.len() == 5 && answers[0] && (answers[1] || answers[2] || answers[3] || answers[4])
}

/// Whether a folder holds signatures, for the five answers described at
/// `signature_ready_given`.
pub fn signature_ready_from(answers: &Vec<bool>) -> (r: bool)
    ensures
        r == signature_ready_given(answers@),
{
    answers.len() == 5 && answers[0] && (answers[1] || answers[2] || answers[3] || answers[4])
}

/// The paths asked about to tell whether `path` holds signatures: the
/// folder itself, then `main.cvd`, `main.cld`, `daily.cvd` and `daily.cld`
/// in it.
pub open spec fn signature_probes(path: Seq<char>) -> Seq<Seq<char>> {
    seq![
        path,
        joined_path(path, "main.cvd"@),
        joined_path(path, "main.cld"@),
        joined_path(path, "daily.cvd"@),
        joined_path(path, "daily.cld"@),
    ]
}

/// The paths asked about to tell whether `path` holds signatures.
pub fn signature_probe_paths(path: &str) -> (r: Vec<String>)
    ensures
        strs(r@) == signature_probes(path@),
{
    let mut r: Vec<String> = Vec::new();
    r.push(String::from_str(path));
    r.push(path_join(path, "main.cvd"));
    r.push(path_join(path, "main.cld"));
    r.push(path_join(path, "daily.cvd"));
    r.push(path_join(path, "daily.cld"));
    assert(strs(r@) =~= signature_probes(path@));
    r
}

/// Whether `path` is a folder holding signatures: the file system is asked,
/// in order, whether each path of `signature_probe_paths(path)` exists, and
/// the result is `signature_ready_from` for the answers.
pub fn signature_dir_ready(path: &str) -> (r: bool)
    ensures
        exists|answers: Seq<bool>| answers.len() == signature_probes(path@).len() && #[trigger] signature_ready_given(answers) == r,
{
    let probes = signature_probe_paths(path);
    let mut answers: Vec<bool> = Vec::new();
    let mut i: usize = 0;
    while i < probes.len()
        invariant
            i <= probes@.len(),
            answers@.len() == i,
        decreases probes@.len() - i,
    {
        answers.push(path_exists(probes[i].as_str()));
        i = i + 1;
    }
    assert(strs(probes@).len() == probes@.len());
    let r = signature_ready_from(&answers);
    assert(signature_ready_given(answers@) == r);
    r
}

/// The name of the folder that holds the bundled engine for a platform.
pub open spec fn platform_folder_spec(platform: Platform) -> Seq<char> {
    match platform {
        Platform::Windows => "windows"@,
        Platform::MacOs => "macos"@,
        Platform::Linux => "linux"@,
    }
}

/// The name of the folder that holds the bundled engine for a platform.
pub fn platform_folder_name(platform: Platform) -> (r: String)
    ensures
        r@ == platform_folder_spec(platform),
{
    match platform {
        Platform::Windows => String::from_str("windows"),
        Platform::MacOs => String::from_str("macos"),
        Platform::Linux => String::from_str("linux"),
    }
}

/// What the user is told about the rights a full scan needs.
pub open spec fn permission_hint_spec(platform: Platform) -> Seq<char> {
    match platform {
        Platform::Windows => "Un scan complet de zones protégées fonctionne mieux en lançant l'application comme administrateur."@,
        Platform::MacOs => "Sur macOS, accordez l'accès complet au disque pour analyser les zones système et les répertoires d'autres applications."@,
        Platform::Linux => "Sur Linux, les scans système complets et la quarantaine peuvent nécessiter des droits élevés selon les dossiers protégés."@,
    }
}

/// What the user is told about the rights a full scan needs.
pub fn permission_hint(platform: Platform) -> (r: String)
    ensures
        r@ == permission_hint_spec(platform),
{
    match platform {
        Platform::Windows => String::from_str(
            "Un scan complet de zones protégées fonctionne mieux en lançant l'application comme administrateur.",
        ),
        Platform::MacOs => String::from_str(
            "Sur macOS, accordez l'accès complet au disque pour analyser les zones système et les répertoires d'autres applications.",
        ),
        Platform::Linux => String::from_str(
            "Sur Linux, les scans système complets et la quarantaine peuvent nécessiter des droits élevés selon les dossiers protégés.",
        ),
    }
}

/// The extensions of the files copied from the bundled database.
pub open spec fn seed_extension_spec(ext: Seq<char>) -> bool {
    ext == "cvd"@ || ext == "cld"@ || ext == "cdiff"@ || ext == "cfg"@
}

/// Whether a file of the bundled database with extension `ext` is copied
/// into the client's own database folder.
pub fn is_seed_extension(ext: &str) -> (r: bool)
    ensures
        r == seed_extension_spec(ext@),
{
    crate::text::same_text(ext, "cvd") || crate::text::same_text(ext, "cld")
        || crate::text::same_text(ext, "cdiff") || crate::text::same_text(ext, "cfg")
}

} // verus!
