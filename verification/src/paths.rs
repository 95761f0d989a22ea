//! The folders the client scans and watches, and where it looks for the engine.
//!
//! Paths are held as the strings that display them. They are joined, compared
//! and sorted as `std::path` does it, through the few calls below. Whether a
//! path exists depends on the machine: the functions that ask take the
//! answers they got to a function that says exactly what follows from them,
//! and state that their result is that function's result for some answers.
//! The user's own folders are read by the caller and handed over as
//! `UserFolders`.
use vstd::prelude::*;
use vstd::string::*;
use crate::models::Platform;
use crate::scan_output::strs;
use crate::text::{chars_of, has_sub, string_from};

verus! {

// ---------------------------------------------------------------------------
// Questions to the machine.

/// Whether `path` exists, by `std::path::Path::exists`. The answer depends on
/// the file system at the time of the call, so nothing is stated of it.
#[verifier::external_body]
pub(crate) fn path_exists(path: &str) -> bool {
    std::path::Path::new(path).exists()
}

/// A name that `Path::join` appends as one component on every platform:
/// not empty, not `.` or `..`, and without `/`, `\` or `:`.
pub open spec fn plain_component(name: Seq<char>) -> bool {
    &&& name.len() > 0
    &&& name != seq!['.']
    &&& name != seq!['.', '.']
    &&& !name.contains('/')
    &&& !name.contains('\\')
    &&& !name.contains(':')
}

/// `joined` is `base`, then at most one character, then `name`.
pub open spec fn joined_with(base: Seq<char>, name: Seq<char>, joined: Seq<char>) -> bool {
    exists|mid: Seq<char>| mid.len() <= 1 && joined == base + mid + name
}

/// `base` begins with the verbatim prefix `\\?\` of Windows, under which
/// `PathBuf::push` also removes `.` and `..` components.
pub open spec fn verbatim_prefixed(base: Seq<char>) -> bool {
    base.len() >= 4 && base.subrange(0, 4) == seq!['\\', '\\', '?', '\\']
}

/// The text of `Path::new(base).join(name)`. It depends on `base` and `name`
/// alone, with the separator of the platform the crate is built for.
pub uninterp spec fn joined_path(base: Seq<char>, name: Seq<char>) -> Seq<char>;

/// `base` joined with `name`, by `std::path::Path::join`, as displayed text.
/// Its documentation (`PathBuf::push`) shows that a plain component is
/// appended after at most one separator, none being added after an existing
/// one, except under a verbatim prefix, where the path is normalized.
#[verifier::external_body]
pub(crate) fn path_join(base: &str, name: &str) -> (r: String)
    ensures
        r@ == joined_path(base@, name@),
        plain_component(name@) && !verbatim_prefixed(base@) ==> joined_with(base@, name@, r@),
{
    std::path::Path::new(base).join(name).display().to_string()
}

/// Whether `Path::new(a) == Path::new(b)`: the two paths have the same
/// components. It depends on the two texts alone, parsed as on the platform
/// the crate is built for.
pub uninterp spec fn same_path(a: Seq<char>, b: Seq<char>) -> bool;

/// Whether the paths `a` and `b` are equal as paths, by `PartialEq` for
/// `std::path::Path`, which compares components. Two equal texts are equal
/// paths.
#[verifier::external_body]
pub(crate) fn paths_equal(a: &str, b: &str) -> (r: bool)
    ensures
        r == same_path(a@, b@),
        a@ == b@ ==> r,
{
    std::path::Path::new(a) == std::path::Path::new(b)
}

/// The last component of `path` when it is a name, by `Path::file_name`.
pub uninterp spec fn file_name_part(path: Seq<char>) -> Option<Seq<char>>;

/// The last component of `path`, by `std::path::Path::file_name`, when it is
/// a name. The result is named; of it, only that it is a non-empty piece of
/// `path` is stated, since which characters separate components depends on
/// the platform.
#[verifier::external_body]
pub(crate) fn file_name_of(path: &str) -> (r: Option<String>)
    ensures
        opt_text(r) == file_name_part(path@),
        r matches Some(n) ==> n@.len() > 0 && has_sub(path@, n@),
{
    std::path::Path::new(path).file_name().and_then(|n| n.to_str()).map(|n| n.to_string())
}

/// The paths `v` in the order `slice::sort` gives them as `PathBuf`s.
pub uninterp spec fn sorted_paths(v: Seq<Seq<char>>) -> Seq<Seq<char>>;

/// Whether `Path::new(a) <= Path::new(b)` by `Ord for Path`, which compares
/// components. It depends on the two texts alone, parsed as on the platform
/// the crate is built for.
pub uninterp spec fn path_le(a: Seq<char>, b: Seq<char>) -> bool;

/// The paths of `v` sorted, by `slice::sort` on `PathBuf`s. The order is
/// named (`path_le`); as `slice::sort` documents, the result is a
/// rearrangement of `v` in non-decreasing order. `Ord for Path` is a total
/// order that agrees with `PartialEq` (two paths are equal exactly when each
/// is less than or equal to the other), which is stated of the paths of the
/// result.
#[verifier::external_body]
pub(crate) fn sort_paths(v: Vec<String>) -> (r: Vec<String>)
    ensures
        strs(r@) == sorted_paths(strs(v@)),
        strs(r@).to_multiset() == strs(v@).to_multiset(),
        forall|i: int, j: int|
            0 <= i < j < r@.len() ==> path_le(#[trigger] strs(r@)[i], #[trigger] strs(r@)[j]),
        forall|i: int, j: int|
            0 <= i < r@.len() && 0 <= j < r@.len() ==> (same_path(
                #[trigger] strs(r@)[i],
                #[trigger] strs(r@)[j],
            ) <==> (path_le(strs(r@)[i], strs(r@)[j]) && path_le(strs(r@)[j], strs(r@)[i]))),
        forall|i: int, j: int, k: int|
            0 <= i < r@.len() && 0 <= j < r@.len() && 0 <= k < r@.len() && path_le(
                #[trigger] strs(r@)[i],
                #[trigger] strs(r@)[j],
            ) && path_le(strs(r@)[j], #[trigger] strs(r@)[k]) ==> path_le(strs(r@)[i], strs(r@)[k]),
{
    let mut paths: Vec<std::path::PathBuf> = v.into_iter().map(std::path::PathBuf::from).collect();
    paths.sort();
    paths.into_iter().map(|p| p.display().to_string()).collect()
}

/// The user's folders as the system reports them: the home folder, the
/// desktop, the documents and the downloads folders, each when known.
#[derive(Debug)]
pub struct UserFolders {
    pub home: Option<String>,
    pub desktop: Option<String>,
    pub documents: Option<String>,
    pub downloads: Option<String>,
}

// ---------------------------------------------------------------------------
// Keeping the paths that exist, each once.

/// Some path of `kept` is equal, as a path, to `p`.
pub open spec fn has_same_path(kept: Seq<Seq<char>>, p: Seq<char>) -> bool {
    exists|k: int| 0 <= k < kept.len() && same_path(#[trigger] kept[k], p)
}

/// The paths of `paths` whose answer in `exists` is yes and that are not
/// equal, as paths, to one kept before them, in order.
pub open spec fn unique_kept(paths: Seq<Seq<char>>, exists: Seq<bool>) -> Seq<Seq<char>>
    decreases paths.len(),
{
    if paths.len() == 0 {
        Seq::empty()
    } else {
        let kept = unique_kept(paths.drop_last(), exists.drop_last());
        let p = paths.last();
        if exists[paths.len() - 1] && !has_same_path(kept, p) {
            kept.push(p)
        } else {
            kept
        }
    }
}

/// Whether some path of `v` is equal, as a path, to `p`.
pub fn contains_same_path(v: &Vec<String>, p: &String) -> (r: bool)
    ensures
        r == has_same_path(strs(v@), p@),
{
    let ghost vs = strs(v@);
    let mut i: usize = 0;
    while i < v.len()
        invariant
            i <= v@.len(),
            vs == strs(v@),
            forall|k: int| 0 <= k < i ==> !same_path(#[trigger] vs[k], p@),
        decreases v@.len() - i,
    {
        if paths_equal(v[i].as_str(), p.as_str()) {
            assert(same_path(vs[i as int], p@));
            return true;
        }
        i = i + 1;
    }
    false
}

/// The paths of `paths` that `exists` answers yes for, each once, in order.
pub fn keep_existing_unique(paths: &Vec<String>, exists: &Vec<bool>) -> (r: Vec<String>)
    requires
        exists@.len() == paths@.len(),
    ensures
        strs(r@) == unique_kept(strs(paths@), exists@),
{
    let ghost ps = strs(paths@);
    let mut r: Vec<String> = Vec::new();
    let mut i: usize = 0;
    assert(ps.take(0) =~= Seq::<Seq<char>>::empty());
    assert(strs(r@) =~= Seq::<Seq<char>>::empty());
    while i < paths.len()
        invariant
            i <= paths@.len(),
            exists@.len() == paths@.len(),
            ps == strs(paths@),
            strs(r@) == unique_kept(ps.take(i as int), exists@.take(i as int)),
        decreases paths@.len() - i,
    {
        proof {
            assert(ps.take(i + 1).drop_last() =~= ps.take(i as int));
            assert(exists@.take(i + 1).drop_last() =~= exists@.take(i as int));
            assert(ps.take(i + 1).last() == paths@[i as int]@);
            assert(exists@.take(i + 1)[i as int] == exists@[i as int]);
        }
        if exists[i] && !contains_same_path(&r, &paths[i]) {
            let ghost before = r@;
            r.push(paths[i].clone());
            assert(strs(r@) =~= strs(before).push(paths@[i as int]@));
        }
        i = i + 1;
    }
    assert(ps.take(paths@.len() as int) =~= ps);
    assert(exists@.take(paths@.len() as int) =~= exists@);
    r
}

/// The paths of `paths` that exist, each once, in order: existence is asked
/// of the file system for every path, and the result is what
/// `keep_existing_unique` keeps for those answers.
pub fn unique_existing(paths: &Vec<String>) -> (r: Vec<String>)
    ensures
        exists|flags: Seq<bool>|
            flags.len() == paths@.len() && strs(r@) == #[trigger] unique_kept(strs(paths@), flags),
{
    let mut flags: Vec<bool> = Vec::new();
    let mut i: usize = 0;
    while i < paths.len()
        invariant
            i <= paths@.len(),
            flags@.len() == i,
        decreases paths@.len() - i,
    {
        flags.push(path_exists(paths[i].as_str()));
        i = i + 1;
    }
    keep_existing_unique(paths, &flags)
}

// ---------------------------------------------------------------------------
// The folders of the user and of the system.

/// The paths `raw` once those that exist are kept, each once, for some
/// answers of the file system.
pub open spec fn is_normalized(raw: Seq<Seq<char>>, t: Seq<Seq<char>>) -> bool {
    exists|flags: Seq<bool>| flags.len() == raw.len() && #[trigger] unique_kept(raw, flags) == t
}

/// The paths the user gave, those that exist, each once.
pub fn normalize_targets(raw_targets: &Vec<String>) -> (r: Vec<String>)
    ensures
        is_normalized(strs(raw_targets@), strs(r@)),
{
    unique_existing(raw_targets)
}

/// The text of an optional string.
pub open spec fn opt_text(o: Option<String>) -> Option<Seq<char>> {
    match o {
        Some(s) => Some(s@),
        None => None,
    }
}

/// The downloads folder: the one the system reports, else `Downloads` in the
/// home folder when the file system answered (`found`) that it exists.
pub open spec fn downloads_spec(
    reported: Option<Seq<char>>,
    home: Option<Seq<char>>,
    found: bool,
) -> Option<Seq<char>> {
    match reported {
        Some(d) => Some(d),
        None => match home {
            Some(h) => if found {
                Some(joined_path(h, "Downloads"@))
            } else {
                None
            },
            None => None,
        },
    }
}

/// The user's downloads folder, for the answer `found` of the file system.
pub open spec fn user_downloads(f: UserFolders, found: bool) -> Option<Seq<char>> {
    downloads_spec(opt_text(f.downloads), opt_text(f.home), found)
}

/// The user's downloads folder: the one the system reports, or else
/// `Downloads` in the home folder if that exists (asked of the file system).
pub fn downloads_dir(folders: &UserFolders) -> (r: Option<String>)
    ensures
        opt_text(r) == user_downloads(*folders, true) || opt_text(r) == user_downloads(
            *folders,
            false,
        ),
{
    match &folders.downloads {
        Some(d) => Some(d.clone()),
        None => match &folders.home {
            Some(home) => {
                let candidate = path_join(home.as_str(), "Downloads");
                if path_exists(candidate.as_str()) {
                    Some(candidate)
                } else {
                    None
                }
            },
            None => None,
        },
    }
}

/// `v` with `x` added at its end when there is one.
pub open spec fn push_opt(v: Seq<Seq<char>>, x: Option<Seq<char>>) -> Seq<Seq<char>> {
    match x {
        Some(p) => v.push(p),
        None => v,
    }
}

pub fn push_opt_exec(v: &mut Vec<String>, x: Option<String>)
    ensures
        strs(final(v)@) == push_opt(strs(old(v)@), opt_text(x)),
{
    match x {
        Some(p) => {
            let ghost before = v@;
            v.push(p);
            assert(strs(v@) =~= strs(before).push(p@));
        },
        None => {},
    }
}

/// The candidates of a quick scan: the desktop, documents and downloads
/// folders that are known, in that order, or the home folder when none is.
pub open spec fn quick_candidates(
    desktop: Option<Seq<char>>,
    documents: Option<Seq<char>>,
    downloads: Option<Seq<char>>,
    home: Option<Seq<char>>,
) -> Seq<Seq<char>> {
    let v = push_opt(push_opt(push_opt(Seq::empty(), desktop), documents), downloads);
    if v.len() == 0 {
        match home {
            Some(h) => seq![h],
            None => v,
        }
    } else {
        v
    }
}

/// The candidates of a quick scan.
pub fn quick_candidates_exec(
    desktop: Option<String>,
    documents: Option<String>,
    downloads: Option<String>,
    home: Option<String>,
) -> (r: Vec<String>)
    ensures
        strs(r@) == quick_candidates(
            opt_text(desktop),
            opt_text(documents),
            opt_text(downloads),
            opt_text(home),
        ),
        desktop matches Some(d) ==> strs(r@).contains(d@),
        documents matches Some(d) ==> strs(r@).contains(d@),
        downloads matches Some(d) ==> strs(r@).contains(d@),
{
    let mut paths: Vec<String> = Vec::new();
    assert(strs(paths@) =~= Seq::<Seq<char>>::empty());
    push_opt_exec(&mut paths, desktop);
    push_opt_exec(&mut paths, documents);
    push_opt_exec(&mut paths, downloads);
    match home {
        Some(h) => {
            if paths.len() == 0 {
                paths.push(h);
                assert(strs(paths@) =~= seq![h@]);
            }
        },
        None => {},
    }
    proof {
        quick_candidates_cover_known_folders(
            opt_text(desktop),
            opt_text(documents),
            opt_text(downloads),
            opt_text(home),
        );
    }
    paths
}

/// Every known desktop, documents and downloads folder is a quick-scan
/// candidate, the home folder is one only when none of them is known, and
/// nothing else is.
pub proof fn quick_candidates_cover_known_folders(
    desktop: Option<Seq<char>>,
    documents: Option<Seq<char>>,
    downloads: Option<Seq<char>>,
    home: Option<Seq<char>>,
)
    ensures
        desktop matches Some(d) ==> quick_candidates(desktop, documents, downloads, home).contains(d),
        documents matches Some(d) ==> quick_candidates(desktop, documents, downloads, home).contains(d),
        downloads matches Some(d) ==> quick_candidates(desktop, documents, downloads, home).contains(d),
        desktop is None && documents is None && downloads is None ==> quick_candidates(
            desktop,
            documents,
            downloads,
            home,
        ) == match home {
            Some(h) => seq![h],
            None => Seq::<Seq<char>>::empty(),
        },
        forall|x: Seq<char>|
            #[trigger] quick_candidates(desktop, documents, downloads, home).contains(x) ==> (
            desktop == Some(x) || documents == Some(x) || downloads == Some(x) || ((desktop is None
                && documents is None && downloads is None) && home == Some(x))),
{
    let a = push_opt(Seq::empty(), desktop);
    let b = push_opt(a, documents);
    let c = push_opt(b, downloads);
    let q = quick_candidates(desktop, documents, downloads, home);
    if let Some(d) = desktop {
        assert(a[0] == d);
        assert(b[0] == d);
        assert(c[0] == d);
    }
    if let Some(d) = documents {
        assert(b[b.len() - 1] == d);
        assert(c[b.len() - 1] == d);
    }
    if let Some(d) = downloads {
        assert(c[c.len() - 1] == d);
    }
    if desktop is None && documents is None && downloads is None {
        assert(c =~= Seq::<Seq<char>>::empty());
    }
    assert forall|x: Seq<char>| #[trigger] q.contains(x) implies (desktop == Some(x) || documents
        == Some(x) || downloads == Some(x) || ((desktop is None && documents is None && downloads
        is None) && home == Some(x))) by {
        let k = choose|k: int| 0 <= k < q.len() && q[k] == x;
        if c.len() > 0 {
            if downloads is Some && k == c.len() - 1 {
            } else if documents is Some && k == b.len() - 1 {
                assert(c[k] == b[k]);
            } else {
                assert(c[k] == b[k]);
                assert(b[k] == a[k]);
            }
        }
    }
}

/// The quick-scan candidates of the user with the folders `f`, for the
/// answer `found` about the downloads folder.
pub open spec fn user_quick_candidates(f: UserFolders, found: bool) -> Seq<Seq<char>> {
    quick_candidates(
        opt_text(f.desktop),
        opt_text(f.documents),
        user_downloads(f, found),
        opt_text(f.home),
    )
}

/// `q` is what `default_quick_paths` gives for the folders `f`, for some
/// answers of the file system.
pub open spec fn is_default_quick(f: UserFolders, q: Seq<Seq<char>>) -> bool {
    exists|found: bool, flags: Seq<bool>|
        flags.len() == user_quick_candidates(f, found).len() && #[trigger] unique_kept(
            user_quick_candidates(f, found),
            flags,
        ) == q
}

/// The folders a quick scan covers by default: the desktop, the documents
/// and the downloads folders, or the home folder when none of them is known;
/// those that exist, each once.
pub fn default_quick_paths(folders: &UserFolders) -> (r: Vec<String>)
    ensures
        is_default_quick(*folders, strs(r@)),
{
    let downloads = downloads_dir(folders);
    let ghost found: bool = opt_text(downloads) == user_downloads(*folders, true);
    let paths = quick_candidates_exec(
        folders.desktop.clone(),
        folders.documents.clone(),
        downloads,
        folders.home.clone(),
    );
    assert(strs(paths@) == user_quick_candidates(*folders, found));
    let r = unique_existing(&paths);
    proof {
        let flags = choose|flags: Seq<bool>|
            flags.len() == paths@.len() && strs(r@) == #[trigger] unique_kept(strs(paths@), flags);
        assert(unique_kept(user_quick_candidates(*folders, found), flags) == strs(r@));
    }
    r
}

/// The folders watched for the settings `raw` and `auto_scan_downloads` when
/// the file system answered `f1` and then `f2` to whether they exist and
/// the downloads folder was `downloads`.
pub open spec fn watched_from(
    raw: Seq<Seq<char>>,
    auto_scan_downloads: bool,
    f1: Seq<bool>,
    downloads: Option<Seq<char>>,
    f2: Seq<bool>,
) -> Seq<Seq<char>> {
    unique_kept(watched_all(raw, auto_scan_downloads, f1, downloads), f2)
}

/// The folders considered for watching, before those that exist are kept.
pub open spec fn watched_all(
    raw: Seq<Seq<char>>,
    auto_scan_downloads: bool,
    f1: Seq<bool>,
    downloads: Option<Seq<char>>,
) -> Seq<Seq<char>> {
    let given = unique_kept(raw, f1);
    if auto_scan_downloads {
        push_opt(given, downloads)
    } else {
        given
    }
}

/// `w` is what `watch_paths_from_config` gives for the settings `raw` and
/// `auto_scan_downloads` and the user's folders `f`, for some answers of the
/// file system.
pub open spec fn is_watched(raw: Seq<Seq<char>>, auto_scan_downloads: bool, f: UserFolders, w: Seq<Seq<char>>) -> bool {
    exists|f1: Seq<bool>, found: bool, f2: Seq<bool>|
        f1.len() == raw.len() && f2.len() == watched_all(
            raw,
            auto_scan_downloads,
            f1,
            user_downloads(f, found),
        ).len() && #[trigger] watched_from(
            raw,
            auto_scan_downloads,
            f1,
            user_downloads(f, found),
            f2,
        ) == w
}

/// The folders watched when the settings name `raw_paths`: those of them that
/// exist, then the downloads folder when `auto_scan_downloads` is set; those
/// that exist, each once.
pub fn watch_paths_from_config(
    raw_paths: &Vec<String>,
    auto_scan_downloads: bool,
    folders: &UserFolders,
) -> (r: Vec<String>)
    ensures
        is_watched(strs(raw_paths@), auto_scan_downloads, *folders, strs(r@)),
{
    let mut paths = normalize_targets(raw_paths);
    let ghost f1 = choose|flags: Seq<bool>|
        flags.len() == strs(raw_paths@).len() && #[trigger] unique_kept(strs(raw_paths@), flags)
            == strs(paths@);
    let ghost mut found: bool = true;
    if auto_scan_downloads {
        let d = downloads_dir(folders);
        proof {
            found = opt_text(d) == user_downloads(*folders, true);
        }
        push_opt_exec(&mut paths, d);
    }
    assert(strs(paths@) == watched_all(
        strs(raw_paths@),
        auto_scan_downloads,
        f1,
        user_downloads(*folders, found),
    ));
    let r = unique_existing(&paths);
    proof {
        let f2 = choose|flags: Seq<bool>|
            flags.len() == paths@.len() && strs(r@) == #[trigger] unique_kept(strs(paths@), flags);
        assert(watched_from(
            strs(raw_paths@),
            auto_scan_downloads,
            f1,
            user_downloads(*folders, found),
            f2,
        ) == strs(r@));
    }
    r
}

/// `w` is what `default_watch_paths` gives for the folders `f`, for some
/// answers of the file system.
pub open spec fn is_default_watch(f: UserFolders, w: Seq<Seq<char>>) -> bool {
    exists|q: Seq<Seq<char>>, found: bool, flags: Seq<bool>|
        is_default_quick(f, q) && flags.len() == push_opt(q, user_downloads(f, found)).len()
            && #[trigger] unique_kept(push_opt(q, user_downloads(f, found)), flags) == w
}

/// The folders watched by default: the quick-scan folders and the downloads
/// folder, those that exist, each once.
pub fn default_watch_paths(folders: &UserFolders) -> (r: Vec<String>)
    ensures
        is_default_watch(*folders, strs(r@)),
{
    let mut paths = default_quick_paths(folders);
    let ghost q = strs(paths@);
    let d = downloads_dir(folders);
    let ghost found: bool = opt_text(d) == user_downloads(*folders, true);
    push_opt_exec(&mut paths, d);
    let r = unique_existing(&paths);
    proof {
        let flags = choose|flags: Seq<bool>|
            flags.len() == paths@.len() && strs(r@) == #[trigger] unique_kept(strs(paths@), flags);
        assert(unique_kept(push_opt(q, user_downloads(*folders, found)), flags) == strs(r@));
    }
    r
}

/// `t` is what `quick_paths_from_config` gives for the settings `raw` and
/// `auto_scan_downloads` and the user's folders `f`: the default quick-scan
/// folders, then the watched ones, those that exist, each once.
pub open spec fn is_quick_targets(raw: Seq<Seq<char>>, auto_scan_downloads: bool, f: UserFolders, t: Seq<Seq<char>>) -> bool {
    exists|q: Seq<Seq<char>>, w: Seq<Seq<char>>, flags: Seq<bool>|
        is_default_quick(f, q) && is_watched(raw, auto_scan_downloads, f, w) && flags.len() == (q
            + w).len() && #[trigger] unique_kept(q + w, flags) == t
}

/// The folders of a quick scan with the settings `raw_paths` and
/// `auto_scan_downloads`: the default quick-scan folders, then the watched
/// folders; those that exist, each once.
pub fn quick_paths_from_config(
    raw_paths: &Vec<String>,
    auto_scan_downloads: bool,
    folders: &UserFolders,
) -> (r: Vec<String>)
    ensures
        is_quick_targets(strs(raw_paths@), auto_scan_downloads, *folders, strs(r@)),
{
    let mut paths = default_quick_paths(folders);
    let ghost q = strs(paths@);
    let watched = watch_paths_from_config(raw_paths, auto_scan_downloads, folders);
    let ghost w = strs(watched@);
    let mut i: usize = 0;
    while i < watched.len()
        invariant
            i <= watched@.len(),
            w == strs(watched@),
            strs(paths@) == q + w.take(i as int),
        decreases watched@.len() - i,
    {
        let ghost before = paths@;
        paths.push(watched[i].clone());
        assert(strs(paths@) =~= strs(before).push(watched@[i as int]@));
        assert(w.take(i + 1) =~= w.take(i as int).push(watched@[i as int]@));
        assert(strs(paths@) =~= q + w.take(i + 1));
        i = i + 1;
    }
    assert(w.take(watched@.len() as int) =~= w);
    let r = unique_existing(&paths);
    proof {
        let flags = choose|flags: Seq<bool>|
            flags.len() == paths@.len() && strs(r@) == #[trigger] unique_kept(strs(paths@), flags);
        assert(unique_kept(q + w, flags) == strs(r@));
    }
    r
}

/// The target of a full scan: the root of the system drive on Windows
/// (`system_drive`, or `C:` when it is not set, then a backslash), `/`
/// elsewhere; kept if it exists.
pub open spec fn full_target_spec(platform: Platform, system_drive: Option<Seq<char>>) -> Seq<
    char,
> {
    match platform {
        Platform::Windows => match system_drive {
            Some(d) => d + "\\"@,
            None => "C:"@ + "\\"@,
        },
        _ => "/"@,
    }
}

/// The targets of a full scan.
pub fn default_full_targets(platform: Platform, system_drive: Option<String>) -> (r: Vec<String>)
    ensures
        strs(r@) == Seq::<Seq<char>>::empty() || strs(r@) == seq![
            full_target_spec(platform, opt_text(system_drive)),
        ],
{
    let candidate = match platform {
        Platform::Windows => {
            let mut root = match system_drive {
                Some(d) => d,
                None => String::from_str("C:"),
            };
            root.append("\\");
            root
        },
        _ => String::from_str("/"),
    };
    let mut candidates: Vec<String> = Vec::new();
    candidates.push(candidate);
    let r = unique_existing(&candidates);
    proof {
        let flags = choose|flags: Seq<bool>|
            flags.len() == candidates@.len() && strs(r@) == unique_kept(
                strs(candidates@),
                flags,
            );
        assert(strs(candidates@).drop_last() =~= Seq::<Seq<char>>::empty());
        assert(unique_kept(Seq::<Seq<char>>::empty(), flags.drop_last()) =~= Seq::<
            Seq<char>,
        >::empty());
        if strs(r@).len() != 0 {
            assert(strs(r@) =~= seq![strs(candidates@)[0]]);
        }
    }
    r
}

/// The folders where the engine's binaries usually are, besides those of
/// `PATH`.
pub open spec fn platform_binary_dirs(platform: Platform) -> Seq<Seq<char>> {
    match platform {
        Platform::Windows => seq!["C:\\Program Files\\ClamAV"@, "C:\\Program Files (x86)\\ClamAV"@],
        Platform::MacOs => seq!["/usr/local/bin"@, "/opt/homebrew/bin"@, "/opt/local/bin"@],
        Platform::Linux => seq!["/usr/bin"@, "/usr/local/bin"@, "/snap/bin"@],
    }
}

/// `s` without the paths equal, as paths, to the last one kept before
/// them, as `Vec::dedup` leaves it.
pub open spec fn dedup_same(s: Seq<Seq<char>>) -> Seq<Seq<char>>
    decreases s.len(),
{
    if s.len() == 0 {
        Seq::empty()
    } else {
        let rest = dedup_same(s.drop_last());
        if rest.len() > 0 && same_path(s.last(), rest.last()) {
            rest
        } else {
            rest.push(s.last())
        }
    }
}

/// The positions in `s` of the paths `dedup_same(s)` keeps.
pub open spec fn dedup_positions(s: Seq<Seq<char>>) -> Seq<int>
    decreases s.len(),
{
    if s.len() == 0 {
        Seq::empty()
    } else {
        let rest = dedup_same(s.drop_last());
        let pos = dedup_positions(s.drop_last());
        if rest.len() > 0 && same_path(s.last(), rest.last()) {
            pos
        } else {
            pos.push(s.len() - 1)
        }
    }
}

/// `dedup_same(s)` is the subsequence of `s` at increasing positions, and
/// every path of `s` is kept or equal, as a path, to one kept.
pub proof fn lemma_dedup_positions(s: Seq<Seq<char>>)
    ensures
        dedup_positions(s).len() == dedup_same(s).len(),
        forall|i: int|
            0 <= i < dedup_same(s).len() ==> 0 <= #[trigger] dedup_positions(s)[i] < s.len()
                && dedup_same(s)[i] == s[dedup_positions(s)[i]],
        forall|i: int, j: int|
            0 <= i < j < dedup_same(s).len() ==> #[trigger] dedup_positions(s)[i]
                < #[trigger] dedup_positions(s)[j],
        forall|k: int|
            0 <= k < s.len() ==> exists|i: int|
                0 <= i < dedup_same(s).len() && (dedup_same(s)[i] == #[trigger] s[k] || same_path(
                    s[k],
                    dedup_same(s)[i],
                )),
    decreases s.len(),
{
    if s.len() > 0 {
        let t = s.drop_last();
        lemma_dedup_positions(t);
        let r = dedup_same(s);
        let rt = dedup_same(t);
        let p = dedup_positions(s);
        let pt = dedup_positions(t);
        assert forall|i: int| 0 <= i < r.len() implies 0 <= #[trigger] p[i] < s.len() && r[i] == s[p[i]] by {
            if i < rt.len() {
                assert(p[i] == pt[i]);
                assert(r[i] == rt[i]);
                assert(t[pt[i]] == s[pt[i]]);
            }
        }
        assert forall|i: int, j: int| 0 <= i < j < r.len() implies #[trigger] p[i] < #[trigger] p[j] by {
            if j < rt.len() {
                assert(p[i] == pt[i] && p[j] == pt[j]);
            } else {
                assert(p[i] == pt[i]);
            }
        }
        assert forall|k: int| 0 <= k < s.len() implies exists|i: int|
            0 <= i < r.len() && (r[i] == #[trigger] s[k] || same_path(s[k], r[i])) by {
            if k < t.len() {
                assert(t[k] == s[k]);
                let i = choose|i: int| 0 <= i < rt.len() && (rt[i] == #[trigger] t[k] || same_path(t[k], rt[i]));
                assert(r[i] == rt[i]);
            } else if rt.len() > 0 && same_path(s.last(), rt.last()) {
                assert(r[rt.len() - 1] == rt.last());
            } else {
                assert(r[rt.len() as int] == s.last());
            }
        }
    }
}

/// Of a sequence in non-decreasing order under an order that agrees with
/// path equality, `dedup_same` keeps a strictly increasing sequence: each
/// path is less than the next and no two are equal as paths.
pub proof fn lemma_dedup_sorted(s: Seq<Seq<char>>)
    requires
        forall|i: int, j: int| 0 <= i < j < s.len() ==> path_le(#[trigger] s[i], #[trigger] s[j]),
        forall|i: int, j: int|
            0 <= i < s.len() && 0 <= j < s.len() ==> (same_path(#[trigger] s[i], #[trigger] s[j])
                <==> (path_le(s[i], s[j]) && path_le(s[j], s[i]))),
        forall|i: int, j: int, k: int|
            0 <= i < s.len() && 0 <= j < s.len() && 0 <= k < s.len() && path_le(
                #[trigger] s[i],
                #[trigger] s[j],
            ) && path_le(s[j], #[trigger] s[k]) ==> path_le(s[i], s[k]),
    ensures
        forall|i: int, j: int|
            0 <= i < j < dedup_same(s).len() ==> path_le(
                #[trigger] dedup_same(s)[i],
                #[trigger] dedup_same(s)[j],
            ) && !same_path(dedup_same(s)[i], dedup_same(s)[j]) && !same_path(
                dedup_same(s)[j],
                dedup_same(s)[i],
            ),
    decreases s.len(),
{
    if s.len() > 0 {
        let t = s.drop_last();
        assert forall|i: int, j: int| 0 <= i < j < t.len() implies path_le(#[trigger] t[i], #[trigger] t[j]) by {
            assert(t[i] == s[i] && t[j] == s[j]);
        }
        assert forall|i: int, j: int| 0 <= i < t.len() && 0 <= j < t.len() implies (same_path(
            #[trigger] t[i],
            #[trigger] t[j],
        ) <==> (path_le(t[i], t[j]) && path_le(t[j], t[i]))) by {
            assert(t[i] == s[i] && t[j] == s[j]);
        }
        assert forall|i: int, j: int, k: int|
            0 <= i < t.len() && 0 <= j < t.len() && 0 <= k < t.len() && path_le(
                #[trigger] t[i],
                #[trigger] t[j],
            ) && path_le(t[j], #[trigger] t[k]) implies path_le(t[i], t[k]) by {
            assert(t[i] == s[i] && t[j] == s[j] && t[k] == s[k]);
        }
        lemma_dedup_sorted(t);
        lemma_dedup_positions(t);
        let r = dedup_same(s);
        let rt = dedup_same(t);
        let pt = dedup_positions(t);
        let n = s.len() - 1;
        if !(rt.len() > 0 && same_path(s.last(), rt.last())) {
            assert forall|i: int, j: int| 0 <= i < j < r.len() implies path_le(
                #[trigger] r[i],
                #[trigger] r[j],
            ) && !same_path(r[i], r[j]) && !same_path(r[j], r[i]) by {
                if j < rt.len() {
                    assert(r[i] == rt[i] && r[j] == rt[j]);
                } else {
                    assert(r[j] == s[n]);
                    assert(r[i] == rt[i]);
                    let pi = pt[i];
                    assert(rt[i] == t[pi] && t[pi] == s[pi]);
                    assert(path_le(s[pi], s[n]));
                    if same_path(s[pi], s[n]) || same_path(s[n], s[pi]) {
                        assert(path_le(s[n], s[pi]));
                        let m = pt[rt.len() - 1];
                        assert(rt.last() == t[m] && t[m] == s[m]);
                        if m == pi {
                            assert(same_path(s[n], s[pi]));
                        } else {
                            assert(pi < m);
                            assert(path_le(s[pi], s[m]));
                            assert(path_le(s[m], s[n]));
                            assert(path_le(s[n], s[m]));
                            assert(same_path(s[n], s[m]));
                        }
                    }
                }
            }
        }
    }
}

/// The folders searched for the engine's binaries, given the folders of
/// `PATH`: those and the usual ones of the platform, sorted as paths, each
/// path equal to the one kept before it dropped.
pub open spec fn common_dirs_spec(platform: Platform, path_dirs: Seq<Seq<char>>) -> Seq<Seq<char>> {
    dedup_same(sorted_paths(path_dirs + platform_binary_dirs(platform)))
}

/// The folders searched for the engine's binaries: those of `PATH` (given
/// as `path_dirs`) and the usual ones of the platform, sorted, without
/// repeats.
pub fn common_binary_dirs(platform: Platform, path_dirs: &Vec<String>) -> (r: Vec<String>)
    ensures
        strs(r@) == common_dirs_spec(platform, strs(path_dirs@)),
        forall|i: int, j: int|
            0 <= i < j < r@.len() ==> path_le(#[trigger] strs(r@)[i], #[trigger] strs(r@)[j])
                && !same_path(strs(r@)[i], strs(r@)[j]),
        forall|x: Seq<char>|
            #[trigger] strs(r@).contains(x) ==> (strs(path_dirs@) + platform_binary_dirs(
                platform,
            )).contains(x),
        forall|x: Seq<char>|
            #[trigger] (strs(path_dirs@) + platform_binary_dirs(platform)).contains(x) ==> exists|
                i: int,
            |
                0 <= i < r@.len() && (#[trigger] strs(r@)[i] == x || same_path(x, strs(r@)[i])),
{
    let mut dirs: Vec<String> = Vec::new();
    let mut i: usize = 0;
    while i < path_dirs.len()
        invariant
            i <= path_dirs@.len(),
            strs(dirs@) == strs(path_dirs@).take(i as int),
        decreases path_dirs@.len() - i,
    {
        let ghost before = dirs@;
        let item = path_dirs[i].clone();
        dirs.push(item);
        assert(strs(dirs@) =~= strs(before).push(path_dirs@[i as int]@));
        assert(strs(path_dirs@).take(i + 1) =~= strs(path_dirs@).take(i as int).push(
            path_dirs@[i as int]@,
        ));
        i = i + 1;
    }
    assert(strs(path_dirs@).take(path_dirs@.len() as int) =~= strs(path_dirs@));
    let defaults = platform_binary_dirs_exec(platform);
    let ghost given = strs(dirs@);
    let mut k: usize = 0;
    while k < defaults.len()
        invariant
            k <= defaults@.len(),
            strs(dirs@) == given + strs(defaults@).take(k as int),
        decreases defaults@.len() - k,
    {
        let ghost before = dirs@;
        let item = defaults[k].clone();
        dirs.push(item);
        assert(strs(dirs@) =~= strs(before).push(defaults@[k as int]@));
        assert(strs(defaults@).take(k + 1) =~= strs(defaults@).take(k as int).push(
            defaults@[k as int]@,
        ));
        assert(strs(dirs@) =~= given + strs(defaults@).take(k + 1));
        k = k + 1;
    }
    assert(strs(defaults@).take(defaults@.len() as int) =~= strs(defaults@));
    let ghost all = strs(dirs@);
    assert(all == strs(path_dirs@) + platform_binary_dirs(platform));
    let sorted = sort_paths(dirs);
    let r = dedup_paths(&sorted);
    proof {
        broadcast use vstd::seq_lib::group_to_multiset_ensures;

        let ss = strs(sorted@);
        lemma_dedup_sorted(ss);
        lemma_dedup_positions(ss);
        let rr = strs(r@);
        assert forall|x: Seq<char>| #[trigger] rr.contains(x) implies all.contains(x) by {
            let i = choose|i: int| 0 <= i < rr.len() && rr[i] == x;
            let p = dedup_positions(ss)[i];
            assert(ss[p] == x);
            assert(ss.contains(x));
            assert(ss.to_multiset().count(x) > 0);
        }
        assert forall|x: Seq<char>| #[trigger] all.contains(x) implies exists|i: int|
            0 <= i < r@.len() && (#[trigger] rr[i] == x || same_path(x, rr[i])) by {
            assert(all.to_multiset().count(x) > 0);
            assert(ss.contains(x));
            let k = choose|k: int| 0 <= k < ss.len() && ss[k] == x;
            let i = choose|i: int| 0 <= i < rr.len() && (rr[i] == #[trigger] ss[k] || same_path(ss[k], rr[i]));
            assert(rr[i] == x || same_path(x, rr[i]));
        }
    }
    r
}

/// `v` as `Vec::dedup` leaves it: each path equal, as a path, to the last
/// one kept before it is dropped.
pub fn dedup_paths(v: &Vec<String>) -> (r: Vec<String>)
    ensures
        strs(r@) == dedup_same(strs(v@)),
{
    let ghost vs = strs(v@);
    let mut r: Vec<String> = Vec::new();
    let mut i: usize = 0;
    assert(vs.take(0) =~= Seq::<Seq<char>>::empty());
    assert(strs(r@) =~= Seq::<Seq<char>>::empty());
    while i < v.len()
        invariant
            i <= v@.len(),
            vs == strs(v@),
            strs(r@) == dedup_same(vs.take(i as int)),
        decreases v@.len() - i,
    {
        proof {
            assert(vs.take(i + 1).drop_last() =~= vs.take(i as int));
            assert(vs.take(i + 1).last() == v@[i as int]@);
        }
        let n = r.len();
        let keep = if n == 0 {
            true
        } else {
            assert(strs(r@).last() == r@[n - 1]@);
            !paths_equal(v[i].as_str(), r[n - 1].as_str())
        };
        if keep {
            let ghost before = r@;
            r.push(v[i].clone());
            assert(strs(r@) =~= strs(before).push(v@[i as int]@));
        }
        i = i + 1;
    }
    assert(vs.take(v@.len() as int) =~= vs);
    r
}

/// The usual folders of the engine's binaries.
pub fn platform_binary_dirs_exec(platform: Platform) -> (r: Vec<String>)
    ensures
        strs(r@) == platform_binary_dirs(platform),
{
    let mut r: Vec<String> = Vec::new();
    match platform {
        Platform::Windows => {
            r.push(String::from_str("C:\\Program Files\\ClamAV"));
            r.push(String::from_str("C:\\Program Files (x86)\\ClamAV"));
        },
        Platform::MacOs => {
            r.push(String::from_str("/usr/local/bin"));
            r.push(String::from_str("/opt/homebrew/bin"));
            r.push(String::from_str("/opt/local/bin"));
        },
        Platform::Linux => {
            r.push(String::from_str("/usr/bin"));
            r.push(String::from_str("/usr/local/bin"));
            r.push(String::from_str("/snap/bin"));
        },
    }
    assert(strs(r@) =~= platform_binary_dirs(platform));
    r
}

/// The folders where the engine's signature databases usually are.
pub open spec fn signature_locations_spec(platform: Platform) -> Seq<Seq<char>> {
    match platform {
        Platform::Windows => seq!["C:\\ProgramData\\.clamwin\\db"@, "C:\\Program Files\\ClamAV\\Database"@],
        Platform::MacOs => seq!["/usr/local/var/lib/clamav"@, "/opt/homebrew/var/lib/clamav"@],
        Platform::Linux => seq!["/var/lib/clamav"@, "/usr/local/share/clamav"@],
    }
}

/// The folders where the engine's signature databases usually are.
pub fn signature_locations(platform: Platform) -> (r: Vec<String>)
    ensures
        strs(r@) == signature_locations_spec(platform),
{
    let mut r: Vec<String> = Vec::new();
    match platform {
        Platform::Windows => {
            r.push(String::from_str("C:\\ProgramData\\.clamwin\\db"));
            r.push(String::from_str("C:\\Program Files\\ClamAV\\Database"));
        },
        Platform::MacOs => {
            r.push(String::from_str("/usr/local/var/lib/clamav"));
            r.push(String::from_str("/opt/homebrew/var/lib/clamav"));
        },
        Platform::Linux => {
            r.push(String::from_str("/var/lib/clamav"));
            r.push(String::from_str("/usr/local/share/clamav"));
        },
    }
    assert(strs(r@) =~= signature_locations_spec(platform));
    r
}

/// What `char::to_uppercase` gives for `c`, collected into a string.
pub uninterp spec fn uppercase_of(c: char) -> Seq<char>;

/// The upper case of `c`, by `char::to_uppercase`. Its documentation states
/// that ASCII letters `a` to `z` map to `A` to `Z` and that other ASCII
/// characters are kept; that is stated here, and the rest is named.
#[verifier::external_body]
fn char_uppercase(c: char) -> (r: String)
    ensures
        r@ == uppercase_of(c),
        'a' <= c <= 'z' ==> r@ == seq![((c as u32) - 32) as char],
        (c as u32) < 128 && !('a' <= c <= 'z') ==> r@ == seq![c],
{
    c.to_uppercase().collect()
}

/// The name shown for the operating system called `os` by the standard
/// library: `Linux`, `Windows` and `macOS` for those three, otherwise the
/// name with its first character in upper case, or `Inconnu` if it is empty.
pub open spec fn platform_name_spec(os: Seq<char>) -> Seq<char> {
    if os == "linux"@ {
        "Linux"@
    } else if os == "windows"@ {
        "Windows"@
    } else if os == "macos"@ {
        "macOS"@
    } else if os.len() == 0 {
        "Inconnu"@
    } else {
        uppercase_of(os[0]) + os.drop_first()
    }
}

/// The name shown for the operating system `os` (as `std::env::consts::OS` names it).
pub fn platform_name(os: &str) -> (r: String)
    ensures
        r@ == platform_name_spec(os@),
{
    if crate::text::same_text(os, "linux") {
        String::from_str("Linux")
    } else if crate::text::same_text(os, "windows") {
        String::from_str("Windows")
    } else if crate::text::same_text(os, "macos") {
        String::from_str("macOS")
    } else {
        let v = chars_of(os);
        if v.len() == 0 {
            String::from_str("Inconnu")
        } else {
            let mut name = char_uppercase(v[0]);
            let mut rest: Vec<char> = Vec::new();
            let mut k: usize = 1;
            while k < v.len()
                invariant
                    1 <= k <= v@.len(),
                    rest@ =~= v@.subrange(1, k as int),
                decreases v@.len() - k,
            {
                rest.push(v[k]);
                k = k + 1;
            }
            let tail = string_from(rest.as_slice());
            name.append(tail.as_str());
            assert(v@.subrange(1, v@.len() as int) =~= v@.drop_first());
            name
        }
    }
}

} // verus!
