//! Properties of the library that span several functions or hold of every
//! input, proved over the specifications the functions are verified against.
use vstd::prelude::*;
use crate::auto_update::{started, stopped, with_last_update, AutoUpdate};
use crate::engine::{candidate_paths, engine_choice, first_yes, first_yes_from, ScanEngineKind};
use crate::clamav::signatures_found_given;
use crate::models::{QuarantineEntry, ScanMode};
use crate::paths::{
    has_same_path, push_opt, same_path, unique_kept, user_downloads, user_quick_candidates,
    watched_all, watched_from, UserFolders,
};
use crate::quarantine::{first_with_id, safe_name_char, sanitized};
use crate::realtime::{change_action, fresh_entries, has_path, scan_action, ChangeKind, WorkerAction};
use crate::scan_output::{
    lemma_last_occurrence, scan_line_spec, scan_status_spec, summarize,
    threat_line_spec, unreadable_threat_line, };
use crate::scan_run::{line_taken, progress_shown, progress_spec, LineOutcome, ScanRun};
use crate::text::{
    all_digits, decimal_value, digit_char, ends_with, first_word, has_sub, is_digit, is_ws,
    lemma_leading_word_at, lemma_trim_start_at, occurs_at, trim, unsigned_digits, unsigned_text,
};
use crate::clamav::{dashboard_shows, total_infected};
use crate::engine::ToolPaths;
use crate::models::{AppConfig, DashboardStats, ScanReport};
use crate::scan_output::{access_denied_spec, scanned_path_spec, summary_value_spec};
use crate::models::ScanProgressEvent;

verus! {

// ---------------------------------------------------------------------------
// The automatic update.

/// Starting the automatic update twice starts one worker: the second start
/// changes nothing.
pub proof fn start_is_idempotent(s: AutoUpdate)
    ensures
        started(started(s)) == started(s),
        started(s).running,
{
}

/// Once stopped, the automatic update does not run, and a worker started
/// afterwards stops after its first update.
pub proof fn stop_ends_the_worker(s: AutoUpdate)
    ensures
        !stopped(s).running,
        !stopped(started(s)).running,
        started(stopped(s)).stop_requested,
{
}

/// The time of the last update is the time recorded last, whatever the
/// worker does meanwhile.
pub proof fn last_update_is_last_recorded(s: AutoUpdate, t1: i64, t2: i64)
    ensures
        with_last_update(with_last_update(s, t1), t2).last_update == Some(t2),
        started(with_last_update(s, t1)).last_update == Some(t1),
        stopped(with_last_update(s, t1)).last_update == Some(t1),
{
}

// ---------------------------------------------------------------------------
// The choice of the engine.

/// A full scan uses `clamscan` whenever it is there, even when the daemon is
/// wanted; another scan uses `clamdscan` when the daemon is wanted and it is
/// there.
pub proof fn full_scans_use_clamscan(
    clamscan: Option<String>,
    clamdscan: Option<String>,
    use_clamd: bool,
    mode: ScanMode,
)
    ensures
        mode == ScanMode::Full && clamscan is Some ==> engine_choice(
            clamscan,
            clamdscan,
            use_clamd,
            mode,
        ) == Some((clamscan->0, ScanEngineKind::Clamscan)),
        mode != ScanMode::Full && use_clamd && clamdscan is Some ==> engine_choice(
            clamscan,
            clamdscan,
            use_clamd,
            mode,
        ) == Some((clamdscan->0, ScanEngineKind::Clamdscan)),
        engine_choice(clamscan, clamdscan, use_clamd, mode) is None <==> (clamscan is None
            && clamdscan is None),
{
}

/// The daemon is used only when it is asked for and the scan is not a full
/// one, or when `clamscan` is missing; when it is not asked for, `clamscan`
/// is used whenever it is there; and the program chosen is the one found for
/// its kind.
pub proof fn daemon_only_when_asked(
    clamscan: Option<String>,
    clamdscan: Option<String>,
    use_clamd: bool,
    mode: ScanMode,
)
    ensures
        !use_clamd && clamscan is Some ==> engine_choice(clamscan, clamdscan, use_clamd, mode)
            == Some((clamscan->0, ScanEngineKind::Clamscan)),
        engine_choice(clamscan, clamdscan, use_clamd, mode) matches Some((p, k)) ==> (k
            == ScanEngineKind::Clamdscan ==> ((use_clamd && mode != ScanMode::Full) || clamscan is None)
            && clamdscan == Some(p)) && (k == ScanEngineKind::Clamscan ==> clamscan == Some(p)),
{
}

// ---------------------------------------------------------------------------
// Looking for the programs and the signatures.

proof fn lemma_candidates_concat(a: Seq<Seq<char>>, b: Seq<Seq<char>>, exes: Seq<Seq<char>>)
    ensures
        candidate_paths(a + b, exes) == candidate_paths(a, exes) + candidate_paths(b, exes),
    decreases b.len(),
{
    if b.len() == 0 {
        assert(a + b =~= a);
        assert(candidate_paths(b, exes) =~= Seq::<Seq<char>>::empty());
        assert(candidate_paths(a, exes) + candidate_paths(b, exes) =~= candidate_paths(a, exes));
    } else {
        lemma_candidates_concat(a, b.drop_last(), exes);
        assert((a + b).drop_last() =~= a + b.drop_last());
        assert((a + b).last() == b.last());
        let m = exes.map_values(|e: Seq<char>| crate::paths::joined_path(b.last(), e));
        assert(candidate_paths(a + b, exes) == candidate_paths(a + b.drop_last(), exes) + m);
        assert(candidate_paths(b, exes) == candidate_paths(b.drop_last(), exes) + m);
        assert(candidate_paths(a, exes) + candidate_paths(b.drop_last(), exes) + m =~= candidate_paths(
            a,
            exes,
        ) + (candidate_paths(b.drop_last(), exes) + m));
    }
}

proof fn lemma_first_yes_prefix(c1: Seq<Seq<char>>, c2: Seq<Seq<char>>, answers: Seq<bool>, i: int, k: int)
    requires
        0 <= i <= k < c1.len(),
        k < answers.len(),
        answers[k],
    ensures
        first_yes_from(c1 + c2, answers, i) == first_yes_from(c1, answers, i),
        first_yes_from(c1, answers, i) is Some,
        c1.contains(first_yes_from(c1, answers, i)->0),
    decreases c1.len() - i,
{
    let c = c1 + c2;
    assert(c[i] == c1[i]);
    if !(i < answers.len() && answers[i]) {
        lemma_first_yes_prefix(c1, c2, answers, i + 1, k);
    }
}

/// Programs are looked for in the search folders first: when a program's
/// file name in one of the search folders exists (for the answers of the
/// file system, one per candidate), the result is the first such candidate,
/// found in a search folder, whatever the other folders hold.
pub proof fn search_folders_come_first(
    search: Seq<Seq<char>>,
    common: Seq<Seq<char>>,
    exes: Seq<Seq<char>>,
    answers: Seq<bool>,
    k: int,
)
    requires
        0 <= k < candidate_paths(search, exes).len(),
        k < answers.len(),
        answers[k],
    ensures
        first_yes(candidate_paths(search + common, exes), answers) == first_yes(
            candidate_paths(search, exes),
            answers,
        ),
        first_yes(candidate_paths(search, exes), answers) is Some,
        candidate_paths(search, exes).contains(
            first_yes(candidate_paths(search, exes), answers)->0,
        ),
{
    lemma_candidates_concat(search, common, exes);
    lemma_first_yes_prefix(candidate_paths(search, exes), candidate_paths(common, exes), answers, 0, k);
}

/// Signatures are found when any usual folder holds them, or the database
/// folder in use does; not otherwise.
pub proof fn signatures_found_in_any_place(locations: Seq<bool>, database: Option<bool>, k: int)
    ensures
        0 <= k < locations.len() && locations[k] ==> signatures_found_given(locations, database),
        database == Some(true) ==> signatures_found_given(locations, database),
        signatures_found_given(locations, database) ==> database == Some(true) || exists|j: int|
            0 <= j < locations.len() && #[trigger] locations[j],
{
    if 0 <= k < locations.len() && locations[k] {
        assert(locations.contains(true));
    }
}

// ---------------------------------------------------------------------------
// Threat lines.

/// Only a line ending with ` FOUND` reports a threat, and a threat has a
/// path and a signature that are not empty.
pub proof fn only_found_lines_report_threats(l: Seq<char>)
    ensures
        !ends_with(l, " FOUND"@) ==> threat_line_spec(l) is None,
        threat_line_spec(l) matches Some((p, s)) ==> ends_with(l, " FOUND"@) && has_sub(l, ": "@)
            && p.len() > 0 && s.len() > 0,
{
}

// ---------------------------------------------------------------------------
// The quarantine.

/// Restoring or deleting the entry just added to the quarantine index gives
/// that entry back and leaves the index as it was before.
pub proof fn take_after_record(index: Seq<QuarantineEntry>, entry: QuarantineEntry, p: int)
    requires
        first_with_id(seq![entry] + index, entry.id@, p),
    ensures
        p == 0,
        (seq![entry] + index)[p] == entry,
        (seq![entry] + index).remove(p) == index,
{
    let s = seq![entry] + index;
    assert(s[0] == entry);
    if p > 0 {
        assert(s[0].id@ != entry.id@);
    }
    assert(s.remove(0) =~= index);
}

/// A sanitized file name has the length of the name and only safe
/// characters, and sanitizing it again changes nothing.
pub proof fn sanitize_is_idempotent(name: Seq<char>)
    ensures
        sanitized(name).len() == name.len(),
        forall|i: int| 0 <= i < name.len() ==> safe_name_char(#[trigger] sanitized(name)[i]),
        sanitized(sanitized(name)) == sanitized(name),
{
    assert(sanitized(sanitized(name)) =~= sanitized(name));
}

// ---------------------------------------------------------------------------
// Paths.

/// The paths kept are, as paths, kept once each, all come from the given
/// paths, and every given path that exists is kept or equal, as a path, to
/// one kept.
pub proof fn unique_kept_properties(paths: Seq<Seq<char>>, exists: Seq<bool>)
    requires
        exists.len() == paths.len(),
    ensures
        forall|i: int, j: int|
            0 <= i < j < unique_kept(paths, exists).len() ==> !same_path(
                #[trigger] unique_kept(paths, exists)[i],
                #[trigger] unique_kept(paths, exists)[j],
            ),
        forall|x: Seq<char>| #[trigger] unique_kept(paths, exists).contains(x) ==> paths.contains(x),
        forall|i: int|
            0 <= i < paths.len() && exists[i] ==> unique_kept(paths, exists).contains(
                #[trigger] paths[i],
            ) || has_same_path(unique_kept(paths, exists), paths[i]),
    decreases paths.len(),
{
    if paths.len() > 0 {
        let ps = paths.drop_last();
        let es = exists.drop_last();
        unique_kept_properties(ps, es);
        let kept = unique_kept(ps, es);
        let all = unique_kept(paths, exists);
        let p = paths.last();
        assert forall|i: int, j: int| 0 <= i < j < all.len() implies !same_path(
            #[trigger] all[i],
            #[trigger] all[j],
        ) by {
            if j < kept.len() {
                assert(all[i] == kept[i]);
                assert(all[j] == kept[j]);
            } else {
                assert(all[i] == kept[i]);
                assert(all[j] == p);
            }
        }
        assert forall|x: Seq<char>| #[trigger] all.contains(x) implies paths.contains(x) by {
            if kept.contains(x) {
                assert(ps.contains(x));
                let k = choose|k: int| 0 <= k < ps.len() && ps[k] == x;
                assert(paths[k] == x);
            } else {
                let k = choose|k: int| 0 <= k < all.len() && all[k] == x;
                if k < kept.len() {
                    assert(kept[k] == x);
                }
                assert(x == p);
                assert(paths[paths.len() - 1] == x);
            }
        }
        assert forall|i: int| 0 <= i < paths.len() && exists[i] implies all.contains(
            #[trigger] paths[i],
        ) || has_same_path(all, paths[i]) by {
            if i < paths.len() - 1 {
                assert(ps[i] == paths[i]);
                assert(es[i] == exists[i]);
                if kept.contains(ps[i]) {
                    let k = choose|k: int| 0 <= k < kept.len() && kept[k] == ps[i];
                    assert(all[k] == kept[k]);
                } else {
                    let k = choose|k: int| 0 <= k < kept.len() && same_path(kept[k], ps[i]);
                    assert(all[k] == kept[k]);
                }
            } else {
                if has_same_path(kept, p) {
                    let k = choose|k: int| 0 <= k < kept.len() && same_path(kept[k], p);
                    assert(all[k] == kept[k]);
                } else {
                    assert(all[kept.len() as int] == p);
                }
            }
        }
    }
}

/// Keeping, once more, the paths kept when every one of them still exists
/// changes nothing.
pub proof fn keeping_again_changes_nothing(paths: Seq<Seq<char>>, exists: Seq<bool>)
    requires
        exists.len() == paths.len(),
    ensures
        unique_kept(
            unique_kept(paths, exists),
            Seq::new(unique_kept(paths, exists).len(), |i: int| true),
        ) == unique_kept(paths, exists),
{
    unique_kept_properties(paths, exists);
    lemma_keep_distinct(
        unique_kept(paths, exists),
        Seq::new(unique_kept(paths, exists).len(), |i: int| true),
    );
}

proof fn lemma_keep_distinct(s: Seq<Seq<char>>, fl: Seq<bool>)
    requires
        fl.len() == s.len(),
        forall|i: int| 0 <= i < fl.len() ==> #[trigger] fl[i],
        forall|i: int, j: int| 0 <= i < j < s.len() ==> !same_path(#[trigger] s[i], #[trigger] s[j]),
    ensures
        unique_kept(s, fl) == s,
    decreases s.len(),
{
    if s.len() > 0 {
        let t = s.drop_last();
        assert forall|i: int, j: int| 0 <= i < j < t.len() implies !same_path(
            #[trigger] t[i],
            #[trigger] t[j],
        ) by {
            assert(t[i] == s[i]);
            assert(t[j] == s[j]);
        }
        assert forall|i: int| 0 <= i < fl.drop_last().len() implies #[trigger] fl.drop_last()[i] by {
            assert(fl.drop_last()[i] == fl[i]);
        }
        lemma_keep_distinct(t, fl.drop_last());
        assert(fl[s.len() - 1]);
        if has_same_path(t, s.last()) {
            let k = choose|k: int| 0 <= k < t.len() && same_path(t[k], s.last());
            assert(s[k] == t[k]);
            assert(!same_path(s[k], s[s.len() - 1]));
        }
        assert(t.push(s.last()) =~= s);
    }
}

/// What is kept of the first `m` paths is the start of what is kept of all.
proof fn lemma_kept_prefix(s: Seq<Seq<char>>, fl: Seq<bool>, m: int)
    requires
        fl.len() == s.len(),
        0 <= m <= s.len(),
    ensures
        unique_kept(s.take(m), fl.take(m)).len() <= unique_kept(s, fl).len(),
        forall|i: int|
            0 <= i < unique_kept(s.take(m), fl.take(m)).len() ==> #[trigger] unique_kept(
                s.take(m),
                fl.take(m),
            )[i] == unique_kept(s, fl)[i],
    decreases s.len(),
{
    if m == s.len() {
        assert(s.take(m) =~= s);
        assert(fl.take(m) =~= fl);
    } else {
        let t = s.drop_last();
        let ft = fl.drop_last();
        lemma_kept_prefix(t, ft, m);
        assert(t.take(m) =~= s.take(m));
        assert(ft.take(m) =~= fl.take(m));
        let kt = unique_kept(t, ft);
        let k = unique_kept(s, fl);
        assert forall|i: int| 0 <= i < kt.len() implies #[trigger] kt[i] == k[i] by {}
    }
}

/// For the same answers, a quick scan's targets begin with the default
/// quick-scan folders: when the folders kept `q` still exist, keeping the
/// paths of `q` followed by `w` keeps `q` first, in order.
pub proof fn quick_targets_begin_with_default_quick(
    candidates: Seq<Seq<char>>,
    f1: Seq<bool>,
    w: Seq<Seq<char>>,
    flags: Seq<bool>,
)
    requires
        f1.len() == candidates.len(),
        flags.len() == unique_kept(candidates, f1).len() + w.len(),
        forall|i: int| 0 <= i < unique_kept(candidates, f1).len() ==> #[trigger] flags[i],
    ensures
        ({
            let q = unique_kept(candidates, f1);
            &&& q.len() <= unique_kept(q + w, flags).len()
            &&& forall|i: int| 0 <= i < q.len() ==> #[trigger] unique_kept(q + w, flags)[i] == q[i]
        }),
{
    let q = unique_kept(candidates, f1);
    let s = q + w;
    unique_kept_properties(candidates, f1);
    assert(s.take(q.len() as int) =~= q);
    assert forall|i: int| 0 <= i < flags.take(q.len() as int).len() implies #[trigger] flags.take(
        q.len() as int,
    )[i] by {
        assert(flags.take(q.len() as int)[i] == flags[i]);
    }
    lemma_keep_distinct(q, flags.take(q.len() as int));
    lemma_kept_prefix(s, flags, q.len() as int);
    assert forall|i: int| 0 <= i < q.len() implies #[trigger] unique_kept(q + w, flags)[i] == q[i] by {
        assert(unique_kept(s.take(q.len() as int), flags.take(q.len() as int))[i] == q[i]);
    }
}

/// For the same answers, the default watched folders are the default
/// quick-scan folders: the downloads folder, when it is known, is already a
/// quick-scan candidate, and it exists or not as it did for the quick-scan
/// folders.
pub proof fn default_watch_is_default_quick(f: UserFolders, found: bool, f1: Seq<bool>, f2: Seq<bool>)
    requires
        f1.len() == user_quick_candidates(f, found).len(),
        f2.len() == push_opt(
            unique_kept(user_quick_candidates(f, found), f1),
            user_downloads(f, found),
        ).len(),
        forall|i: int|
            0 <= i < unique_kept(user_quick_candidates(f, found), f1).len() ==> #[trigger] f2[i],
        user_downloads(f, found) is Some ==> f2.last() == f1.last(),
        user_downloads(f, found) matches Some(d) ==> same_path(d, d),
    ensures
        unique_kept(
            push_opt(unique_kept(user_quick_candidates(f, found), f1), user_downloads(f, found)),
            f2,
        ) == unique_kept(user_quick_candidates(f, found), f1),
{
    let c = user_quick_candidates(f, found);
    let q = unique_kept(c, f1);
    unique_kept_properties(c, f1);
    match user_downloads(f, found) {
        None => {
            lemma_keep_distinct(q, f2);
        },
        Some(d) => {
            let s = q.push(d);
            assert(s.drop_last() =~= q);
            assert forall|i: int| 0 <= i < f2.drop_last().len() implies #[trigger] f2.drop_last()[i] by {
                assert(f2.drop_last()[i] == f2[i]);
            }
            lemma_keep_distinct(q, f2.drop_last());
            assert(c.last() == d);
            if f2.last() {
                assert(f1[c.len() - 1]);
                assert(c[c.len() - 1] == d);
                if q.contains(d) {
                    let k = choose|k: int| 0 <= k < q.len() && q[k] == d;
                    assert(same_path(q[k], d));
                }
                assert(has_same_path(q, d));
            }
        },
    }
}

/// For the same answers, the watched folders without the downloads folder
/// are the settings' folders that exist, each once; with it, the downloads
/// folder, when it exists, is watched (as itself or an equal path).
pub proof fn watched_folders_from_settings(
    raw: Seq<Seq<char>>,
    auto_scan_downloads: bool,
    f1: Seq<bool>,
    downloads: Option<Seq<char>>,
    f2: Seq<bool>,
)
    requires
        f1.len() == raw.len(),
        f2.len() == watched_all(raw, auto_scan_downloads, f1, downloads).len(),
        forall|i: int| 0 <= i < unique_kept(raw, f1).len() ==> #[trigger] f2[i],
    ensures
        !auto_scan_downloads ==> watched_from(raw, auto_scan_downloads, f1, downloads, f2)
            == unique_kept(raw, f1),
        auto_scan_downloads && downloads is Some && f2.last() ==> ({
            let d = downloads->0;
            let w = watched_from(raw, auto_scan_downloads, f1, downloads, f2);
            w.contains(d) || has_same_path(w, d)
        }),
{
    let given = unique_kept(raw, f1);
    unique_kept_properties(raw, f1);
    if !auto_scan_downloads {
        lemma_keep_distinct(given, f2);
    } else if downloads is Some && f2.last() {
        let all = watched_all(raw, auto_scan_downloads, f1, downloads);
        unique_kept_properties(all, f2);
        assert(all[all.len() - 1] == downloads->0);
    }
}

// ---------------------------------------------------------------------------
// Reading the engine's output.

/// The line the engine prints for a threat.
pub open spec fn threat_line_text(path: Seq<char>, signature: Seq<char>) -> Seq<char> {
    path + ": "@ + signature + " FOUND"@
}

proof fn lemma_threat_line_shape(path: Seq<char>, signature: Seq<char>)
    requires
        path.len() > 0,
        signature.len() > 0,
        !has_sub(signature, ": "@),
        signature.last() != ':',
    ensures
        ({
            let line = threat_line_text(path, signature);
            let pl = path.len() as int;
            let n = line.len() as int;
            &&& n == pl + 2 + signature.len() + 6
            &&& " FOUND"@.len() == 6
            &&& ends_with(line, " FOUND"@)
            &&& occurs_at(line, ": "@, pl)
            &&& forall|k: int| pl < k ==> !occurs_at(line, ": "@, k)
            &&& line.subrange(0, pl) == path
            &&& line.subrange(pl + 2, n - 6) == signature
            &&& !ends_with(line, ": FOUND"@)
        }),
{
    reveal_strlit(": ");
    reveal_strlit(" FOUND");
    reveal_strlit(": FOUND");
    let c = ": "@;
    let f = " FOUND"@;
    let line = threat_line_text(path, signature);
    let pl = path.len() as int;
    let sl = signature.len() as int;
    let n = line.len() as int;
    assert(line.subrange(n - 6, n) =~= f);
    assert(line.subrange(pl, pl + 2) =~= c);
    assert forall|k: int| pl < k implies !occurs_at(line, c, k) by {
        if occurs_at(line, c, k) {
            assert(line.subrange(k, k + 2)[0] == line[k]);
            assert(line.subrange(k, k + 2)[1] == line[k + 1]);
            if k == pl + 1 {
                assert(line[k] == c[1]);
            } else if k + 1 < pl + 2 + sl {
                let j = k - pl - 2;
                assert(line[k] == signature[j]);
                assert(line[k + 1] == signature[j + 1]);
                assert(signature.subrange(j, j + 2) =~= c);
                assert(occurs_at(signature, c, j));
            } else if k == pl + 2 + sl - 1 {
                assert(line[k] == signature[sl - 1]);
            } else {
                assert(line[k] == f[k - pl - 2 - sl]);
            }
        }
    }
    assert(line.subrange(0, pl) =~= path);
    assert(line.subrange(pl + 2, n - 6) =~= signature);
    assert(line[n - 7] == signature[sl - 1]);
    if ends_with(line, ": FOUND"@) {
        assert(line.subrange(n - 7, n)[0] == line[n - 7]);
    }
}

/// The line the engine prints for a threat, `<path>: <signature> FOUND`,
/// is read back as that path and signature, and counts as a scanned file,
/// whenever the path and the signature are trimmed and not empty and the
/// signature holds no `": "` and does not end with `:`.
pub proof fn threat_line_round_trip(path: Seq<char>, signature: Seq<char>)
    requires
        path.len() > 0,
        trim(path) == path,
        signature.len() > 0,
        trim(signature) == signature,
        !has_sub(signature, ": "@),
        signature.last() != ':',
    ensures
        threat_line_spec(threat_line_text(path, signature)) == Some((path, signature)),
        !unreadable_threat_line(threat_line_text(path, signature)),
        scan_line_spec(threat_line_text(path, signature)),
{
    lemma_threat_line_shape(path, signature);
    let line = threat_line_text(path, signature);
    let pl = path.len() as int;
    lemma_last_occurrence(line, ": "@, pl);
}

/// The status of a scan is `clean` exactly when the engine exited with 0.
pub proof fn clean_iff_exit_zero(exit_code: Option<i32>, threats: usize)
    ensures
        scan_status_spec(exit_code, threats) == "clean"@ <==> exit_code == Some(0i32),
{
    reveal_strlit("clean");
    reveal_strlit("infected");
    reveal_strlit("error");
    reveal_strlit("unknown");
    reveal_strlit("completed_");
    if exit_code != Some(0i32) && scan_status_spec(exit_code, threats) == "clean"@ {
        match exit_code {
            Some(c) => {
                if c == 1 && threats > 0 {
                    assert("infected"@[0] != "clean"@[0]);
                } else if c == 2 {
                    assert("error"@[0] != "clean"@[0]);
                } else {
                    let s = scan_status_spec(exit_code, threats);
                    assert(s[1] == "completed_"@[1]);
                    assert(s[1] == "clean"@[1]);
                }
            },
            None => {
                assert("unknown"@[0] != "clean"@[0]);
            },
        }
    }
}

/// The progress shown never goes past its total.
pub proof fn progress_within_total(system_wide: bool, count: usize, total: usize)
    ensures
        progress_spec(system_wide, count, total).0 <= progress_spec(system_wide, count, total).1,
{
}

/// While a scan runs, the progress shown never goes back: the progress
/// after a line is at least the progress shown before it, and never past
/// its total (which stays the same, but for a full scan).
pub proof fn progress_never_goes_back(
    before: ScanRun,
    shown: ScanProgressEvent,
    previous_line: Seq<char>,
    after: ScanRun,
    line: Seq<char>,
    o: LineOutcome,
)
    requires
        progress_shown(before, previous_line, shown),
        line_taken(before, after, line, o),
    ensures
        shown.current <= o.progress.current,
        o.progress.current <= o.progress.total,
        !before.system_wide ==> o.progress.total == shown.total,
{
}

// ---------------------------------------------------------------------------
// The engine's summary.

/// The value the first line of `lines` giving one for `label` gives.
pub open spec fn first_value(lines: Seq<Seq<char>>, label: Seq<char>) -> Option<usize>
    decreases lines.len(),
{
    if lines.len() == 0 {
        None
    } else {
        match summary_value_spec(lines[0], label) {
            Some(v) => Some(v),
            None => first_value(lines.drop_first(), label),
        }
    }
}

proof fn lemma_first_value_last(lines: Seq<Seq<char>>, label: Seq<char>)
    requires
        lines.len() > 0,
    ensures
        first_value(lines, label) == match first_value(lines.drop_last(), label) {
            Some(v) => Some(v),
            None => summary_value_spec(lines.last(), label),
        },
    decreases lines.len(),
{
    if lines.len() > 1 {
        let a = lines.drop_first();
        let b = lines.drop_last();
        lemma_first_value_last(a, label);
        assert(a.drop_last() =~= b.drop_first());
        assert(b[0] == lines[0]);
        assert(a.last() == lines.last());
        assert(first_value(b, label) == match summary_value_spec(b[0], label) {
            Some(v) => Some(v),
            None => first_value(b.drop_first(), label),
        });
        assert(first_value(lines, label) == match summary_value_spec(lines[0], label) {
            Some(v) => Some(v),
            None => first_value(a, label),
        });
    } else {
        assert(lines.drop_last().len() == 0);
        assert(lines.drop_first().len() == 0);
        assert(lines.last() == lines[0]);
        assert(first_value(lines.drop_first(), label) == None::<usize>);
    }
}

/// The counts of files scanned and infected are those of the first line
/// that gives each.
pub proof fn first_count_wins(lines: Seq<Seq<char>>)
    ensures
        summarize(lines).scanned_files == first_value(lines, "Scanned files:"@),
        summarize(lines).infected_files == first_value(lines, "Infected files:"@),
    decreases lines.len(),
{
    if lines.len() > 0 {
        first_count_wins(lines.drop_last());
        lemma_first_value_last(lines, "Scanned files:"@);
        lemma_first_value_last(lines, "Infected files:"@);
    }
}

/// The path a line reports the engine could not read, if it reports one.
pub open spec fn denied_path(line: Seq<char>) -> Option<Seq<char>> {
    if access_denied_spec(line) {
        Some(
            match scanned_path_spec(line) {
                Some(p) => p,
                None => line,
            },
        )
    } else {
        None
    }
}

/// The paths listed as unreadable are exactly those the lines report, each
/// once.
pub proof fn denied_paths_are_those_reported(lines: Seq<Seq<char>>)
    ensures
        summarize(lines).access_denied_paths.no_duplicates(),
        forall|p: Seq<char>|
            #[trigger] summarize(lines).access_denied_paths.contains(p) <==> exists|k: int|
                0 <= k < lines.len() && denied_path(#[trigger] lines[k]) == Some(p),
    decreases lines.len(),
{
    access_denied_listed_once(lines);
    if lines.len() > 0 {
        let t = lines.drop_last();
        denied_paths_are_those_reported(t);
        let before = summarize(t).access_denied_paths;
        let after = summarize(lines).access_denied_paths;
        assert forall|p: Seq<char>| #[trigger] after.contains(p) <==> exists|k: int|
            0 <= k < lines.len() && denied_path(#[trigger] lines[k]) == Some(p) by {
            if after.contains(p) {
                if before.contains(p) {
                    let k = choose|k: int| 0 <= k < t.len() && denied_path(#[trigger] t[k]) == Some(p);
                    assert(lines[k] == t[k]);
                } else {
                    let i = choose|i: int| 0 <= i < after.len() && after[i] == p;
                    if i < before.len() {
                        assert(before[i] == after[i]);
                    }
                    assert(denied_path(lines[lines.len() - 1]) == Some(p));
                }
            }
            if exists|k: int| 0 <= k < lines.len() && denied_path(#[trigger] lines[k]) == Some(p) {
                let k = choose|k: int| 0 <= k < lines.len() && denied_path(#[trigger] lines[k]) == Some(p);
                if k < t.len() {
                    assert(t[k] == lines[k]);
                    assert(before.contains(p));
                    let i = choose|i: int| 0 <= i < before.len() && before[i] == p;
                    assert(after[i] == before[i]);
                } else {
                    if !before.contains(p) {
                        assert(after[before.len() as int] == p);
                    } else {
                        let i = choose|i: int| 0 <= i < before.len() && before[i] == p;
                        assert(after[i] == before[i]);
                    }
                }
            }
        }
    }
}

/// Some line before position `k` reports `p` as unreadable.
pub open spec fn reported_before(lines: Seq<Seq<char>>, p: Seq<char>, k: int) -> bool {
    exists|m: int| 0 <= m < k && denied_path(#[trigger] lines[m]) == Some(p)
}

/// The paths listed as unreadable come in the order the lines first report
/// them: every report of a later path comes after a report of an earlier one.
pub proof fn denied_paths_in_order_of_first_report(lines: Seq<Seq<char>>)
    ensures
        forall|i: int, j: int, k: int|
            #![trigger denied_path(lines[k]), summarize(lines).access_denied_paths[i], summarize(lines).access_denied_paths[j]]
            0 <= i < j < summarize(lines).access_denied_paths.len() && 0 <= k < lines.len()
                && denied_path(lines[k]) == Some(summarize(lines).access_denied_paths[j])
                ==> reported_before(lines, summarize(lines).access_denied_paths[i], k),
    decreases lines.len(),
{
    if lines.len() > 0 {
        let t = lines.drop_last();
        denied_paths_in_order_of_first_report(t);
        denied_paths_are_those_reported(t);
        let before = summarize(t).access_denied_paths;
        let after = summarize(lines).access_denied_paths;
        let n = lines.len() - 1;
        assert forall|i: int, j: int, k: int|
            #![trigger denied_path(lines[k]), after[i], after[j]]
            0 <= i < j < after.len() && 0 <= k < lines.len() && denied_path(lines[k]) == Some(after[j])
            implies reported_before(lines, after[i], k) by {
            assert(after[i] == before[i]);
            assert(before.contains(before[i]));
            let pi = before[i];
            if j < before.len() && k < n {
                assert(after[j] == before[j]);
                assert(t[k] == lines[k]);
                assert(denied_path(t[k]) == Some(before[j]));
                assert(reported_before(t, before[i], k));
                let m = choose|m: int| 0 <= m < k && denied_path(#[trigger] t[m]) == Some(pi);
                assert(lines[m] == t[m]);
                assert(denied_path(lines[m]) == Some(pi));
            } else {
                if j >= before.len() {
                    let p = after[j];
                    assert(after.len() > before.len());
                    assert(!before.contains(p));
                    if k < n {
                        assert(t[k] == lines[k]);
                        assert(denied_path(t[k]) == Some(p));
                        assert(before.contains(p));
                    }
                }
                assert(k >= n);
                let m = choose|m: int| 0 <= m < t.len() && denied_path(#[trigger] t[m]) == Some(pi);
                assert(lines[m] == t[m]);
                assert(denied_path(lines[m]) == Some(pi));
            }
        }
    }
}

/// The line reports an error.
pub open spec fn is_error_line(line: Seq<char>) -> bool {
    ends_with(line, " ERROR"@) || has_sub(line, "ERROR:"@)
}

/// The number of lines of `lines` that report an error.
pub open spec fn error_lines(lines: Seq<Seq<char>>) -> nat
    decreases lines.len(),
{
    if lines.len() == 0 {
        0
    } else {
        error_lines(lines.drop_last()) + if is_error_line(lines.last()) {
            1nat
        } else {
            0nat
        }
    }
}

/// The largest `Total errors:` count of `lines`, 0 if there is none.
pub open spec fn largest_total(lines: Seq<Seq<char>>) -> nat
    decreases lines.len(),
{
    if lines.len() == 0 {
        0
    } else {
        let rest = largest_total(lines.drop_last());
        match summary_value_spec(lines.last(), "Total errors:"@) {
            Some(t) => if t > rest {
                t as nat
            } else {
                rest
            },
            None => rest,
        }
    }
}

/// The error count is at least the number of lines reporting an error and
/// at least the largest `Total errors:` count, and at most their sum.
pub proof fn error_count_bounds(lines: Seq<Seq<char>>)
    ensures
        error_lines(lines) <= summarize(lines).error_count,
        largest_total(lines) <= summarize(lines).error_count,
        summarize(lines).error_count <= error_lines(lines) + largest_total(lines),
    decreases lines.len(),
{
    if lines.len() > 0 {
        error_count_bounds(lines.drop_last());
    }
}

// ---------------------------------------------------------------------------
// The real-time worker.

/// A change is scanned exactly when it creates or modifies a regular file
/// not seen in the last five seconds; a scan leads to a report exactly when
/// it found threats, and then the files are quarantined exactly when
/// automatic quarantine is set; any other change or scan, and a failed scan,
/// records nothing and announces nothing.
pub proof fn worker_records_only_threats(
    kind: ChangeKind,
    is_file: bool,
    seen: Seq<(Seq<char>, u64)>,
    path: Seq<char>,
    now: u64,
    outcome: Result<usize, Seq<char>>,
    auto_quarantine: bool,
)
    ensures
        change_action(kind, is_file, seen, path, now) == WorkerAction::Scan <==> ((kind
            == ChangeKind::Create || kind == ChangeKind::Modify) && is_file && !has_path(
            fresh_entries(seen, now),
            path,
        )),
        change_action(kind, is_file, seen, path, now) == WorkerAction::Scan || change_action(
            kind,
            is_file,
            seen,
            path,
            now,
        ) == WorkerAction::Ignore,
        scan_action(outcome, auto_quarantine) is Record <==> (outcome matches Ok(n) && n > 0),
        scan_action(outcome, auto_quarantine) is Record ==> scan_action(
            outcome,
            auto_quarantine,
        )->quarantine == auto_quarantine,
        outcome is Err ==> scan_action(outcome, auto_quarantine) == WorkerAction::Ignore
            || scan_action(outcome, auto_quarantine) == WorkerAction::Log,
{
}

/// The paths that could not be read are listed once each.
pub proof fn access_denied_listed_once(lines: Seq<Seq<char>>)
    ensures
        summarize(lines).access_denied_paths.no_duplicates(),
    decreases lines.len(),
{
    if lines.len() > 0 {
        access_denied_listed_once(lines.drop_last());
    }
}

/// An error count from the summary is never lowered by the lines read after it.
pub proof fn error_count_never_drops(lines: Seq<Seq<char>>, more: Seq<char>)
    ensures
        summarize(lines.push(more)).error_count >= summarize(lines).error_count,
{
    assert(lines.push(more).drop_last() =~= lines);
}

// ---------------------------------------------------------------------------
// Real-time protection.

/// A file changed again less than five seconds after it was scanned is not
/// scanned again (every path is equal to itself as a path).
pub proof fn recent_change_is_skipped(
    entries: Seq<(Seq<char>, u64)>,
    path: Seq<char>,
    t1: u64,
    t2: u64,
)
    requires
        t1 <= t2,
        t2 - t1 < 5_000_000_000,
        same_path(path, path),
    ensures
        has_path(fresh_entries(fresh_entries(entries, t1).push((path, t1)), t2), path),
{
    let s = fresh_entries(entries, t1).push((path, t1));
    assert(s.drop_last() =~= fresh_entries(entries, t1));
    let r = fresh_entries(s, t2);
    assert(r == fresh_entries(s.drop_last(), t2).push((path, t1)));
    assert(r[r.len() - 1].0 == path);
}

// ---------------------------------------------------------------------------
// The history and the dashboard.

/// The infected files of a history with one more report at its head are
/// that report's plus those of the rest.
pub proof fn lemma_total_infected_prepend(report: ScanReport, logs: Seq<ScanReport>)
    ensures
        total_infected(seq![report] + logs) == report.infected_files + total_infected(logs),
    decreases logs.len(),
{
    let s = seq![report] + logs;
    if logs.len() == 0 {
        assert(s =~= seq![report]);
        assert(s.drop_last() =~= Seq::<ScanReport>::empty());
        assert(s.last() == report);
        assert(total_infected(Seq::<ScanReport>::empty()) == 0);
        assert(total_infected(s) == total_infected(s.drop_last()) + s.last().infected_files);
    } else {
        lemma_total_infected_prepend(report, logs.drop_last());
        assert(s.drop_last() =~= seq![report] + logs.drop_last());
        assert(s.last() == logs.last());
        assert(total_infected(s) == total_infected(s.drop_last()) + s.last().infected_files);
        assert(total_infected(logs) == total_infected(logs.drop_last()) + logs.last().infected_files);
    }
}

/// Once a report is added to the history, the dashboard counts one more
/// scan and that report's infected files, and shows it as the last scan.
pub proof fn added_report_is_last_scan(
    r: DashboardStats,
    report: ScanReport,
    logs: Seq<ScanReport>,
    quarantined_items: usize,
    realtime_enabled: bool,
    config: AppConfig,
    tools: ToolPaths,
    os: Seq<char>,
)
    requires
        dashboard_shows(
            r,
            seq![report] + logs,
            quarantined_items,
            realtime_enabled,
            config,
            tools,
            os,
        ),
    ensures
        r.total_scans == logs.len() + 1,
        r.total_threats == report.infected_files + total_infected(logs),
        r.last_scan matches Some(s) && s.same_as(&report),
{
    lemma_total_infected_prepend(report, logs);
    assert((seq![report] + logs)[0] == report);
}

// ---------------------------------------------------------------------------
// Summary lines.

proof fn lemma_unsigned_text(n: nat)
    ensures
        unsigned_text(n).len() > 0,
        all_digits(unsigned_text(n)),
        decimal_value(unsigned_text(n)) == n,
    decreases n,
{
    if n < 10 {
        let t = unsigned_text(n);
        assert(t =~= seq![digit_char(n)]);
        assert(t.drop_last() =~= Seq::<char>::empty());
        assert(decimal_value(Seq::<char>::empty()) == 0);
        assert(decimal_value(t) == decimal_value(t.drop_last()) * 10 + (t.last() as int - '0' as int));
    } else {
        lemma_unsigned_text(n / 10);
        let t = unsigned_text(n);
        let h = unsigned_text(n / 10);
        assert(t.drop_last() =~= h);
        assert(t.last() == digit_char(n % 10));
        assert forall|i: int| 0 <= i < t.len() implies is_digit(#[trigger] t[i]) by {
            if i < h.len() {
                assert(t[i] == h[i]);
            }
        }
        assert((n / 10) * 10 + n % 10 == n) by (nonlinear_arith);
    }
}

proof fn lemma_first_word_of_count(digits: Seq<char>)
    requires
        digits.len() > 0,
        all_digits(digits),
    ensures
        first_word(seq![' '] + digits) == Some(digits),
{
    let rest = seq![' '] + digits;
    assert(is_ws(' '));
    assert forall|k: int| 0 <= k < digits.len() implies !is_ws(#[trigger] digits[k]) by {
        assert(is_digit(digits[k]));
    }
    assert forall|k: int| 0 <= k < 1 implies is_ws(#[trigger] rest[k]) by {
        assert(rest[0] == ' ');
    }
    assert(rest[1] == digits[0]);
    lemma_trim_start_at(rest, 1);
    assert(rest.subrange(1, rest.len() as int) =~= digits);
    lemma_leading_word_at(digits, digits.len() as int);
    assert(digits.subrange(0, digits.len() as int) =~= digits);
}

/// A summary line that the engine prints, `<label> <count>`, is read back
/// as that count.
pub proof fn summary_line_round_trip(label: Seq<char>, count: usize)
    ensures
        summary_value_spec(label + " "@ + unsigned_text(count as nat), label) == Some(count),
{
    reveal_strlit(" ");
    let digits = unsigned_text(count as nat);
    lemma_unsigned_text(count as nat);
    let line = label + " "@ + digits;
    assert(line.subrange(0, label.len() as int) =~= label);
    assert(line.skip(label.len() as int) =~= seq![' '] + digits);
    lemma_first_word_of_count(digits);
    if digits.len() > 1 {
        assert(is_digit(digits[0]));
    }
    assert(unsigned_digits(digits) == digits);
}

} // verus!
