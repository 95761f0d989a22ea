//! Reading what `clamscan` and `clamdscan` print.
//!
//! The engines print one line per file (`<path>: OK`, `<path>: <signature> FOUND`,
//! `<path>: <reason> ERROR`, ...) and, at the end, a summary with lines such as
//! `Scanned files: 12`. These functions recognise those lines.
use vstd::prelude::*;
use crate::models::ThreatMatch;
use vstd::string::*;
use crate::text::{
    chars_of, ends_with, ends_with_exec, first_word, first_word_exec, has_sub, contains_exec,
    occurs_at, parse_usize, parse_usize_spec, rfind_exec, starts_with, starts_with_exec,
    string_from, trim, trim_chars, decimal_text, i32_text, lines_of, split_lines,
};

verus! {

/// The last position at which `pat` occurs in `s` (meaningful when it occurs).
pub open spec fn last_occurrence(s: Seq<char>, pat: Seq<char>) -> int {
    choose|i: int| occurs_at(s, pat, i) && forall|k: int| i < k ==> !occurs_at(s, pat, k)
}

pub proof fn lemma_last_occurrence(s: Seq<char>, pat: Seq<char>, i: int)
    requires
        occurs_at(s, pat, i),
        forall|k: int| i < k ==> !occurs_at(s, pat, k),
    ensures
        last_occurrence(s, pat) == i,
{
    let j = last_occurrence(s, pat);
    assert(occurs_at(s, pat, j) && forall|k: int| j < k ==> !occurs_at(s, pat, k));
    if j < i {
        assert(!occurs_at(s, pat, i));
    }
    if i < j {
        assert(!occurs_at(s, pat, j));
    }
}

/// What `parse_threat_line` finds in a line: the path before the last `": "`
/// and the signature between it and the final `" FOUND"`, both trimmed, if the
/// line ends with `" FOUND"`, holds a `": "`, and neither part is empty.
pub open spec fn threat_line_spec(l: Seq<char>) -> Option<(Seq<char>, Seq<char>)> {
    if !ends_with(l, " FOUND"@) || !has_sub(l, ": "@) {
        None
    } else {
        let sep = last_occurrence(l, ": "@);
        let path = trim(l.subrange(0, sep));
        let signature = trim(l.subrange(sep + 2, l.len() - " FOUND"@.len()));
        if path.len() == 0 || signature.len() == 0 {
            None
        } else {
            Some((path, signature))
        }
    }
}

/// The path and signature of a threat, as plain text.
pub open spec fn threat_view(t: ThreatMatch) -> (Seq<char>, Seq<char>) {
    (t.path@, t.signature@)
}

/// The lines from which no signature can be read: those ending in
/// `": FOUND"`, where the `": "` and the `" FOUND"` overlap.
pub open spec fn unreadable_threat_line(l: Seq<char>) -> bool {
    ends_with(l, ": FOUND"@)
}

/// The threat that a line of the engine's output reports, if it reports one.
pub fn parse_threat_line(line: &str) -> (r: Option<ThreatMatch>)
    requires
        !unreadable_threat_line(line@),
    ensures
        r matches Some(t) ==> threat_line_spec(line@) == Some(threat_view(t)),
        r is None ==> threat_line_spec(line@) is None,
        !ends_with(line@, " FOUND"@) ==> r is None,
{
    let v = chars_of(line);
    let found = chars_of(" FOUND");
    if !ends_with_exec(&v, &found) {
        return None;
    }
    let colon = chars_of(": ");
    let sep = match rfind_exec(&v, &colon) {
        Some(i) => i,
        None => {
            return None;
        },
    };
    proof {
        lemma_last_occurrence(v@, colon@, sep as int);
        reveal_strlit(" FOUND");
        reveal_strlit(": ");
        reveal_strlit(": FOUND");
        let n = v@.len() as int;
        let tail = v@.subrange(n - 6, n);
        assert(tail == " FOUND"@);
        assert(v@.subrange(sep as int, sep + 2) == ": "@);
        assert(v@.subrange(sep as int, sep + 2)[0] == v@[sep as int]);
        assert(v@[sep as int] == ':');
        if sep + 2 > n - 6 {
            if sep >= n - 6 {
                assert(tail[sep - (n - 6)] == v@[sep as int]);
                assert(false);
            } else {
                assert(sep == n - 7);
                assert(v@.subrange(n - 7, n) =~= ": FOUND"@) by {
                    assert forall|k: int| 0 <= k < 7 implies v@.subrange(n - 7, n)[k]
                        == ": FOUND"@[k] by {
                        if k < 2 {
                            assert(v@.subrange(sep as int, sep + 2)[k] == v@[sep + k]);
                        } else {
                            assert(tail[k - 1] == v@[n - 7 + k]);
                        }
                    }
                }
                assert(false);
            }
        }
        assert(has_sub(v@, colon@));
        assert(found@.len() == 6);
        assert(sep + 2 <= v@.len() - found@.len());
    }
    let head: Vec<char> = slice_chars(&v, 0, sep);
    let body_end = v.len() - found.len();
    assert(sep + 2 <= body_end);
    let body: Vec<char> = slice_chars(&v, sep + 2, body_end);
    let path = trim_chars(&head);
    let signature = trim_chars(&body);
    if path.len() == 0 || signature.len() == 0 {
        None
    } else {
        Some(
            ThreatMatch {
                path: string_from(path.as_slice()),
                signature: string_from(signature.as_slice()),
            },
        )
    }
}

/// The characters of `v` from position `from` up to `to`.
pub fn slice_chars(v: &Vec<char>, from: usize, to: usize) -> (r: Vec<char>)
    requires
        from <= to <= v@.len(),
    ensures
        r@ == v@.subrange(from as int, to as int),
{
    let mut r: Vec<char> = Vec::new();
    let mut k: usize = from;
    while k < to
        invariant
            from <= k <= to <= v@.len(),
            r@ =~= v@.subrange(from as int, k as int),
        decreases to - k,
    {
        r.push(v[k]);
        k = k + 1;
    }
    r
}

/// The path that a line of the engine's output is about: what stands before
/// its last `": "`, trimmed.
pub open spec fn scanned_path_spec(l: Seq<char>) -> Option<Seq<char>> {
    if has_sub(l, ": "@) {
        Some(trim(l.subrange(0, last_occurrence(l, ": "@))))
    } else {
        None
    }
}

/// The path that a line of the engine's output is about.
pub fn parse_scanned_path(line: &str) -> (r: Option<String>)
    ensures
        r matches Some(p) ==> scanned_path_spec(line@) == Some(p@),
        r is None ==> scanned_path_spec(line@) is None,
{
    let v = chars_of(line);
    let colon = chars_of(": ");
    match rfind_exec(&v, &colon) {
        Some(i) => {
            proof {
                lemma_last_occurrence(v@, colon@, i as int);
            }
            let head = slice_chars(&v, 0, i);
            let t = trim_chars(&head);
            Some(string_from(t.as_slice()))
        },
        None => {
            assert(!has_sub(v@, colon@));
            None
        },
    }
}

/// The endings of the lines that report one scanned file.
pub open spec fn scan_line_spec(l: Seq<char>) -> bool {
    ||| ends_with(l, ": OK"@)
    ||| ends_with(l, " FOUND"@)
    ||| ends_with(l, " ERROR"@)
    ||| ends_with(l, ": Empty file"@)
}

/// Whether a line of the engine's output reports one scanned file.
pub fn is_scan_line(line: &str) -> (r: bool)
    ensures
        r == scan_line_spec(line@),
{
    let v = chars_of(line);
    ends_with_exec(&v, &chars_of(": OK")) || ends_with_exec(&v, &chars_of(" FOUND"))
        || ends_with_exec(&v, &chars_of(" ERROR")) || ends_with_exec(&v, &chars_of(": Empty file"))
}

/// The number after `label` at the start of a summary line such as
/// `Scanned files: 12`.
pub open spec fn summary_value_spec(l: Seq<char>, label: Seq<char>) -> Option<usize> {
    if starts_with(l, label) {
        match first_word(l.skip(label.len() as int)) {
            Some(w) => parse_usize_spec(w),
            None => None,
        }
    } else {
        None
    }
}

/// The number after `label` at the start of a summary line.
pub fn parse_summary_value(line: &str, label: &str) -> (r: Option<usize>)
    ensures
        r == summary_value_spec(line@, label@),
{
    let v = chars_of(line);
    let l = chars_of(label);
    if !starts_with_exec(&v, &l) {
        return None;
    }
    let rest = slice_chars(&v, l.len(), v.len());
    assert(rest@ =~= v@.skip(l@.len() as int));
    match first_word_exec(&rest) {
        Some(w) => parse_usize(&w),
        None => None,
    }
}

/// The lines that say the engine could not read a file.
pub open spec fn access_denied_spec(l: Seq<char>) -> bool {
    ||| has_sub(l, "Access denied"@)
    ||| has_sub(l, "Permission denied"@)
    ||| has_sub(l, "Operation not permitted"@)
    ||| has_sub(l, "Can't access file"@)
}

/// Whether a line says the engine could not read a file.
pub fn is_access_denied_line(line: &str) -> (r: bool)
    ensures
        r == access_denied_spec(line@),
{
    let v = chars_of(line);
    contains_exec(&v, &chars_of("Access denied")) || contains_exec(
        &v,
        &chars_of("Permission denied"),
    ) || contains_exec(&v, &chars_of("Operation not permitted")) || contains_exec(
        &v,
        &chars_of("Can't access file"),
    )
}

/// What an engine printed, its standard output then its error output, on a
/// new line when both hold something.
pub open spec fn combined_output_spec(out: Seq<char>, err: Seq<char>) -> Seq<char> {
    if err.len() == 0 {
        out
    } else if out.len() == 0 {
        err
    } else {
        out + seq!['\n'] + err
    }
}

/// Joins what an engine printed on its two outputs.
pub fn combine_output(stdout: &str, stderr: &str) -> (r: String)
    ensures
        r@ == combined_output_spec(stdout@, stderr@),
{
    let mut payload = String::from_str(stdout);
    if !stderr.is_empty() {
        if !payload.as_str().is_empty() {
            payload.append("\n");
            proof {
                reveal_strlit("\n");
            }
        }
        payload.append(stderr);
    }
    payload
}

/// The threats that the lines `ls` report, in order.
pub open spec fn threats_of_lines(ls: Seq<Seq<char>>) -> Seq<(Seq<char>, Seq<char>)>
    decreases ls.len(),
{
    if ls.len() == 0 {
        Seq::empty()
    } else {
        let rest = threats_of_lines(ls.drop_last());
        match threat_line_spec(ls.last()) {
            Some(t) => rest.push(t),
            None => rest,
        }
    }
}

/// The threats that the lines of `payload` report, in order.
pub open spec fn payload_threats_spec(payload: Seq<char>) -> Seq<(Seq<char>, Seq<char>)> {
    threats_of_lines(lines_of(payload))
}

pub proof fn lemma_threats_step(ls: Seq<Seq<char>>, i: int)
    requires
        0 <= i < ls.len(),
    ensures
        threats_of_lines(ls.take(i + 1)) == match threat_line_spec(ls[i]) {
            Some(t) => threats_of_lines(ls.take(i)).push(t),
            None => threats_of_lines(ls.take(i)),
        },
{
    assert(ls.take(i + 1).drop_last() =~= ls.take(i));
    assert(ls.take(i + 1).last() == ls[i]);
}

/// The views of some threats.
pub open spec fn threat_views(v: Seq<ThreatMatch>) -> Seq<(Seq<char>, Seq<char>)> {
    v.map_values(|x: ThreatMatch| threat_view(x))
}

/// Adds to `found` the threat that `line` reports, if it reports one.
pub fn collect_threat(found: &mut Vec<ThreatMatch>, line: &str)
    requires
        !unreadable_threat_line(line@),
    ensures
        threat_views(final(found)@) == match threat_line_spec(line@) {
            Some(t) => threat_views(old(found)@).push(t),
            None => threat_views(old(found)@),
        },
{
    let ghost before = found@;
    match parse_threat_line(line) {
        Some(t) => {
            found.push(t);
            assert(threat_views(found@) =~= threat_views(before).push(threat_view(t)));
        },
        None => {},
    }
}

/// The threats that an engine's output reports, line by line.
pub fn threats_in_payload(payload: &str) -> (r: Vec<ThreatMatch>)
    requires
        forall|i: int|
            0 <= i < lines_of(payload@).len() ==> !unreadable_threat_line(
                #[trigger] lines_of(payload@)[i],
            ),
    ensures
        threat_views(r@) == payload_threats_spec(payload@),
{
    let v = chars_of(payload);
    let lines = split_lines(&v);
    let ghost ls = lines@.map_values(|w: Vec<char>| w@);
    assert(ls == lines_of(payload@));
    let mut r: Vec<ThreatMatch> = Vec::new();
    let mut i: usize = 0;
    assert(ls.take(0) =~= Seq::<Seq<char>>::empty());
    assert(threat_views(r@) =~= Seq::<(Seq<char>, Seq<char>)>::empty());
    while i < lines.len()
        invariant
            i <= lines@.len(),
            ls == lines@.map_values(|w: Vec<char>| w@),
            forall|k: int| 0 <= k < ls.len() ==> !unreadable_threat_line(#[trigger] ls[k]),
            threat_views(r@) == threats_of_lines(ls.take(i as int)),
        decreases lines@.len() - i,
    {
        let line = string_from(lines[i].as_slice());
        proof {
            assert(ls[i as int] == line@);
            lemma_threats_step(ls, i as int);
        }
        collect_threat(&mut r, line.as_str());
        i = i + 1;
    }
    assert(ls.take(lines@.len() as int) =~= ls);
    r
}

/// The text of each string.
pub open spec fn strs(v: Seq<String>) -> Seq<Seq<char>> {
    v.map_values(|s: String| s@)
}

/// What the summary lines and the error lines of an engine's output say.
pub struct OutputSummary {
    /// The first `Scanned files:` count.
    pub scanned_files: Option<usize>,
    /// The first `Infected files:` count.
    pub infected_files: Option<usize>,
    /// The largest `Total errors:` count, plus one for each line that
    /// reports an error.
    pub error_count: nat,
    /// The paths the engine could not read, each once, in order.
    pub access_denied_paths: Seq<Seq<char>>,
}

/// `acc` updated with one more line of output.
pub open spec fn summary_step(acc: OutputSummary, line: Seq<char>) -> OutputSummary {
    let scanned = if acc.scanned_files is None {
        summary_value_spec(line, "Scanned files:"@)
    } else {
        acc.scanned_files
    };
    let infected = if acc.infected_files is None {
        summary_value_spec(line, "Infected files:"@)
    } else {
        acc.infected_files
    };
    let with_total: nat = match summary_value_spec(line, "Total errors:"@) {
        Some(t) => if t > acc.error_count {
            t as nat
        } else {
            acc.error_count
        },
        None => acc.error_count,
    };
    let errors: nat = if ends_with(line, " ERROR"@) || has_sub(line, "ERROR:"@) {
        with_total + 1
    } else {
        with_total
    };
    let denied = if access_denied_spec(line) {
        let p = match scanned_path_spec(line) {
            Some(p) => p,
            None => line,
        };
        if acc.access_denied_paths.contains(p) {
            acc.access_denied_paths
        } else {
            acc.access_denied_paths.push(p)
        }
    } else {
        acc.access_denied_paths
    };
    OutputSummary {
        scanned_files: scanned,
        infected_files: infected,
        error_count: errors,
        access_denied_paths: denied,
    }
}

/// What the lines `lines` of an engine's output say, read in order.
pub open spec fn summarize(lines: Seq<Seq<char>>) -> OutputSummary
    decreases lines.len(),
{
    if lines.len() == 0 {
        OutputSummary {
            scanned_files: None,
            infected_files: None,
            error_count: 0,
            access_denied_paths: Seq::empty(),
        }
    } else {
        summary_step(summarize(lines.drop_last()), lines.last())
    }
}

pub proof fn lemma_summarize_errors_grow(lines: Seq<Seq<char>>, i: int)
    requires
        0 <= i <= lines.len(),
    ensures
        summarize(lines.take(i)).error_count <= summarize(lines).error_count,
    decreases lines.len() - i,
{
    if i == lines.len() {
        assert(lines.take(i) =~= lines);
    } else {
        assert(lines.take(i + 1).drop_last() =~= lines.take(i));
        lemma_summarize_errors_grow(lines, i + 1);
    }
}

/// The summary of an engine's output, as the client keeps it.
pub struct ParsedScanOutput {
    pub scanned_files: Option<usize>,
    pub infected_files: Option<usize>,
    pub error_count: usize,
    pub access_denied_paths: Vec<String>,
}

impl ParsedScanOutput {
    pub open spec fn matches(&self, s: OutputSummary) -> bool {
        &&& self.scanned_files == s.scanned_files
        &&& self.infected_files == s.infected_files
        &&& self.error_count == s.error_count
        &&& strs(self.access_denied_paths@) == s.access_denied_paths
    }
}

/// Whether `v` holds a string equal to `s`.
pub fn contains_string(v: &Vec<String>, s: &String) -> (r: bool)
    ensures
        r == strs(v@).contains(s@),
{
    let mut i: usize = 0;
    while i < v.len()
        invariant
            i <= v@.len(),
            forall|k: int| 0 <= k < i ==> v@[k]@ != s@,
        decreases v@.len() - i,
    {
        if v[i] == *s {
            assert(strs(v@)[i as int] == s@);
            return true;
        }
        i = i + 1;
    }
    assert forall|k: int| 0 <= k < strs(v@).len() implies strs(v@)[k] != s@ by {
        assert(strs(v@)[k] == v@[k]@);
    }
    false
}

/// What the lines of an engine's output say: the summary counts, the
/// number of errors, and the paths it could not read.
#[verifier::rlimit(40)]
pub fn parse_scan_output(lines: &Vec<String>) -> (r: ParsedScanOutput)
    requires
        summarize(strs(lines@)).error_count <= usize::MAX,
    ensures
        r.matches(summarize(strs(lines@))),
{
    let ghost all = strs(lines@);
    let mut parsed = ParsedScanOutput {
        scanned_files: None,
        infected_files: None,
        error_count: 0,
        access_denied_paths: Vec::new(),
    };
    assert(strs(parsed.access_denied_paths@) =~= Seq::<Seq<char>>::empty());
    assert(all.take(0) =~= Seq::<Seq<char>>::empty());
    let mut i: usize = 0;
    while i < lines.len()
        invariant
            i <= lines@.len(),
            all == strs(lines@),
            summarize(all).error_count <= usize::MAX,
            parsed.matches(summarize(all.take(i as int))),
        decreases lines@.len() - i,
    {
        let line = &lines[i];
        proof {
            assert(all.take(i + 1).drop_last() =~= all.take(i as int));
            assert(all.take(i + 1).last() == line@);
            lemma_summarize_errors_grow(all, i + 1);
        }
        let ghost next = summarize(all.take(i + 1));
        if parsed.scanned_files.is_none() {
            parsed.scanned_files = parse_summary_value(line.as_str(), "Scanned files:");
        }
        if parsed.infected_files.is_none() {
            parsed.infected_files = parse_summary_value(line.as_str(), "Infected files:");
        }
        match parse_summary_value(line.as_str(), "Total errors:") {
            Some(total_errors) => {
                if total_errors > parsed.error_count {
                    parsed.error_count = total_errors;
                }
            },
            None => {},
        }
        let v = chars_of(line.as_str());
        if ends_with_exec(&v, &chars_of(" ERROR")) || contains_exec(&v, &chars_of("ERROR:")) {
            parsed.error_count = parsed.error_count + 1;
        }
        if is_access_denied_line(line.as_str()) {
            let path = match parse_scanned_path(line.as_str()) {
                Some(p) => p,
                None => string_from(v.as_slice()),
            };
            if !contains_string(&parsed.access_denied_paths, &path) {
                let ghost before = parsed.access_denied_paths@;
                parsed.access_denied_paths.push(path);
                assert(strs(parsed.access_denied_paths@) =~= strs(before).push(path@));
            }
        }
        assert(parsed.matches(next));
        i = i + 1;
    }
    assert(all.take(lines@.len() as int) =~= all);
    parsed
}

/// Whether the number of errors that `parse_scan_output` counts in `lines`
/// fits in a `usize`.
pub fn error_count_fits(lines: &Vec<String>) -> (r: bool)
    ensures
        r == (summarize(strs(lines@)).error_count <= usize::MAX),
{
    let ghost all = strs(lines@);
    let mut count: usize = 0;
    let mut i: usize = 0;
    assert(all.take(0) =~= Seq::<Seq<char>>::empty());
    while i < lines.len()
        invariant
            i <= lines@.len(),
            all == strs(lines@),
            count == summarize(all.take(i as int)).error_count,
        decreases lines@.len() - i,
    {
        let line = &lines[i];
        proof {
            assert(all.take(i + 1).drop_last() =~= all.take(i as int));
            assert(all.take(i + 1).last() == line@);
        }
        match parse_summary_value(line.as_str(), "Total errors:") {
            Some(total_errors) => {
                if total_errors > count {
                    count = total_errors;
                }
            },
            None => {},
        }
        let v = chars_of(line.as_str());
        if ends_with_exec(&v, &chars_of(" ERROR")) || contains_exec(&v, &chars_of("ERROR:")) {
            if count == usize::MAX {
                proof {
                    lemma_summarize_errors_grow(all, i + 1);
                    assert(all.take(lines@.len() as int) =~= all);
                }
                return false;
            }
            count = count + 1;
        }
        i = i + 1;
    }
    assert(all.take(lines@.len() as int) =~= all);
    true
}

/// The status word of a finished scan, from the engine's exit code and the
/// number of threats found.
pub open spec fn scan_status_spec(exit_code: Option<i32>, threats: usize) -> Seq<char> {
    match exit_code {
        Some(code) => if code == 0 {
            "clean"@
        } else if code == 1 && threats > 0 {
            "infected"@
        } else if code == 2 {
            "error"@
        } else {
            "completed_"@ + decimal_text(code as int)
        },
        None => "unknown"@,
    }
}

/// The status word of a finished scan.
pub fn normalize_scan_status(exit_code: Option<i32>, threats: usize) -> (r: String)
    ensures
        r@ == scan_status_spec(exit_code, threats),
{
    match exit_code {
        Some(code) => {
            if code == 0 {
                String::from_str("clean")
            } else if code == 1 && threats > 0 {
                String::from_str("infected")
            } else if code == 2 {
                String::from_str("error")
            } else {
                let mut s = String::from_str("completed_");
                let n = i32_text(code);
                s.append(n.as_str());
                s
            }
        },
        None => String::from_str("unknown"),
    }
}

} // verus!
