//! One scan of folders, followed line by line as the engine prints them.
//!
//! The caller runs the engine, hands each line to `ScanRun::on_line` and
//! announces what it returns, quarantines the threats when asked to, and
//! hands the engine's exit code and error output to `ScanRun::finish`,
//! which makes the report.
use vstd::prelude::*;
use vstd::string::*;
use crate::engine::ScanEngineKind;
use crate::models::{QuarantineEntry, ScanMode, ScanProgressEvent, ScanReport, ThreatMatch};
use crate::scan_output::{
    is_scan_line, normalize_scan_status, parse_scan_output, parse_scanned_path,
    parse_threat_line, scan_line_spec, scan_status_spec, scanned_path_spec, strs, summarize,
    threat_line_spec, threat_view, threat_views, unreadable_threat_line,
};
use crate::text::{trim, trim_str};

verus! {

/// The stand-in for the number of files of a full scan, which is not
/// counted beforehand.
pub open spec fn full_scan_total() -> usize {
    (usize::MAX / 2) as usize
}

/// The progress shown: for a full scan, the files seen out of at least one;
/// otherwise the files seen, at most the total, out of the total.
pub open spec fn progress_spec(system_wide: bool, count: usize, total: usize) -> (usize, usize) {
    if system_wide {
        (count, if count > 1 { count } else { 1 })
    } else {
        (if count < total { count } else { total }, total)
    }
}

/// The state of a scan while the engine runs.
#[derive(Debug)]
pub struct ScanRun {
    pub scan_id: String,
    /// A full scan, whose files are not counted beforehand.
    pub system_wide: bool,
    pub engine_kind: ScanEngineKind,
    /// The number of files expected.
    pub total_files: usize,
    /// The non-blank lines printed so far, trimmed.
    pub raw_output: Vec<String>,
    /// The lines so far that reported a scanned file.
    pub scanned_line_count: usize,
    /// The threats reported so far.
    pub threats: Vec<ThreatMatch>,
}

/// What a line of output gives: the threat it reports, to announce, and the
/// progress to show.
#[derive(Debug)]
pub struct LineOutcome {
    pub threat: Option<ThreatMatch>,
    pub progress: ScanProgressEvent,
}

/// All the lines a scan printed: its lines, then its error output, trimmed,
/// when that is not blank.
pub open spec fn all_output(raw: Seq<Seq<char>>, stderr: Seq<char>) -> Seq<Seq<char>> {
    if trim(stderr).len() > 0 {
        raw.push(trim(stderr))
    } else {
        raw
    }
}

/// The lines `s` joined with new lines between them.
pub open spec fn join_lines(s: Seq<Seq<char>>) -> Seq<char>
    decreases s.len(),
{
    if s.len() == 0 {
        Seq::empty()
    } else if s.len() == 1 {
        s[0]
    } else {
        join_lines(s.drop_last()) + seq!['\n'] + s.last()
    }
}

/// What the report says when the engine failed without printing anything.
pub open spec fn silent_error_message() -> Seq<char> {
    "Une erreur système ClamAV est survenue (code de sortie 2). Vérifiez vos signatures de virus."@
}

/// The engine's exit code says it failed.
pub open spec fn exited_with_error(exit_code: Option<i32>) -> bool {
    match exit_code {
        Some(c) => c == 2,
        None => false,
    }
}

/// The files scanned: the engine's summary count if it printed one; else,
/// for `clamdscan` that reported no file on a counted scan, the files
/// counted beforehand; else the files seen.
pub open spec fn scanned_files_spec(
    summary: Option<usize>,
    system_wide: bool,
    kind: ScanEngineKind,
    count: usize,
    total: usize,
) -> usize {
    match summary {
        Some(n) => n,
        None => if system_wide {
            count
        } else if kind == ScanEngineKind::Clamdscan && count == 0 {
            total
        } else {
            count
        },
    }
}

/// `new` is `old` once the non-blank trimmed line `t` is taken, and `o` is
/// what taking it gave.
pub open spec fn line_taken(old: ScanRun, new: ScanRun, t: Seq<char>, o: LineOutcome) -> bool {
    &&& new.same_scan(&old)
    &&& strs(new.raw_output@) == strs(old.raw_output@).push(t)
    &&& match threat_line_spec(t) {
        Some(tv) => {
            &&& threat_views(new.threats@) == threat_views(old.threats@).push(tv)
            &&& new.scanned_line_count == old.scanned_line_count + 1
            &&& (o.threat matches Some(x) && threat_view(x) == tv)
        },
        None => {
            &&& new.threats@ == old.threats@
            &&& new.scanned_line_count == old.scanned_line_count + if scan_line_spec(t) {
                1int
            } else {
                0int
            }
            &&& o.threat is None
        },
    }
    &&& progress_shown(new, t, o.progress)
}

/// `p` is the progress shown by the scan `run` after the line `t`.
pub open spec fn progress_shown(run: ScanRun, t: Seq<char>, p: ScanProgressEvent) -> bool {
    let (current, total) = progress_spec(run.system_wide, run.scanned_line_count, run.total_files);
    &&& p.scan_id == run.scan_id
    &&& p.current == current
    &&& p.total == total
    &&& p.status@ == if run.threats@.len() == 0 {
        "Analyse en cours"@
    } else {
        "Menace détectée"@
    }
    &&& (p.path matches Some(x) ==> scanned_path_spec(t) == Some(x@))
    &&& (p.path is None ==> scanned_path_spec(t) is None)
    &&& p.infected_count == run.threats@.len()
}

impl ScanRun {
    /// The two states hold the same values.
    pub open spec fn same_as(&self, o: &ScanRun) -> bool {
        &&& self.scan_id == o.scan_id
        &&& self.system_wide == o.system_wide
        &&& self.engine_kind == o.engine_kind
        &&& self.total_files == o.total_files
        &&& self.raw_output@ == o.raw_output@
        &&& self.scanned_line_count == o.scanned_line_count
        &&& self.threats@ == o.threats@
    }

    /// The same scan, with other lines seen.
    pub open spec fn same_scan(&self, o: &ScanRun) -> bool {
        &&& self.scan_id == o.scan_id
        &&& self.system_wide == o.system_wide
        &&& self.engine_kind == o.engine_kind
        &&& self.total_files == o.total_files
    }

    /// A scan that has seen nothing yet. A full scan expects a stand-in
    /// number of files; another expects the files counted, at least one.
    pub fn new(scan_id: String, mode: ScanMode, engine_kind: ScanEngineKind, counted_files: usize) -> (r: ScanRun)
        ensures
            r.scan_id == scan_id,
            r.system_wide == (mode == ScanMode::Full),
            r.engine_kind == engine_kind,
            r.total_files == if mode == ScanMode::Full {
                full_scan_total()
            } else if counted_files > 1 {
                counted_files
            } else {
                1
            },
            r.raw_output@.len() == 0,
            r.scanned_line_count == 0,
            r.threats@.len() == 0,
    {
        let system_wide = mode == ScanMode::Full;
        let total_files = if system_wide {
            usize::MAX / 2
        } else if counted_files > 1 {
            counted_files
        } else {
            1
        };
        ScanRun {
            scan_id,
            system_wide,
            engine_kind,
            total_files,
            raw_output: Vec::new(),
            scanned_line_count: 0,
            threats: Vec::new(),
        }
    }

    /// Whether the threats found are to be quarantined.
    pub fn needs_quarantine(&self, quarantine_detected: bool) -> (r: bool)
        ensures
            r == (quarantine_detected && self.threats@.len() > 0),
    {
        quarantine_detected && self.threats.len() > 0
    }

    /// Takes one line of the engine's output: a blank line changes nothing;
    /// another is kept (trimmed), counted when it reports a scanned file, and
    /// gives the threat it reports and the progress to show.
    pub fn on_line(&mut self, line: &str) -> (r: Option<LineOutcome>)
        requires
            !unreadable_threat_line(trim(line@)),
            old(self).scanned_line_count < usize::MAX,
        ensures
            trim(line@).len() == 0 ==> r is None && final(self).same_as(old(self)),
            trim(line@).len() > 0 ==> (r matches Some(o) && line_taken(
                *old(self),
                *final(self),
                trim(line@),
                o,
            )),
    {
        let trimmed = trim_str(line);
        if trimmed.as_str().is_empty() {
            return None;
        }
        let ghost old_raw = self.raw_output@;
        let ghost old_threats = self.threats@;
        self.raw_output.push(trimmed.clone());
        assert(strs(self.raw_output@) =~= strs(old_raw).push(trimmed@));
        let threat = parse_threat_line(trimmed.as_str());
        match &threat {
            Some(t) => {
                self.scanned_line_count = self.scanned_line_count + 1;
                self.threats.push(t.clone());
                assert(threat_views(self.threats@) =~= threat_views(old_threats).push(
                    threat_view(*t),
                ));
            },
            None => {
                if is_scan_line(trimmed.as_str()) {
                    self.scanned_line_count = self.scanned_line_count + 1;
                }
            },
        }
        let (current, total) = if self.system_wide {
            (
                self.scanned_line_count,
                if self.scanned_line_count > 1 {
                    self.scanned_line_count
                } else {
                    1
                },
            )
        } else {
            (
                if self.scanned_line_count < self.total_files {
                    self.scanned_line_count
                } else {
                    self.total_files
                },
                self.total_files,
            )
        };
        let status = if self.threats.len() == 0 {
            String::from_str("Analyse en cours")
        } else {
            String::from_str("Menace détectée")
        };
        let progress = ScanProgressEvent {
            scan_id: self.scan_id.clone(),
            current,
            total,
            status,
            path: parse_scanned_path(trimmed.as_str()),
            infected_count: self.threats.len(),
        };
        Some(LineOutcome { threat, progress })
    }

    /// Whether the errors counted over all the output of this scan, with the
    /// engine's error output `stderr_output`, fit in a `usize`, as `finish`
    /// needs.
    pub fn can_finish(&self, stderr_output: &str) -> (r: bool)
        ensures
            r == (summarize(all_output(strs(self.raw_output@), stderr_output@)).error_count
                <= usize::MAX),
    {
        let mut lines = crate::models::copy_strings(&self.raw_output);
        let ghost raw_before = strs(lines@);
        assert(raw_before == strs(self.raw_output@));
        let stderr_trimmed = trim_str(stderr_output);
        if !stderr_trimmed.as_str().is_empty() {
            lines.push(stderr_trimmed);
            assert(strs(lines@) =~= raw_before.push(trim(stderr_output@)));
        }
        assert(strs(lines@) == all_output(raw_before, stderr_output@));
        crate::scan_output::error_count_fits(&lines)
    }

    /// The report of the finished scan, and the last progress to show.
    /// The engine's error output, trimmed, is one more line of output when
    /// it is not blank. The summary counts are preferred to the lines seen;
    /// an exit code of 2 counts at least one error; a scan that failed
    /// without output says so in its output.
    pub fn finish(
        self,
        exit_code: Option<i32>,
        stderr_output: &str,
        quarantined: Vec<QuarantineEntry>,
        mode: ScanMode,
        started_at: i64,
        finished_at: i64,
        targets: Vec<String>,
        engine_name: String,
    ) -> (r: (ScanReport, ScanProgressEvent))
        requires
            summarize(all_output(strs(self.raw_output@), stderr_output@)).error_count
                <= usize::MAX,
            i64::MIN <= finished_at - started_at <= i64::MAX,
        ensures
            ({
                let lines = all_output(strs(self.raw_output@), stderr_output@);
                let parsed = summarize(lines);
                let report = r.0;
                let scanned = scanned_files_spec(
                    parsed.scanned_files,
                    self.system_wide,
                    self.engine_kind,
                    self.scanned_line_count,
                    self.total_files,
                );
                let infected: usize = match parsed.infected_files {
                    Some(n) => n,
                    None => self.threats@.len() as usize,
                };
                &&& report.id == self.scan_id
                &&& report.mode == mode
                &&& report.started_at == started_at
                &&& report.finished_at == finished_at
                &&& report.targets@ == targets@
                &&& report.engine == engine_name
                &&& report.scanned_files == scanned
                &&& report.infected_files == infected
                &&& report.clean_files == if scanned > infected {
                    scanned - infected
                } else {
                    0
                }
                &&& report.error_count == if exited_with_error(exit_code) && parsed.error_count
                    == 0 {
                    1
                } else {
                    parsed.error_count
                }
                &&& strs(report.access_denied_paths@) == parsed.access_denied_paths
                &&& report.access_denied_count == parsed.access_denied_paths.len()
                &&& report.duration_ms == finished_at - started_at
                &&& report.status@ == scan_status_spec(exit_code, infected)
                &&& report.threats@ == self.threats@
                &&& report.quarantined@ == quarantined@
                &&& report.raw_output@ == if exited_with_error(exit_code) && trim(
                    join_lines(lines),
                ).len() == 0 {
                    silent_error_message()
                } else {
                    join_lines(lines)
                }
                &&& r.1.scan_id == self.scan_id
                &&& r.1.current == if scanned > 1 {
                    scanned
                } else {
                    1
                }
                &&& r.1.total == r.1.current
                &&& r.1.status@ == if self.threats@.len() == 0 {
                    "Scan terminé"@
                } else {
                    "Scan terminé avec menace"@
                }
                &&& r.1.path is None
                &&& r.1.infected_count == infected
            }),
    {
        let mut raw_output = self.raw_output;
        let ghost raw_before = strs(raw_output@);
        let stderr_trimmed = trim_str(stderr_output);
        if !stderr_trimmed.as_str().is_empty() {
            raw_output.push(stderr_trimmed);
            assert(strs(raw_output@) =~= raw_before.push(trim(stderr_output@)));
        }
        assert(strs(raw_output@) == all_output(raw_before, stderr_output@));
        let parsed = parse_scan_output(&raw_output);
        let is_error = match exit_code {
            Some(c) => c == 2,
            None => false,
        };
        let mut error_count = parsed.error_count;
        if is_error && error_count == 0 {
            error_count = 1;
        }
        let scanned_files = match parsed.scanned_files {
            Some(n) => n,
            None => {
                if self.system_wide {
                    self.scanned_line_count
                } else if self.engine_kind == ScanEngineKind::Clamdscan && self.scanned_line_count
                    == 0 {
                    self.total_files
                } else {
                    self.scanned_line_count
                }
            },
        };
        let infected_files = match parsed.infected_files {
            Some(n) => n,
            None => self.threats.len(),
        };
        let clean_files = if scanned_files > infected_files {
            scanned_files - infected_files
        } else {
            0
        };
        let mut raw_text = join_lines_exec(&raw_output);
        if is_error && trim_str(raw_text.as_str()).as_str().is_empty() {
            raw_text = String::from_str(
                "Une erreur système ClamAV est survenue (code de sortie 2). Vérifiez vos signatures de virus.",
            );
        }
        let status = normalize_scan_status(exit_code, infected_files);
        let finish_status = if self.threats.len() == 0 {
            String::from_str("Scan terminé")
        } else {
            String::from_str("Scan terminé avec menace")
        };
        let shown = if scanned_files > 1 {
            scanned_files
        } else {
            1
        };
        let access_denied_count = parsed.access_denied_paths.len();
        let report = ScanReport {
            id: self.scan_id.clone(),
            mode,
            started_at,
            finished_at,
            targets,
            engine: engine_name,
            scanned_files,
            infected_files,
            clean_files,
            error_count,
            access_denied_count,
            access_denied_paths: parsed.access_denied_paths,
            duration_ms: finished_at - started_at,
            status,
            threats: self.threats,
            quarantined,
            raw_output: raw_text,
        };
        let progress = ScanProgressEvent {
            scan_id: self.scan_id,
            current: shown,
            total: shown,
            status: finish_status,
            path: None,
            infected_count: infected_files,
        };
        (report, progress)
    }
}

/// The lines `v` joined with new lines between them.
pub fn join_lines_exec(v: &Vec<String>) -> (r: String)
    ensures
        r@ == join_lines(strs(v@)),
{
    let ghost vs = strs(v@);
    let mut r = String::new();
    let mut i: usize = 0;
    assert(vs.take(0) =~= Seq::<Seq<char>>::empty());
    while i < v.len()
        invariant
            i <= v@.len(),
            vs == strs(v@),
            r@ == join_lines(vs.take(i as int)),
        decreases v@.len() - i,
    {
        proof {
            assert(vs.take(i + 1).drop_last() =~= vs.take(i as int));
            assert(vs.take(i + 1).last() == v@[i as int]@);
        }
        if i > 0 {
            r.append("\n");
            proof {
                reveal_strlit("\n");
            }
        } else {
            assert(vs.take(1) =~= seq![v@[0]@]);
            assert(r@ =~= Seq::<char>::empty());
        }
        r.append(v[i].as_str());
        if i == 0 {
            assert(r@ =~= v@[0]@);
        }
        i = i + 1;
    }
    assert(vs.take(v@.len() as int) =~= vs);
    r
}

} // verus!
