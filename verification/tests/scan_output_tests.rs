use clamav_client::scan_output::{
    combine_output, is_access_denied_line, is_scan_line, normalize_scan_status,
    parse_scan_output, parse_scanned_path, parse_summary_value, parse_threat_line,
    threats_in_payload, error_count_fits,
};
use clamav_client::text::{i32_text, split_lines, trim_str, chars_of};

#[test]
fn threat_line_gives_path_and_signature() {
    let t = parse_threat_line("/home/alice/eicar.com: Win.Test.EICAR_HDB-1 FOUND").unwrap();
    assert_eq!(t.path, "/home/alice/eicar.com");
    assert_eq!(t.signature, "Win.Test.EICAR_HDB-1");
}

#[test]
fn threat_line_uses_last_separator_and_trims() {
    let t = parse_threat_line("  C:/data: odd: name.exe :  Eicar-Signature   FOUND").unwrap();
    assert_eq!(t.path, "C:/data: odd: name.exe");
    assert_eq!(t.signature, "Eicar-Signature");
}

#[test]
fn non_threat_lines_give_nothing() {
    assert!(parse_threat_line("/tmp/a.txt: OK").is_none());
    assert!(parse_threat_line("FOUND").is_none());
    assert!(parse_threat_line("no separator here FOUND").is_none());
    assert!(parse_threat_line(": Sig FOUND").is_none());
    assert!(parse_threat_line("/tmp/x:  FOUND").is_none());
    assert!(parse_threat_line("/tmp/x: Sig FOUND ").is_none());
}

#[test]
fn scanned_path_is_before_last_separator() {
    assert_eq!(parse_scanned_path("/tmp/a.txt: OK").unwrap(), "/tmp/a.txt");
    assert_eq!(parse_scanned_path(" a: b: Empty file").unwrap(), "a: b");
    assert!(parse_scanned_path("----------- SCAN SUMMARY -----------").is_none());
}

#[test]
fn scan_lines_are_recognised() {
    assert!(is_scan_line("/tmp/a: OK"));
    assert!(is_scan_line("/tmp/a: Eicar FOUND"));
    assert!(is_scan_line("/tmp/a: Can't open file ERROR"));
    assert!(is_scan_line("/tmp/a: Empty file"));
    assert!(!is_scan_line("Scanned files: 3"));
    assert!(!is_scan_line("/tmp/a: ok"));
}

#[test]
fn summary_values_are_read() {
    assert_eq!(parse_summary_value("Scanned files: 12", "Scanned files:"), Some(12));
    assert_eq!(parse_summary_value("Scanned files:    7 more", "Scanned files:"), Some(7));
    assert_eq!(parse_summary_value("Scanned files: +5", "Scanned files:"), Some(5));
    assert_eq!(parse_summary_value("Scanned files: -5", "Scanned files:"), None);
    assert_eq!(parse_summary_value("Scanned files: 3x", "Scanned files:"), None);
    assert_eq!(parse_summary_value("Scanned files:", "Scanned files:"), None);
    assert_eq!(parse_summary_value("Infected files: 1", "Scanned files:"), None);
    assert_eq!(
        parse_summary_value("Total errors: 99999999999999999999999", "Total errors:"),
        None
    );
}

#[test]
fn access_denied_lines_are_recognised() {
    assert!(is_access_denied_line("/root/x: Access denied ERROR"));
    assert!(is_access_denied_line("lstat() failed: Permission denied"));
    assert!(is_access_denied_line("/a: Operation not permitted"));
    assert!(is_access_denied_line("WARNING: Can't access file /b"));
    assert!(!is_access_denied_line("/a: OK"));
}

fn lines(v: &[&str]) -> Vec<String> {
    v.iter().map(|s| s.to_string()).collect()
}

#[test]
fn scan_output_summary_is_parsed() {
    let out = lines(&[
        "/home/a: OK",
        "/home/b: Eicar FOUND",
        "/root/c: Access denied ERROR",
        "/root/c: Access denied ERROR",
        "----------- SCAN SUMMARY -----------",
        "Scanned files: 3",
        "Infected files: 1",
        "Total errors: 1",
        "Scanned files: 40",
    ]);
    let p = parse_scan_output(&out);
    assert_eq!(p.scanned_files, Some(3));
    assert_eq!(p.infected_files, Some(1));
    assert_eq!(p.error_count, 2);
    assert_eq!(p.access_denied_paths, vec!["/root/c".to_string()]);
}

#[test]
fn total_errors_is_a_floor_for_the_count() {
    let out = lines(&["x ERROR", "Total errors: 5", "LibClamAV ERROR: bad"]);
    let p = parse_scan_output(&out);
    assert_eq!(p.error_count, 6);
    assert_eq!(p.scanned_files, None);
}

#[test]
fn scan_status_words() {
    assert_eq!(normalize_scan_status(Some(0), 0), "clean");
    assert_eq!(normalize_scan_status(Some(0), 4), "clean");
    assert_eq!(normalize_scan_status(Some(1), 2), "infected");
    assert_eq!(normalize_scan_status(Some(1), 0), "completed_1");
    assert_eq!(normalize_scan_status(Some(2), 0), "error");
    assert_eq!(normalize_scan_status(Some(-9), 0), "completed_-9");
    assert_eq!(normalize_scan_status(Some(40), 1), "completed_40");
    assert_eq!(normalize_scan_status(None, 0), "unknown");
}

#[test]
fn decimal_text_matches_display() {
    for n in [0, 7, 10, 123, -1, -45, i32::MAX, i32::MIN] {
        assert_eq!(i32_text(n), n.to_string());
    }
}

#[test]
fn outputs_are_combined() {
    assert_eq!(combine_output("a", "b"), "a\nb");
    assert_eq!(combine_output("", "b"), "b");
    assert_eq!(combine_output("a", ""), "a");
    assert_eq!(combine_output("", ""), "");
}

#[test]
fn threats_are_found_in_payload() {
    let payload = "/a: OK\r\n/b: Sig.One FOUND\r\n\n/c: Sig.Two FOUND\n----\nInfected files: 2";
    let t = threats_in_payload(payload);
    assert_eq!(t.len(), 2);
    assert_eq!(t[0].path, "/b");
    assert_eq!(t[0].signature, "Sig.One");
    assert_eq!(t[1].path, "/c");
    assert_eq!(t[1].signature, "Sig.Two");
}

#[test]
fn lines_split_like_std() {
    for s in ["", "a", "a\n", "a\r\nb", "\n", "\n\n", "a\rb\n", "x\r", "one\ntwo\r\n\nthree"] {
        let got: Vec<String> = split_lines(&chars_of(s))
            .into_iter()
            .map(|l| l.into_iter().collect())
            .collect();
        let want: Vec<String> = s.lines().map(|l| l.to_string()).collect();
        assert_eq!(got, want, "for {:?}", s);
    }
}

#[test]
fn trim_is_like_std() {
    for s in ["", "  ", " a ", "\t\nab c\u{3000}", "\u{a0}x\u{2009}", "x"] {
        assert_eq!(trim_str(s), s.trim());
    }
}

#[test]
fn error_counts_fit_or_not() {
    let lines = vec!["Total errors: 3".to_string(), "/x: ERROR".to_string()];
    assert!(error_count_fits(&lines));
    assert_eq!(parse_scan_output(&lines).error_count, 4);
    let huge = vec![format!("Total errors: {}", usize::MAX), "/x: ERROR".to_string()];
    assert!(!error_count_fits(&huge));
    let at_max = vec![format!("Total errors: {}", usize::MAX)];
    assert!(error_count_fits(&at_max));
}
