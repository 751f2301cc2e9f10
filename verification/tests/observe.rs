use miyori::daemon::builder::{build_argv, digest_from_out_dir};
use miyori::daemon::calendar::{civil_from_days, rfc3339_from_epoch};
use miyori::daemon::observe::{
    parse_vm_rss_kib, sanitize_line, tail_sanitized, tail_start, uptime_secs, TAIL_WINDOW_BYTES,
};

/// The window at the end of a file, as it is read.
fn tail(content: &[u8], max_lines: usize, max_line_chars: usize) -> Vec<String> {
    let (from, inside) = tail_start(content.len() as u64, TAIL_WINDOW_BYTES);
    let window = content[from as usize..].to_vec();
    tail_sanitized(&window, inside, max_lines, max_line_chars)
}

#[test]
fn parse_vm_rss_kib_reads_the_number() {
    let status = "Name:\tbash\nVmRSS:\t    2048 kB\nVmSwap:\t       0 kB\n";
    assert_eq!(parse_vm_rss_kib(status), Some(2048));
}

#[test]
fn parse_vm_rss_kib_absent_line_is_none() {
    let status = "Name:\tdefunct\nState:\tZ (zombie)\n";
    assert_eq!(parse_vm_rss_kib(status), None);
}

#[test]
fn parse_vm_rss_kib_garbage_number_is_none() {
    let status = "VmRSS:\t    abc kB\n";
    assert_eq!(parse_vm_rss_kib(status), None);
}

#[test]
fn parse_vm_rss_kib_does_not_match_similar_prefix() {
    let status = "VmRSSFoo:\t 999 kB\n";
    assert_eq!(parse_vm_rss_kib(status), None);
}

#[test]
fn tail_sanitized_missing_file_is_empty() {
    assert_eq!(tail(b"", 10, 100), Vec::<String>::new());
}

#[test]
fn tail_sanitized_short_file_keeps_order() {
    assert_eq!(
        tail(b"one\ntwo\nthree\n", 10, 100),
        vec!["one", "two", "three"]
    );
}

#[test]
fn tail_sanitized_keeps_last_n_lines_in_order() {
    let mut content = String::new();
    for i in 1..=100 {
        content.push_str(&format!("line-{i}\n"));
    }
    let lines = tail(content.as_bytes(), 10, 100);
    assert_eq!(lines.len(), 10);
    assert_eq!(lines[0], "line-91");
    assert_eq!(lines[9], "line-100");
}

#[test]
fn tail_sanitized_strips_ansi_escape_sequences() {
    let lines = tail("\x1b[31mкрасный\x1b[0m\n".as_bytes(), 10, 300);
    assert_eq!(lines, vec!["[31mкрасный[0m"]);
    assert!(!lines[0].chars().any(|c| c.is_control()));
}

#[test]
fn tail_sanitized_strips_cr_and_nul() {
    let lines = tail(b"bad\r\x00line\n", 10, 300);
    assert_eq!(lines.len(), 1);
    assert!(!lines[0].chars().any(|c| c.is_control()));
}

#[test]
fn tail_sanitized_truncates_long_line_by_chars() {
    let long_line: String = "x".repeat(5000);
    let lines = tail(format!("{long_line}\n").as_bytes(), 10, 200);
    assert_eq!(lines.len(), 1);
    assert_eq!(lines[0].chars().count(), 200);
}

#[test]
fn tail_sanitized_handles_files_over_the_tail_window() {
    let mut content = String::new();
    for i in 0..2000 {
        content.push_str(&format!("line-{i:04}-{}\n", "x".repeat(90)));
    }
    let lines = tail(content.as_bytes(), 5, 300);
    assert_eq!(lines.len(), 5);
    for (offset, line) in lines.iter().enumerate() {
        let expected_i = 1995 + offset;
        assert!(
            line.starts_with(&format!("line-{expected_i:04}-")),
            "line {offset}: {line}"
        );
    }
}

#[test]
fn tail_sanitized_invalid_utf8_does_not_panic() {
    let mut bytes = b"good line\n".to_vec();
    bytes.extend_from_slice(&[0xff, 0xfe, 0x00]);
    bytes.extend_from_slice(b"\nmore\n");
    let lines = tail(&bytes, 10, 300);
    assert!(!lines.is_empty());
}

#[test]
fn a_window_that_starts_inside_a_line_drops_that_line() {
    let window = b"d of a line\nwhole\n".to_vec();
    assert_eq!(tail_sanitized(&window, true, 10, 100), vec!["whole"]);
    assert_eq!(
        tail_sanitized(&window, false, 10, 100),
        vec!["d of a line", "whole"]
    );
}

#[test]
fn a_sanitized_line_is_short_and_plain() {
    assert_eq!(sanitize_line("a\tb\u{7f}c\u{85}d", 3), "abc");
    assert_eq!(sanitize_line("привет", 4), "прив");
}

#[test]
fn uptime_secs_computes_elapsed_since_mtime() {
    let now: u64 = 1_700_000_000_000_000_000;
    assert_eq!(uptime_secs(now - 60_000_000_000, now), Some(60));
    assert_eq!(uptime_secs(now - 60_999_999_999, now), Some(60));
}

#[test]
fn uptime_secs_future_mtime_is_none() {
    let now: u64 = 1_700_000_000_000_000_000;
    assert_eq!(uptime_secs(now + 60_000_000_000, now), None);
}

#[test]
fn rfc3339_from_epoch_matches_known_dates() {
    assert_eq!(rfc3339_from_epoch(0), "1970-01-01T00:00:00Z");
    assert_eq!(rfc3339_from_epoch(951_782_400), "2000-02-29T00:00:00Z");
    assert_eq!(rfc3339_from_epoch(1_709_164_800), "2024-02-29T00:00:00Z");
    assert_eq!(rfc3339_from_epoch(1_767_225_599), "2025-12-31T23:59:59Z");
}

#[test]
fn days_become_dates() {
    assert_eq!(civil_from_days(0), (1970, 1, 1));
    assert_eq!(civil_from_days(-1), (1969, 12, 31));
    assert_eq!(civil_from_days(11016), (2000, 2, 29));
    assert_eq!(civil_from_days(-719468), (0, 3, 1));
    let mut previous = civil_from_days(-1000);
    for day in -999..1000i64 {
        let date = civil_from_days(day);
        assert!(date > previous);
        previous = date;
    }
}

#[test]
fn privileges_are_dropped_but_setuid_helpers_stay_allowed() {
    let a = build_argv(70042, 70100, "/var/lib/miyorios/profiles/spike");
    assert_eq!(a[0], "setpriv");
    assert_eq!(a[1], "--reuid");
    assert_eq!(a[2], "70042");
    assert_eq!(a[3], "--regid");
    assert_eq!(a[4], "70100");
    assert!(a.contains(&"--clear-groups".to_string()));
    assert!(
        !a.contains(&"--no-new-privs".to_string()),
        "с --no-new-privs setuid newuidmap/newgidmap не поднимут привилегии, и mmdebstrap --mode=unshare не запустится"
    );
    let sep = a
        .iter()
        .position(|s| s == "--")
        .expect("нет разделителя --");
    assert_eq!(a[sep + 1], "bash");
    assert_eq!(a[sep + 2], "tools/build-profile.sh");
    assert_eq!(a[sep + 3], "/var/lib/miyorios/profiles/spike");
}

#[test]
fn digest_from_out_dir_reads_latest_symlink() {
    assert_eq!(
        digest_from_out_dir("/out/spike/latest", Some("deadbeef")).unwrap(),
        "deadbeef"
    );
    assert_eq!(
        digest_from_out_dir("/out/spike/latest", Some("/out/spike/deadbeef")).unwrap(),
        "deadbeef"
    );
}

#[test]
fn digest_from_out_dir_errors_without_latest() {
    assert!(digest_from_out_dir("/out/spike/latest", None).is_err());
    assert!(digest_from_out_dir("/out/spike/latest", Some("..")).is_err());
}

#[test]
fn the_window_starts_so_that_it_ends_with_the_file() {
    assert_eq!(tail_start(10, 4), (6, true));
    assert_eq!(tail_start(4, 4), (0, false));
    assert_eq!(tail_start(0, 4), (0, false));
    assert_eq!(tail_start(TAIL_WINDOW_BYTES + 1, TAIL_WINDOW_BYTES), (1, true));
}
