use easy_worktree::clock::{clean_time, commit_time, created_text, get_relative_time, parse_datetime, Timestamp};
use easy_worktree::git::CmdResult;
use easy_worktree::pr::{pr_age, PrSummary};

fn at(secs: i64) -> Timestamp {
    Timestamp { secs, nanos: 0 }
}

#[test]
fn relative_time_buckets() {
    let now = at(1_000_000_000);
    assert_eq!(get_relative_time(None, now), "N/A");
    assert_eq!(get_relative_time(Some(at(1_000_000_000 - 30)), now), "just now");
    assert_eq!(get_relative_time(Some(at(1_000_000_000 + 5 * 86400)), now), "just now");
    assert_eq!(get_relative_time(Some(at(1_000_000_000 - 125)), now), "2m ago");
    assert_eq!(get_relative_time(Some(at(1_000_000_000 - 7300)), now), "2h ago");
    assert_eq!(get_relative_time(Some(at(1_000_000_000 - 86400)), now), "yesterday");
    assert_eq!(get_relative_time(Some(at(1_000_000_000 - 10 * 86400)), now), "10d ago");
    assert_eq!(get_relative_time(Some(at(1_000_000_000 - 65 * 86400)), now), "2mo ago");
    assert_eq!(get_relative_time(Some(at(1_000_000_000 - 800 * 86400)), now), "2y ago");
}

#[test]
fn relative_time_counts_partial_seconds_toward_zero() {
    let now = Timestamp { secs: 100, nanos: 0 };
    let then = Timestamp { secs: 40, nanos: 500_000_000 };
    assert_eq!(get_relative_time(Some(then), now), "just now");
    let then = Timestamp { secs: 39, nanos: 999_999_999 };
    assert_eq!(get_relative_time(Some(then), now), "1m ago");
}

#[test]
fn naive_formats_are_read() {
    let t = parse_datetime("2024-01-02T03:04:05").unwrap();
    assert_eq!((t.secs, t.nanos), (1704164645, 0));
    let u = parse_datetime("2024-01-02 03:04:05.250").unwrap();
    assert_eq!((u.secs, u.nanos), (1704164645, 250_000_000));
    let v = parse_datetime("2024-01-02 03:04:05").unwrap();
    assert_eq!((v.secs, v.nanos), (1704164645, 0));
    assert!(parse_datetime("yesterday").is_none());
    assert!(parse_datetime("2024-13-02T03:04:05").is_none());
}

#[test]
fn rfc3339_times_are_read() {
    assert!(parse_datetime("2026-06-01T00:00:00Z").is_some());
    let summary = PrSummary {
        state: "OPEN".to_string(),
        is_draft: false,
        url: String::new(),
        number: 1,
        created_at: Some("2020-06-01T00:00:00+02:00".to_string()),
    };
    let now = Timestamp { secs: 1780272000, nanos: 0 };
    assert_eq!(pr_age(&summary, now), "6y ago");
    let none = PrSummary { created_at: None, ..summary };
    assert_eq!(pr_age(&none, now), "N/A");
}

#[test]
fn creation_times_are_written_and_shown() {
    let t = Timestamp { secs: 1704164645, nanos: 123_456_000 };
    assert_eq!(created_text(t), "2024-01-02T03:04:05.123456");
    assert_eq!(clean_time(Some(t)), "2024-01-02 03:04");
    assert_eq!(clean_time(None), "N/A");
    let back = parse_datetime(&created_text(t)).unwrap();
    assert_eq!((back.secs, back.nanos), (t.secs, t.nanos));
}

#[test]
fn commit_times_from_git_log() {
    let ok = CmdResult { stdout: "1704164645\n".to_string(), stderr: String::new(), status: 0 };
    assert!(commit_time(&ok).is_some());
    let bad = CmdResult { stdout: "soon\n".to_string(), stderr: String::new(), status: 0 };
    assert!(commit_time(&bad).is_none());
    let failed = CmdResult { stdout: "1704164645".to_string(), stderr: String::new(), status: 128 };
    assert!(commit_time(&failed).is_none());
}

#[test]
fn commit_time_reads_the_unix_time_in_local_time() {
    let ok = CmdResult { stdout: " 1700000000\n".to_string(), stderr: String::new(), status: 0 };
    let t = commit_time(&ok).expect("a time in range");
    assert!(t.secs > 1700000000 - 86400 && t.secs < 1700000000 + 86400);
    assert_eq!(t.nanos, 0);
    let failed = CmdResult { stdout: "1700000000\n".to_string(), stderr: String::new(), status: 128 };
    assert!(commit_time(&failed).is_none());
    let garbage = CmdResult { stdout: "soon\n".to_string(), stderr: String::new(), status: 0 };
    assert!(commit_time(&garbage).is_none());
}

#[test]
fn commit_times_far_from_now_still_read() {
    let far = CmdResult { stdout: "8200000000000\n".to_string(), stderr: String::new(), status: 0 };
    let t = commit_time(&far).expect("inside chrono's range");
    assert!(t.secs > 8_200_000_000_000 - 86_400 && t.secs < 8_200_000_000_000 + 86_400);
    let early = CmdResult { stdout: "-8334601142401\n".to_string(), stderr: String::new(), status: 0 };
    assert!(commit_time(&early).is_some());
    let beyond = CmdResult { stdout: "9000000000000\n".to_string(), stderr: String::new(), status: 0 };
    assert!(commit_time(&beyond).is_none());
}
