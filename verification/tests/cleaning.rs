use easy_worktree::clean::{clean_reason, needs_branch_sha, parse_clean_filter_options, pr_head_names, resolve_clean_targets, CleanFacts, CleanFilter};
use easy_worktree::clock::Timestamp;
use easy_worktree::git::WorktreeInfo;
use easy_worktree::pr::JsonValue;

fn strings(v: &[&str]) -> Vec<String> {
    v.iter().map(|s| s.to_string()).collect()
}

fn wt(path: &str, branch: &str, clean: bool, created: Option<i64>) -> WorktreeInfo {
    WorktreeInfo {
        path: path.to_string(),
        head: None,
        branch: branch.to_string(),
        created: created.map(|s| Timestamp { secs: s, nanos: 0 }),
        last_commit: None,
        is_clean: clean,
        has_untracked: false,
        insertions: 0,
        deletions: 0,
        pr_info: String::new(),
        reason: String::new(),
        missing: false,
    }
}

fn facts() -> CleanFacts {
    CleanFacts {
        aliases: strings(&["/r/alias"]),
        merged: strings(&["done"]),
        merged_prs: strings(&["pr-done"]),
        closed_prs: strings(&["dropped"]),
        default_sha: Some("abc".to_string()),
    }
}

fn filter(all: bool, merged: bool, closed: bool, days: Option<i64>) -> CleanFilter {
    CleanFilter { all, merged, closed, days }
}

#[test]
fn clean_filter_options_parse() {
    let f = parse_clean_filter_options(&strings(&["--merged", "--days", "3", "--days", "7"])).unwrap();
    assert!(f.merged && !f.all && !f.closed);
    assert_eq!(f.days, Some(7));
    assert!(f.any());
    let g = parse_clean_filter_options(&strings(&["--days"])).unwrap();
    assert_eq!(g.days, None);
    assert!(!g.any());
}

#[test]
fn clean_filter_rejects_bad_days() {
    assert!(parse_clean_filter_options(&strings(&["--days", "ten"])).is_err());
    assert!(parse_clean_filter_options(&strings(&["--days", "ten", "--days", "3"])).is_err());
}

#[test]
fn clean_reasons_by_filter() {
    let now = Timestamp { secs: 100 * 86400, nanos: 0 };
    let f = facts();
    assert_eq!(clean_reason(&wt("/r", "main", true, None), "/r", &f, &filter(true, false, false, None), now, None), None);
    assert_eq!(clean_reason(&wt("/r/alias", "x", true, None), "/r", &f, &filter(true, false, false, None), now, None), None);
    assert_eq!(
        clean_reason(&wt("/r/w", "x", true, None), "/r", &f, &filter(true, false, false, None), now, None),
        Some("clean".to_string())
    );
    assert_eq!(clean_reason(&wt("/r/w", "x", false, None), "/r", &f, &filter(true, false, false, None), now, None), None);
    assert_eq!(
        clean_reason(&wt("/r/w", "pr-done", true, None), "/r", &f, &filter(false, true, false, None), now, None),
        Some("merged".to_string())
    );
    assert_eq!(
        clean_reason(&wt("/r/w", "dropped", true, None), "/r", &f, &filter(false, false, true, None), now, None),
        Some("closed".to_string())
    );
    assert_eq!(
        clean_reason(&wt("/r/w", "x", true, Some(90 * 86400)), "/r", &f, &filter(false, false, false, Some(10)), now, None),
        Some("older than 10 days".to_string())
    );
    assert_eq!(
        clean_reason(&wt("/r/w", "x", true, Some(95 * 86400)), "/r", &f, &filter(true, false, false, Some(10)), now, None),
        None
    );
}

#[test]
fn merged_branch_at_default_commit_is_kept() {
    let now = Timestamp { secs: 0, nanos: 0 };
    let f = facts();
    let w = wt("/r/w", "done", true, None);
    let fl = filter(false, true, false, None);
    assert!(needs_branch_sha(&w, &f, &fl));
    assert_eq!(clean_reason(&w, "/r", &f, &fl, now, Some("abc")), None);
    assert_eq!(clean_reason(&w, "/r", &f, &fl, now, Some("def")), Some("merged".to_string()));
}

#[test]
fn clean_targets_keep_order_and_reasons() {
    let now = Timestamp { secs: 0, nanos: 0 };
    let ws = vec![wt("/r", "main", true, None), wt("/r/a", "a", true, None), wt("/r/b", "b", false, None), wt("/r/c", "c", true, None)];
    let shas = vec![None, None, None, None];
    let t = resolve_clean_targets(ws, "/r", &facts(), &filter(true, false, false, None), now, &shas);
    let got: Vec<(&str, &str)> = t.iter().map(|w| (w.path.as_str(), w.reason.as_str())).collect();
    assert_eq!(got, vec![("/r/a", "clean"), ("/r/c", "clean")]);
}

#[test]
fn pr_heads_from_listing() {
    let listing = JsonValue::Array(vec![
        JsonValue::Object(vec![("headRefName".to_string(), JsonValue::Str("one".to_string()))]),
        JsonValue::Object(vec![("number".to_string(), JsonValue::Int(3))]),
        JsonValue::Object(vec![("headRefName".to_string(), JsonValue::Str("two".to_string()))]),
    ]);
    assert_eq!(pr_head_names(&listing), strings(&["one", "two"]));
    assert_eq!(pr_head_names(&JsonValue::Null), strings(&[]));
}
