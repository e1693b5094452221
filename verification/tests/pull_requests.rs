use easy_worktree::clock::Timestamp;
use easy_worktree::pr::{find_branch_pr, get_member, pr_batch_command, pr_branch_command, pr_info_from_list, pr_line, pr_lookup_needed, pr_summary, JsonValue};

fn obj(fields: Vec<(&str, JsonValue)>) -> JsonValue {
    JsonValue::Object(fields.into_iter().map(|(k, v)| (k.to_string(), v)).collect())
}

fn text(s: &str) -> JsonValue {
    JsonValue::Str(s.to_string())
}

#[test]
fn summary_reads_fields_with_defaults() {
    let pr = obj(vec![("state", text("OPEN")), ("isDraft", JsonValue::Bool(true)), ("number", JsonValue::Int(7))]);
    let s = pr_summary(&pr);
    assert_eq!(s.state, "OPEN");
    assert!(s.is_draft);
    assert_eq!(s.url, "");
    assert_eq!(s.number, 7);
    assert_eq!(s.created_at, None);
    assert!(get_member(&pr, "missing").is_none());
}

#[test]
fn pr_line_symbols_and_link() {
    let open = pr_summary(&obj(vec![("state", text("OPEN")), ("url", text("https://x/pull/7")), ("number", JsonValue::Int(7))]));
    assert_eq!(
        pr_line(&open, "2d ago"),
        "\x1b[32m●\x1b[0m \x1b]8;;https://x/pull/7\x1b\\#7\x1b]8;;\x1b\\ (2d ago)"
    );
    let merged = pr_summary(&obj(vec![("state", text("MERGED"))]));
    assert!(pr_line(&merged, "N/A").starts_with("\x1b[35m✔\x1b[0m"));
    let closed = pr_summary(&obj(vec![("state", text("CLOSED"))]));
    assert!(pr_line(&closed, "N/A").starts_with("\x1b[31m✘\x1b[0m"));
    let draft = pr_summary(&obj(vec![("state", text("OPEN")), ("isDraft", JsonValue::Bool(true))]));
    assert!(pr_line(&draft, "N/A").starts_with("\x1b[90m◌\x1b[0m"));
}

#[test]
fn pr_info_of_listing() {
    let now = Timestamp { secs: 0, nanos: 0 };
    assert_eq!(pr_info_from_list(&JsonValue::Array(vec![]), now), "");
    assert_eq!(pr_info_from_list(&JsonValue::Null, now), "");
    let listed = JsonValue::Array(vec![obj(vec![("state", text("OPEN")), ("number", JsonValue::Int(9))])]);
    assert_eq!(pr_info_from_list(&listed, now), "\x1b[32m●\x1b[0m \x1b]8;;\x1b\\#9\x1b]8;;\x1b\\ (N/A)");
}

#[test]
fn batch_lookup_by_branch() {
    let batch = JsonValue::Array(vec![
        obj(vec![("headRefName", text("feature/batched")), ("number", JsonValue::Int(7))]),
        obj(vec![("headRefName", text("feature/other")), ("number", JsonValue::Int(8))]),
        obj(vec![("headRefName", text("feature/batched")), ("number", JsonValue::Int(1))]),
    ]);
    let hit = find_branch_pr(&batch, "feature/batched").unwrap();
    assert_eq!(pr_summary(hit).number, 7);
    assert!(find_branch_pr(&batch, "feature/missing").is_none());
    assert!(find_branch_pr(&JsonValue::Null, "x").is_none());
}

#[test]
fn gh_commands() {
    assert_eq!(
        pr_batch_command().join(" "),
        "gh pr list --state all --limit 12 --json headRefName,state,isDraft,url,createdAt,number"
    );
    assert_eq!(
        pr_branch_command("feature/missing").join(" "),
        "gh pr list --head feature/missing --state all --json state,isDraft,url,createdAt,number"
    );
    assert!(pr_lookup_needed("feature"));
    assert!(!pr_lookup_needed(""));
    assert!(!pr_lookup_needed("HEAD"));
    assert!(!pr_lookup_needed("DETACHED"));
}
