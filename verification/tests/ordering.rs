use easy_worktree::clock::Timestamp;
use easy_worktree::git::WorktreeInfo;
use easy_worktree::listing::{changes_cell, list_rows, list_table, parse_list_args, sort_worktrees, ListArgsError, ListRequest, SortKey};
use easy_worktree::order::{lex_less, stable_sort_by_keys};

fn info(path: &str, branch: &str, created: Option<i64>) -> WorktreeInfo {
    WorktreeInfo {
        path: path.to_string(),
        head: None,
        branch: branch.to_string(),
        created: created.map(|s| Timestamp { secs: s, nanos: 0 }),
        last_commit: None,
        is_clean: true,
        has_untracked: false,
        insertions: 0,
        deletions: 0,
        pr_info: String::new(),
        reason: String::new(),
        missing: false,
    }
}

fn strings(v: &[&str]) -> Vec<String> {
    v.iter().map(|s| s.to_string()).collect()
}

#[test]
fn lex_order_puts_prefix_first() {
    assert!(lex_less(&vec![1, 2], &vec![1, 2, 0]));
    assert!(!lex_less(&vec![1, 2], &vec![1, 2]));
    assert!(lex_less(&vec![0], &vec![1, 5, 5]));
}

#[test]
fn stable_sort_keeps_equal_keys_in_order() {
    let mut items = vec!["a", "b", "c", "d"];
    let mut keys = vec![vec![2], vec![1], vec![2], vec![1]];
    stable_sort_by_keys(&mut items, &mut keys);
    assert_eq!(items, vec!["b", "d", "a", "c"]);
    assert_eq!(keys, vec![vec![1], vec![1], vec![2], vec![2]]);
}

#[test]
fn sort_by_created_descending_reverses_ties() {
    let mut ws = vec![
        info("/r/.worktrees/a", "a", Some(10)),
        info("/r/.worktrees/b", "b", None),
        info("/r/.worktrees/c", "c", Some(5)),
        info("/r/.worktrees/d", "d", Some(10)),
    ];
    sort_worktrees(&mut ws, SortKey::Created, false);
    let order: Vec<&str> = ws.iter().map(|w| w.branch.as_str()).collect();
    assert_eq!(order, vec!["b", "c", "a", "d"]);
    let mut fresh = vec![
        info("/r/.worktrees/a", "a", Some(10)),
        info("/r/.worktrees/b", "b", None),
        info("/r/.worktrees/c", "c", Some(5)),
        info("/r/.worktrees/d", "d", Some(10)),
    ];
    sort_worktrees(&mut fresh, SortKey::Created, true);
    let order: Vec<&str> = fresh.iter().map(|w| w.branch.as_str()).collect();
    assert_eq!(order, vec!["d", "a", "c", "b"]);
}

#[test]
fn sort_by_branch_ignores_case() {
    let mut ws = vec![info("/r/x", "Zeta", None), info("/r/y", "alpha", None), info("/r/z", "Beta", None)];
    sort_worktrees(&mut ws, SortKey::Branch, false);
    let order: Vec<&str> = ws.iter().map(|w| w.branch.as_str()).collect();
    assert_eq!(order, vec!["alpha", "Beta", "Zeta"]);
}

#[test]
fn sort_by_name_uses_directory_names() {
    let mut ws = vec![
        info("/repo/.worktrees/a/zzz", "x", None),
        info("/repo", "y", None),
        info("/repo/.worktrees/Main2", "z", None),
    ];
    sort_worktrees(&mut ws, SortKey::Name, false);
    let order: Vec<&str> = ws.iter().map(|w| w.branch.as_str()).collect();
    assert_eq!(order, vec!["z", "y", "x"]);
}

#[test]
fn list_args_defaults_and_flags() {
    match parse_list_args(&strings(&["--pr", "-q", "--sort", "name", "--asc"])) {
        Ok(ListRequest::Show(o)) => {
            assert!(o.quiet);
            assert!(o.show_pr);
            assert!(o.sort == SortKey::Name);
            assert!(!o.descending);
        }
        _ => panic!("expected options"),
    }
    match parse_list_args(&strings(&[])) {
        Ok(ListRequest::Show(o)) => {
            assert!(o.sort == SortKey::Created);
            assert!(o.descending);
        }
        _ => panic!("expected options"),
    }
    assert!(matches!(parse_list_args(&strings(&["--sort", "x", "-h"])), Ok(ListRequest::Help)));
}

#[test]
fn list_args_errors() {
    assert!(matches!(parse_list_args(&strings(&["--sort"])), Err(ListArgsError::MissingSortValue)));
    match parse_list_args(&strings(&["--sort", "size"])) {
        Err(ListArgsError::InvalidSortKey(k)) => assert_eq!(k, "size"),
        _ => panic!("expected an invalid key"),
    }
}

#[test]
fn changes_cell_formats() {
    let mut w = info("/r/a", "a", None);
    assert_eq!(changes_cell(&w), ("-".to_string(), 1));
    w.insertions = 12;
    w.deletions = 3;
    w.has_untracked = true;
    assert_eq!(
        changes_cell(&w),
        ("\x1b[32m+12\x1b[0m \x1b[31m-3\x1b[0m \x1b[90m??\x1b[0m".to_string(), 9)
    );
    w.missing = true;
    assert_eq!(changes_cell(&w), ("\x1b[31mmissing\x1b[0m".to_string(), 7));
}

#[test]
fn list_table_layout() {
    let ws = vec![info("/r", "main", None), info("/r/.worktrees/feature-1", "feature-1", None)];
    let now = Timestamp { secs: 1000, nanos: 0 };
    let rows = list_rows(&ws, "/r", "/r/.worktrees", now);
    let lines = list_table(&rows, false, false);
    assert_eq!(lines.len(), 4);
    assert_eq!(lines[0], "\x1b[1mWorktree    Branch      Created   Last Commit   Changes\x1b[0m");
    assert_eq!(lines[1], "-".repeat(55));
    assert_eq!(lines[2], "\x1b[36m(main)\x1b[0m      main        N/A       N/A           -        ");
    assert_eq!(lines[3], "feature-1   feature-1   N/A       N/A           -        ");
    let with_pr = list_table(&rows, true, false);
    assert!(with_pr[0].ends_with("   PR\x1b[0m"));
    assert_eq!(with_pr[1], "-".repeat(62));
    let ja = list_table(&rows, false, true);
    assert_eq!(ja.len(), 4);
}
