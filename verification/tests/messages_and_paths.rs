use easy_worktree::messages::{fatal_error, format_template, help_text, init_suggestion, is_japanese_lang, m0, m1, m2, msg, template, version_line};
use easy_worktree::paths::{
    base_worktree_path, expand_user, find_worktree, get_repository_name, get_worktree_names, get_wt_dir, get_wt_home_dir,
    same_path, path_starts_with, target_path_for_selection, worktree_name, worktrees_dir_for,
};

fn strings(v: &[&str]) -> Vec<String> {
    v.iter().map(|s| s.to_string()).collect()
}

#[test]
fn help_mentions_two_letter_aliases() {
    let expected = [
        "clone (cn)", "init (in)", "add (ad)", "list (li, ls)", "diff (di, df)", "config (cf)", "rm/remove", "clean (cl)",
        "setup (su)", "stash (st)", "pr add", "select (se, sl)", "current (cu, cur)", "co/checkout", "run (ru)",
        "completion (cm)", "doctor (dr)",
    ];
    for japanese in [false, true] {
        let text = help_text(japanese);
        for e in expected {
            assert!(text.contains(e), "{japanese} {e}");
        }
    }
}

#[test]
fn version_matches_package() {
    assert_eq!(version_line("0.2.24"), "easy-worktree version 0.2.24");
}

#[test]
fn templates_and_filling() {
    assert_eq!(template("error"), ("Error: {}", "エラー: {}"));
    assert_eq!(template("no-such-key"), ("", ""));
    assert_eq!(format_template("{} -> {}", &strings(&["a", "b"])), "a -> b");
    assert_eq!(format_template("{}", &strings(&["{}", "x"])), "x");
    assert_eq!(msg("unknown_key {}", &strings(&["v"]), false), "unknown_key v");
    assert_eq!(m0("fetching", true), "リモートから最新情報を取得中...");
    assert_eq!(m1("creating_worktree", "/p", false), "Creating worktree: /p");
    assert_eq!(m2("cloning", "u", "d", false), "Cloning: u -> d");
    assert_eq!(fatal_error("boom", false), "Error: boom");
}

#[test]
fn language_and_suggestion() {
    assert!(is_japanese_lang("ja_JP.UTF-8"));
    assert!(is_japanese_lang("JA"));
    assert!(!is_japanese_lang("en_US.UTF-8"));
    assert_eq!(init_suggestion(None, false), "Initialize wt config with: wt init");
    assert_eq!(init_suggestion(Some("/r.git"), false), "Initialize wt config with: wt --git-dir=/r.git init");
}

#[test]
fn global_paths_expand_home_directory() {
    assert_eq!(expand_user("~", "/home/u"), "/home/u");
    assert_eq!(expand_user("~/repo.git", "/home/u"), "/home/u/repo.git");
    assert_eq!(expand_user("/abs/~", "/home/u"), "/abs/~");
    assert_eq!(expand_user("~other", "/home/u"), "~other");
}

#[test]
fn repository_names() {
    assert_eq!(get_repository_name("https://github.com/a/b.git"), "b");
    assert_eq!(get_repository_name("git@github.com:a/b.git/"), "b");
    assert_eq!(get_repository_name("host:proj.git"), "host:proj");
    assert_eq!(get_repository_name("plain"), "plain");
}

#[test]
fn slash_worktree_names_are_preserved() {
    let paths = strings(&["/r", "/r/.worktrees/feature/topic", "/elsewhere/x"]);
    let names = get_worktree_names(&paths, "/r", "/r/.worktrees");
    assert_eq!(names, strings(&["main", "feature/topic", "x"]));
    assert_eq!(worktree_name("/r/.worktrees/a", "/r", "/r/.worktrees"), "a");
    assert_eq!(find_worktree(&names, &paths, "feature/topic", false), Some(1));
    assert_eq!(find_worktree(&names, &paths, "/elsewhere/x", true), Some(2));
    assert_eq!(find_worktree(&names, &paths, "/elsewhere/x", false), None);
}

#[test]
fn worktree_locations() {
    assert_eq!(worktrees_dir_for("/r", false, "", ".worktrees"), "/r/.worktrees");
    assert_eq!(worktrees_dir_for("/s/r.git", true, "/s/r/main", ".worktrees"), "/s/r/.worktrees");
    assert_eq!(worktrees_dir_for("/s/r.git", true, "/s/r/main", ""), "/s/r");
    assert_eq!(target_path_for_selection("/r", "main", false, "", ".worktrees"), "/r");
    assert_eq!(target_path_for_selection("/r", "a/b", false, "", ".worktrees"), "/r/.worktrees/a/b");
    assert_eq!(get_wt_home_dir("/r", false, None), Some("/r".to_string()));
    assert_eq!(get_wt_home_dir("/r", true, None), None);
    assert_eq!(get_wt_dir("/r"), "/r/.wt");
    assert_eq!(base_worktree_path("/s/app.git", "main"), "/s/app/main");
    assert!(same_path("/a/b", "/a/b/"));
    assert!(path_starts_with("/a/b/c", "/a/b"));
    assert!(!path_starts_with("/a/bc", "/a/b"));
}
