use easy_worktree::commands::{
    base_worktree_command, clone_command, diff_git_args, diff_target, diff_tool_command, has_changes, parse_clone_args,
    parse_config_args, parse_pr_args, pr_branch, pr_fetch_command, pr_view_command, stash_base, stash_push_command,
    trimmed_output, PrAction, PrArgsError,
};
use easy_worktree::digest::{hex_string, metadata_file_name};
use easy_worktree::git::{CmdResult, WorktreeEntry};
use easy_worktree::pr::JsonValue;
use easy_worktree::repo::{
    add_missing_entries, assemble_config, base_dir_from_git_dir, cmd_init, config_repo_name, get_preferred_non_bare_worktree,
    pick_setup_source, setup_source_start, InitPlan, SourceStep,
};
use easy_worktree::config::{config_get_str, config_setup_files, ConfigValue};

fn strings(v: &[&str]) -> Vec<String> {
    v.iter().map(|s| s.to_string()).collect()
}

fn result(status: i32, out: &str) -> CmdResult {
    CmdResult { stdout: out.to_string(), stderr: String::new(), status }
}

fn entry(path: &str, branch: Option<&str>, bare: bool) -> WorktreeEntry {
    WorktreeEntry { path: path.to_string(), branch: branch.map(|b| b.to_string()), is_bare: bare }
}

#[test]
fn sha1_digest_and_hex() {
    assert_eq!(hex_string(&vec![0xab, 0x01, 0x00, 0xff]), "ab0100ff");
    assert_eq!(metadata_file_name("abc"), "worktree_metadata_a9993e364706816a.toml");
    assert_eq!(metadata_file_name("/home/u/repo/.git"), "worktree_metadata_9e283f419571a933.toml");
}

#[test]
fn preferred_worktree_on_default_branch_first() {
    let es = vec![entry("/r.git", None, true), entry("/w/a", Some("dev"), false), entry("/w/m", Some("main"), false)];
    let resolved = strings(&["/r.git", "/w/a", "/w/m"]);
    assert_eq!(
        get_preferred_non_bare_worktree(Some("main"), &es, &resolved, &vec![true, true, true]),
        Some("/w/m".to_string())
    );
    assert_eq!(
        get_preferred_non_bare_worktree(Some("main"), &es, &resolved, &vec![true, true, false]),
        Some("/w/a".to_string())
    );
    assert_eq!(get_preferred_non_bare_worktree(None, &es, &resolved, &vec![true, false, false]), None);
}

#[test]
fn base_dir_of_git_dir() {
    assert_eq!(base_dir_from_git_dir("/repo/.git"), Some("/repo".to_string()));
    assert_eq!(base_dir_from_git_dir("/srv/repo.git"), Some("/srv/repo.git".to_string()));
}

#[test]
fn init_plan() {
    assert!(matches!(cmd_init(None, false, false), InitPlan::Fail(m) if m == "Error: Current directory is not a git repository"));
    assert!(matches!(cmd_init(Some("/r"), true, false), InitPlan::Setup { ensure_base_worktree: true }));
    assert!(matches!(cmd_init(Some("/r"), false, false), InitPlan::Setup { ensure_base_worktree: false }));
}

#[test]
fn ignore_entries_are_added_once() {
    let entries = strings(&[".wt/", ".worktrees/"]);
    assert_eq!(add_missing_entries("target", &entries), ("target\n.wt/\n.worktrees/\n".to_string(), true));
    assert_eq!(add_missing_entries(".wt/\n.worktrees/\n", &entries), (".wt/\n.worktrees/\n".to_string(), false));
    assert_eq!(add_missing_entries("", &entries), (".wt/\n.worktrees/\n".to_string(), true));
}

#[test]
fn config_is_assembled_over_defaults() {
    assert_eq!(config_repo_name("/srv/project.git"), "project");
    assert_eq!(config_repo_name("/srv/project"), "project");
    let project = ConfigValue::Table(vec![("worktrees_dir".to_string(), ConfigValue::Str("../{repo_name}-wt".to_string()))]);
    let global = ConfigValue::Table(vec![("setup_files".to_string(), ConfigValue::Str(".envrc".to_string()))]);
    let c = assemble_config(vec![project, global], "project");
    assert_eq!(config_get_str(&c, "worktrees_dir", "x"), "../project-wt");
    assert_eq!(config_setup_files(&c), strings(&[".envrc"]));
}

#[test]
fn setup_source_steps() {
    assert!(matches!(setup_source_start(Some("/abs"), "/r", true), SourceStep::Use(p) if p == "/abs"));
    assert!(matches!(setup_source_start(Some("rel"), "/r", true), SourceStep::Resolve(p) if p == "/r/rel"));
    assert!(matches!(setup_source_start(Some(""), "/r", false), SourceStep::Use(p) if p == "/r"));
    assert!(matches!(setup_source_start(None, "/r", true), SourceStep::Search));
    let es = vec![entry("/r.git", None, true), entry("/w/new", Some("x"), false), entry("/w/m", Some("main"), false)];
    let resolved = strings(&["/r.git", "/w/new", "/w/m"]);
    let exists = vec![true, true, true];
    assert_eq!(pick_setup_source("/w/new", Some("/w/m"), &es, &resolved, &exists), Some("/w/m".to_string()));
    assert_eq!(pick_setup_source("/w/m", Some("/w/m"), &es, &resolved, &exists), Some("/w/new".to_string()));
}

#[test]
fn diff_arguments() {
    let names = strings(&["main", "dev", "dev"]);
    let (t, rest) = diff_target(&strings(&["--stat", "dev", "main"]), &names);
    assert_eq!(t, Some(2));
    assert_eq!(rest, strings(&["--stat", "main"]));
    assert_eq!(diff_tool_command("lumen", &rest), Some(strings(&["lumen", "diff", "--watch", "--stat", "main"])));
    assert_eq!(diff_tool_command("git", &rest), None);
    assert_eq!(diff_git_args(&strings(&[]), Some("main"), &result(0, "dev\n")), strings(&["diff", "main"]));
    assert_eq!(diff_git_args(&strings(&[]), Some("main"), &result(0, "main\n")), strings(&["diff"]));
    assert_eq!(diff_git_args(&strings(&["x"]), Some("main"), &result(0, "dev\n")), strings(&["diff", "x"]));
}

#[test]
fn pr_arguments_and_commands() {
    assert!(matches!(parse_pr_args(&strings(&["add"])), Err(PrArgsError::Usage)));
    assert!(matches!(parse_pr_args(&strings(&["add", "12a"])), Err(PrArgsError::NotDigits(n)) if n == "12a"));
    match parse_pr_args(&strings(&["co", "123"])) {
        Ok(p) => {
            assert!(p.action == PrAction::Checkout);
            assert_eq!(p.number, "123");
        }
        Err(_) => panic!("expected arguments"),
    }
    assert_eq!(pr_view_command("123").join(" "), "gh pr view 123 --json number,headRefName");
    let view = JsonValue::Object(vec![("headRefName".to_string(), JsonValue::Str("feature/pr-branch".to_string()))]);
    assert_eq!(pr_branch(&view, "123"), "feature/pr-branch");
    assert_eq!(pr_branch(&JsonValue::Null, "123"), "pr-123");
    assert_eq!(pr_fetch_command("123", "feature/pr-branch").join(" "), "git fetch origin pull/123/head:feature/pr-branch");
}

#[test]
fn stash_steps() {
    assert_eq!(stash_push_command("x").join("|"), "git|stash|push|-u|-m|easy-worktree stash for x");
    assert!(has_changes(&result(0, " M a.txt\n")));
    assert!(!has_changes(&result(0, "\n")));
    assert_eq!(stash_base(Some("dev"), &result(1, "")), Some("dev".to_string()));
    assert_eq!(stash_base(None, &result(0, "main\n")), Some("main".to_string()));
    assert_eq!(stash_base(None, &result(1, "")), None);
    assert_eq!(trimmed_output(&result(0, " /r/.git \n")), Some("/r/.git".to_string()));
    assert_eq!(trimmed_output(&result(0, "  ")), None);
}

#[test]
fn clone_arguments() {
    let c = parse_clone_args(&strings(&["--bare", "https://example.com/org/tool.git"])).unwrap();
    assert!(c.bare);
    assert_eq!(c.dest, "tool.git");
    assert_eq!(clone_command(&c), strings(&["git", "clone", "--bare", "https://example.com/org/tool.git", "tool.git"]));
    let d = parse_clone_args(&strings(&["git@host:org/app.git", "dest"])).unwrap();
    assert!(!d.bare);
    assert_eq!(d.dest, "dest");
    assert!(parse_clone_args(&strings(&["--bare"])).is_none());
    assert_eq!(
        base_worktree_command("/s/app.git", "/s/app/main", "main"),
        strings(&["git", "--git-dir=/s/app.git", "worktree", "add", "/s/app/main", "main"])
    );
}

#[test]
fn config_arguments() {
    let c = parse_config_args(&strings(&["--local", "diff.tool", "--global", "tig"]));
    assert!(c.global && c.local);
    assert_eq!(c.rest, strings(&["diff.tool", "tig"]));
}

#[test]
fn ignore_update_twice_is_update_once() {
    let entries = strings(&["post-add.local", "pre-rm.local", "last_selection"]);
    let (once, _) = add_missing_entries("node_modules\npre-rm.local", &entries);
    assert_eq!(once, "node_modules\npre-rm.local\npost-add.local\nlast_selection\n");
    let (twice, changed) = add_missing_entries(&once, &entries);
    assert_eq!(twice, once);
    assert!(!changed);
}
