use easy_worktree::git::{
    check_failure, first_word, get_default_branch, get_default_branch_for_bare_git_dir, get_worktree_entries, has_remote,
    is_bare_repository, parse_merged_branches, parse_shortstat_count, parse_worktree_info, prepare_command, CmdResult, Probe,
};

fn strings(v: &[&str]) -> Vec<String> {
    v.iter().map(|s| s.to_string()).collect()
}

fn result(status: i32, out: &str) -> CmdResult {
    CmdResult { stdout: out.to_string(), stderr: "bad\n".to_string(), status }
}

const PORCELAIN: &str = "worktree /r\nHEAD 1111\nbranch refs/heads/main\n\nworktree /r/.worktrees/x\nHEAD 2222\ndetached\n\nworktree /r.git\nbare\n";

#[test]
fn porcelain_entries() {
    let es = get_worktree_entries(PORCELAIN);
    assert_eq!(es.len(), 3);
    assert_eq!(es[0].path, "/r");
    assert_eq!(es[0].branch, Some("main".to_string()));
    assert!(!es[0].is_bare);
    assert_eq!(es[1].branch, None);
    assert!(es[2].is_bare);
}

#[test]
fn porcelain_infos() {
    let ws = parse_worktree_info(PORCELAIN);
    assert_eq!(ws.len(), 3);
    assert_eq!(ws[0].head, Some("1111".to_string()));
    assert_eq!(ws[0].branch, "main");
    assert_eq!(ws[1].branch, "DETACHED");
    assert_eq!(ws[2].branch, "N/A");
    assert!(!ws[0].is_clean);
}

#[test]
fn global_git_dir_is_added_to_git_commands() {
    let cmd = strings(&["git", "status"]);
    assert_eq!(prepare_command(&cmd, Some("/r.git"), true), Some(strings(&["git", "--git-dir=/r.git", "status"])));
    assert_eq!(prepare_command(&cmd, Some("/r.git"), false), Some(cmd.clone()));
    let named = strings(&["git", "--git-dir=/x", "status"]);
    assert_eq!(prepare_command(&named, Some("/r.git"), true), Some(named.clone()));
    assert_eq!(prepare_command(&strings(&["ls"]), Some("/r.git"), true), Some(strings(&["ls"])));
    assert_eq!(prepare_command(&strings(&[]), None, true), None);
}

#[test]
fn checked_failures_and_bare() {
    assert_eq!(check_failure(&result(1, ""), true), Some("bad".to_string()));
    assert_eq!(check_failure(&result(1, ""), false), None);
    assert!(is_bare_repository(&result(0, "TRUE\n")));
    assert!(!is_bare_repository(&result(0, "false\n")));
    assert!(!is_bare_repository(&result(1, "true")));
}

#[test]
fn default_branch_probe() {
    match get_default_branch(&vec![]) {
        Probe::Run(c) => assert_eq!(c, strings(&["git", "rev-parse", "--abbrev-ref", "origin/HEAD"])),
        _ => panic!(),
    }
    match get_default_branch(&vec![result(0, "origin/develop\n")]) {
        Probe::Done(b) => assert_eq!(b, Some("develop".to_string())),
        _ => panic!(),
    }
    match get_default_branch(&vec![result(1, ""), result(1, ""), result(0, "")]) {
        Probe::Done(b) => assert_eq!(b, Some("master".to_string())),
        _ => panic!(),
    }
    match get_default_branch(&vec![result(1, ""), result(1, ""), result(1, ""), result(1, "")]) {
        Probe::Done(b) => assert_eq!(b, None),
        _ => panic!(),
    }
}

#[test]
fn bare_default_branch_probe() {
    match get_default_branch_for_bare_git_dir("/r.git", &vec![result(1, "")]) {
        Probe::Run(c) => assert_eq!(c, strings(&["git", "--git-dir=/r.git", "show-ref", "--verify", "refs/heads/main"])),
        _ => panic!(),
    }
    match get_default_branch_for_bare_git_dir("/r.git", &vec![result(0, "refs/remotes/origin/trunk\n")]) {
        Probe::Done(b) => assert_eq!(b, Some("trunk".to_string())),
        _ => panic!(),
    }
    match get_default_branch_for_bare_git_dir("/r.git", &vec![result(1, ""), result(1, ""), result(1, ""), result(0, "refs/heads/dev\n")]) {
        Probe::Done(b) => assert_eq!(b, Some("dev".to_string())),
        _ => panic!(),
    }
}

#[test]
fn shortstat_and_merged() {
    let s = " 3 files changed, 12 insertions(+), 1 deletion(-)";
    assert_eq!(parse_shortstat_count(s, "insertion"), 12);
    assert_eq!(parse_shortstat_count(s, "deletion"), 1);
    assert_eq!(parse_shortstat_count("", "deletion"), 0);
    assert_eq!(parse_merged_branches("* main\n  done\n+ other\n\n"), strings(&["main", "done", "other"]));
    assert!(has_remote("origin\nupstream\n", "upstream"));
    assert!(!has_remote("origin\n", "feature"));
    assert_eq!(first_word("  one two"), "one");
    assert_eq!(first_word(""), "");
}
