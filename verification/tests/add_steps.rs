use easy_worktree::add::{add_worktree_next, add_worktree_start, AddRequest, AddState, AddStep};
use easy_worktree::git::CmdResult;

fn ok(out: &str) -> CmdResult {
    CmdResult { stdout: out.to_string(), stderr: String::new(), status: 0 }
}

fn failed(err: &str) -> CmdResult {
    CmdResult { stdout: String::new(), stderr: err.to_string(), status: 1 }
}

fn request(branch: Option<&str>, base: Option<&str>) -> AddRequest {
    AddRequest {
        work_name: "feature1".to_string(),
        branch: branch.map(|b| b.to_string()),
        new_branch_base: base.map(|b| b.to_string()),
        worktree_path: "/repo/.worktrees/feature1".to_string(),
        japanese: false,
    }
}

fn run_parts(step: AddStep) -> (AddState, Vec<String>, Vec<String>) {
    match step {
        AddStep::Run { next, cmd, notes } => (next, cmd, notes),
        _ => panic!("expected a command"),
    }
}

fn words(v: &[&str]) -> Vec<String> {
    v.iter().map(|s| s.to_string()).collect()
}

#[test]
fn add_starts_by_fetching_every_remote() {
    let (state, cmd, notes) = run_parts(add_worktree_start(&request(None, None)));
    assert!(matches!(state, AddState::Fetching));
    assert_eq!(cmd, words(&["git", "fetch", "--all"]));
    assert_eq!(notes, words(&["Fetching latest information from remote..."]));
}

#[test]
fn add_failed_fetch_stops_with_error() {
    let step = add_worktree_next(&request(None, None), &AddState::Fetching, &failed("no remote\n"));
    match step {
        AddStep::Fail { text, line } => {
            assert_eq!(text, "Error: no remote");
            assert!(line);
        }
        _ => panic!("expected a failure"),
    }
}

#[test]
fn add_pulls_current_branch_when_upstream_exists() {
    let req = request(None, None);
    let (state, cmd, _) = run_parts(add_worktree_next(&req, &AddState::ReadingHead, &ok("main\n")));
    assert_eq!(cmd, words(&["git", "rev-parse", "--verify", "origin/main"]));
    let (state, cmd, _) = run_parts(add_worktree_next(&req, &state, &ok("abc\n")));
    assert!(matches!(state, AddState::Pulling));
    assert_eq!(cmd, words(&["git", "pull", "origin", "main"]));
}

#[test]
fn add_detected_base_does_not_track_upstream() {
    let req = request(None, None);
    let (state, cmd, _) = run_parts(add_worktree_next(&req, &AddState::Pulling, &ok("")));
    assert_eq!(cmd, words(&["git", "rev-parse", "--verify", "feature1"]));
    let (state, cmd, _) = run_parts(add_worktree_next(&req, &state, &failed("")));
    assert_eq!(cmd, words(&["git", "rev-parse", "--verify", "origin/feature1"]));
    let (state, cmd, _) = run_parts(add_worktree_next(&req, &state, &failed("")));
    assert_eq!(cmd, words(&["git", "symbolic-ref", "refs/remotes/origin/HEAD", "--short"]));
    let (state, cmd, notes) = run_parts(add_worktree_next(&req, &state, &ok("origin/main\n")));
    assert_eq!(
        cmd,
        words(&["git", "worktree", "add", "--no-track", "-b", "feature1", "/repo/.worktrees/feature1", "origin/main"])
    );
    assert_eq!(notes, words(&["Creating new branch 'feature1' from 'origin/main'"]));
    match add_worktree_next(&req, &state, &ok("")) {
        AddStep::Done { branch } => assert_eq!(branch, "feature1"),
        _ => panic!("expected success"),
    }
}

#[test]
fn add_candidates_then_head_then_failure() {
    let req = request(None, None);
    let mut state = AddState::ReadingOriginHead;
    let expected = ["origin/main", "origin/master", "main", "master"];
    for want in expected {
        let (next, cmd, _) = run_parts(add_worktree_next(&req, &state, &failed("")));
        assert_eq!(cmd, words(&["git", "rev-parse", "--verify", want]));
        state = next;
    }
    let (next, cmd, _) = run_parts(add_worktree_next(&req, &state, &failed("")));
    assert_eq!(cmd, words(&["git", "rev-parse", "--abbrev-ref", "HEAD"]));
    match add_worktree_next(&req, &next, &failed("")) {
        AddStep::Fail { text, line } => {
            assert_eq!(text, "Error: Could not find default branch (main/master)");
            assert!(line);
        }
        _ => panic!("expected a failure"),
    }
}

#[test]
fn add_existing_remote_branch_creates_tracking_branch() {
    let req = request(Some("origin/topic"), None);
    let (state, cmd, _) = run_parts(add_worktree_next(&req, &AddState::Pulling, &ok("")));
    assert_eq!(cmd, words(&["git", "remote"]));
    let (state, cmd, _) = run_parts(add_worktree_next(&req, &state, &ok("origin\nupstream\n")));
    assert_eq!(cmd, words(&["git", "rev-parse", "--verify", "topic"]));
    let (_, cmd, notes) = run_parts(add_worktree_next(&req, &state, &failed("")));
    assert_eq!(cmd, words(&["git", "worktree", "add", "-b", "topic", "/repo/.worktrees/feature1", "origin/topic"]));
    assert_eq!(
        notes,
        words(&["Creating worktree: /repo/.worktrees/feature1", "Creating tracking branch topic for origin/topic..."])
    );
}

#[test]
fn add_local_branch_is_reused() {
    let req = request(Some("origin/topic"), None);
    let (_, cmd, notes) = run_parts(add_worktree_next(&req, &AddState::CheckingShort, &ok("abc")));
    assert_eq!(cmd, words(&["git", "worktree", "add", "/repo/.worktrees/feature1", "topic"]));
    assert_eq!(notes[1], "Local branch topic already exists. Using it instead of origin/topic.");
}

#[test]
fn add_new_branch_from_given_base() {
    let req = request(None, Some("develop"));
    let (state, cmd, notes) = run_parts(add_worktree_next(&req, &AddState::ReadingHead, &failed("")));
    assert!(matches!(state, AddState::Creating(_)));
    assert_eq!(cmd, words(&["git", "worktree", "add", "-b", "feature1", "/repo/.worktrees/feature1", "develop"]));
    assert_eq!(notes, words(&["Creating new branch 'feature1' from 'develop'"]));
}

#[test]
fn add_creation_failure_reports_git_error_raw() {
    let req = request(None, None);
    match add_worktree_next(&req, &AddState::Creating("feature1".to_string()), &failed("fatal: oops\n")) {
        AddStep::Fail { text, line } => {
            assert_eq!(text, "fatal: oops\n");
            assert!(!line);
        }
        _ => panic!("expected a failure"),
    }
}
