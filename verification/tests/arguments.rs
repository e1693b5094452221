use easy_worktree::cli::{
    bash_completion_script, completion_output, confirmed, has_either, parse_add_args, parse_global_args,
    parse_remove_args, remove_command, resolve_command, setup_steps, Command, GlobalAction, GlobalOptions,
};

fn strings(v: &[&str]) -> Vec<String> {
    v.iter().map(|s| s.to_string()).collect()
}

#[test]
fn global_git_dir_is_remembered() {
    let mut g = GlobalOptions::new();
    assert_eq!(g.global_git_dir(), None);
    g.set_global_git_dir("/repo/.git".to_string());
    assert_eq!(g.global_git_dir(), Some("/repo/.git".to_string()));
}

#[test]
fn global_args_are_taken_out_in_order() {
    let r = parse_global_args(&strings(&["-C", "/tmp", "--git-dir=/r.git", "list", "--git-dir", "/s", "-q"]));
    assert_eq!(r.args, strings(&["list", "-q"]));
    assert!(r.error.is_none());
    assert_eq!(r.actions.len(), 3);
    assert!(matches!(&r.actions[0], GlobalAction::ChangeDir(d) if d == "/tmp"));
    assert!(matches!(&r.actions[1], GlobalAction::SetGitDir(d) if d == "/r.git"));
    assert!(matches!(&r.actions[2], GlobalAction::SetGitDir(d) if d == "/s"));
}

#[test]
fn global_args_missing_values() {
    assert_eq!(parse_global_args(&strings(&["--git-dir="])).error, Some("Missing value for --git-dir".to_string()));
    assert_eq!(parse_global_args(&strings(&["list", "--git-dir"])).error, Some("Missing value for --git-dir".to_string()));
    let r = parse_global_args(&strings(&["--git-dir=/a", "-C"]));
    assert_eq!(r.error, Some("Missing value for -C".to_string()));
    assert_eq!(r.actions.len(), 1);
}

#[test]
fn two_letter_aliases_resolve() {
    let pairs = [
        ("cn", Command::Clone),
        ("in", Command::Init),
        ("ad", Command::Add),
        ("li", Command::List),
        ("ls", Command::List),
        ("di", Command::Diff),
        ("df", Command::Diff),
        ("cf", Command::Config),
        ("rm", Command::Remove),
        ("remove", Command::Remove),
        ("cl", Command::Clean),
        ("su", Command::Setup),
        ("ho", Command::Hook),
        ("st", Command::Stash),
        ("pr", Command::Pr),
        ("se", Command::Select),
        ("sl", Command::Select),
        ("cu", Command::Current),
        ("cur", Command::Current),
        ("co", Command::Checkout),
        ("checkout", Command::Checkout),
        ("ru", Command::Run),
        ("cm", Command::Completion),
        ("dr", Command::Doctor),
        ("--help", Command::Help),
        ("-v", Command::Version),
        ("prune", Command::Passthrough),
    ];
    for (word, command) in pairs {
        assert!(resolve_command(word) == command, "{word}");
    }
}

#[test]
fn add_args_with_flags_and_select() {
    let a = parse_add_args(&strings(&["feat", "--no-setup", "dev", "--skip-hook", "--select", "vim", "."]));
    assert_eq!(a.name, Some("feat".to_string()));
    assert_eq!(a.branch, Some("dev".to_string()));
    assert!(a.skip_setup);
    assert!(a.skip_hook);
    assert!(a.select);
    assert_eq!(a.command, Some(strings(&["vim", "."])));
}

#[test]
fn add_args_name_from_select_command() {
    let a = parse_add_args(&strings(&["--select", "feat"]));
    assert_eq!(a.name, Some("feat".to_string()));
    assert_eq!(a.command, None);
    let b = parse_add_args(&strings(&[]));
    assert_eq!(b.name, None);
    assert!(!b.select);
}

#[test]
fn setup_and_hook_flags_table() {
    assert_eq!(setup_steps(false, false), (true, true));
    assert_eq!(setup_steps(false, true), (true, false));
    assert_eq!(setup_steps(true, false), (false, false));
}

#[test]
fn remove_args_and_command() {
    let r = parse_remove_args(&strings(&["--force", "--no-hook", "old", "-f", "other"]));
    assert_eq!(r.flags, strings(&["--force", "-f"]));
    assert!(r.skip_hook);
    assert_eq!(r.name, Some("old".to_string()));
    assert_eq!(
        remove_command(&r.flags, "/r/.worktrees/old"),
        strings(&["git", "worktree", "remove", "--force", "-f", "/r/.worktrees/old"])
    );
    assert_eq!(parse_remove_args(&strings(&["-f"])).name, None);
}

#[test]
fn completion_for_each_shell() {
    let bash = completion_output(&strings(&["bash"])).unwrap();
    assert!(bash.contains("complete -F _wt_completions wt"));
    assert_eq!(bash, bash_completion_script());
    let zsh = completion_output(&strings(&["zsh"])).unwrap();
    assert!(zsh.starts_with("autoload -U +X bashcompinit && bashcompinit\n"));
    assert!(zsh.ends_with("compdef _wt_completions wt\n"));
    assert_eq!(completion_output(&strings(&["fish"])), None);
    assert_eq!(completion_output(&strings(&["bash", "zsh"])), None);
}

#[test]
fn confirmation_answers() {
    assert!(confirmed("y\n"));
    assert!(confirmed(" YES "));
    assert!(!confirmed("no"));
    assert!(!confirmed(""));
}

#[test]
fn either_flag_is_found() {
    assert!(has_either(&strings(&["a", "-y"]), "--yes", "-y"));
    assert!(!has_either(&strings(&["a"]), "--yes", "-y"));
}
