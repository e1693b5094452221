use easy_worktree::select::{
    current_selection, current_worktree, fzf_input, last_selection_target, levenshtein, numbered_menu,
    resolve_choice, selection_listing, session_prompt, session_shell_args, suggest_worktree_name, switch_record,
};

fn strings(v: &[&str]) -> Vec<String> {
    v.iter().map(|s| s.to_string()).collect()
}

#[test]
fn levenshtein_known_values() {
    assert_eq!(levenshtein("kitten", "sitting"), 3);
    assert_eq!(levenshtein("", "abc"), 3);
    assert_eq!(levenshtein("abc", ""), 3);
    assert_eq!(levenshtein("flaw", "lawn"), 2);
    assert_eq!(levenshtein("日本語", "日本"), 1);
}

#[test]
fn levenshtein_zero_only_for_equal_texts() {
    assert_eq!(levenshtein("feature", "feature"), 0);
    assert!(levenshtein("feature", "featurf") > 0);
}

#[test]
fn levenshtein_is_symmetric() {
    for (a, b) in [("main", "mian"), ("develop", "dev"), ("x", "yz")] {
        assert_eq!(levenshtein(a, b), levenshtein(b, a));
    }
}

#[test]
fn suggestion_lists_nearest_names_first() {
    let names = strings(&["main", "feature-a", "feature-b", "fix", "feature-c", "feature-d"]);
    assert_eq!(
        suggest_worktree_name("feature-x", &names, false),
        Some("Did you mean: feature-a, feature-b, feature-c".to_string())
    );
    assert_eq!(suggest_worktree_name("mian", &names, false), Some("Did you mean: main".to_string()));
}

#[test]
fn suggestion_falls_back_to_all_names() {
    let names = strings(&["main", "alpha"]);
    assert_eq!(
        suggest_worktree_name("zzzzzzzzzz", &names, false),
        Some("Available worktrees: main, alpha".to_string())
    );
    assert_eq!(suggest_worktree_name("x", &strings(&[]), false), None);
}

#[test]
fn numbered_menu_marks_current() {
    let names = strings(&["main", "fallback-one"]);
    assert_eq!(numbered_menu(&names, Some("main")), strings(&["1) main (*)", "2) fallback-one"]));
}

#[test]
fn choice_prefers_exact_name_over_number() {
    let names = strings(&["main", "1", "other"]);
    assert_eq!(resolve_choice("1\n", &names), Some("1".to_string()));
    assert_eq!(resolve_choice(" 3 ", &names), Some("other".to_string()));
    assert_eq!(resolve_choice("4", &names), None);
    assert_eq!(resolve_choice("0", &names), None);
    assert_eq!(resolve_choice("nope", &names), None);
}

#[test]
fn listing_and_fzf_input_mark_current() {
    let names = strings(&["main", "dev"]);
    assert_eq!(selection_listing(&names, Some("dev")), strings(&["main", "\x1b[33m\x1b[1mdev\x1b[0m"]));
    assert_eq!(fzf_input(&names, Some("main")), "main (*)\ndev\n");
    assert_eq!(fzf_input(&names, None), "main\ndev\n");
}

#[test]
fn current_selection_finds_enclosing_worktree() {
    let paths = strings(&["/r", "/r/.worktrees/feature/x"]);
    assert_eq!(current_selection("/r/src", &paths, "/r", "/r/.worktrees"), Some("main".to_string()));
    assert_eq!(current_selection("/elsewhere", &paths, "/r", "/r/.worktrees"), None);
    assert_eq!(
        current_worktree("/r/.worktrees/feature/x", &paths, "/r", "/r/.worktrees"),
        Some("feature/x".to_string())
    );
    assert_eq!(current_worktree("/r/.worktrees", &paths, "/r", "/r/.worktrees"), None);
}

#[test]
fn last_selection_and_switch_record() {
    assert_eq!(last_selection_target("  dev \n"), Some("dev".to_string()));
    assert_eq!(last_selection_target(" \n"), None);
    assert_eq!(switch_record("dev", Some("main")), (Some("main".to_string()), true));
    assert_eq!(switch_record("dev", Some("dev")), (None, false));
    assert_eq!(switch_record("dev", None), (None, true));
}

#[test]
fn session_shell_setup() {
    assert_eq!(session_prompt("dev", None), "(wt:dev) $ ");
    assert_eq!(session_prompt("dev", Some("% ")), "(wt:dev) % ");
    let cmd = strings(&["make", "test"]);
    assert_eq!(session_shell_args(&cmd, "/bin/zsh", true), strings(&["-c", "make test; exec /bin/zsh"]));
    assert_eq!(session_shell_args(&cmd, "cmd.exe", false), strings(&["/K", "make test"]));
}

#[test]
fn edit_distance_length_gap_and_triangle() {
    let words = ["kitten", "sitting", "mitten", "", "sit"];
    for a in words {
        for b in words {
            let d = levenshtein(a, b);
            assert!(d >= a.chars().count().abs_diff(b.chars().count()));
            for c in words {
                assert!(levenshtein(a, c) <= d + levenshtein(b, c));
            }
        }
    }
    assert_eq!(levenshtein("kitten", "sitting"), 3);
}
