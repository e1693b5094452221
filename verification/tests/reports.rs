use easy_worktree::config::{default_config, ConfigValue};
use easy_worktree::doctor::{active_config_lines, config_file_lines, debug_strings, doctor_tools, git_line, tool_line, ConfigFileState, DoctorEntry};
use easy_worktree::hooks::{hook_env, hook_file, hook_named, hook_template, is_executable_mode, root_ignores, wt_ignores, wt_readme, Hook};

fn strings(v: &[&str]) -> Vec<String> {
    v.iter().map(|s| s.to_string()).collect()
}

#[test]
fn doctor_tool_lines() {
    assert_eq!(doctor_tools().len(), 4);
    assert_eq!(tool_line("fzf", Some(("/usr/bin/fzf", "0.44.1 (brew)\nmore\n")), "Optional"), "fzf: 0.44.1 (brew) (/usr/bin/fzf)");
    assert_eq!(tool_line("Tig", None, "Optional, used for UI diffs"), "Tig: Not found (Optional, used for UI diffs)");
    assert_eq!(git_line(Some(("/usr/bin/git", "git version 2.43.0\n"))), "Git: git version 2.43.0 (/usr/bin/git)");
    assert_eq!(git_line(None), "Git: Not found ❌");
}

#[test]
fn doctor_active_config() {
    let lines = active_config_lines(&default_config());
    assert_eq!(
        lines,
        strings(&[
            "Active Config:",
            "  - worktrees_dir: .worktrees",
            "  - setup_files: [\".env\"]",
            "  - setup_source_dir: Auto-detect",
            "  - diff.tool: git",
        ])
    );
    assert_eq!(debug_strings(&strings(&["a\"b", "c"])), "[\"a\\\"b\", \"c\"]");
}

#[test]
fn doctor_config_file_report() {
    assert_eq!(config_file_lines("Local Config", "/p", &ConfigFileState::Missing), strings(&["Local Config: /p (Not found)"]));
    assert_eq!(config_file_lines("Project Config", "/p", &ConfigFileState::Empty), strings(&["Project Config: /p (Exists)", "  (Empty)"]));
    let entries = vec![
        DoctorEntry { key: "color".into(), shown: "true".into(), table: None },
        DoctorEntry {
            key: "diff".into(),
            shown: String::new(),
            table: Some(vec![("tool".into(), "\"tig\"".into()), ("pager".into(), "\"less\"".into())]),
        },
        DoctorEntry { key: "worktrees_dir".into(), shown: "\"wt\"".into(), table: None },
    ];
    assert_eq!(
        config_file_lines("Global Config", "/g", &ConfigFileState::Entries(entries)),
        strings(&[
            "Global Config: /g (Exists)",
            "  ⚠️  Warning: Unknown configuration key 'color'",
            "  - diff:",
            "    - tool: \"tig\"",
            "    ⚠️  Warning: Unknown key 'diff.pager'",
            "  - worktrees_dir: \"wt\"",
        ])
    );
    assert_eq!(
        config_file_lines("G", "/g", &ConfigFileState::Invalid("bad".into())),
        strings(&["G: /g (Exists)", "  Error reading config: bad"])
    );
    let _ = ConfigValue::Bool(true);
}

#[test]
fn hook_names_and_environment() {
    assert_eq!(hook_file(Hook::PreRm), "pre-rm");
    assert!(hook_named("post-add") == Some(Hook::PostAdd));
    assert!(hook_named("other").is_none());
    assert!(hook_template(Hook::PostAdd).starts_with("#!/bin/bash\n# Post-add hook"));
    assert!(hook_template(Hook::PreRm).contains("WT_ACTION         - Action name (rm)"));
    let env = hook_env(Hook::PreRm, "/r/.worktrees/x", "x", "/r", None);
    let pairs: Vec<(&str, &str)> = env.iter().map(|(k, v)| (k.as_str(), v.as_str())).collect();
    assert_eq!(
        pairs,
        vec![("WT_WORKTREE_PATH", "/r/.worktrees/x"), ("WT_WORKTREE_NAME", "x"), ("WT_BASE_DIR", "/r"), ("WT_BRANCH", "x"), ("WT_ACTION", "rm")]
    );
    assert!(is_executable_mode(0o755));
    assert!(!is_executable_mode(0o644));
}

#[test]
fn ignore_lists_and_readme() {
    assert_eq!(root_ignores(".worktrees"), strings(&[".wt/", ".worktrees/"]));
    assert_eq!(wt_ignores(), strings(&["post-add.local", "pre-rm.local", "config.local.toml", "last_selection"]));
    assert!(wt_readme(false).starts_with("# easy-worktree Hooks"));
}
