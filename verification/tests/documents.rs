use easy_worktree::clock::{parse_datetime, Timestamp};
use easy_worktree::commands::{config_document_text, config_outside_repo, config_value_text};
use easy_worktree::config::{config_file_update, config_key_get, copy_value, file_config, get_recorded_worktree_created, metadata_from_text, ConfigValue};
use easy_worktree::doctor::{config_file_state, ConfigFileState};
use easy_worktree::formats::{parse_json, parse_toml, render_toml};
use easy_worktree::pr::{pr_info_from_text, JsonValue};
use easy_worktree::repo::config_from_texts;
use easy_worktree::hooks::{hook_state_line, running_hook_line, Hook};
use easy_worktree::paths::{new_worktree_path, target_path_for_selection};

fn s(v: &str) -> ConfigValue {
    ConfigValue::Str(v.to_string())
}

#[test]
fn toml_reads_and_writes_a_document() {
    let v = parse_toml("worktrees_dir = \"wt\"\n[diff]\ntool = \"lumen\"\n").expect("valid TOML");
    assert!(matches!(config_key_get(&v, "diff.tool"), Some(ConfigValue::Str(t)) if t == "lumen"));
    assert!(parse_toml("this is = = not toml").is_none());
    let text = render_toml(&v);
    assert!(text.contains("worktrees_dir = \"wt\""));
    assert!(text.contains("[diff]"));
    let back = parse_toml(&text).expect("round trip");
    assert!(matches!(config_key_get(&back, "worktrees_dir"), Some(ConfigValue::Str(t)) if t == "wt"));
}

#[test]
fn config_from_texts_skips_what_does_not_read() {
    let texts = vec![
        Some("worktrees_dir = \"one\"".to_string()),
        Some("= broken".to_string()),
        None,
        Some("setup_source_dir = \"{repo_name}-src\"".to_string()),
    ];
    let (config, failed) = config_from_texts(&texts, "app");
    assert_eq!(failed, vec![false, true, true, false]);
    assert!(matches!(config_key_get(&config, "worktrees_dir"), Some(ConfigValue::Str(t)) if t == "one"));
    assert!(matches!(config_key_get(&config, "setup_source_dir"), Some(ConfigValue::Str(t)) if t == "app-src"));
}

#[test]
fn config_file_update_merges_into_the_file() {
    let updates = ConfigValue::Table(vec![("diff".to_string(), ConfigValue::Table(vec![("tool".to_string(), s("tig"))]))]);
    let text = config_file_update(Some("worktrees_dir = \"w\"\n"), updates);
    let v = parse_toml(&text).unwrap();
    assert!(matches!(config_key_get(&v, "worktrees_dir"), Some(ConfigValue::Str(t)) if t == "w"));
    assert!(matches!(config_key_get(&v, "diff.tool"), Some(ConfigValue::Str(t)) if t == "tig"));
    assert!(matches!(file_config(Some("= broken")), ConfigValue::Table(e) if e.is_empty()));
    assert!(matches!(file_config(None), ConfigValue::Table(e) if e.is_empty()));
}

#[test]
fn metadata_reads_from_its_text() {
    let m = metadata_from_text(Some("[[worktrees]]\npath = \"/r/a\"\ncreated_at = \"t1\"\n"));
    assert_eq!(get_recorded_worktree_created(&m, "/r/a"), Some("t1".to_string()));
    let empty = metadata_from_text(Some("not toml ="));
    assert_eq!(get_recorded_worktree_created(&empty, "/r/a"), None);
}

#[test]
fn config_values_print_as_wt_config_shows_them() {
    let v = parse_toml("[diff]\ntool = \"lumen\"\n").unwrap();
    assert_eq!(config_value_text(config_key_get(&v, "diff").unwrap(), "diff"), "[diff]\ntool = \"lumen\"");
    assert_eq!(config_value_text(&s("x"), "k"), "x");
    assert_eq!(config_value_text(&ConfigValue::Int(3), "k"), "3");
    assert_eq!(config_value_text(&ConfigValue::Bool(true), "k"), "true");
    assert_eq!(config_document_text(&v), "[diff]\ntool = \"lumen\"");
    let outside = config_outside_repo(Some("worktrees_dir = \"x\""));
    assert!(matches!(config_key_get(&outside, "worktrees_dir"), Some(ConfigValue::Str(t)) if t == "x"));
    let copy = copy_value(&v);
    assert_eq!(config_document_text(&copy), config_document_text(&v));
}

#[test]
fn doctor_reads_config_files() {
    assert!(matches!(config_file_state(""), ConfigFileState::Empty));
    assert!(matches!(config_file_state("= nope"), ConfigFileState::Invalid(e) if !e.is_empty()));
    match config_file_state("worktrees_dir = \"w\"\n[diff]\ntool = \"t\"\n") {
        ConfigFileState::Entries(es) => {
            assert_eq!(es.len(), 2);
            let diff = es.iter().find(|e| e.key == "diff").unwrap();
            assert_eq!(diff.table.as_ref().unwrap(), &vec![("tool".to_string(), "\"t\"".to_string())]);
            let wd = es.iter().find(|e| e.key == "worktrees_dir").unwrap();
            assert_eq!(wd.shown, "\"w\"");
            assert!(wd.table.is_none());
        }
        _ => panic!("expected entries"),
    }
}

#[test]
fn json_and_pull_request_lines() {
    assert!(parse_json("{not json").is_none());
    assert!(matches!(parse_json("[1, \"a\"]"), Some(JsonValue::Array(v)) if v.len() == 2));
    let now = Timestamp { secs: 1_700_000_000, nanos: 0 };
    assert_eq!(pr_info_from_text("nope", now), "");
    assert_eq!(pr_info_from_text("[]", now), "");
    let line = pr_info_from_text("[{\"state\":\"OPEN\",\"isDraft\":false,\"url\":\"u\",\"number\":7}]", now);
    assert!(line.contains("#7"));
    assert!(line.ends_with("(N/A)"));
}

#[test]
fn rfc3339_times_read_within_a_day() {
    let t = parse_datetime("2023-11-14T22:13:20Z").expect("RFC 3339");
    assert!(t.secs > 1_700_000_000 - 86_400 && t.secs < 1_700_000_000 + 86_400);
    assert_eq!(t.nanos, 0);
}

#[test]
fn small_decisions_of_the_commands() {
    let clean = easy_worktree::git::CmdResult { stdout: "  \n".to_string(), stderr: String::new(), status: 0 };
    assert_eq!(easy_worktree::git::status_flags(&clean), (true, false));
    let dirty = easy_worktree::git::CmdResult { stdout: "?? new.txt\n".to_string(), stderr: String::new(), status: 0 };
    assert_eq!(easy_worktree::git::status_flags(&dirty), (false, true));
    assert!(easy_worktree::cli::select_after_add(true, false, None));
    assert!(easy_worktree::cli::select_after_add(false, true, Some("\n")));
    assert!(!easy_worktree::cli::select_after_add(false, true, Some("n\n")));
    assert!(!easy_worktree::cli::select_after_add(false, false, Some("y")));
    let paths = vec!["/r".to_string(), "/r/.worktrees/a".to_string()];
    assert_eq!(easy_worktree::select::worktree_at("/r/.worktrees/a", &paths), Some(1));
    assert_eq!(easy_worktree::select::worktree_at("/x", &paths), None);
    let branches = vec!["main".to_string(), "feat".to_string()];
    assert_eq!(easy_worktree::select::branch_at(&paths, &branches, "/r/.worktrees/a"), Some("feat".to_string()));
    assert_eq!(easy_worktree::select::branch_at(&paths, &branches, "/nope"), None);
}

#[test]
fn report_lines_of_hooks_clean_and_doctor() {
    assert_eq!(hook_state_line(Hook::PreRm, "/r/.wt/pre-rm", false), "pre-rm: /r/.wt/pre-rm (missing)");
    assert_eq!(hook_state_line(Hook::PostAdd, "/r/.wt/post-add", true), "post-add: /r/.wt/post-add (present)");
    assert_eq!(running_hook_line(Hook::PreRm, "/h", false), "Running pre-rm hook: /h");
    assert!(running_hook_line(Hook::PostAdd, "/h", false).contains("/h"));
    assert_eq!(easy_worktree::clean::clean_line("a", "merged", "N/A"), "a (reason: merged, created: N/A)");
    let facts = easy_worktree::doctor::RepoFacts { root: "/r".to_string(), is_bare: false, home: Some("/r".to_string()), wt_dir_exists: true };
    assert_eq!(
        easy_worktree::doctor::environment_lines(&Some(facts)),
        vec!["Project Root: /r", "Repository Type: Normal", "WT Home: /r", ".wt Directory: /r/.wt (Exists)"]
    );
    assert_eq!(easy_worktree::doctor::environment_lines(&None), vec!["Project Root: Not in a git repository"]);
}

#[test]
fn selection_goes_where_add_put_the_worktree() {
    assert_eq!(new_worktree_path("/r", false, "", ".worktrees", "feat/x"), "/r/.worktrees/feat/x");
    assert_eq!(target_path_for_selection("/r", "feat/x", false, "", ".worktrees"), "/r/.worktrees/feat/x");
    assert_eq!(new_worktree_path("/b.git", true, "/w/main", "", "f"), target_path_for_selection("/b.git", "f", true, "/w/main", ""));
    assert_eq!(target_path_for_selection("/r", "main", false, "", ".worktrees"), "/r");
}
