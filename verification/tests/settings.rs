use easy_worktree::config::{
    config_key_get, deep_merge, default_config, default_config_updates, get_recorded_worktree_created, metadata_or_default,
    nested_update, record_worktree_created, remove_worktree_metadata, resolve_templates, scalar_from_arg, ConfigValue,
};

fn table(entries: Vec<(&str, ConfigValue)>) -> ConfigValue {
    ConfigValue::Table(entries.into_iter().map(|(k, v)| (k.to_string(), v)).collect())
}

#[test]
fn setting_a_key_then_reading_it_gives_the_value() {
    let mut config = default_config();
    deep_merge(&mut config, nested_update("diff.tool", scalar_from_arg("tig")));
    assert!(matches!(config_key_get(&config, "diff.tool"), Some(ConfigValue::Str(s)) if s == "tig"));
    assert!(matches!(config_key_get(&config, "worktrees_dir"), Some(ConfigValue::Str(s)) if s == ".worktrees"));
    assert!(config_key_get(&config, "diff.missing").is_none());
}

#[test]
fn scalars_from_arguments() {
    assert!(matches!(scalar_from_arg("TRUE"), ConfigValue::Bool(true)));
    assert!(matches!(scalar_from_arg("false"), ConfigValue::Bool(false)));
    assert!(matches!(scalar_from_arg("42"), ConfigValue::Int(42)));
    assert!(matches!(scalar_from_arg("99999999999999999999"), ConfigValue::Str(_)));
    assert!(matches!(scalar_from_arg("-3"), ConfigValue::Str(s) if s == "-3"));
}

#[test]
fn merge_keeps_nested_keys() {
    let mut a = table(vec![("diff", table(vec![("tool", ConfigValue::Str("git".into())), ("x", ConfigValue::Int(1))]))]);
    deep_merge(&mut a, table(vec![("diff", table(vec![("tool", ConfigValue::Str("lumen".into()))]))]));
    assert!(matches!(config_key_get(&a, "diff.tool"), Some(ConfigValue::Str(s)) if s == "lumen"));
    assert!(matches!(config_key_get(&a, "diff.x"), Some(ConfigValue::Int(1))));
}

#[test]
fn templates_name_the_repository() {
    let mut c = table(vec![("worktrees_dir", ConfigValue::Str("../{repo_name}-{repo_name}".into()))]);
    resolve_templates(&mut c, "app");
    assert!(matches!(config_key_get(&c, "worktrees_dir"), Some(ConfigValue::Str(s)) if s == "../app-app"));
}

#[test]
fn default_updates_name_worktrees_dir() {
    let u = default_config_updates();
    assert!(matches!(config_key_get(&u, "worktrees_dir"), Some(ConfigValue::Str(s)) if s == ".worktrees"));
}

#[test]
fn recording_then_looking_up_a_creation_time() {
    let mut m = metadata_or_default(None);
    assert_eq!(get_recorded_worktree_created(&m, "/r/.worktrees/a"), None);
    assert!(record_worktree_created(&mut m, "/r/.worktrees/a", "2024-01-02T03:04:05.000000"));
    assert_eq!(get_recorded_worktree_created(&m, "/r/.worktrees/a"), Some("2024-01-02T03:04:05.000000".to_string()));
    assert!(!record_worktree_created(&mut m, "/r/.worktrees/a", "2025-01-01T00:00:00.000000"));
    assert_eq!(get_recorded_worktree_created(&m, "/r/.worktrees/a"), Some("2024-01-02T03:04:05.000000".to_string()));
}

#[test]
fn removing_a_record_forgets_it() {
    let mut m = metadata_or_default(None);
    record_worktree_created(&mut m, "/r/a", "t1");
    record_worktree_created(&mut m, "/r/b", "t2");
    assert!(remove_worktree_metadata(&mut m, "/r/a"));
    assert_eq!(get_recorded_worktree_created(&m, "/r/a"), None);
    assert_eq!(get_recorded_worktree_created(&m, "/r/b"), Some("t2".to_string()));
    assert!(!remove_worktree_metadata(&mut m, "/r/a"));
}

#[test]
fn broken_metadata_falls_back_to_empty() {
    let m = metadata_or_default(Some(table(vec![("worktrees", ConfigValue::Str("x".into()))])));
    assert_eq!(get_recorded_worktree_created(&m, "/r/a"), None);
}

#[test]
fn recording_one_worktree_leaves_the_others() {
    let mut m = metadata_or_default(None);
    record_worktree_created(&mut m, "/r/a", "t1");
    assert!(record_worktree_created(&mut m, "/r/b", "t2"));
    assert_eq!(get_recorded_worktree_created(&m, "/r/a"), Some("t1".to_string()));
    assert_eq!(get_recorded_worktree_created(&m, "/r/b"), Some("t2".to_string()));
}

#[test]
fn setting_a_key_keeps_the_other_keys() {
    let mut config = table(vec![
        ("worktrees_dir", ConfigValue::Str("w".into())),
        ("diff", table(vec![("tool", ConfigValue::Str("git".into())), ("x", ConfigValue::Int(1))])),
    ]);
    deep_merge(&mut config, nested_update("diff.tool", scalar_from_arg("tig")));
    assert!(matches!(config_key_get(&config, "diff.tool"), Some(ConfigValue::Str(s)) if s == "tig"));
    assert!(matches!(config_key_get(&config, "diff.x"), Some(ConfigValue::Int(1))));
    assert!(matches!(config_key_get(&config, "worktrees_dir"), Some(ConfigValue::Str(s)) if s == "w"));
}
