use gobject_lint::config::{
    config_filenames, has_config_file, legacy_config_filenames, lists, resolve_config_in_dir,
    resolve_config_path, ConfigPath,
};

/// The names of the files in a directory.
fn dir(names: &[&str]) -> Vec<String> {
    names.iter().map(|n| n.to_string()).collect()
}

// --- has_config_file ---

#[test]
fn has_config_file_canonical() {
    assert!(!has_config_file(&dir(&[])));
    assert!(has_config_file(&dir(&["gobject-linter.toml"])));
}

#[test]
fn has_config_file_dot() {
    assert!(has_config_file(&dir(&[".gobject-linter.toml"])));
}

#[test]
fn has_config_file_legacy() {
    assert!(has_config_file(&dir(&["goblint.toml"])));
}

#[test]
fn has_config_file_empty_dir() {
    assert!(!has_config_file(&dir(&[])));
}

// --- resolve_config_in_dir ---

#[test]
fn resolve_in_dir_returns_none_when_empty() {
    assert!(resolve_config_in_dir(&dir(&[])).is_none());
}

#[test]
fn resolve_in_dir_prefers_canonical_over_dot() {
    let d = dir(&["gobject-linter.toml", ".gobject-linter.toml"]);
    assert_eq!(resolve_config_in_dir(&d).unwrap(), "gobject-linter.toml");
}

#[test]
fn resolve_in_dir_prefers_dot_over_legacy() {
    let d = dir(&[".gobject-linter.toml", "goblint.toml"]);
    assert_eq!(resolve_config_in_dir(&d).unwrap(), ".gobject-linter.toml");
}

#[test]
fn resolve_in_dir_falls_back_to_legacy() {
    let d = dir(&["goblint.toml"]);
    assert_eq!(resolve_config_in_dir(&d).unwrap(), "goblint.toml");
}

// --- resolve_config_path: explicit config ---

#[test]
fn explicit_config_exists() {
    let d = dir(&["custom.toml"]);
    let result = resolve_config_path(&d, &d, Some(true));
    assert_eq!(result, Ok(ConfigPath::Explicit));
}

#[test]
fn explicit_config_missing() {
    let d = dir(&[]);
    let result = resolve_config_path(&d, &d, Some(false));
    assert_eq!(result, Err(ConfigPath::Explicit));
}

// --- resolve_config_path: auto-discovery priority ---

#[test]
fn target_canonical_wins_over_everything() {
    let target = dir(&["gobject-linter.toml", ".gobject-linter.toml", "goblint.toml"]);
    let base = dir(&["gobject-linter.toml", ".gobject-linter.toml", "goblint.toml"]);
    let result = resolve_config_path(&target, &base, None).unwrap();
    assert_eq!(result, ConfigPath::InTarget("gobject-linter.toml".to_string()));
}

#[test]
fn target_dot_over_base_canonical() {
    let target = dir(&[".gobject-linter.toml"]);
    let base = dir(&["gobject-linter.toml"]);
    let result = resolve_config_path(&target, &base, None).unwrap();
    assert_eq!(result, ConfigPath::InTarget(".gobject-linter.toml".to_string()));
}

#[test]
fn base_canonical_over_target_legacy() {
    let target = dir(&["goblint.toml"]);
    let base = dir(&["gobject-linter.toml"]);
    let result = resolve_config_path(&target, &base, None).unwrap();
    assert_eq!(result, ConfigPath::InBase("gobject-linter.toml".to_string()));
}

#[test]
fn base_dot_over_target_legacy() {
    let target = dir(&["goblint.toml"]);
    let base = dir(&[".gobject-linter.toml"]);
    let result = resolve_config_path(&target, &base, None).unwrap();
    assert_eq!(result, ConfigPath::InBase(".gobject-linter.toml".to_string()));
}

#[test]
fn target_legacy_over_base_legacy() {
    let target = dir(&["goblint.toml"]);
    let base = dir(&["goblint.toml"]);
    let result = resolve_config_path(&target, &base, None).unwrap();
    assert_eq!(result, ConfigPath::InTarget("goblint.toml".to_string()));
}

#[test]
fn falls_back_to_base_legacy() {
    let target = dir(&[]);
    let base = dir(&["goblint.toml"]);
    let result = resolve_config_path(&target, &base, None).unwrap();
    assert_eq!(result, ConfigPath::InBase("goblint.toml".to_string()));
}

#[test]
fn no_config_anywhere_returns_default() {
    let target = dir(&[]);
    let base = dir(&[]);
    let result = resolve_config_path(&target, &base, None).unwrap();
    assert_eq!(result, ConfigPath::InBase("gobject-linter.toml".to_string()));
}

// --- resolve_config_path: same directory for target and base ---

#[test]
fn same_dir_picks_canonical() {
    let d = dir(&["gobject-linter.toml", ".gobject-linter.toml", "goblint.toml"]);
    let result = resolve_config_path(&d, &d, None).unwrap();
    assert_eq!(result, ConfigPath::InTarget("gobject-linter.toml".to_string()));
}

#[test]
fn same_dir_dot_only() {
    let d = dir(&[".gobject-linter.toml"]);
    let result = resolve_config_path(&d, &d, None).unwrap();
    assert_eq!(result, ConfigPath::InTarget(".gobject-linter.toml".to_string()));
}

#[test]
fn same_dir_legacy_only() {
    let d = dir(&["goblint.toml"]);
    let result = resolve_config_path(&d, &d, None).unwrap();
    assert_eq!(result, ConfigPath::InTarget("goblint.toml".to_string()));
}

// --- constants are consistent ---

#[test]
fn config_filenames_order() {
    assert_eq!(config_filenames(), vec!["gobject-linter.toml", ".gobject-linter.toml"]);
    assert_eq!(legacy_config_filenames(), vec!["goblint.toml"]);
}

// --- beyond the names: other files do not count ---

#[test]
fn unrelated_files_are_not_configuration() {
    let d = dir(&["Makefile", "main.c", "gobject-linter.toml.bak", "GOBLINT.TOML"]);
    assert!(!has_config_file(&d));
    assert_eq!(
        resolve_config_path(&d, &d, None).unwrap(),
        ConfigPath::InBase("gobject-linter.toml".to_string())
    );
}

#[test]
fn explicit_config_ignores_directories() {
    let d = dir(&["gobject-linter.toml"]);
    assert_eq!(resolve_config_path(&d, &d, Some(false)), Err(ConfigPath::Explicit));
}

#[test]
fn lists_finds_exact_names_only() {
    let d = dir(&["a.c", "b.h"]);
    assert!(lists(&d, "b.h"));
    assert!(!lists(&d, "b"));
    assert!(!lists(&dir(&[]), "a.c"));
}
