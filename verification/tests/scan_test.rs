use gobject_lint::config::{parse_ignores, parse_rules_config};
use gobject_lint::context::AstContext;
use gobject_lint::diagnostics::{diagnostic_range, violations_in_file, DiagnosticRange};
use gobject_lint::model::project::Project;
use gobject_lint::parse::parse_file_model;
use gobject_lint::rules::{Config, RuleIgnore, Violation};
use gobject_lint::scanner::{models_fit, scan_with_ast};

fn project_of(files: &[(&str, &str)]) -> AstContext {
    let mut project = Project::new();
    for (path, src) in files {
        project.insert_file(parse_file_model(path.to_string(), src.as_bytes().to_vec()));
    }
    AstContext { project }
}

const APP_C: &str = "void
app_run (const char *s, char *buf)
{
  strcpy (buf, s);
  if (strncmp (s, \"x\", strlen (\"x\")) == 0)
    return;
}
";

#[test]
fn scan_runs_model_rules_first() {
    let ctx = project_of(&[("app.c", APP_C)]);
    assert!(models_fit(&ctx));
    let out = scan_with_ast(&ctx, &Config::default()).unwrap();
    let rules: Vec<&str> = out.iter().map(|v| v.rule.as_str()).collect();
    assert_eq!(
        rules,
        vec!["function_visibility", "use_g_str_has_prefix_suffix", "use_g_strlcpy"]
    );
    assert_eq!(out[0].line, 1);
    assert_eq!(out[1].line, 5);
    assert_eq!(out[2].line, 4);
}

#[test]
fn scan_without_visibility() {
    let ctx = project_of(&[("app.c", APP_C)]);
    let mut config = Config::default();
    config.rules.function_visibility = false;
    let out = scan_with_ast(&ctx, &config).unwrap();
    assert_eq!(out.len(), 2);
    assert_eq!(out[0].rule, "use_g_str_has_prefix_suffix");
}

#[test]
fn scan_of_empty_project_reports_nothing() {
    let ctx = AstContext { project: Project::new() };
    assert!(models_fit(&ctx));
    assert!(scan_with_ast(&ctx, &Config::default()).unwrap().is_empty());
}

#[test]
fn ranges_for_editors() {
    assert_eq!(
        diagnostic_range(5, 3),
        DiagnosticRange { line: 4, start_character: 2, end_character: 3 }
    );
    assert_eq!(
        diagnostic_range(0, 0),
        DiagnosticRange { line: 0, start_character: 0, end_character: 1 }
    );
    assert_eq!(
        diagnostic_range(1, 1),
        DiagnosticRange { line: 0, start_character: 0, end_character: 1 }
    );
}

#[test]
fn violations_are_picked_by_file() {
    let vs = vec![
        Violation::new("a.c", 1, 1, "r", "one".to_string(), Vec::new()),
        Violation::new("b.c", 2, 1, "r", "two".to_string(), Vec::new()),
        Violation::new("a.c", 3, 1, "r", "three".to_string(), Vec::new()),
    ];
    let picked: Vec<&str> = violations_in_file(&vs, "a.c").iter().map(|v| v.message.as_str()).collect();
    assert_eq!(picked, vec!["one", "three"]);
    assert!(violations_in_file(&vs, "c.c").is_empty());
}

#[test]
fn switched_off_rules_report_nothing() {
    let ctx = project_of(&[("app.c", APP_C)]);
    let mut config = Config::default();
    config.rules.use_g_strlcpy = false;
    config.rules.use_g_str_has_prefix_suffix = false;
    let out = scan_with_ast(&ctx, &config).unwrap();
    let rules: Vec<&str> = out.iter().map(|v| v.rule.as_str()).collect();
    assert_eq!(rules, vec!["function_visibility"]);
    assert!(out.iter().all(|v| v.snippet.is_none()));
}

#[test]
fn configuration_file_switches_rules() {
    let text = "# linter settings\n[rules]\nuse_g_strlcpy = false\nfunction_visibility = true\n\n[rules.use_g_new]\nenabled = false\n[style]\nuse_g_autolist = false\n";
    let rules = parse_rules_config(text);
    assert!(!rules.use_g_strlcpy);
    assert!(!rules.use_g_new);
    assert!(rules.function_visibility);
    assert!(rules.use_g_autolist);
    assert!(rules.use_g_str_has_prefix_suffix);
    let all = parse_rules_config("");
    assert!(all.use_g_strlcpy && all.use_g_new && all.use_pragma_once);
    let last_line = parse_rules_config("[rules]\nuse_pragma_once = false");
    assert!(!last_line.use_pragma_once);
}

#[test]
fn ignore_patterns_drop_a_rules_reports_for_matching_files() {
    let ctx = project_of(&[("src/app.c", APP_C), ("lib/other.c", APP_C)]);
    let mut config = Config::default();
    config.rules.function_visibility = false;
    config.ignores.push(RuleIgnore { rule: "use_g_strlcpy".to_string(), patterns: vec!["src/**".to_string()] });
    let out = scan_with_ast(&ctx, &config).unwrap();
    let got: Vec<(String, String)> = out.iter().map(|v| (v.file.clone(), v.rule.clone())).collect();
    assert!(got.contains(&("lib/other.c".to_string(), "use_g_strlcpy".to_string())));
    assert!(!got.contains(&("src/app.c".to_string(), "use_g_strlcpy".to_string())));
    assert!(got.contains(&("src/app.c".to_string(), "use_g_str_has_prefix_suffix".to_string())));
}

#[test]
fn an_invalid_ignore_pattern_stops_the_scan() {
    let ctx = project_of(&[("app.c", APP_C)]);
    let mut config = Config::default();
    config.ignores.push(RuleIgnore { rule: "use_g_new".to_string(), patterns: vec!["a[".to_string()] });
    assert_eq!(scan_with_ast(&ctx, &config).unwrap_err(), "use_g_new");
    config.rules.use_g_new = false;
    assert!(scan_with_ast(&ctx, &config).is_ok());
}

#[test]
fn configuration_file_gives_ignore_patterns() {
    let text = "ignore = [\"build/**\", \"subprojects/**\"]\n[rules.use_g_strlcpy]\nenabled = true\nignore = [ \"tests/*.c\" ]\n[rules.use_g_new]\nignore = []\n";
    let (global, per_rule) = parse_ignores(text);
    assert_eq!(global, vec!["build/**".to_string(), "subprojects/**".to_string()]);
    assert_eq!(per_rule.len(), 2);
    assert_eq!(per_rule[0].rule, "use_g_strlcpy");
    assert_eq!(per_rule[0].patterns, vec!["tests/*.c".to_string()]);
    assert_eq!(per_rule[1].rule, "use_g_new");
    assert!(per_rule[1].patterns.is_empty());
    let (g2, p2) = parse_ignores("ignore = [bad]\n");
    assert!(g2.is_empty() && p2.is_empty());
}
