use gobject_lint::context::AstContext;
use gobject_lint::rules::g_param_spec_static_strings::GParamSpecStaticStrings;
use gobject_lint::model::expression::{CallExpression, Expression, IdentifierExpression, StringLiteralExpression};
use gobject_lint::model::statement::{IfStatement, Statement};
use gobject_lint::model::location::SourceLocation;
use gobject_lint::model::project::Project;
use gobject_lint::parse::parse_file_model;
use gobject_lint::rules::use_g_ascii_functions::{g_ascii_replacement, UseGAsciiFunctions};
use gobject_lint::rules::use_g_clear_handle_id::UseGClearHandleId;
use gobject_lint::rules::use_g_strlcpy::UseGStrlcpy;
use gobject_lint::rules::{Config, Violation};

fn context_for(path: &str, source: &str) -> AstContext {
    let file = parse_file_model(path.to_string(), source.as_bytes().to_vec());
    let mut project = Project::new();
    project.insert_file(file);
    AstContext { project }
}

fn summary(v: &Violation) -> String {
    format!("{}:{}:{}: {}: {}", v.file, v.line, v.column, v.rule, v.message)
}

#[test]
fn ascii_replacements() {
    assert_eq!(g_ascii_replacement("tolower"), Some("g_ascii_tolower"));
    assert_eq!(g_ascii_replacement("iscntrl"), Some("g_ascii_iscntrl"));
    assert_eq!(g_ascii_replacement("isxdigit"), Some("g_ascii_isxdigit"));
    assert_eq!(g_ascii_replacement("strlen"), None);
    assert_eq!(g_ascii_replacement("Tolower"), None);
}

#[test]
fn ctype_call_is_reported_with_fix_of_the_name() {
    let src = "static int
lower (int c)
{
  return tolower (c);
}
";
    let ctx = context_for("a.c", src);
    let mut out = Vec::new();
    UseGAsciiFunctions.check_all(&ctx, &Config::default(), &mut out);
    assert_eq!(out.len(), 1);
    assert_eq!(
        summary(&out[0]),
        "a.c:4:10: use_g_ascii_functions: Use g_ascii_tolower() instead of tolower() \u{2014} C ctype functions are locale-dependent"
    );
    let start = src.find("tolower").unwrap();
    assert_eq!(out[0].fixes[0].start_byte, start);
    assert_eq!(out[0].fixes[0].end_byte, start + "tolower".len());
    assert_eq!(out[0].fixes[0].replacement, "g_ascii_tolower");
}

#[test]
fn string_copies_are_reported() {
    let src = "static void
copy (char *dst, const char *src)
{
  strcpy (dst, src);
  strcat (dst, src);
  strncat (dst, src, 4);
  memcpy (dst, src, 4);
}
";
    let ctx = context_for("b.c", src);
    let mut out = Vec::new();
    UseGStrlcpy.check_all(&ctx, &Config::default(), &mut out);
    let lines: Vec<String> = out.iter().map(summary).collect();
    assert_eq!(
        lines,
        vec![
            "b.c:4:3: use_g_strlcpy: Use g_strlcpy(dst, src, sizeof(dst)) instead of strcpy \u{2014} no bounds checking".to_string(),
            "b.c:5:3: use_g_strlcpy: Use g_strlcat(dst, src, sizeof(dst)) instead of strcat \u{2014} no bounds checking".to_string(),
            "b.c:6:3: use_g_strlcpy: Use g_strlcat(dst, src, sizeof(dst)) instead of strncat \u{2014} strncat's n parameter is the max to append, not the buffer size, which is error-prone".to_string(),
        ]
    );
}

#[test]
fn prototypes_are_not_scanned() {
    let src = "void copy (char *dst, const char *src);\n";
    let ctx = context_for("b.c", src);
    let mut out = Vec::new();
    UseGStrlcpy.check_all(&ctx, &Config::default(), &mut out);
    assert!(out.is_empty());
}

#[test]
fn handle_cleanup_then_zero_is_reported() {
    let src = "static void
stop (Self *self)
{
  g_source_remove (self->timeout_id);
  self->timeout_id = 0;
}
";
    let ctx = context_for("c.c", src);
    let mut out = Vec::new();
    UseGClearHandleId.check_all(&ctx, &Config::default(), &mut out);
    assert_eq!(out.len(), 1);
    assert_eq!(
        summary(&out[0]),
        "c.c:4:3: use_g_clear_handle_id: Use g_clear_handle_id(&self->timeout_id, g_source_remove) instead of g_source_remove and zero assignment"
    );
    assert!(out[0].fixes.is_empty());
}

#[test]
fn handle_cleanup_under_if_is_seen_from_the_if_and_the_block() {
    let src = "static void
stop (Self *self)
{
  if (self->timeout_id)
    {
      g_source_remove (self->timeout_id);
      self->timeout_id = 0;
    }
}
";
    let ctx = context_for("c.c", src);
    let mut out = Vec::new();
    UseGClearHandleId.check_all(&ctx, &Config::default(), &mut out);
    assert_eq!(out.len(), 2);
    assert_eq!(summary(&out[0]), summary(&out[1]));
    assert_eq!(out[0].line, 6);
}

#[test]
fn handle_cleanup_of_other_variable_is_not_reported() {
    let src = "static void
stop (Self *self)
{
  g_source_remove (self->timeout_id);
  self->other_id = 0;
}
";
    let ctx = context_for("c.c", src);
    let mut out = Vec::new();
    UseGClearHandleId.check_all(&ctx, &Config::default(), &mut out);
    assert!(out.is_empty());
}

fn call_named(name: &str) -> CallExpression {
    CallExpression { function: name.to_string(), arguments: vec![], location: SourceLocation::new(1, 1, 0, 0) }
}

#[test]
fn likely_macros_on_ascii_names() {
    for name in ["I_", "N_", "G_STRINGIFY", "GINT_TO_POINTER", "my_wrap_"] {
        assert!(call_named(name).is_likely_macro(), "{name}");
    }
    assert!(!call_named("g_object_ref").is_likely_macro());
}

#[test]
fn string_value_keeps_an_escaped_quote() {
    let lit = |v: &str| Expression::StringLiteral(StringLiteralExpression { value: v.to_string(), location: SourceLocation::new(1, 1, 0, 0) });
    assert_eq!(lit("\"a\\\"\"").extract_string_value().as_deref(), Some("a\\\""));
    assert_eq!(lit("\"name\"").extract_string_value().as_deref(), Some("name"));
    assert_eq!(lit("\"\"").extract_string_value().as_deref(), Some(""));
}

#[test]
fn the_condition_of_an_if_is_a_direct_expression() {
    let id = Expression::Identifier(IdentifierExpression { name: "x".to_string(), location: SourceLocation::new(1, 5, 4, 5) });
    let s = Statement::If(IfStatement {
        condition: id,
        then_body: vec![],
        then_has_braces: true,
        else_body: None,
        location: SourceLocation::new(1, 1, 0, 10),
    });
    let direct = s.expressions();
    assert_eq!(direct.len(), 1);
    assert!(matches!(direct[0], Expression::Identifier(i) if i.name == "x"));
    assert_eq!(s.walk_expressions().len(), 1);
}

#[test]
fn fixing_flags_twice_changes_nothing() {
    let r = GParamSpecStaticStrings;
    let once = r.build_fixed_flags("G_PARAM_READWRITE | G_PARAM_STATIC_NAME", true, false);
    assert_eq!(once, "G_PARAM_READWRITE | G_PARAM_STATIC_NAME | G_PARAM_STATIC_NICK");
    assert_eq!(r.build_fixed_flags(&once, true, false), once);
    let zero = r.build_fixed_flags("0", true, true);
    assert_eq!(zero, "G_PARAM_STATIC_STRINGS");
    assert_eq!(r.build_fixed_flags(&zero, true, true), zero);
}
