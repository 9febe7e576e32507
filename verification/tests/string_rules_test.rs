use gobject_lint::context::AstContext;
use gobject_lint::model::project::Project;
use gobject_lint::parse::parse_file_model;
use gobject_lint::rules::use_g_clear_signal_handler::UseGClearSignalHandler;
use gobject_lint::rules::use_g_str_has_prefix::UseGStrHasPrefix;
use gobject_lint::rules::use_g_str_has_prefix_suffix::UseGStrHasPrefixSuffix;
use gobject_lint::rules::{Config, Violation};

fn context_for(path: &str, source: &str) -> AstContext {
    let file = parse_file_model(path.to_string(), source.as_bytes().to_vec());
    let mut project = Project::new();
    project.insert_file(file);
    AstContext { project }
}

fn summary(v: &Violation) -> String {
    format!("{}:{}:{}: {}: {}", v.file, v.line, v.column, v.rule, v.message)
}

const PREFIX_SRC: &str = "static gboolean
has_abc (const char *s)
{
  return strncmp (s, \"abc\", strlen (\"abc\")) == 0;
}
";

#[test]
fn prefix_comparison_is_reported_with_fix() {
    let ctx = context_for("src/util.c", PREFIX_SRC);
    let mut out = Vec::new();
    UseGStrHasPrefix.check_all(&ctx, &Config::default(), &mut out);
    assert_eq!(out.len(), 1);
    assert_eq!(
        summary(&out[0]),
        "src/util.c:4:10: use_g_str_has_prefix: Use g_str_has_prefix (s, \"abc\") instead of strncmp() == 0"
    );
    let start = PREFIX_SRC.find("strncmp").unwrap();
    let end = PREFIX_SRC.find("== 0").unwrap() + 4;
    assert_eq!(out[0].fixes.len(), 1);
    assert_eq!(out[0].fixes[0].start_byte, start);
    assert_eq!(out[0].fixes[0].end_byte, end);
    assert_eq!(out[0].fixes[0].replacement, "g_str_has_prefix (s, \"abc\")");
}

#[test]
fn prefix_comparison_negated_with_zero_on_the_left() {
    let src = "int
f (const char *s)
{
  if (0 != strncmp(s, \"ab\", strlen(\"ab\")))
    return 1;
  return 0;
}
";
    let ctx = context_for("a.c", src);
    let mut out = Vec::new();
    UseGStrHasPrefix.check_all(&ctx, &Config::default(), &mut out);
    assert_eq!(out.len(), 1);
    assert_eq!(out[0].message, "Use !g_str_has_prefix(s, \"ab\") instead of strncmp() != 0");
    assert_eq!(out[0].fixes[0].replacement, "!g_str_has_prefix(s, \"ab\")");
    assert_eq!(out[0].line, 4);
}

#[test]
fn prefix_with_other_length_is_not_reported() {
    let src = "int
f (const char *s)
{
  return strncmp (s, \"abc\", strlen (\"abd\")) == 0 || strncmp (s, \"abc\", 3) == 0;
}
";
    let ctx = context_for("a.c", src);
    let mut out = Vec::new();
    UseGStrHasPrefix.check_all(&ctx, &Config::default(), &mut out);
    assert!(out.is_empty());
}

#[test]
fn prefix_in_header_is_not_scanned() {
    let ctx = context_for("a.h", PREFIX_SRC);
    let mut out = Vec::new();
    UseGStrHasPrefix.check_all(&ctx, &Config::default(), &mut out);
    assert!(out.is_empty());
}

#[test]
fn earlier_violations_stay_in_place() {
    let ctx = context_for("src/util.c", PREFIX_SRC);
    let mut out = vec![Violation::new("x.c", 1, 1, "other", "kept".to_string(), Vec::new())];
    UseGStrHasPrefix.check_all(&ctx, &Config::default(), &mut out);
    assert_eq!(out.len(), 2);
    assert_eq!(out[0].message, "kept");
    assert_eq!(out[1].rule, "use_g_str_has_prefix");
}

const SUFFIX_SRC: &str = "static gboolean
is_png (const char *name)
{
  return strcmp (name + strlen (name) - strlen (\".png\"), \".png\") == 0;
}
";

#[test]
fn suffix_comparison_is_reported() {
    let ctx = context_for("img.c", SUFFIX_SRC);
    let mut out = Vec::new();
    UseGStrHasPrefixSuffix.check_all(&ctx, &Config::default(), &mut out);
    assert_eq!(out.len(), 1);
    assert_eq!(
        summary(&out[0]),
        "img.c:4:10: use_g_str_has_prefix_suffix: Use g_str_has_suffix (name, \".png\") instead of strcmp() == 0"
    );
    assert_eq!(out[0].fixes[0].replacement, "g_str_has_suffix (name, \".png\")");
    assert_eq!(out[0].fixes[0].start_byte, SUFFIX_SRC.find("strcmp").unwrap());
}

#[test]
fn prefix_suffix_rule_also_reports_prefixes() {
    let ctx = context_for("src/util.c", PREFIX_SRC);
    let mut out = Vec::new();
    UseGStrHasPrefixSuffix.check_all(&ctx, &Config::default(), &mut out);
    assert_eq!(out.len(), 1);
    assert_eq!(out[0].rule, "use_g_str_has_prefix_suffix");
    assert_eq!(out[0].message, "Use g_str_has_prefix (s, \"abc\") instead of strncmp() == 0");
}

#[test]
fn suffix_with_other_string_is_not_reported() {
    let src = "int
f (const char *a, const char *b)
{
  return strcmp (a + strlen (b) - strlen (\".png\"), \".png\") == 0;
}
";
    let ctx = context_for("a.c", src);
    let mut out = Vec::new();
    UseGStrHasPrefixSuffix.check_all(&ctx, &Config::default(), &mut out);
    assert!(out.is_empty());
}

const SIGNAL_SRC: &str = "static void
dispose (GObject *object)
{
  Self *self = SELF (object);

  if (self->handler_id)
    {
      g_signal_handler_disconnect (self->obj, self->handler_id);
      self->handler_id = 0;
    }

  g_signal_handler_disconnect (self->other, self->other_id);
  self->other_id = 0;

  g_signal_handler_disconnect (self->third, self->third_id);
}
";

#[test]
fn signal_handler_patterns_are_reported() {
    let ctx = context_for("obj.c", SIGNAL_SRC);
    let mut out = Vec::new();
    UseGClearSignalHandler.check_all(&ctx, &Config::default(), &mut out);
    let lines: Vec<String> = out.iter().map(summary).collect();
    assert_eq!(
        lines,
        vec![
            "obj.c:6:3: use_g_clear_signal_handler: Use g_clear_signal_handler (&self->handler_id, self->obj); instead of if-guarded g_signal_handler_disconnect".to_string(),
            "obj.c:12:3: use_g_clear_signal_handler: Use g_clear_signal_handler (&self->other_id, self->other); instead of g_signal_handler_disconnect and zeroing the ID".to_string(),
            "obj.c:15:3: use_g_clear_signal_handler: Use g_clear_signal_handler (&self->third_id, self->third); instead of g_signal_handler_disconnect (also zeroes the stored ID)".to_string(),
        ]
    );
    let pair_start = SIGNAL_SRC.find("g_signal_handler_disconnect (self->other").unwrap();
    let pair_end = SIGNAL_SRC.find("self->other_id = 0;").unwrap() + "self->other_id = 0;".len();
    assert_eq!(out[1].fixes[0].start_byte, pair_start);
    assert_eq!(out[1].fixes[0].end_byte, pair_end);
    assert_eq!(out[1].fixes[0].replacement, "g_clear_signal_handler (&self->other_id, self->other);");
    let if_start = SIGNAL_SRC.find("if (self").unwrap();
    assert_eq!(out[0].fixes[0].start_byte, if_start);
}

#[test]
fn guard_with_comparison_is_reported() {
    let src = "static void
stop (Self *self)
{
  if (self->id > 0)
    {
      g_signal_handler_disconnect (self->obj, self->id);
      self->id = 0;
    }
  if (0 < self->id2)
    {
      g_signal_handler_disconnect (self->obj, self->id2);
      self->id2 = 0;
    }
}
";
    let ctx = context_for("s.c", src);
    let mut out = Vec::new();
    UseGClearSignalHandler.check_all(&ctx, &Config::default(), &mut out);
    assert_eq!(out.len(), 2);
    assert!(out[0].message.ends_with("instead of if-guarded g_signal_handler_disconnect"));
    assert!(out[1].message.starts_with("Use g_clear_signal_handler (&self->id2, self->obj);"));
}

#[test]
fn bare_disconnect_of_freed_struct_is_not_reported() {
    let src = "static void
closure_free (Closure *closure)
{
  g_signal_handler_disconnect (closure->obj, closure->stopped_id);
  g_free (closure);
}
";
    let ctx = context_for("c.c", src);
    let mut out = Vec::new();
    UseGClearSignalHandler.check_all(&ctx, &Config::default(), &mut out);
    assert!(out.is_empty());
}

#[test]
fn bare_disconnect_of_cleared_object_is_not_reported() {
    let src = "static void
finish (Self *self)
{
  g_signal_handler_disconnect (self->obj, self->id);
  g_clear_object (&self->obj);
}
";
    let ctx = context_for("c.c", src);
    let mut out = Vec::new();
    UseGClearSignalHandler.check_all(&ctx, &Config::default(), &mut out);
    assert!(out.is_empty());
}

#[test]
fn bare_disconnect_of_local_id_is_not_reported() {
    let src = "static void
finish (GObject *obj, gulong id)
{
  g_signal_handler_disconnect (obj, id);
}
";
    let ctx = context_for("c.c", src);
    let mut out = Vec::new();
    UseGClearSignalHandler.check_all(&ctx, &Config::default(), &mut out);
    assert!(out.is_empty());
}

#[test]
fn guard_with_else_is_not_replaced_whole() {
    let src = "static void
f (Self *self)
{
  if (self->id)
    {
      g_signal_handler_disconnect (self->obj, self->id);
      self->id = 0;
    }
  else
    g_warning (\"none\");
}
";
    let ctx = context_for("c.c", src);
    let mut out = Vec::new();
    UseGClearSignalHandler.check_all(&ctx, &Config::default(), &mut out);
    assert_eq!(out.len(), 1);
    assert!(out[0].message.ends_with("instead of g_signal_handler_disconnect and zeroing the ID"));
    assert_eq!(out[0].line, 6);
}

#[test]
fn guard_testing_a_negative_id_is_not_replaced_whole() {
    let src = "static void
stop (Self *self)
{
  if (0 > self->id)
    {
      g_signal_handler_disconnect (self->obj, self->id);
      self->id = 0;
    }
}
";
    let ctx = context_for("s.c", src);
    let mut out = Vec::new();
    UseGClearSignalHandler.check_all(&ctx, &Config::default(), &mut out);
    assert!(out.iter().all(|v| !v.message.ends_with("instead of if-guarded g_signal_handler_disconnect")));
    assert!(out.iter().all(|v| v.snippet.is_none()));
}
