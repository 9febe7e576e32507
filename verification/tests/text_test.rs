use gobject_lint::rules::StyleConfig;
use gobject_lint::text::{
    concat3, contains_str, ends_with, head_before, starts_with, str_eq, str_in, trim, trim_quotes,
    trim_start_layout,
};

#[test]
fn trimming() {
    assert_eq!(trim("  a b \n"), "a b");
    assert_eq!(trim(""), "");
    assert_eq!(trim(" \t "), "");
    assert_eq!(trim_quotes("\"abc\""), "abc");
    assert_eq!(trim_start_layout("\n  /* c */ x"), "/* c */ x");
}

#[test]
fn searching() {
    assert!(starts_with("g_object_unref", "g_object"));
    assert!(!starts_with("g", "g_object"));
    assert!(ends_with("my_type_get_type", "_get_type"));
    assert!(contains_str("self->id", "->"));
    assert!(!contains_str("self.id", "->"));
    assert!(contains_str("abc", ""));
    assert!(str_eq("abc", "abc"));
    assert!(!str_eq("abc", "abd"));
    assert!(str_in(&["a", "b"], "b"));
    let none: [&str; 0] = [];
    assert!(!str_in(&none, "b"));
}

#[test]
fn split_heads() {
    assert_eq!(head_before("closure->handler_id", "->"), "closure");
    assert_eq!(head_before("a->b->c", "->"), "a");
    assert_eq!(head_before("plain", "->"), "plain");
    assert_eq!(head_before("->x", "->"), "");
    assert_eq!(head_before("abc", ""), "");
}

#[test]
fn joining() {
    assert_eq!(concat3("a", "", "c"), "ac");
}

#[test]
fn calls_in_both_styles() {
    let gnome = StyleConfig { space_before_paren: true };
    let plain = StyleConfig { space_before_paren: false };
    assert_eq!(gnome.format_call("g_free", &["p"]), "g_free (p)");
    assert_eq!(plain.format_call("g_set_object", &["&self->o", "o"]), "g_set_object(&self->o, o)");
    assert_eq!(gnome.format_call("f", &[]), "f ()");
}
