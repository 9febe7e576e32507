use gobject_lint::context::{is_generated_for, is_special_function, AstContext};
use gobject_lint::model::project::{path_has_extension, FileModel, Project};
use gobject_lint::parse::parse_file_model;
use gobject_lint::rules::function_visibility_ast::{is_test_function, FunctionVisibilityAst};
use gobject_lint::rules::Config;

fn project_of(files: &[(&str, &str)]) -> AstContext {
    let mut project = Project::new();
    for (path, src) in files {
        project.insert_file(parse_file_model(path.to_string(), src.as_bytes().to_vec()));
    }
    AstContext { project }
}

#[test]
fn get_after_insert_gives_the_file_back() {
    let mut project = Project::new();
    assert!(project.get_file("a.c").is_none());
    project.insert_file(parse_file_model("a.c".to_string(), b"int x;\n".to_vec()));
    let got = project.get_file("a.c").unwrap();
    assert_eq!(got.path, "a.c");
    assert_eq!(got.source, b"int x;\n".to_vec());
    assert!(project.get_file("b.c").is_none());
}

#[test]
fn inserting_a_path_again_replaces_the_file() {
    let mut project = Project::new();
    project.insert_file(FileModel::new("a.c".to_string()));
    project.insert_file(FileModel::new("b.c".to_string()));
    project.insert_file(parse_file_model("a.c".to_string(), b"void f (void) {}\n".to_vec()));
    assert_eq!(project.files.len(), 2);
    assert_eq!(project.files[0].path, "a.c");
    assert_eq!(project.files[0].functions.len(), 1);
    assert_eq!(project.get_file("b.c").unwrap().functions.len(), 0);
}

#[test]
fn functions_are_found_across_files() {
    let ctx = project_of(&[
        ("lib.h", "void lib_run (int n);\n"),
        ("lib.c", "void\nlib_run (int n)\n{\n}\n"),
    ]);
    let f = ctx.project.find_function("lib_run").unwrap();
    assert!(!f.is_definition);
    assert_eq!(f.line, 1);
    assert!(ctx.project.is_function_declared_in_header("lib_run"));
    assert!(ctx.is_declared_in_header("lib_run"));
    assert!(!ctx.is_declared_in_header("lib_stop"));
    assert!(ctx.project.find_function("lib_stop").is_none());
}

#[test]
fn parsed_definitions_carry_their_lines_and_bytes() {
    let src = "#include <glib.h>\n#include \"local.h\"\n\nstatic int\nhelper (void)\n{\n  return 1;\n}\n";
    let file = parse_file_model("x.c".to_string(), src.as_bytes().to_vec());
    assert_eq!(file.functions.len(), 1);
    let f = &file.functions[0];
    assert_eq!(f.name, "helper");
    assert_eq!(f.line, 4);
    assert!(f.is_static);
    assert!(f.is_definition);
    assert_eq!(f.start_byte, Some(src.find("static").unwrap()));
    assert_eq!(f.end_byte, Some(src.len() - 1));
    assert_eq!(file.includes.len(), 2);
    assert_eq!(file.includes[0].path, "glib.h");
    assert!(file.includes[0].is_system);
    assert_eq!(file.includes[1].path, "local.h");
    assert!(!file.includes[1].is_system);
}

#[test]
fn extensions_of_paths() {
    assert!(path_has_extension("src/a.c", "c"));
    assert!(path_has_extension("a.tar.gz", "gz"));
    assert!(!path_has_extension("src/a.h", "c"));
    assert!(!path_has_extension("dir.c/readme", "c"));
    assert!(!path_has_extension("src/.c", "c"));
    assert!(!path_has_extension("src/c", "c"));
}

#[test]
fn special_functions() {
    assert!(is_special_function("main"));
    assert!(is_special_function("my_widget_get_type"));
    assert!(is_special_function("my_error_quark"));
    assert!(is_special_function("my_widget_class_init"));
    assert!(is_special_function("my_widget_init"));
    assert!(is_special_function("my_widget_get_property"));
    assert!(!is_special_function("my_widget_new"));
    assert!(!is_special_function("domain"));
}

#[test]
fn generated_function_names() {
    assert!(is_generated_for("my_widget", "my_widget_class_init"));
    assert!(is_generated_for("my_widget", "my_widget_dispose"));
    assert!(!is_generated_for("my_widget", "my_widget_new"));
    assert!(!is_generated_for("my_widget", "other_init"));
}

#[test]
fn test_functions_live_in_test_directories() {
    assert!(is_test_function("test_parse", "tests/parse.c"));
    assert!(is_test_function("test_parse", "lib/test/parse.c"));
    assert!(!is_test_function("test_parse", "src/parse.c"));
    assert!(!is_test_function("test_parse", "mytests/parse.c"));
    assert!(!is_test_function("parse", "tests/parse.c"));
}

#[test]
fn undeclared_public_functions_are_reported() {
    let ctx = project_of(&[
        ("app.h", "void app_declared (void);\n"),
        (
            "app.c",
            "void\napp_declared (void)\n{\n}\n\nvoid\napp_hidden (void)\n{\n}\n\nstatic void\napp_private (void)\n{\n}\n\nint\nmain (void)\n{\n  return 0;\n}\n\nvoid\napp_window_init (void)\n{\n}\n",
        ),
        ("tests/app-test.c", "void\ntest_app (void)\n{\n}\n"),
    ]);
    let found = ctx.find_undeclared_non_static_functions();
    let names: Vec<&str> = found.iter().map(|(_, f)| f.name.as_str()).collect();
    assert_eq!(names, vec!["app_hidden", "test_app"]);

    let out = FunctionVisibilityAst.check_all(&ctx, &Config::default());
    assert_eq!(out.len(), 1);
    assert_eq!(out[0].file, "app.c");
    assert_eq!(out[0].line, 6);
    assert_eq!(out[0].column, 1);
    assert_eq!(out[0].rule, "function_visibility");
    assert_eq!(
        out[0].message,
        "Function 'app_hidden' is not static and not declared in any header. Consider making it static or adding an export macro."
    );
}

#[test]
fn visibility_rule_can_be_switched_off() {
    let ctx = project_of(&[("app.c", "void\napp_hidden (void)\n{\n}\n")]);
    let mut config = Config::default();
    config.rules.function_visibility = false;
    assert!(FunctionVisibilityAst.check_all(&ctx, &config).is_empty());
    assert_eq!(FunctionVisibilityAst.check_all(&ctx, &Config::default()).len(), 1);
}

#[test]
fn function_source_is_the_definition_text() {
    let src = "int x;\nstatic int\nf (void)\n{\n  return 2;\n}\n";
    let ctx = project_of(&[("f.c", src)]);
    let file = ctx.project.get_file("f.c").unwrap();
    let func = &file.functions[0];
    let text = ctx.get_function_source("f.c", func).unwrap();
    assert_eq!(text, &src.as_bytes()[7..src.len() - 1]);
    assert!(ctx.get_function_source("g.c", func).is_none());
    assert_eq!(ctx.iter_c_files().len(), 1);
    assert_eq!(ctx.iter_header_files().len(), 0);
}

#[test]
fn static_forward_declarations_make_definitions_static() {
    let src = "static void helper (int n);\n\nvoid\nhelper (int n)\n{\n}\n\nvoid\nother (void)\n{\n}\n";
    let file = parse_file_model("f.c".to_string(), src.as_bytes().to_vec());
    assert_eq!(file.functions.len(), 3);
    assert!(!file.functions[0].is_definition);
    assert!(file.functions[0].is_static);
    assert!(file.functions[0].has_static_forward_decl);
    assert!(file.functions[1].is_definition);
    assert!(file.functions[1].is_static);
    assert!(file.functions[1].has_static_forward_decl);
    assert!(!file.functions[2].is_static);
    assert!(!file.functions[2].has_static_forward_decl);
    let ctx = project_of(&[("f.c", src)]);
    let out = FunctionVisibilityAst.check_all(&ctx, &Config::default());
    assert_eq!(out.len(), 1);
    assert!(out[0].message.starts_with("Function 'other'"));
}

#[test]
fn an_extension_with_a_dot_is_never_matched() {
    assert!(!path_has_extension("a.tar.gz", "tar.gz"));
    assert!(!path_has_extension("src/a.c", ".c"));
}
