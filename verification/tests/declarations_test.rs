use gobject_lint::context::AstContext;
use gobject_lint::class_structs::with_parsed_class_struct;
use gobject_lint::model::project::{GObjectType, GObjectTypeKind, Project};
use gobject_lint::syntax::parse_c_source;
use gobject_lint::model::expression::{Designator, Expression};
use gobject_lint::model::statement::Statement;
use gobject_lint::parse::{is_macro_identifier, parse_declarations, parse_file_model};
use gobject_lint::text::parse_i64;

const SRC: &str = "#include <glib.h>

typedef struct _MyObj MyObj;

struct _MyObj
{
  GObject parent;
};

typedef enum {
  MY_A,
  MY_B = 5,
  MY_C = -2,
} MyEnum;

enum Color { RED = 0x10, GREEN };

static void
f (void)
{
  struct Inner { int x; } v;
}
";

#[test]
fn structs_are_found_outside_function_bodies() {
    let file = parse_file_model("obj.h".to_string(), SRC.as_bytes().to_vec());
    let structs: Vec<(String, usize, bool)> =
        file.structs.iter().map(|s| (s.name.clone(), s.line, s.is_opaque)).collect();
    assert_eq!(
        structs,
        vec![("_MyObj".to_string(), 3, true), ("_MyObj".to_string(), 5, false)]
    );
    assert!(file.structs.iter().all(|s| s.fields.is_empty()));
}

#[test]
fn typedefs_are_found() {
    let file = parse_file_model("obj.h".to_string(), SRC.as_bytes().to_vec());
    assert_eq!(file.typedefs.len(), 2);
    assert_eq!(file.typedefs[0].name, "MyObj");
    assert_eq!(file.typedefs[0].line, 3);
    assert_eq!(file.typedefs[0].target_type, "struct _MyObj");
    assert_eq!(file.typedefs[1].name, "MyEnum");
    assert_eq!(file.typedefs[1].line, 10);
    assert!(file.typedefs[1].target_type.starts_with("enum {"));
}

#[test]
fn typedef_enums_carry_their_values() {
    let file = parse_file_model("obj.h".to_string(), SRC.as_bytes().to_vec());
    assert_eq!(file.enums.len(), 1);
    let e = &file.enums[0];
    assert_eq!(e.name, "MyEnum");
    assert_eq!(e.line, 10);
    assert_eq!(e.body_start_byte, SRC.find("{\n  MY_A").unwrap());
    let names: Vec<&str> = e.values.iter().map(|v| v.name.as_str()).collect();
    assert_eq!(names, vec!["MY_A", "MY_B", "MY_C"]);
    let values: Vec<Option<i64>> = e.values.iter().map(|v| v.value).collect();
    assert_eq!(values, vec![None, Some(5), Some(-2)]);
    assert_eq!(e.values[0].value_start_byte, None);
    let b = SRC.find("MY_B").unwrap();
    assert_eq!(e.values[1].name_start_byte, b);
    assert_eq!(e.values[1].name_end_byte, b + 4);
    assert_eq!(e.values[1].value_start_byte, Some(b + 7));
    assert_eq!(e.values[1].start_byte, b);
}

#[test]
fn declarations_in_directives_are_not_scanned() {
    let src = "#define DECLARE_IT typedef int my_int;\ntypedef int real_int;\n";
    let file = parse_file_model("d.h".to_string(), src.as_bytes().to_vec());
    assert_eq!(file.typedefs.len(), 1);
    assert_eq!(file.typedefs[0].name, "real_int");
    assert_eq!(file.typedefs[0].target_type, "int");
}

#[test]
fn integers_parse_as_rust_does() {
    assert_eq!(parse_i64("42"), Some(42));
    assert_eq!(parse_i64("+7"), Some(7));
    assert_eq!(parse_i64("-9223372036854775808"), Some(i64::MIN));
    assert_eq!(parse_i64("9223372036854775807"), Some(i64::MAX));
    assert_eq!(parse_i64("9223372036854775808"), None);
    assert_eq!(parse_i64("99999999999999999999999"), None);
    assert_eq!(parse_i64("0x10"), None);
    assert_eq!(parse_i64("-"), None);
    assert_eq!(parse_i64(""), None);
    assert_eq!(parse_i64(" 1"), None);
    for s in ["0", "-0", "123", "-77", "+0012"] {
        assert_eq!(parse_i64(s), s.parse::<i64>().ok());
    }
}

const GOBJECT_SRC: &str = "#include <gtk/gtk.h>

G_DECLARE_FINAL_TYPE (MyWidget, my_widget, MY, WIDGET, GtkWidget);

G_DEFINE_TYPE (MyWidget, my_widget, GTK_TYPE_WIDGET);
";

#[test]
fn gobject_type_macros_are_found() {
    let file = parse_file_model("my-widget.c".to_string(), GOBJECT_SRC.as_bytes().to_vec());
    assert_eq!(file.gobject_types.len(), 2);
    let declared = &file.gobject_types[0];
    assert_eq!(declared.gtype_name, "MyWidget");
    assert_eq!(declared.type_macro, "MY_TYPE_WIDGET");
    assert_eq!(declared.line, 3);
    assert!(declared.class_struct.is_none());
    match &declared.kind {
        GObjectTypeKind::DeclareFinal { function_prefix, module_prefix, type_prefix, parent_type } => {
            assert_eq!(function_prefix, "my_widget");
            assert_eq!(module_prefix, "MY");
            assert_eq!(type_prefix, "WIDGET");
            assert_eq!(parent_type, "GtkWidget");
        }
        other => panic!("unexpected kind {other:?}"),
    }
    let defined = &file.gobject_types[1];
    assert_eq!(defined.type_macro, "TYPE_MYWIDGET");
    assert_eq!(defined.line, 5);
    match &defined.kind {
        GObjectTypeKind::DefineType { function_prefix, parent_type } => {
            assert_eq!(function_prefix, "my_widget");
            assert_eq!(parent_type, "GTK_TYPE_WIDGET");
        }
        other => panic!("unexpected kind {other:?}"),
    }
    assert_eq!(declared.kind.function_prefix(), "my_widget");
}

#[test]
fn other_type_macros_are_not_types() {
    let src = "G_DEFINE_BOXED_TYPE (MyBox, my_box, my_box_copy, my_box_free);\nG_DEFINE_TYPE (Short, short);\n";
    let file = parse_file_model("b.c".to_string(), src.as_bytes().to_vec());
    assert!(file.gobject_types.is_empty());
}

#[test]
fn generated_functions_of_declared_types_are_internal() {
    let mut project = Project::new();
    project.insert_file(parse_file_model("my-widget.c".to_string(), GOBJECT_SRC.as_bytes().to_vec()));
    let ctx = AstContext { project };
    assert!(ctx.is_gobject_internal("my_widget_class_init"));
    assert!(ctx.is_gobject_internal("my_widget_get_type"));
    assert!(ctx.is_gobject_internal("other_get_type"));
    assert!(!ctx.is_gobject_internal("my_widget_new"));
    assert!(!ctx.is_gobject_internal("other_class_init"));
}

#[test]
fn array_sizes_of_local_declarations() {
    use_decls(
        "static void\nf (void)\n{\n  GParamSpec *props[N_PROPS];\n  int grid[2][3];\n  int x = 1;\n}\n",
    );
}

fn use_decls(src: &str) {
    let file = parse_file_model("a.c".to_string(), src.as_bytes().to_vec());
    let body = &file.functions[0].body_statements;
    assert_eq!(body.len(), 3);
    match &body[0] {
        Statement::Declaration(d) => {
            assert_eq!(d.name, "props");
            match &d.array_size {
                Some(Expression::Identifier(i)) => assert_eq!(i.name, "N_PROPS"),
                other => panic!("unexpected size {other:?}"),
            }
        }
        other => panic!("unexpected statement {other:?}"),
    }
    match &body[1] {
        Statement::Declaration(d) => match &d.array_size {
            Some(Expression::NumberLiteral(n)) => assert_eq!(n.value, "3"),
            other => panic!("unexpected size {other:?}"),
        },
        other => panic!("unexpected statement {other:?}"),
    }
    match &body[2] {
        Statement::Declaration(d) => {
            assert_eq!(d.name, "x");
            assert!(d.array_size.is_none());
            assert!(d.initializer.is_some());
        }
        other => panic!("unexpected statement {other:?}"),
    }
}

const DERIVABLE_SRC: &str = "G_DECLARE_DERIVABLE_TYPE (MyBase, my_base, MY, BASE, GObject);

struct _MyBaseClass
{
  GObjectClass parent_class;

  void     (*activate) (MyBase *self, int flags);
  gboolean (*is_ready) (MyBase *self);
};
";

#[test]
fn class_structs_carry_virtual_functions() {
    let file = parse_file_model("my-base.h".to_string(), DERIVABLE_SRC.as_bytes().to_vec());
    assert_eq!(file.gobject_types.len(), 1);
    let t = &file.gobject_types[0];
    assert!(matches!(t.kind, GObjectTypeKind::DeclareDerivable { .. }));
    let class = t.class_struct.as_ref().unwrap();
    assert_eq!(class.name, "_MyBaseClass");
    assert_eq!(class.vfuncs.len(), 2);
    assert_eq!(class.vfuncs[0].name, "activate");
    assert_eq!(class.vfuncs[0].return_type.as_deref(), Some("void"));
    let params: Vec<(Option<String>, String)> = class.vfuncs[0]
        .parameters
        .iter()
        .map(|p| (p.name.clone(), p.type_text.clone()))
        .collect();
    assert_eq!(
        params,
        vec![
            (Some("self".to_string()), "MyBase".to_string()),
            (Some("flags".to_string()), "int".to_string())
        ]
    );
    assert_eq!(class.vfuncs[1].name, "is_ready");
    assert_eq!(class.vfuncs[1].return_type.as_deref(), Some("gboolean"));
    assert_eq!(class.vfuncs[1].parameters.len(), 1);
}

#[test]
fn class_struct_inside_a_macro_is_found_from_the_text() {
    let src = "G_DECLARE_DERIVABLE_TYPE (Foo, foo, MY, FOO, GObject);\n#define DECLARE_CLASS struct _FooClass { GObjectClass parent; void (*run) (Foo *self); };\n";
    let file = parse_file_model("foo.h".to_string(), src.as_bytes().to_vec());
    assert_eq!(file.gobject_types.len(), 1);
    let class = file.gobject_types[0].class_struct.as_ref().unwrap();
    assert_eq!(class.name, "_FooClass");
    let names: Vec<&str> = class.vfuncs.iter().map(|v| v.name.as_str()).collect();
    assert_eq!(names, vec!["run"]);
}

#[test]
fn final_types_get_no_class_struct_from_the_text() {
    let src = "G_DECLARE_FINAL_TYPE (Foo, foo, MY, FOO, GObject);\n#define DECLARE_CLASS struct _FooClass { GObjectClass parent; void (*run) (Foo *self); };\n";
    let file = parse_file_model("foo.h".to_string(), src.as_bytes().to_vec());
    assert_eq!(file.gobject_types.len(), 1);
    assert!(file.gobject_types[0].class_struct.is_none());
}

#[test]
fn export_macros_mark_prototypes() {
    let src = "#include <glib.h>\n\nG_MODULE_EXPORT void plugin_init (void);\nvoid plain (void);\n\nvoid\nplain (void)\n{\n}\n";
    let file = parse_file_model("p.h".to_string(), src.as_bytes().to_vec());
    let exported: Vec<(String, Vec<String>, bool)> = file
        .functions
        .iter()
        .map(|f| (f.name.clone(), f.export_macros.clone(), f.is_definition))
        .collect();
    assert_eq!(
        exported,
        vec![
            ("plugin_init".to_string(), vec!["G_MODULE_EXPORT".to_string()], false),
            ("plain".to_string(), Vec::new(), false),
            ("plain".to_string(), Vec::new(), true),
        ]
    );
    let mut project = Project::new();
    project.insert_file(file);
    assert!(project.is_function_exported("plugin_init"));
    assert!(!project.is_function_exported("plain"));
}

#[test]
fn top_level_calls_count_as_prototypes() {
    let src = "my_register_types (registry);\nG_DEFINE_TYPE (Foo, foo, G_TYPE_OBJECT);\n\nstatic void\nf (void)\n{\n  g_print (\"x\");\n}\n";
    let file = parse_file_model("t.c".to_string(), src.as_bytes().to_vec());
    let names: Vec<(&str, bool, usize)> =
        file.functions.iter().map(|f| (f.name.as_str(), f.is_definition, f.line)).collect();
    assert_eq!(names, vec![("my_register_types", false, 1), ("f", true, 4)]);
}

fn derivable_type(name: &str) -> GObjectType {
    GObjectType {
        gtype_name: name.to_string(),
        type_macro: "MY_TYPE_WIDGET".to_string(),
        kind: GObjectTypeKind::DeclareDerivable {
            function_prefix: "my_widget".to_string(),
            module_prefix: "MY".to_string(),
            type_prefix: "WIDGET".to_string(),
            parent_type: "GObject".to_string(),
        },
        class_struct: None,
        line: 3,
    }
}

#[test]
fn parsed_class_struct_takes_the_vfuncs_of_the_tree() {
    let text = "struct _MyWidgetClass\n{\n  GObjectClass parent_class;\n  void (*changed) (MyWidget *self, int how);\n  int (*count) (MyWidget *self);\n};";
    let tree = parse_c_source(text.as_bytes());
    assert!(tree.is_some());
    let out = with_parsed_class_struct(derivable_type("MyWidget"), text.as_bytes(), &tree);
    let cs = out.class_struct.expect("class struct attached");
    assert_eq!(cs.name, "_MyWidgetClass");
    let names: Vec<&str> = cs.vfuncs.iter().map(|v| v.name.as_str()).collect();
    assert_eq!(names, vec!["changed", "count"]);
    assert_eq!(cs.vfuncs[0].return_type.as_deref(), Some("void"));
    assert_eq!(cs.vfuncs[0].parameters.len(), 2);
    assert_eq!(cs.vfuncs[0].parameters[1].name.as_deref(), Some("how"));
    assert_eq!(out.gtype_name, "MyWidget");
    assert_eq!(out.line, 3);
}

#[test]
fn parsed_class_struct_without_a_tree_leaves_the_type() {
    let out = with_parsed_class_struct(derivable_type("MyWidget"), b"struct _MyWidgetClass {};", &None);
    assert!(out.class_struct.is_none());
    assert_eq!(out.gtype_name, "MyWidget");
}

#[test]
fn parse_c_source_gives_a_root_in_no_field() {
    let tree = parse_c_source(b"int x;").expect("a tree");
    assert!(tree.field.is_none());
    assert_eq!(tree.kind, "translation_unit");
}

#[test]
fn every_declarator_of_a_declaration_declares_a_variable() {
    let src = "int a, *b = (int *) p, c;";
    let tree = parse_c_source(src.as_bytes()).expect("a tree");
    let decl = tree.children.iter().find(|c| c.kind == "declaration").expect("a declaration");
    let vars = parse_declarations(decl, src.as_bytes(), usize::MAX);
    let names: Vec<&str> = vars.iter().map(|v| v.name.as_str()).collect();
    assert_eq!(names, vec!["a", "b", "c"]);
    assert_eq!(vars[0].type_info.base_type, "int");
    assert_eq!(vars[0].type_info.pointer_depth, 0);
    assert_eq!(vars[0].location.start_byte, 4);
    assert_eq!(vars[1].location.start_byte, 7);
    assert_eq!(vars[1].type_info.pointer_depth, 1);
    assert!(vars[1].initializer.is_some());
    assert_eq!(vars[2].location.start_byte, 23);
    assert_eq!(vars[2].type_info.base_type, "int");
    assert_eq!(vars[2].type_info.pointer_depth, 0);
    let one = "char *s = NULL;";
    let t1 = parse_c_source(one.as_bytes()).expect("a tree");
    let d1 = t1.children.iter().find(|c| c.kind == "declaration").expect("a declaration");
    let vs = parse_declarations(d1, one.as_bytes(), usize::MAX);
    assert_eq!(vs.len(), 1);
    assert_eq!(vs[0].name, "s");
    assert_eq!(vs[0].location.start_byte, 0);
    assert_eq!(vs[0].type_info.pointer_depth, 1);
}

#[test]
fn macro_names_on_ascii() {
    for name in ["G_DECLARE_FINAL_TYPE", "GTK_TYPE_WIDGET", "foo_get_type", "foo_error_quark", "main", "void", "ABCDE", "MY_MACRO"] {
        assert!(is_macro_identifier(name), "{name}");
    }
    for name in ["NULL", "TRUE", "FALSE", "ABC", "X1", "my_function", ""] {
        assert!(!is_macro_identifier(name), "{name}");
    }
}

#[test]
fn initializer_lists_keep_their_items() {
    let src = "struct P p = { .a = 1, [2] = x, 3 };";
    let tree = parse_c_source(src.as_bytes()).expect("a tree");
    let decl = tree.children.iter().find(|c| c.kind == "declaration").expect("a declaration");
    let vars = parse_declarations(decl, src.as_bytes(), usize::MAX);
    assert_eq!(vars.len(), 1);
    match vars[0].initializer.as_ref() {
        Some(Expression::InitializerList(list)) => {
            assert_eq!(list.items.len(), 3);
            assert!(matches!(&list.items[0].designator, Some(Designator::Field(f)) if f == "a"));
            assert!(matches!(&list.items[1].designator, Some(Designator::Subscript(_))));
            assert!(list.items[2].designator.is_none());
            assert!(matches!(&*list.items[1].value, Expression::Identifier(i) if i.name == "x"));
        },
        other => panic!("expected an initializer list, got {other:?}"),
    }
}
