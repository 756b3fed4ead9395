use qmerge::build::parser::{
    is_included_ty, table_lines, try_parse_call, FnDecl, LineCursor, SourceParser,
};
use qmerge::error::Error;

const ID: &str = "0123456789ABCDEF0123456789ABCDEF01234567";

fn method(name: &str) -> String {
    format!("{}_m{}", name, ID)
}

#[test]
fn included_types_are_known() {
    assert!(is_included_ty("void"));
    assert!(is_included_ty("Il2CppComObject"));
    assert!(is_included_ty("RuntimeObject"));
    assert!(!is_included_ty("String_t"));
    assert!(!is_included_ty("void*"));
}

#[test]
fn parses_method_declarations() {
    let line = "IL2CPP_EXTERN_C IL2CPP_METHOD_ATTR void Foo_m123 (RuntimeObject* __this, const RuntimeMethod* method)";
    let d = FnDecl::try_parse(line).unwrap();
    assert_eq!(d.return_ty, "void");
    assert_eq!(d.name, "Foo_m123");
    assert_eq!(d.params, "(RuntimeObject* __this, const RuntimeMethod* method)");
    assert!(!d.inline);

    let line = "IL2CPP_EXTERN_C inline IL2CPP_METHOD_ATTR int32_t Bar_inline (int32_t ___a0, const RuntimeMethod* method);";
    let d = FnDecl::try_parse(line).unwrap();
    assert_eq!(d.return_ty, "int32_t");
    assert_eq!(d.name, "Bar_inline");
    assert_eq!(d.params, "(int32_t ___a0, const RuntimeMethod* method);");
    assert!(d.inline);

    let line = "IL2CPP_EXTERN_C inline  IL2CPP_METHOD_ATTR String_t* Baz (const RuntimeMethod* method)";
    let d = FnDecl::try_parse(line).unwrap();
    assert_eq!(d.return_ty, "String_t*");
    assert_eq!(d.name, "Baz");
    assert!(d.inline);

    let line = "IL2CPP_EXTERN_C const RuntimeMethod* Qux (void)";
    let d = FnDecl::try_parse(line).unwrap();
    assert_eq!(d.return_ty, "const RuntimeMethod*");
    assert_eq!(d.name, "Qux");
    assert!(!d.inline);
}

#[test]
fn rejects_non_declarations() {
    assert!(FnDecl::try_parse("static void f()").is_none());
    assert!(FnDecl::try_parse("IL2CPP_EXTERN_C void f").is_none());
    assert!(FnDecl::try_parse("IL2CPP_EXTERN_C  (int x)").is_none());
}

#[test]
fn recognises_method_calls() {
    let name = method("Foo");
    let line = format!("\tint32_t L_0 = {}(__this, method);", name);
    assert_eq!(try_parse_call(&line, false), Some(name.as_str()));

    let line = format!("\t{}(NULL, /*hidden argument*/NULL);", name);
    assert_eq!(try_parse_call(&line, false), Some(name.as_str()));

    let inline = format!("{}_inline", method("Bar"));
    let line = format!("\tL_1 = {}(L_0);", inline);
    assert_eq!(try_parse_call(&line, false), None);
    assert_eq!(try_parse_call(&line, true), Some(inline.as_str()));

    assert_eq!(try_parse_call("\treturn;", true), None);
    assert_eq!(try_parse_call("\tx = Foo_mabc(1);", true), None);
    let short = "\tFoo_m0123456789ABCDEF0123456789ABCDEF0123456(1);";
    assert_eq!(try_parse_call(short, true), None);
    let lower = format!("\t{}(1);", method("Foo").to_lowercase());
    assert_eq!(try_parse_call(&lower, true), None);
}

#[test]
fn reads_arrays_by_type_and_name() {
    let src = "// header\nconst int32_t g_Values[3] = \n{\n\t1,\n\t2,,\n};\nint x;\n";
    let p = SourceParser::new(src);
    let mut it = p.parse_array("const int32_t", "g_Values").unwrap();
    assert_eq!(it.next(), Some("1"));
    assert_eq!(it.next(), Some("2"));
    assert_eq!(it.next(), None);
    match p.parse_array("const int32_t", "g_Missing") {
        Err(Error::ArrayNotFound(name)) => assert_eq!(name, "g_Missing"),
        _ => panic!("expected ArrayNotFound"),
    }
}

#[test]
fn reads_table_rows_after_declaration() {
    let src = "extern const T g_Table[2];\nconst T g_Table[2] = \n{\n\ta,\n\tb,\n};\n";
    assert_eq!(table_lines(src, "const T g_Table", 3), Some(vec!["\ta,", "\tb,"]));
    assert_eq!(table_lines(src, "const T g_Other", 3), None);
    assert_eq!(table_lines("const T g_Table", "const T g_Table", 3), Some(vec![]));
}

#[test]
fn line_cursor_reads_in_order() {
    let mut c = LineCursor::new("a\nb\n");
    assert_eq!(c.next(), Some("a"));
    assert_eq!(c.next(), Some("b"));
    assert_eq!(c.next(), None);
    assert_eq!(c.pos, 2);
}
