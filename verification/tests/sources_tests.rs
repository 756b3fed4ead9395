use qmerge::build::custom_attributes::{ends_in_generator_body, transform};
use qmerge::build::function_usages::ModFunctionUsages;
use qmerge::build::parser::LineCursor;
use qmerge::build::sources::{
    add_mod_functions, convert_codegen_init_method, get_function_usages, init_lines_valid, mod_source_readable,
    replace_str, scan_mod_source,
};
use qmerge::build::metadata_usage;
use qmerge::build::structs::{add_cpp_ty, find_struct_defs};
use qmerge::build::type_sizes;
use qmerge::error::Error;
use vstd::hash_set::StringHashSet;

const ID: &str = "0123456789ABCDEF0123456789ABCDEF01234567";

fn method(name: &str) -> String {
    format!("{}_m{}", name, ID)
}

fn attributes_source() -> String {
    let mut s = String::new();
    s.push_str("#include \"pch-cpp.hpp\"\n");
    s.push_str(&format!(
        "IL2CPP_EXTERN_C IL2CPP_METHOD_ATTR void {} (RuntimeObject* __this, const RuntimeMethod* method);\n",
        method("Foo")
    ));
    s.push_str("static void A_Gen(CustomAttributesCache* cache)\n{\n");
    s.push_str(&format!("\t{}(NULL, NULL);\n", method("Foo")));
    s.push_str("}\n");
    s.push_str("static void B_Gen(CustomAttributesCache* cache)\n{\n");
    s.push_str(&format!("\t{}(NULL, NULL);\n", method("Bar")));
    s.push_str("}\n");
    s.push_str("extern const CustomAttributesCacheGenerator g_AttributeGenerators[];\n");
    s.push_str("const CustomAttributesCacheGenerator g_AttributeGenerators[2] = \n{\n\t&A_Gen,\n\t&B_Gen,\n};\n");
    s
}

#[test]
fn attributes_keep_the_image_generators() {
    let src = attributes_source();
    let mut names = StringHashSet::new();
    let mut fu = ModFunctionUsages::new();
    fu.external_methods.insert(method("Bar"), 3);
    let out = transform(&src, 1, 1, &mut names, &mut fu).unwrap();
    let expected = format!(
        "#include \"pch-cpp.hpp\"\n\
         IL2CPP_EXTERN_C IL2CPP_METHOD_ATTR void {foo} (RuntimeObject* __this, const RuntimeMethod* method);\n\
         static void B_Gen(CustomAttributesCache* cache)\n{{\n\t{bar}(NULL, NULL);\n}}\n\
         extern const CustomAttributesCacheGenerator g_AttributeGenerators[];\n\
         const CustomAttributesCacheGenerator g_AttributeGenerators[1] =\n{{\n    &B_Gen,\n}};\n",
        foo = method("Foo"),
        bar = method("Bar")
    );
    assert_eq!(out, expected);
    assert!(names.contains("B_Gen"));
    assert!(!names.contains("A_Gen"));
    assert!(fu.using_external.contains(&method("Bar")));
    assert!(!fu.using_external.contains(&method("Foo")));
    let decl = fu.forward_decls.get(&method("Foo")).unwrap();
    assert_eq!(
        decl,
        &format!(
            "IL2CPP_EXTERN_C IL2CPP_METHOD_ATTR void {} (RuntimeObject* __this, const RuntimeMethod* method)",
            method("Foo")
        )
    );
}

#[test]
fn attributes_refuse_an_unhandled_call() {
    let src = attributes_source();
    let mut names = StringHashSet::new();
    let mut fu = ModFunctionUsages::new();
    let r = transform(&src, 1, 1, &mut names, &mut fu);
    assert!(matches!(r, Err(Error::UnhandledFunctionUsage(ref n)) if *n == method("Bar")));
    // The skipped generator's calls are not looked at.
    fu.mod_functions.insert(method("Bar"));
    let r = transform(&src, 1, 1, &mut names, &mut fu);
    assert!(r.is_ok());
}

#[test]
fn attributes_need_the_generator_table() {
    let mut names = StringHashSet::new();
    let mut fu = ModFunctionUsages::new();
    let r = transform("static void A_Gen()\n{\n}\n", 0, 1, &mut names, &mut fu);
    assert!(matches!(r, Err(Error::TableNotFound(ref n)) if n == "g_AttributeGenerators"));
    assert!(!names.contains("A_Gen"));
}

#[test]
fn attributes_source_that_ends_in_a_body() {
    let src = attributes_source();
    assert!(!ends_in_generator_body(&src, 0, 2));
    let cut = src.replace("}\nextern const", "\nextern const").replace("};\n", "");
    let truncated = format!("{}static void B_Gen()\n{{\n", cut);
    assert!(ends_in_generator_body(&truncated, 0, 2));
    assert!(!ends_in_generator_body("no table here\n", 0, 2));
}

fn values_source() -> String {
    "#include \"pch-cpp.hpp\"\n\
     extern const Il2CppTypeDefinitionSizes g_typeDefinitionSize0;\n\
     const Il2CppTypeDefinitionSizes g_typeDefinitionSize0 = { sizeof(A), 0, 0, 0 };\n\
     extern const Il2CppTypeDefinitionSizes g_typeDefinitionSize1;\n\
     const Il2CppTypeDefinitionSizes g_typeDefinitionSize1 = { sizeof(B), 0, 0, 0 };\n\
     IL2CPP_EXTERN_C const int32_t g_FieldOffsetTable0[1] = \n{\n\t0,\n};\n\
     IL2CPP_EXTERN_C const int32_t g_FieldOffsetTable1[2] = \n{\n\t8,\n\t16,\n};\n"
        .to_string()
}

fn table_source() -> String {
    "#include \"pch-cpp.hpp\"\n\
     extern const Il2CppTypeDefinitionSizes g_typeDefinitionSize0;\n\
     extern const Il2CppTypeDefinitionSizes g_typeDefinitionSize1;\n\
     IL2CPP_EXTERN_C_CONST int32_t g_FieldOffsetTable0[1];\n\
     IL2CPP_EXTERN_C_CONST int32_t g_FieldOffsetTable1[2];\n\
     IL2CPP_EXTERN_C_CONST int32_t* g_FieldOffsetTable[2] = \n{\n\tg_FieldOffsetTable0,\n\tg_FieldOffsetTable1,\n};\n\
     IL2CPP_EXTERN_C_CONST Il2CppTypeDefinitionSizes* g_Il2CppTypeDefinitionSizesTable[2] = \n{\n\t(&g_typeDefinitionSize0),\n\t(&g_typeDefinitionSize1),\n};\n"
        .to_string()
}

#[test]
fn type_values_keep_the_image_types() {
    let (values, table) = type_sizes::transform(&values_source(), &table_source(), 1, 1).unwrap();
    assert_eq!(
        values,
        "#include \"pch-cpp.hpp\"\n\
         extern const Il2CppTypeDefinitionSizes g_typeDefinitionSize1;\n\
         const Il2CppTypeDefinitionSizes g_typeDefinitionSize1 = { sizeof(B), 0, 0, 0 };\n\
         IL2CPP_EXTERN_C const int32_t g_FieldOffsetTable1[2] = \n{\n\t8,\n\t16,\n};\n"
    );
    assert_eq!(
        table,
        "#include \"codegen/il2cpp-codegen.h\"\n#include \"merge/codegen.h\"\n\n\
         extern const Il2CppTypeDefinitionSizes g_typeDefinitionSize1;\n\
         IL2CPP_EXTERN_C_CONST int32_t g_FieldOffsetTable1[2];\n\
         IL2CPP_EXTERN_C_CONST int32_t* g_FieldOffsetTable[1] =\n{\n\tg_FieldOffsetTable1,\n};\n\
         IL2CPP_EXTERN_C_CONST Il2CppTypeDefinitionSizes* g_Il2CppTypeDefinitionSizesTable[1] =\n{\n\t(&g_typeDefinitionSize1),\n};\n"
    );
    assert!(type_sizes::type_value_files_complete(&values_source(), &table_source()));
}

#[test]
fn type_values_of_no_type() {
    let (values, _) = type_sizes::transform(&values_source(), &table_source(), 5, 0).unwrap();
    assert_eq!(values, "#include \"pch-cpp.hpp\"\n");
}

#[test]
fn type_values_errors() {
    let bad = "extern const Il2CppTypeDefinitionSizes g_typeDefinitionSizeX;\nconst x;\n";
    let r = type_sizes::transform(bad, &table_source(), 0, 1);
    assert!(matches!(r, Err(Error::InvalidNumber(ref s)) if s == "X"));
    let r = type_sizes::transform(&values_source(), "#include \"pch-cpp.hpp\"\n", 0, 1);
    assert!(matches!(r, Err(Error::TableNotFound(ref s)) if s == "g_FieldOffsetTable"));
    assert!(!type_sizes::type_value_files_complete(
        "extern const Il2CppTypeDefinitionSizes g_typeDefinitionSize0;\n",
        &table_source()
    ));
}

#[test]
fn replace_every_occurrence() {
    assert_eq!(replace_str("a-b--c", "-", "+"), "a+b++c");
    assert_eq!(replace_str("aaa", "aa", "b"), "ba");
    assert_eq!(replace_str("xyz", "q", "r"), "xyz");
}

#[test]
fn init_calls_become_the_mod_s_own() {
    let src = "\u{FEFF}#include \"x.h\"\nvoid f()\n{\n\til2cpp_codegen_initialize_method (F_var);\n}\n";
    assert!(init_lines_valid(src));
    assert_eq!(
        convert_codegen_init_method(src, "mymod", true),
        "#include \"merge/codegen.h\"\n#include \"x.h\"\nvoid f()\n{\n\tmerge_codegen_initialize_method (\"mymod\", F_var);\n}\n"
    );
    assert_eq!(convert_codegen_init_method("a\n", "m", false), "a\n");
    assert!(!init_lines_valid("  il2cpp_codegen_initialize_method;\n"));
}

#[test]
fn calls_of_a_body_are_collected() {
    let src = format!(
        "{{\n\t{}(NULL);\n\tint x = 0;\n\ty = {}(x);\n\t{}(NULL);\n}}\nafter\n",
        method("A"),
        method("B"),
        method("A")
    );
    let mut cursor = LineCursor::new(&src);
    cursor.next();
    let mut usages = vec!["earlier".to_string()];
    get_function_usages(&mut usages, &mut cursor);
    assert_eq!(usages, vec!["earlier".to_string(), method("A"), method("B"), method("A")]);
    assert_eq!(cursor.next(), Some("after"));
}

fn mod_source() -> String {
    let mut s = String::new();
    s.push_str(&format!(
        "IL2CPP_EXTERN_C IL2CPP_METHOD_ATTR void {} (RuntimeObject* __this, const RuntimeMethod* method);\n",
        method("Ext")
    ));
    s.push_str(&format!(
        "IL2CPP_EXTERN_C IL2CPP_METHOD_ATTR void {} (Own_t* __this, const RuntimeMethod* method)\n{{\n\t{}(NULL, NULL);\n}}\n",
        method("Own"),
        method("Ext")
    ));
    s.push_str(&format!(
        "IL2CPP_EXTERN_C inline IL2CPP_METHOD_ATTR void {}_inline (Own_t* __this, const RuntimeMethod* method)\n{{\n\t{}(NULL, NULL);\n}}\n",
        method("Inl"),
        method("Gs")
    ));
    s.push_str(&format!(
        "inline void {} (RuntimeObject* __this, const RuntimeMethod* method)\n{{\n\t((  void (*) (RuntimeObject*, const RuntimeMethod*))GShared_gshared)(__this, method);\n}}\n",
        method("Proxy")
    ));
    s
}

#[test]
fn a_mod_source_is_read() {
    let src = mod_source();
    assert!(mod_source_readable("Mod", &src));
    let mut fu = ModFunctionUsages::new();
    let mut names = StringHashSet::new();
    let mut usages = Vec::new();
    scan_mod_source("Mod", &src, &mut fu, &mut names, &mut usages);
    assert_eq!(
        fu.forward_decls.get(&method("Ext")).unwrap(),
        &format!(
            "IL2CPP_EXTERN_C IL2CPP_METHOD_ATTR void {} (RuntimeObject* __this, const RuntimeMethod* method)",
            method("Ext")
        )
    );
    assert!(names.contains(&method("Own")));
    assert!(names.contains(&format!("{}Mod", method("Inl"))));
    assert!(!names.contains(&method("Ext")));
    assert_eq!(usages, vec![method("Ext"), method("Gs")]);
    assert_eq!(fu.generic_proxies.get(&method("Proxy")).unwrap(), "GShared_gshared");
}

#[test]
fn the_mod_s_own_functions() {
    let mut fu = ModFunctionUsages::new();
    add_mod_functions(&mut fu, &mod_source());
    assert!(fu.mod_functions.contains(&method("Own")));
    assert!(fu.mod_functions.contains(&format!("{}_inline", method("Inl"))));
    assert!(!fu.mod_functions.contains(&method("Ext")));
}

#[test]
fn a_definition_that_runs_past_the_end() {
    let src = format!(
        "IL2CPP_EXTERN_C IL2CPP_METHOD_ATTR void {} (Own_t* __this)\n{{\n\tx;\n",
        method("Own")
    );
    assert!(!mod_source_readable("Mod", &src));
    assert!(!mod_source_readable("Mod", "inline void f (int a)\n{\n"));
    assert!(mod_source_readable("Mod", "plain line\n"));
}

fn usage_source() -> String {
    format!(
        "#include \"pch-c.h\"\n\
         const RuntimeMethod* Foo_var;\n\
         RuntimeClass* Bar_var;\n\
         String_t* _stringLiteral1;\n\
         extern const uint32_t {own}_MetadataUsageId;\n\
         const uint32_t {own}_MetadataUsageId = 7;\n\
         const uint32_t {other}_MetadataUsageId = 8;\n\
         extern void** const g_MetadataUsages[];\n\
         void** const g_MetadataUsages[3] = \n{{\n\
         \t(void**)(&Bar_var),\n\
         \t(void**)(&_stringLiteral1),\n\
         \t(void**)(&Foo_var),\n\
         }};\n",
        own = method("Own"),
        other = method("Other")
    )
}

#[test]
fn metadata_usages_of_the_mod() {
    let src = usage_source();
    let mut funcs = StringHashSet::new();
    funcs.insert(method("Own"));
    assert!(metadata_usage::usage_lines_complete(&src, &funcs));
    let ids = metadata_usage::required_usage_ids(&src, &funcs).unwrap();
    let id_name = format!("{}_MetadataUsageId", method("Own"));
    assert_eq!(ids, vec![(id_name.as_str(), 7)]);
    let (out, fds, n) = metadata_usage::transform(&src, &ids, &vec![0], &vec![2, 0]).unwrap();
    assert_eq!(
        out,
        format!(
            "#include \"pch-c.h\"\n\
             const RuntimeMethod* Foo_var;\n\
             RuntimeClass* Bar_var;\n\
             extern void** const g_MetadataUsages[];\n\
             void** const g_MetadataUsages[2] = \n{{\n    (void**)(&Foo_var),\n    (void**)(&Bar_var),\n}};\n\
             extern const uint32_t {id};\nconst uint32_t {id} = 0;\n",
            id = id_name
        )
    );
    assert_eq!(fds, vec!["const RuntimeMethod* Foo_var;".to_string(), "RuntimeClass* Bar_var;".to_string()]);
    assert_eq!(n, 2);
}

#[test]
fn metadata_usage_errors() {
    let src = usage_source();
    let r = metadata_usage::transform(&src, &vec![], &vec![], &vec![9]);
    assert!(matches!(r, Err(Error::MetadataUsageOutOfRange)));
    let r = metadata_usage::transform("nothing\n", &vec![], &vec![], &vec![]);
    assert!(matches!(r, Err(Error::TableNotFound(ref s)) if s == "g_MetadataUsages"));
    let mut funcs = StringHashSet::new();
    funcs.insert(method("Own"));
    let bad = format!("const uint32_t {}_MetadataUsageId = x;\n", method("Own"));
    let r = metadata_usage::required_usage_ids(&bad, &funcs);
    assert!(matches!(r, Err(Error::InvalidNumber(ref s)) if s == "x"));
    assert!(!metadata_usage::usage_lines_complete("const uint32_t short;\n", &funcs));
}

#[test]
fn structs_are_declared_and_defined_once() {
    let sources = vec![
        "struct A_t;\nstruct B_t  : public Il2CppObject\n{\n\tint32_t x;\n};\n".to_string(),
        "struct B_t  : public Other\n{\n\tjunk;\n};\nstruct FuncInvoker1\n{\n};\nstruct C_t\n{\n\tfloat y;\n".to_string(),
    ];
    let (fds, defs) = find_struct_defs(&sources);
    assert!(fds.contains("A_t"));
    assert!(!fds.contains("B_t"));
    let b = defs.get("B_t").unwrap();
    assert_eq!(b.body, "\tint32_t x;\n");
    assert_eq!(b.parent, Some("Il2CppObject"));
    let c = defs.get("C_t").unwrap();
    assert_eq!(c.body, "\tfloat y;\n");
    assert_eq!(c.parent, None);
    assert!(defs.get("FuncInvoker1").is_none());
}

fn cpp_sources() -> Vec<String> {
    vec!["struct Base_t\n{\n\tint32_t ___x;\n};\n\
struct Derived_t : public Base_t\n{\n\tALIGN_FIELD (8) Foo_t* ___p;\n\tint64_t ___y;\n\n\tpublic:\n};\n\
struct Bad_t\n{\n\tALIGN_FIELD Foo_t* ___q;\n};\n"
        .to_string()]
}

#[test]
fn a_struct_is_written_after_its_parent_and_field_types() {
    let sources = cpp_sources();
    let (_, defs) = find_struct_defs(&sources);
    let mut out = String::new();
    let mut fds = StringHashSet::new();
    let mut added = StringHashSet::new();
    assert_eq!(add_cpp_ty(&mut out, "Derived_t ___d", &defs, &mut fds, &mut added), Ok(()));
    assert_eq!(
        out,
        "struct Base_t\n{\n\tint32_t ___x;\n};\nstruct Foo_t;\n\
struct Derived_t : Base_t\n{\n\tALIGN_FIELD (8) Foo_t* ___p;\n\tint64_t ___y;\n\n\tpublic:\n};\n"
    );
    assert!(added.contains("Base_t") && added.contains("Derived_t"));
    assert!(fds.contains("Foo_t"));
    // what is written once is not written again
    assert_eq!(add_cpp_ty(&mut out, "const Derived_t* ___e", &defs, &mut fds, &mut added), Ok(()));
    assert_eq!(add_cpp_ty(&mut out, "int32_t ___n", &defs, &mut fds, &mut added), Ok(()));
    assert!(out.ends_with("\tpublic:\n};\n"));
}

#[test]
fn a_struct_that_cannot_be_written_fails() {
    let sources = cpp_sources();
    let (_, defs) = find_struct_defs(&sources);
    let mut out = String::new();
    let mut fds = StringHashSet::new();
    let mut added = StringHashSet::new();
    assert_eq!(
        add_cpp_ty(&mut out, "Missing_t ___m", &defs, &mut fds, &mut added),
        Err(Error::CppTypeNotFound("Missing_t".to_string()))
    );
    assert_eq!(
        add_cpp_ty(&mut out, "Bad_t ___b", &defs, &mut fds, &mut added),
        Err(Error::AlignFieldEnd("ALIGN_FIELD Foo_t* ___q;".to_string()))
    );
}
