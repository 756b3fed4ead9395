use qmerge::build::function_usages::{read_adj_thunks, read_invokers, ModFunctionUsages};
use qmerge::build::generics::{
    generic_invoker_templates, get_md_usage_name, process_adj_thunk_calls, process_fn, process_generic_queues, process_line, transform, WriteOrder,
    read_method_ptr_table, scan_generic_source, write_shim,
};
use qmerge::build::parser::FnDecl;
use vstd::hash_map::StringHashMap;
use qmerge::build::invokers;
use qmerge::build::parser::LineCursor;
use qmerge::error::Error;
use vstd::hash_set::StringHashSet;

const ID: &str = "0123456789ABCDEF0123456789ABCDEF01234567";

fn method(name: &str) -> String {
    format!("{}_m{}", name, ID)
}

#[test]
fn numbering_gives_each_index_one_position() {
    let mut fu = ModFunctionUsages::new();
    assert_eq!(fu.add_invoker(5), 0);
    assert_eq!(fu.add_invoker(7), 1);
    assert_eq!(fu.add_invoker(5), 0);
    assert_eq!(fu.required_invokers, vec![5, 7]);
    assert_eq!(fu.add_generic_func(9), 0);
    assert_eq!(fu.add_generic_func(9), 0);
    assert_eq!(fu.required_generic_funcs, vec![9]);
    assert_eq!(fu.add_generic_adj_thunk(3), 0);
    assert_eq!(fu.add_generic_adj_thunk(1), 1);
    assert_eq!(fu.add_generic_adj_thunk(3), 0);
    assert_eq!(fu.required_generic_adj_thunks, vec![3, 1]);
    assert_eq!(fu.required_invokers, vec![5, 7]);
}

#[test]
fn single_source_usages_number_the_same_way() {
    let mut fu = invokers::ModFunctionUsages::new();
    assert_eq!(fu.add_invoker(2), 0);
    assert_eq!(fu.add_invoker(2), 0);
    assert_eq!(fu.add_generic_func(4), 0);
    assert_eq!(fu.add_generic_func(8), 1);
    assert_eq!(fu.add_generic_adj_thunk(0), 0);
    assert_eq!(fu.required_invokers, vec![2]);
    assert_eq!(fu.required_generic_funcs, vec![4, 8]);
    assert_eq!(fu.required_generic_adj_thunks, vec![0]);
}

fn sample_usages() -> ModFunctionUsages {
    let mut fu = ModFunctionUsages::new();
    fu.external_methods.insert(method("Ext"), 12);
    fu.mod_functions.insert(method("Own"));
    fu.generic_proxies.insert(method("Proxy"), "List_1_Add_gshared".to_string());
    fu
}

#[test]
fn records_each_kind_of_usage() {
    let mut fu = sample_usages();
    assert_eq!(fu.process_function_usage(&method("Ext")), Ok(()));
    assert!(fu.using_external.contains(&method("Ext")));
    assert_eq!(fu.process_function_usage(&method("Proxy")), Ok(()));
    assert!(fu.using_gshared.contains("List_1_Add_gshared"));
    assert_eq!(fu.process_function_usage(&method("Own")), Ok(()));
    assert_eq!(fu.using_external.len(), 1);
    assert_eq!(
        fu.process_function_usage("Unknown"),
        Err(Error::UnhandledFunctionUsage("Unknown".to_string()))
    );
}

#[test]
fn usages_stop_at_the_first_unhandled() {
    let mut fu = sample_usages();
    let ext = method("Ext");
    let own = method("Own");
    let usages = vec![own.as_str(), "Nope", ext.as_str()];
    assert_eq!(
        fu.process_function_usages(&usages),
        Err(Error::UnhandledFunctionUsage("Nope".to_string()))
    );
    assert!(!fu.using_external.contains(&ext));
    let usages = vec![own.as_str(), ext.as_str()];
    assert_eq!(fu.process_function_usages(&usages), Ok(()));
    assert!(fu.using_external.contains(&ext));
}

#[test]
fn reads_gshared_proxies() {
    let mut fu = ModFunctionUsages::new();
    let decl = "inline void List_1_Add_m1 (List_1_t* __this, RuntimeObject * ___item0, const RuntimeMethod* method)";
    assert_eq!(fu.parse_gshared_proxy_decl(decl), "List_1_Add_m1");
    let src = "{\n\t((  void (*) (List_1_t*, RuntimeObject *, const RuntimeMethod*))List_1_Add_gshared)(__this, ___item0, method);\n}\n";
    let mut lines = LineCursor::new(src);
    fu.add_gshared_proxy(decl, &mut lines);
    assert_eq!(lines.pos, 2);
    assert_eq!(
        fu.generic_proxies.get("List_1_Add_m1").map(|s| s.as_str()),
        Some("List_1_Add_gshared")
    );
}

#[test]
fn writes_generic_function_table() {
    let mut fu = ModFunctionUsages::new();
    fu.add_generic_func(1);
    fu.add_generic_func(0);
    let text = fu.generic_func_table_source(&vec!["A", "B"]);
    let expected = "#include \"codegen/il2cpp-codegen.h\"\n#include \"merge/codegen.h\"\n\n\
IL2CPP_EXTERN_C void B ();\nIL2CPP_EXTERN_C void A ();\n\
extern const Il2CppMethodPointer g_Il2CppGenericMethodPointers[];\n\
const Il2CppMethodPointer g_Il2CppGenericMethodPointers[2] = \n{\n    (Il2CppMethodPointer)&B,\n    (Il2CppMethodPointer)&A,\n};\n";
    assert_eq!(text, expected);
}

#[test]
fn writes_adjustor_thunk_table() {
    let src = "extern const Il2CppMethodPointer g_Il2CppGenericAdjustorThunks[2];\n\
const Il2CppMethodPointer g_Il2CppGenericAdjustorThunks[2] = \n{\n\tT0_AdjustorThunk,\n\tT1_AdjustorThunk,\n};\n";
    let methods = read_adj_thunks(src);
    assert_eq!(methods, vec!["T0_AdjustorThunk", "T1_AdjustorThunk"]);
    assert_eq!(read_adj_thunks("nothing here"), Vec::<&str>::new());
    let mut fu = ModFunctionUsages::new();
    fu.add_generic_adj_thunk(1);
    let text = fu.adj_thunk_table_source(&methods);
    let expected = "#include \"codegen/il2cpp-codegen.h\"\n#include \"merge/codegen.h\"\n\n\
IL2CPP_EXTERN_C void T1_AdjustorThunk ();\n\
extern const Il2CppMethodPointer g_Il2CppGenericAdjustorThunks[];\n\
const Il2CppMethodPointer g_Il2CppGenericAdjustorThunks[1] = \n{\n    T1_AdjustorThunk,\n};\n\n";
    assert_eq!(text, expected);
    assert_eq!(fu.required_adj_thunk_names(&methods), vec!["T1_AdjustorThunk".to_string()]);
}

const INVOKERS: &str = "#include \"il2cpp-config.h\"
void* RuntimeInvoker_A (Il2CppMethodPointer methodPointer, const RuntimeMethod* methodMetadata, void* obj, void** args)
{
\treturn NULL;
}

void* RuntimeInvoker_B (Il2CppMethodPointer methodPointer, const RuntimeMethod* methodMetadata, void* obj, void** args)
{
\treturn obj;
}

extern const InvokerMethod g_Il2CppInvokerPointers[2];
const InvokerMethod g_Il2CppInvokerPointers[2] = 
{
\tRuntimeInvoker_A,
\tRuntimeInvoker_B,
};
";

#[test]
fn rewrites_invoker_table() {
    let invokers = read_invokers(INVOKERS).unwrap();
    assert_eq!(invokers, vec!["RuntimeInvoker_A", "RuntimeInvoker_B"]);
    let mut fu = ModFunctionUsages::new();
    fu.add_invoker(1);
    let out = fu.invoker_table_source(INVOKERS, &invokers).unwrap();
    let expected = "#include \"il2cpp-config.h\"\n\
void* RuntimeInvoker_B (Il2CppMethodPointer methodPointer, const RuntimeMethod* methodMetadata, void* obj, void** args)\n\
{\n\treturn obj;\n}\n\n\
extern const InvokerMethod g_Il2CppInvokerPointers[2];\n\
const InvokerMethod g_Il2CppInvokerPointers[1] =\n{\n    RuntimeInvoker_B,\n};\n";
    assert_eq!(out, expected);
}

#[test]
fn invoker_errors() {
    assert_eq!(
        read_invokers("no table").err(),
        Some(Error::TableNotFound("g_Il2CppInvokerPointers".to_string()))
    );
    let fu = ModFunctionUsages::new();
    assert_eq!(
        fu.invoker_table_source("void*\n", &vec![]).err(),
        Some(Error::WeirdFnDef("void*".to_string()))
    );
}

#[test]
fn metadata_usage_names() {
    assert_eq!(get_md_usage_name("Foo_gshared_inline", "Bulk_Generics_1"), "FooBulk_Generics_1");
    assert_eq!(get_md_usage_name("Foo_gshared", ""), "Foo");
    assert_eq!(get_md_usage_name("Foo_inline", "Src"), "FooSrc");
    assert_eq!(get_md_usage_name("Foo", "Src"), "Foo");
}

#[test]
fn reads_generic_method_pointers() {
    let src = "extern const Il2CppMethodPointer g_Il2CppGenericMethodPointers[2];\n\
const Il2CppMethodPointer g_Il2CppGenericMethodPointers[2] = \n{\n\
\t(Il2CppMethodPointer)&A_m1/* method 0*/,\n\tNULL/* 1*/,\n};\n";
    assert_eq!(read_method_ptr_table(src), Ok(vec!["A_m1", "NULL"]));
    assert_eq!(read_method_ptr_table("int x;"), Ok(vec![]));
}

#[test]
fn generic_lines_queue_and_record() {
    let mut fu = sample_usages();
    let visited = StringHashSet::new();
    let mut gq: Vec<String> = Vec::new();
    let mut iq: Vec<(&str, usize)> = Vec::new();
    let proxy = format!("\tL_0 = {}(__this, method);", method("Proxy"));
    assert_eq!(process_line(&proxy, 0, &mut fu, &visited, &mut gq, &mut iq), Ok(()));
    assert_eq!(gq, vec!["List_1_Add_gshared".to_string()]);
    let inline = format!("\tL_1 = {}_inline(L_0);", method("Helper"));
    assert_eq!(process_line(&inline, 3, &mut fu, &visited, &mut gq, &mut iq), Ok(()));
    assert_eq!(iq.len(), 1);
    assert_eq!(iq[0].1, 3);
    let ext = format!("\t{}(NULL);", method("Ext"));
    assert_eq!(process_line(&ext, 0, &mut fu, &visited, &mut gq, &mut iq), Ok(()));
    assert!(fu.using_external.contains(&method("Ext")));
    assert!(fu.generic_using_fns.contains(&method("Ext")));
    let own = format!("\t{}(NULL);", method("Own"));
    assert_eq!(process_line(&own, 0, &mut fu, &visited, &mut gq, &mut iq), Ok(()));
    assert!(fu.generic_using_fns.contains(&method("Own")));
    assert!(!fu.using_external.contains(&method("Own")));
    let bad = format!("\t{}(NULL);", method("Bad"));
    assert_eq!(
        process_line(&bad, 0, &mut fu, &visited, &mut gq, &mut iq),
        Err(Error::UnhandledFunctionUsage(method("Bad")))
    );
    assert_eq!(process_line("\treturn;", 0, &mut fu, &visited, &mut gq, &mut iq), Ok(()));
}

#[test]
fn visited_functions_are_passed_over() {
    let mut fu = sample_usages();
    let mut visited = StringHashSet::new();
    visited.insert(method("Bad"));
    let mut gq: Vec<String> = Vec::new();
    let mut iq: Vec<(&str, usize)> = Vec::new();
    let bad = format!("\t{}(NULL);", method("Bad"));
    assert_eq!(process_line(&bad, 0, &mut fu, &visited, &mut gq, &mut iq), Ok(()));
}

#[test]
fn processes_the_body_of_a_function() {
    let mut fu = sample_usages();
    let visited = StringHashSet::new();
    let mut gq: Vec<String> = Vec::new();
    let mut iq: Vec<(&str, usize)> = Vec::new();
    let src = format!(
        "IL2CPP_EXTERN_C IL2CPP_METHOD_ATTR void Gen_gshared (const RuntimeMethod* method);\n\
IL2CPP_EXTERN_C IL2CPP_METHOD_ATTR void Gen_gshared (const RuntimeMethod* method)\n{{\n\
\t{}(NULL);\n\t{}(NULL);\n}}\n\t{}(NULL);\n",
        method("Ext"),
        method("Own"),
        method("Bad")
    );
    assert_eq!(process_fn(&src, "Gen_gshared", 0, &mut fu, &visited, &mut gq, &mut iq), Ok(()));
    assert!(fu.using_external.contains(&method("Ext")));
    assert!(fu.generic_using_fns.contains(&method("Own")));
    assert_eq!(process_fn(&src, "Missing", 0, &mut fu, &visited, &mut gq, &mut iq), Ok(()));
}

#[test]
fn shims_call_the_method_pointer() {
    let line = "IL2CPP_EXTERN_C IL2CPP_METHOD_ATTR int32_t F_gshared (RuntimeObject* __this, int32_t ___a, const RuntimeMethod* method)";
    let decl = FnDecl::try_parse(line).unwrap();
    let mut out = String::from("x\n");
    write_shim(&mut out, &decl);
    assert_eq!(
        out,
        "x\n{\n    return ((int32_t (*)(RuntimeObject* __this, int32_t ___a, const RuntimeMethod* method))(method->methodPointer))(__this, ___a, method);\n}\n\n"
    );
}

#[test]
fn invoker_templates_are_collected() {
    let sources = vec![
        "int a;\ntemplate <typename R>\nstruct InvokerFuncInvoker0\n{\n\tstatic R Invoke();\n};\nint x;\n".to_string(),
        "template <typename T1>\nstruct InvokerActionInvoker1\n{\n".to_string(),
    ];
    let m = generic_invoker_templates(&sources);
    assert_eq!(
        m.get("InvokerFuncInvoker0").unwrap(),
        "template <typename R>\nstruct InvokerFuncInvoker0\n{\n\tstatic R Invoke();\n};\n"
    );
    assert_eq!(m.get("InvokerActionInvoker1").unwrap(), "template <typename T1>\nstruct InvokerActionInvoker1\n{\n");
}

#[test]
fn a_generic_source_is_read() {
    let src = format!(
        "IL2CPP_EXTERN_C IL2CPP_METHOD_ATTR void {a} (const RuntimeMethod* method);\n\
         IL2CPP_EXTERN_C inline IL2CPP_METHOD_ATTR void {b}_inline (const RuntimeMethod* method)\n{{\n}}\n\
         inline void {p} (RuntimeObject* __this, const RuntimeMethod* method)\n{{\n\t((  void (*) (RuntimeObject*, const RuntimeMethod*))G_gshared)(__this, method);\n}}\n",
        a = method("A"),
        b = method("B"),
        p = method("P")
    );
    let mut fu = ModFunctionUsages::new();
    let mut defs: StringHashMap<usize> = StringHashMap::new();
    let mut inlines = StringHashSet::new();
    scan_generic_source(&src, 3, &mut fu, &mut defs, &mut inlines);
    assert!(fu.forward_decls.get(&method("A")).is_some());
    assert_eq!(defs.get(&format!("{}_inline", method("B"))), Some(&3));
    assert!(inlines.contains(&format!("{}_inline", method("B"))));
    assert_eq!(fu.generic_proxies.get(&method("P")).unwrap(), "G_gshared");
}

#[test]
fn adjustor_thunk_calls_are_recorded() {
    let sources = vec![format!(
        "IL2CPP_EXTERN_C IL2CPP_METHOD_ATTR void T_AdjustorThunk (RuntimeObject* __this, const RuntimeMethod* method)\n{{\n\tint32_t _offset = 1;\n\tFoo_t* _thisAdjusted = NULL;\n\treturn {c}(_thisAdjusted, method);\n}}\n",
        c = method("C")
    )];
    let mut thunks = StringHashSet::new();
    thunks.insert("T_AdjustorThunk".to_string());
    let visited = StringHashSet::new();
    let mut gq: Vec<String> = Vec::new();
    let mut iq: Vec<(&str, usize)> = Vec::new();
    let mut fu = ModFunctionUsages::new();
    let r = process_adj_thunk_calls(&sources, &thunks, &mut fu, &visited, &mut gq, &mut iq);
    assert!(matches!(r, Err(Error::UnhandledFunctionUsage(ref n)) if *n == method("C")));
    fu.mod_functions.insert(method("C"));
    let r = process_adj_thunk_calls(&sources, &thunks, &mut fu, &visited, &mut gq, &mut iq);
    assert!(r.is_ok());
    assert!(fu.generic_using_fns.contains(&method("C")));
}

#[test]
fn external_stubs_resolve_their_method() {
    let decl = format!(
        "IL2CPP_EXTERN_C IL2CPP_METHOD_ATTR void {} (RuntimeObject* __this, const RuntimeMethod* method)",
        method("Foo")
    );
    let mut out = String::new();
    invokers::push_external_stub(&mut out, &decl, "mymod", 7);
    assert_eq!(
        out,
        format!(
            "{}\n{{\n    return ((void (*)(RuntimeObject* __this, const RuntimeMethod* method))(merge_codegen_resolve_method(\"mymod\", 7)))(__this, method);\n}}\n\n",
            decl
        )
    );
}

fn queue_sources() -> Vec<String> {
    vec![format!(
        "IL2CPP_EXTERN_C IL2CPP_METHOD_ATTR void List_1_Add_gshared (const RuntimeMethod* method)\n{{\n\
\t{}(NULL);\n\tL_1 = {}_inline(L_0);\n}}\n\
IL2CPP_EXTERN_C inline IL2CPP_METHOD_ATTR void {}_inline (const RuntimeMethod* method)\n{{\n\
\t{}(NULL);\n}}\n",
        method("Ext"),
        method("Helper"),
        method("Helper"),
        method("Own")
    )]
}

#[test]
fn the_generic_queues_are_drained() {
    let mut fu = sample_usages();
    let sources = queue_sources();
    let source_names = vec!["Generics0".to_string()];
    let mut def_src = StringHashMap::new();
    def_src.insert("List_1_Add_gshared".to_string(), 0usize);
    def_src.insert(format!("{}_inline", method("Helper")), 0usize);
    let mut names = StringHashSet::new();
    let mut visited = StringHashSet::new();
    let mut gq = vec!["List_1_Add_gshared".to_string()];
    let mut iq: Vec<(&str, usize)> = Vec::new();
    let r = process_generic_queues(&mut fu, &mut names, &mut visited, &def_src, &source_names, &sources, &mut gq, &mut iq);
    assert_eq!(r, Ok(()));
    assert!(gq.is_empty() && iq.is_empty());
    assert!(fu.using_external.contains(&method("Ext")));
    assert!(fu.generic_using_fns.contains(&method("Ext")));
    assert!(fu.generic_using_fns.contains(&method("Own")));
    assert!(visited.contains("List_1_Add_gshared"));
    assert!(visited.contains(&format!("{}_inline", method("Helper"))));
    assert!(names.contains("List_1_Add"));
    assert!(names.contains(&format!("{}Generics0", method("Helper"))));
    assert_eq!(names.len(), 2);
}

#[test]
fn the_generic_queues_stop_at_an_unhandled_usage() {
    let mut fu = sample_usages();
    let sources = vec![format!(
        "IL2CPP_EXTERN_C IL2CPP_METHOD_ATTR void G_gshared (const RuntimeMethod* method)\n{{\n\t{}(NULL);\n}}\n",
        method("Bad")
    )];
    let source_names = vec!["Generics0".to_string()];
    let mut def_src = StringHashMap::new();
    def_src.insert("G_gshared".to_string(), 0usize);
    let mut names = StringHashSet::new();
    let mut visited = StringHashSet::new();
    let mut gq = vec!["G_gshared".to_string()];
    let mut iq: Vec<(&str, usize)> = Vec::new();
    let r = process_generic_queues(&mut fu, &mut names, &mut visited, &def_src, &source_names, &sources, &mut gq, &mut iq);
    assert_eq!(r, Err(Error::UnhandledFunctionUsage(method("Bad"))));
}

#[test]
fn the_generic_pass_collects_what_the_writer_needs() {
    let mut fu = sample_usages();
    fu.using_gshared.insert("List_1_Add_gshared".to_string());
    let sources = vec![format!(
        "IL2CPP_EXTERN_C IL2CPP_METHOD_ATTR void {} (const RuntimeMethod* method);\n\
IL2CPP_EXTERN_C IL2CPP_METHOD_ATTR void List_1_Add_gshared (const RuntimeMethod* method)\n{{\n\
\t{}(NULL);\n}}\n\
template <typename R>\nstruct InvokerFuncInvoker0\n{{\n\tstatic R Invoke();\n}};\n\
struct Foo_t;\n",
        method("Ext"),
        method("Ext")
    )];
    let source_names = vec!["Generics0".to_string()];
    let thunks = StringHashSet::new();
    let mut names = StringHashSet::new();
    let data = transform(&mut fu, &mut names, &source_names, &sources, &thunks, vec!["List_1_Add_gshared".to_string()])
        .unwrap();
    assert_eq!(data.def_src_map.get("List_1_Add_gshared"), Some(&0));
    assert!(data.visited.contains("List_1_Add_gshared"));
    assert!(names.contains("List_1_Add"));
    assert!(fu.using_external.contains(&method("Ext")));
    assert!(fu.forward_decls.contains_key(&method("Ext")));
    assert!(data.generic_invoker_templates.get("InvokerFuncInvoker0").is_some());
    assert!(data.struct_fds.contains("Foo_t"));
}

#[test]
fn the_generic_source_is_written() {
    let mut fu = sample_usages();
    fu.using_gshared.insert("List_1_Add_gshared".to_string());
    let ext = method("Ext");
    let sources = vec![format!(
        "IL2CPP_EXTERN_C IL2CPP_METHOD_ATTR void {} (const RuntimeMethod* method);\n\
IL2CPP_EXTERN_C IL2CPP_METHOD_ATTR void List_1_Add_gshared (const RuntimeMethod* method)\n{{\n\
\t{}(NULL);\n}}\n\
template <typename R>\nstruct InvokerFuncInvoker0\n{{\n\tstatic R Invoke();\n}};\n\
struct Foo_t;\n",
        ext, ext
    )];
    let source_names = vec!["Generics0".to_string()];
    let thunks = StringHashSet::new();
    let mut names = StringHashSet::new();
    let data = transform(&mut fu, &mut names, &source_names, &sources, &thunks, vec!["List_1_Add_gshared".to_string()])
        .unwrap();
    let mut funcs = StringHashMap::new();
    funcs.insert("List_1_Add_gshared".to_string(), false);
    let order = WriteOrder {
        struct_fds: vec!["Foo_t".to_string()],
        templates: vec!["InvokerFuncInvoker0".to_string()],
        struct_defs: vec![],
        generic_using_fns: vec![ext.clone()],
        funcs: vec!["List_1_Add_gshared".to_string()],
    };
    let usage_fds = vec!["const uint32_t U_MetadataUsageId;".to_string()];
    let text = qmerge::build::generics::write(data, &order, &funcs, &usage_fds, &source_names, &sources, &fu, &thunks).unwrap();
    let expected = format!(
        "#include \"codegen/il2cpp-codegen.h\"\n#include \"merge/codegen.h\"\n\n\
struct Foo_t;\n\
template <typename R>\nstruct InvokerFuncInvoker0\n{{\n\tstatic R Invoke();\n}};\n\n\
IL2CPP_EXTERN_C const uint32_t U_MetadataUsageId;\n\
IL2CPP_EXTERN_C IL2CPP_METHOD_ATTR void {} (const RuntimeMethod* method);\n\
\n\
IL2CPP_EXTERN_C const uint32_t List_1_Add_MetadataUsageId;\n\
IL2CPP_EXTERN_C IL2CPP_METHOD_ATTR void List_1_Add_gshared (const RuntimeMethod* method)\n{{\n\t{}(NULL);\n}}\n",
        ext, ext
    );
    assert_eq!(text, expected);
}

#[test]
fn a_generic_function_written_as_a_shim_calls_its_method_pointer() {
    let mut fu = sample_usages();
    fu.using_gshared.insert("F_gshared".to_string());
    let sources = vec![
        "IL2CPP_EXTERN_C IL2CPP_METHOD_ATTR int32_t F_gshared (RuntimeObject* __this, const RuntimeMethod* method)\n{\n\treturn 0;\n}\n"
            .to_string(),
    ];
    let source_names = vec!["Generics0".to_string()];
    let thunks = StringHashSet::new();
    let mut names = StringHashSet::new();
    let data = transform(&mut fu, &mut names, &source_names, &sources, &thunks, vec!["F_gshared".to_string()]).unwrap();
    let mut funcs = StringHashMap::new();
    funcs.insert("F_gshared".to_string(), true);
    let order = WriteOrder {
        struct_fds: vec![],
        templates: vec![],
        struct_defs: vec![],
        generic_using_fns: vec![],
        funcs: vec!["F_gshared".to_string()],
    };
    let text = qmerge::build::generics::write(data, &order, &funcs, &vec![], &source_names, &sources, &fu, &thunks).unwrap();
    assert!(text.ends_with(
        "IL2CPP_EXTERN_C const uint32_t F_MetadataUsageId;\n\
IL2CPP_EXTERN_C IL2CPP_METHOD_ATTR int32_t F_gshared (RuntimeObject* __this, const RuntimeMethod* method)\n\
{\n    return ((int32_t (*)(RuntimeObject* __this, const RuntimeMethod* method))(method->methodPointer))(__this, method);\n}\n\n"
    ));
}

#[test]
fn external_methods_are_called_through_the_fixup_table() {
    let mut fu = ModFunctionUsages::new();
    let ext = method("Ext");
    let decl = format!(
        "IL2CPP_EXTERN_C IL2CPP_METHOD_ATTR void {} (Foo_t* __this, int32_t ___a, const RuntimeMethod* method)",
        ext
    );
    fu.forward_decls.insert(ext.clone(), decl.clone());
    let sources: Vec<String> = vec![];
    let (_, defs) = qmerge::build::structs::find_struct_defs(&sources);
    let text = fu.write_external(&vec![ext.clone()], &vec![7], &defs).unwrap();
    let expected = format!(
        "#include \"codegen/il2cpp-codegen.h\"\n#include \"merge/codegen.h\"\n\n\
extern const size_t g_ExternFuncCount;\nextern void* g_MethodFixups[];\nextern const func_lut_entry_t g_FuncLut[];\n\n\
struct Foo_t;\n\
__attribute__((noinline))\n{}\n__attribute__((disable_tail_calls))\n{{\n    return ((void (*)(Foo_t* __this, int32_t ___a, const RuntimeMethod* method))(g_MethodFixups[0]))(__this, ___a, method);\n}}\n\n\
const size_t g_ExternFuncCount = 1;\nvoid* g_MethodFixups[1] =\n{{\n    (void*)&merge_prestub,\n}};\n\n\
const func_lut_entry_t g_FuncLut[1] =\n{{\n    {{ (void*)&{}, 7 }},\n}};\n\n",
        decl, ext
    );
    assert_eq!(text, expected);
}

#[test]
fn an_external_whose_type_is_unknown_fails() {
    let mut fu = ModFunctionUsages::new();
    let ext = method("Ext");
    let decl = format!("IL2CPP_EXTERN_C IL2CPP_METHOD_ATTR Bar_t {} (const RuntimeMethod* method)", ext);
    fu.forward_decls.insert(ext.clone(), decl);
    let sources: Vec<String> = vec![];
    let (_, defs) = qmerge::build::structs::find_struct_defs(&sources);
    assert_eq!(fu.write_external(&vec![ext], &vec![0], &defs), Err(Error::CppTypeNotFound("Bar_t".to_string())));
}
