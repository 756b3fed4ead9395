use qmerge::applier::{TypeResolveContext, TypeResolver};
use qmerge::build::clang::CompileCommand;
use qmerge::build::codegen::{get_methods, rgctx_value_rows, transform};
use qmerge::build::function_usages::ModFunctionUsages;
use qmerge::error::Error;
use qmerge::config::{verify_unity_ver, AppConfig};
use qmerge::data::{
    AddedAssembly, AddedImage, CodeTableSizes, GenericClassInst, GenericContext, GenericInst,
    MergeModData, TypeDescription, TypeDescriptionData,
};
use qmerge::modules::parse;

const CODEGEN: &str = "static Il2CppMethodPointer s_methodPointers[3] = 
{
\tA_m1,
\tNULL,
\tB_m2,
};
";

#[test]
fn method_pointer_tables() {
    assert_eq!(get_methods(CODEGEN), Ok(vec![Some("A_m1"), None, Some("B_m2")]));
    // the module reader starts one line later
    assert_eq!(parse(CODEGEN).unwrap().methods, vec![None, Some("B_m2")]);
    assert_eq!(parse("int x;").unwrap().methods, Vec::<Option<&str>>::new());
}

#[test]
fn unity_versions() {
    assert!(verify_unity_ver("2019.4.28f1"));
    assert!(!verify_unity_ver("2019.4.28f1\n"));
    assert!(!verify_unity_ver("2020.1.0f1"));
}

#[test]
fn app_config_keeps_each_shim_once() {
    let c = AppConfig::new(
        "2019.4.28f1".to_string(),
        vec!["a".to_string(), "b".to_string(), "a".to_string()],
    );
    assert_eq!(c.unity_version, "2019.4.28f1");
    assert_eq!(c.shims, vec!["a".to_string(), "b".to_string()]);
}

#[test]
fn compile_command_collects_inputs() {
    let mut c = CompileCommand::new("/ndk", "out/libmod.so".to_string(), "obj", "aarch64-linux-android26");
    c.add_source("a.cpp".to_string());
    c.add_source("b.c".to_string());
    c.add_include_path("include".to_string());
    assert_eq!(c.source_files(), &vec!["a.cpp".to_string(), "b.c".to_string()]);
    assert_eq!(c.include_paths(), &vec!["include".to_string()]);
    assert_eq!(c.output_path(), "out/libmod.so");
    assert_eq!(c.ndk_path(), "/ndk");
    assert_eq!(c.obj_path(), "obj");
    assert_eq!(c.target(), "aarch64-linux-android26");
}

#[test]
fn resolve_contexts() {
    let c = TypeResolveContext::new(-1);
    assert_eq!(c, TypeResolveContext { class_container: None, method_container: None });
    let c = TypeResolveContext::new(4).with_method(7);
    assert_eq!(c, TypeResolveContext { class_container: Some(4), method_container: Some(7) });
    let c = c.with_method(-1);
    assert_eq!(c, TypeResolveContext { class_container: Some(4), method_container: None });
}

fn empty_mod_data() -> MergeModData {
    MergeModData {
        code_table_sizes: CodeTableSizes {
            generic_adjustor_thunks: 0,
            generic_method_pointers: 0,
            invoker_pointers: 0,
            metadata_usages: 0,
            attribute_generators: 0,
        },
        image_descriptions: vec![],
        type_def_descriptions: vec![],
        type_descriptions: vec![
            TypeDescription { data: TypeDescriptionData::TypeDefIdx(0), attrs: 0, ty: 0x12, by_ref: false, pinned: false },
            TypeDescription { data: TypeDescriptionData::TypeIdx(0), attrs: 0, ty: 0x0f, by_ref: false, pinned: false },
        ],
        method_descriptions: vec![],
        field_descriptions: vec![],
        dependencies: vec![],
        load_before: vec![],
        load_after: vec![],
        added_assembly: AddedAssembly {
            name: "Mod".to_string(),
            culture: String::new(),
            public_key: String::new(),
            hash_alg: 0,
            hash_len: 0,
            flags: 0,
            major: 1,
            minor: 0,
            build: 0,
            revision: 0,
            public_key_token: [0; 8],
            token: 0,
        },
        added_image: AddedImage { name: "Mod.dll".to_string(), token: 0 },
        added_type_defintions: vec![],
        added_usage_lists: vec![],
        added_string_literals: vec![],
        added_ca_ranges: vec![],
        generic_instances: vec![GenericInst { types: vec![0] }],
        generic_method_insts: vec![],
        generic_method_funcs: vec![],
        generic_class_insts: vec![GenericClassInst {
            class: Some(0),
            context: GenericContext { class: Some(0), method: None },
        }],
    }
}

#[test]
fn a_new_resolver_has_resolved_nothing() {
    let data = empty_mod_data();
    let refs = [3usize, 4];
    let r = TypeResolver::new(&data, &refs);
    assert_eq!(r.refs, vec![None, None]);
    assert_eq!(r.generic_insts, vec![None]);
    assert_eq!(r.generic_classes, vec![None]);
    assert_eq!(r.type_def_refs, &[3, 4]);
    assert_eq!(r.descs.len(), 2);
}

const MOD_CODEGEN: &str = "static Il2CppMethodPointer s_methodPointers[1] = 
{
\tA_m1,
};
static const int32_t s_InvokerIndices[3] = 
{
\t5,
\t-1,
\t7,
};
static const Il2CppTokenRangePair s_rgctxIndices[1] = 
{
\t{ 0x06000002, { 0, 2 } },
};
static const Il2CppRGCTXDefinition s_rgctxValues[2] = 
{
\t{ (Il2CppRGCTXDataType)2, 12 },
\t{ (Il2CppRGCTXDataType)3, 40 },
};
";

#[test]
fn codegen_is_renumbered_for_the_mod() {
    let mut fu = ModFunctionUsages::new();
    assert_eq!(fu.add_invoker(7), 0);
    assert_eq!(rgctx_value_rows(MOD_CODEGEN), 2);
    let (out, requests) = transform(MOD_CODEGEN, &mut fu, &vec![100, 200]).unwrap();
    assert_eq!(
        out,
        "static Il2CppMethodPointer s_methodPointers[1] = \n{\n\tA_m1,\n};\n\
         static int32_t s_InvokerIndices[3] = \n{\n    1,\n\t-1,\n    0,\n};\n\
         static const Il2CppTokenRangePair s_rgctxIndices[1] = \n{\n\t{ 0x06000002, { 0, 2 } },\n};\n\
         static const Il2CppRGCTXDefinition s_rgctxValues[2] = \n{\n    { (Il2CppRGCTXDataType)2, 100 },\n    { (Il2CppRGCTXDataType)3, 200 },\n};\n"
    );
    assert_eq!(requests, vec![(2, 12), (3, 40)]);
    assert_eq!(fu.required_invokers, vec![7, 5]);
}

#[test]
fn codegen_errors() {
    let mut fu = ModFunctionUsages::new();
    let src = "static const int32_t s_InvokerIndices[1] = \n{\n\tx,\n};\n";
    assert_eq!(transform(src, &mut fu, &vec![]).err(), Some(Error::InvalidNumber("x".to_string())));
    let src = "static const Il2CppRGCTXDefinition s_rgctxValues[1] = \n{\n\t{ (Il2CppRGCTXDataType)4, 1 },\n};\n";
    assert_eq!(transform(src, &mut fu, &vec![0]).err(), Some(Error::UnsupportedRgctxType(4)));
    let src = "static const Il2CppRGCTXDefinition s_rgctxValues[1] = \n{\n\t{ 1,\n};\n";
    assert_eq!(transform(src, &mut fu, &vec![0]).err(), Some(Error::WrongWordCount));
    let src = "static const Il2CppTokenRangePair s_rgctxIndices[1] = \n{\n\t{ 0xZZ, { 0, 2 } },\n};\n";
    assert_eq!(transform(src, &mut fu, &vec![]).err(), Some(Error::InvalidNumber("ZZ".to_string())));
    let src = "static const int32_t s_InvokerIndices[1] = \n";
    assert_eq!(
        transform(src, &mut fu, &vec![]).err(),
        Some(Error::FileEnded("s_InvokerIndices (skip '{')".to_string()))
    );
    let src = "static const int32_t s_InvokerIndices[1] = \n{\n\t3,\n";
    assert_eq!(transform(src, &mut fu, &vec![]).err(), Some(Error::FileEnded("s_InvokerIndices".to_string())));
}
