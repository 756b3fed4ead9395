use qmerge::build::type_definitions::{
    definition_lines_complete_exec, parse, Il2CppTypeData, Il2CppTypeEnum,
};
use qmerge::error::Error;

const TYPES: &str = "#include \"il2cpp-codegen.h\"
const Il2CppType Void_t_0_0_0 = { (void*)1, 0, IL2CPP_TYPE_VOID, 0, 0, 0 };
const Il2CppType T_0 = { (void*)3, 0, IL2CPP_TYPE_VAR, 0, 0, 0 };
const Il2CppType P_0 = { (void*)&Void_t_0_0_0, 0, IL2CPP_TYPE_PTR, 0, 0, 0 };
const Il2CppType I_1 = { (void*)5, 6, IL2CPP_TYPE_I4, 0, 1, 1 };
const Il2CppType G_1 = { (void*)&G_0, 0, IL2CPP_TYPE_GENERICINST, 0, 0, 0 };
Il2CppGenericClass G_0 = { 12, { &GenInst_0, NULL }, NULL };
extern const Il2CppType* const  g_Il2CppTypeTable[4];
const Il2CppType* const  g_Il2CppTypeTable[4] = 
{
\t&P_0,
\t&Void_t_0_0_0,
\t&T_0,
\t&G_1,
};
";

const GENERIC_CLASSES: &str = "extern Il2CppGenericClass* const s_Il2CppGenericTypes[1];
Il2CppGenericClass* const s_Il2CppGenericTypes[1] = 
{
\t&G_0,
};
";

#[test]
fn type_enum_ids_and_names() {
    assert_eq!(Il2CppTypeEnum::Void.get_id(), 0x01);
    assert_eq!(Il2CppTypeEnum::Valuetype.get_id(), 0x11);
    assert_eq!(Il2CppTypeEnum::Mvar.get_id(), 0x1e);
    assert_eq!(Il2CppTypeEnum::from_name("IL2CPP_TYPE_SZARRAY"), Ok(Il2CppTypeEnum::Szarray));
    assert_eq!(Il2CppTypeEnum::from_name("IL2CPP_TYPE_I"), Ok(Il2CppTypeEnum::I));
    assert_eq!(
        Il2CppTypeEnum::from_name("IL2CPP_TYPE_FOO"),
        Err(Error::InvalidTypeEnumName("IL2CPP_TYPE_FOO".to_string()))
    );
}

#[test]
fn type_enum_names_round_trip() {
    let all = [
        ("IL2CPP_TYPE_VOID", Il2CppTypeEnum::Void),
        ("IL2CPP_TYPE_BOOLEAN", Il2CppTypeEnum::Boolean),
        ("IL2CPP_TYPE_CHAR", Il2CppTypeEnum::Char),
        ("IL2CPP_TYPE_I1", Il2CppTypeEnum::I1),
        ("IL2CPP_TYPE_U1", Il2CppTypeEnum::U1),
        ("IL2CPP_TYPE_I2", Il2CppTypeEnum::I2),
        ("IL2CPP_TYPE_U2", Il2CppTypeEnum::U2),
        ("IL2CPP_TYPE_I4", Il2CppTypeEnum::I4),
        ("IL2CPP_TYPE_U4", Il2CppTypeEnum::U4),
        ("IL2CPP_TYPE_I8", Il2CppTypeEnum::I8),
        ("IL2CPP_TYPE_U8", Il2CppTypeEnum::U8),
        ("IL2CPP_TYPE_R4", Il2CppTypeEnum::R4),
        ("IL2CPP_TYPE_R8", Il2CppTypeEnum::R8),
        ("IL2CPP_TYPE_STRING", Il2CppTypeEnum::String),
        ("IL2CPP_TYPE_PTR", Il2CppTypeEnum::Ptr),
        ("IL2CPP_TYPE_VALUETYPE", Il2CppTypeEnum::Valuetype),
        ("IL2CPP_TYPE_CLASS", Il2CppTypeEnum::Class),
        ("IL2CPP_TYPE_VAR", Il2CppTypeEnum::Var),
        ("IL2CPP_TYPE_ARRAY", Il2CppTypeEnum::Array),
        ("IL2CPP_TYPE_GENERICINST", Il2CppTypeEnum::Genericinst),
        ("IL2CPP_TYPE_TYPEDBYREF", Il2CppTypeEnum::Typedbyref),
        ("IL2CPP_TYPE_I", Il2CppTypeEnum::I),
        ("IL2CPP_TYPE_U", Il2CppTypeEnum::U),
        ("IL2CPP_TYPE_OBJECT", Il2CppTypeEnum::Object),
        ("IL2CPP_TYPE_SZARRAY", Il2CppTypeEnum::Szarray),
        ("IL2CPP_TYPE_MVAR", Il2CppTypeEnum::Mvar),
    ];
    let mut ids = Vec::new();
    for (name, t) in all {
        assert_eq!(Il2CppTypeEnum::from_name(name), Ok(t));
        assert!(!ids.contains(&t.get_id()));
        ids.push(t.get_id());
    }
}

#[test]
fn parses_type_and_generic_class_tables() {
    assert!(definition_lines_complete_exec(TYPES));
    let f = parse(TYPES, GENERIC_CLASSES).unwrap();
    assert_eq!(f.types.len(), 4);
    assert!(matches!(f.types[0].data, Il2CppTypeData::Il2CppType("Void_t_0_0_0")));
    assert_eq!(f.types[0].ty, Il2CppTypeEnum::Ptr);
    assert!(matches!(f.types[1].data, Il2CppTypeData::TypeDefIdx(1)));
    assert_eq!(f.types[1].ty, Il2CppTypeEnum::Void);
    assert!(matches!(f.types[2].data, Il2CppTypeData::GenericParamIdx(3)));
    assert!(matches!(f.types[3].data, Il2CppTypeData::Il2CppGenericClass("G_0")));
    assert_eq!(f.ty_name_map.get("P_0"), Some(&0));
    assert_eq!(f.ty_name_map.get("G_1"), Some(&3));
    assert_eq!(f.ty_name_map.get("I_1"), None);
    assert_eq!(f.generic_classes.len(), 1);
    assert_eq!(f.generic_classes[0].ty_def_idx, 12);
    assert_eq!(f.generic_classes[0].class_inst, "GenInst_0");
    assert_eq!(f.gc_name_map.get("G_0"), Some(&0));
}

#[test]
fn reads_flags_of_a_type() {
    let src = TYPES.replace("\t&G_1,\n", "\t&I_1,\n");
    let f = parse(&src, GENERIC_CLASSES).unwrap();
    let t = &f.types[3];
    assert_eq!(t.attrs, 6);
    assert_eq!(t.ty, Il2CppTypeEnum::I4);
    assert!(t.byref);
    assert!(t.pinned);
    assert!(matches!(t.data, Il2CppTypeData::TypeDefIdx(5)));
}

#[test]
fn reports_missing_and_repeated_types() {
    let missing = TYPES.replace("\t&T_0,\n", "\t&Nope_0,\n");
    assert_eq!(parse(&missing, GENERIC_CLASSES).err(), Some(Error::UnknownType("Nope_0".to_string())));
    let twice = TYPES.replace("\t&T_0,\n", "\t&P_0,\n");
    assert_eq!(parse(&twice, GENERIC_CLASSES).err(), Some(Error::UnknownType("P_0".to_string())));
    let gc_missing = GENERIC_CLASSES.replace("\t&G_0,\n", "\t&G_9,\n");
    assert_eq!(
        parse(TYPES, &gc_missing).err(),
        Some(Error::UnknownGenericClass("G_9".to_string()))
    );
}

#[test]
fn reports_missing_tables() {
    let no_table = "const Il2CppType V = { (void*)1, 0, IL2CPP_TYPE_VOID, 0, 0, 0 };\n";
    assert_eq!(
        parse(no_table, GENERIC_CLASSES).err(),
        Some(Error::TableNotFound("g_Il2CppTypeTable".to_string()))
    );
    assert_eq!(
        parse(TYPES, "").err(),
        Some(Error::TableNotFound("s_Il2CppGenericTypes".to_string()))
    );
}

#[test]
fn reports_bad_words() {
    let bad_attrs = TYPES.replace("(void*)5, 6,", "(void*)5, x,");
    assert_eq!(parse(&bad_attrs, GENERIC_CLASSES).err(), Some(Error::InvalidNumber("x".to_string())));
    let bad_kind = TYPES.replace("IL2CPP_TYPE_I4", "IL2CPP_TYPE_I5");
    assert_eq!(
        parse(&bad_kind, GENERIC_CLASSES).err(),
        Some(Error::InvalidTypeEnumName("IL2CPP_TYPE_I5".to_string()))
    );
    let bad_data = TYPES.replace("(void*)3, 0, IL2CPP_TYPE_VAR", "(void*)q, 0, IL2CPP_TYPE_VAR");
    assert_eq!(parse(&bad_data, GENERIC_CLASSES).err(), Some(Error::InvalidNumber("q".to_string())));
}

#[test]
fn detects_short_definition_lines() {
    assert!(!definition_lines_complete_exec("const Il2CppType X = { 1 };\n"));
    assert!(!definition_lines_complete_exec("Il2CppGenericClass G = { 1 };\n"));
    assert!(definition_lines_complete_exec("int x;\n"));
}

#[test]
fn generic_classes_are_defined_in_the_type_source() {
    let gc_def = "Il2CppGenericClass G_0 = { 12, { &GenInst_0, NULL }, NULL };\n";
    let without = TYPES.replace(gc_def, "");
    let moved = format!("{}{}", gc_def, GENERIC_CLASSES);
    assert_eq!(
        parse(&without, &moved).err(),
        Some(Error::UnknownGenericClass("G_0".to_string()))
    );
}
