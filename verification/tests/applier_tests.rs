use qmerge::applier::{
    generic_method_table_entries, metadata_usages_count, offset_invoker_indices, CodeTableOffsets, GenericMethodTableEntry,
    ImageDefinition, Metadata, MetadataUsagePair, MethodDefinition, ModLoader, StringLiteral, TypeDefMap, TypeDefinition,
};
use qmerge::data::{AddedTypeDefinition, GenericMethodFunctions, ImageDescription, TypeDefDescription};
use qmerge::error::Error;
use qmerge::xref::{find_root_methods, initialize_roots, SymbolTrace, XRefData};

/// A string table holding `names` one after another, and the index of each.
fn strings(names: &[&str]) -> (Vec<u8>, Vec<i32>) {
    let mut data = Vec::new();
    let mut idx = Vec::new();
    for n in names {
        idx.push(data.len() as i32);
        data.extend_from_slice(n.as_bytes());
        data.push(0);
    }
    (data, idx)
}

fn sample() -> Metadata {
    // 0 "Assembly-CSharp.dll", 1 "mscorlib.dll", 2 "Game", 3 "Player",
    // 4 "Update", 5 "Start", 6 "System", 7 "Object", 8 "ToString"
    let (string, i) = strings(&[
        "Assembly-CSharp.dll",
        "mscorlib.dll",
        "Game",
        "Player",
        "Update",
        "Start",
        "System",
        "Object",
        "ToString",
    ]);
    Metadata {
        string,
        string_literal: vec![StringLiteral { length: 2, data_index: 0 }],
        string_literal_data: b"hi\0".to_vec(),
        images: vec![
            ImageDefinition { name_index: i[0], type_start: 0, type_count: 1 },
            ImageDefinition { name_index: i[1], type_start: 1, type_count: 1 },
        ],
        type_definitions: vec![
            TypeDefinition { name_index: i[3], namespace_index: i[2], method_start: 0, method_count: 2 },
            TypeDefinition { name_index: i[7], namespace_index: i[6], method_start: 2, method_count: 1 },
        ],
        methods: vec![
            MethodDefinition { name_index: i[4], token: 0x06000001 },
            MethodDefinition { name_index: i[5], token: 0x06000002 },
            MethodDefinition { name_index: i[8], token: 0x06000010 },
        ],
    }
}

#[test]
fn images_are_found_by_name() {
    let md = sample();
    assert_eq!(md.find_image("Assembly-CSharp.dll").unwrap(), Some(0));
    assert_eq!(md.find_image("mscorlib.dll").unwrap(), Some(1));
    assert_eq!(md.find_image("System.dll").unwrap(), None);
}

#[test]
fn an_image_name_that_is_not_utf8_fails_the_search() {
    let mut md = sample();
    md.string = vec![0xff, 0];
    md.images = vec![ImageDefinition { name_index: 0, type_start: 0, type_count: 0 }];
    assert!(matches!(md.find_image("x"), Err(Error::InvalidUtf8)));
}

#[test]
fn strings_are_appended_with_a_nul() {
    let mut md = sample();
    let before = md.string.len();
    let idx = md.add_str("Added");
    assert_eq!(idx, before as i32);
    assert_eq!(&md.string[before..], b"Added\0");
    let lit = md.add_str_literal("abc");
    assert_eq!(lit, 3);
    assert_eq!(md.string_literal_data, b"hi\0abc\0".to_vec());
}

#[test]
fn string_literals_get_an_entry_and_a_tagged_index() {
    let mut md = sample();
    let eidx = md.add_string_literal("hello");
    assert_eq!(eidx, 1 | 0xA0000000);
    assert_eq!(md.string_literal.len(), 2);
    assert_eq!(md.string_literal[1].length, 5);
    assert_eq!(md.string_literal[1].data_index, 3);
    assert_eq!(md.string_literal_data, b"hi\0hello\0".to_vec());
}

#[test]
fn root_methods_are_found_with_their_image() {
    let md = sample();
    let wanted = vec![("Game", "Player", "Start"), ("System", "Object", "ToString"), ("Game", "Player", "Missing")];
    let found = find_root_methods(&md, &wanted).unwrap();
    assert_eq!(found.len(), 2);
    assert_eq!(
        found[0],
        (
            "Game".to_string(),
            "Player".to_string(),
            "Start".to_string(),
            0x06000002,
            "Assembly-CSharp.dll".to_string()
        )
    );
    assert_eq!(
        found[1],
        (
            "System".to_string(),
            "Object".to_string(),
            "ToString".to_string(),
            0x06000010,
            "mscorlib.dll".to_string()
        )
    );
}

#[test]
fn a_root_is_taken_once() {
    let mut md = sample();
    // a second image that lists the same type again
    md.images.push(ImageDefinition { name_index: md.images[0].name_index, type_start: 0, type_count: 1 });
    let wanted = vec![("Game", "Player", "Update")];
    let found = find_root_methods(&md, &wanted).unwrap();
    assert_eq!(found.len(), 1);
    assert_eq!(found[0].3, 0x06000001);
}

#[test]
fn a_method_name_that_is_not_utf8_fails_the_search() {
    let mut md = sample();
    md.string.extend_from_slice(&[0xfe, 0]);
    let bad = (md.string.len() - 2) as i32;
    md.methods[0].name_index = bad;
    let wanted = vec![("Game", "Player", "Start")];
    assert!(matches!(find_root_methods(&md, &wanted), Err(Error::InvalidUtf8)));
}

#[test]
fn roots_are_initialized_from_the_trace_starts() {
    let md = sample();
    let data = XRefData {
        traces: vec![
            SymbolTrace { symbol: "a".to_string(), start: "il2cpp:System:Object:ToString".to_string(), trace: "L0".to_string() },
            SymbolTrace { symbol: "b".to_string(), start: "invoker:Game:Player:Update".to_string(), trace: "B1".to_string() },
            SymbolTrace { symbol: "c".to_string(), start: "il2cpp:Game:Player:Update".to_string(), trace: "L1".to_string() },
            SymbolTrace { symbol: "d".to_string(), start: "il2cpp_init".to_string(), trace: "P0".to_string() },
        ],
    };
    let found = initialize_roots(&md, &data).unwrap();
    assert_eq!(found.len(), 2);
    assert_eq!(found[0].2, "Update");
    assert_eq!(found[0].3, 0x06000001);
    assert_eq!(found[0].4, "Assembly-CSharp.dll");
    assert_eq!(found[1].2, "ToString");
    assert_eq!(found[1].4, "mscorlib.dll");
}

#[test]
fn generic_method_entries_skip_the_games_own_specs() {
    let funcs = vec![
        GenericMethodFunctions { generic_method: 0, method_idx: 0, invoker_idx: 1, adjustor_thunk_idx: None },
        GenericMethodFunctions { generic_method: 1, method_idx: 1, invoker_idx: 0, adjustor_thunk_idx: Some(2) },
        GenericMethodFunctions { generic_method: 2, method_idx: 2, invoker_idx: 2, adjustor_thunk_idx: None },
    ];
    // the first spec was already in the game's table of 10
    let gen_methods = vec![4, 10, 11];
    let off = CodeTableOffsets { generic_method_pointers: 100, invoker_pointers: 200, generic_adjustor_thunks: 300 };
    let r = generic_method_table_entries(&funcs, &gen_methods, 10, off);
    assert_eq!(
        r,
        vec![
            GenericMethodTableEntry { generic_method_index: 10, method_index: 101, invoker_index: 200, adjustor_thunk_index: 302 },
            GenericMethodTableEntry { generic_method_index: 11, method_index: 102, invoker_index: 202, adjustor_thunk_index: -1 },
        ]
    );
}

#[test]
fn usage_count_is_one_past_the_greatest_destination() {
    let pairs = vec![
        MetadataUsagePair { encoded_source_index: 1, destination_index: 4 },
        MetadataUsagePair { encoded_source_index: 2, destination_index: 9 },
        MetadataUsagePair { encoded_source_index: 3, destination_index: 0 },
    ];
    assert_eq!(metadata_usages_count(&pairs), 10);
    assert_eq!(metadata_usages_count(&vec![]), 1);
}

#[test]
fn invoker_indices_are_moved_by_the_offset() {
    let mut idxs = vec![0, 3, -1];
    offset_invoker_indices(&mut idxs, 40);
    assert_eq!(idxs, vec![40, 43, 39]);
}

#[test]
fn a_type_def_map_keeps_the_last_index_of_a_key() {
    let mut m = TypeDefMap::new();
    m.insert("NS", "A", 1);
    m.insert("NS", "B", 2);
    m.insert("NS", "A", 3);
    assert_eq!(m.get("NS", "A"), Some(3));
    assert_eq!(m.get("NS", "B"), Some(2));
    assert_eq!(m.get("", "A"), None);
}

#[test]
fn the_loader_maps_each_images_types() {
    let loader = ModLoader::new(sample()).unwrap();
    assert_eq!(loader.image_type_def_map.len(), 2);
    assert_eq!(loader.image_type_def_map[0].get("Game", "Player"), Some(0));
    assert_eq!(loader.image_type_def_map[0].get("System", "Object"), None);
    assert_eq!(loader.image_type_def_map[1].get("System", "Object"), Some(1));
    assert_eq!(loader.find_image("mscorlib.dll").unwrap(), Some(1));
}

#[test]
fn the_loader_fails_on_a_type_name_that_is_not_utf8() {
    let mut md = sample();
    md.string.extend_from_slice(&[0xc3, 0]);
    let bad = (md.string.len() - 2) as i32;
    // a type definition outside every image is read too
    md.type_definitions.push(TypeDefinition { name_index: bad, namespace_index: 0, method_start: 0, method_count: 0 });
    assert!(matches!(ModLoader::new(md), Err(Error::InvalidUtf8)));
}

#[test]
fn method_tokens_are_found_by_name() {
    let loader = ModLoader::new(sample()).unwrap();
    assert_eq!(loader.find_method_token_by_name(0, "Game", "Player", "Start").unwrap(), Some(0x06000002));
    assert_eq!(loader.find_method_token_by_name(0, "Game", "Player", "Awake").unwrap(), None);
    assert_eq!(loader.find_method_token_by_name(1, "System", "Object", "ToString").unwrap(), Some(0x06000010));
}

#[test]
fn image_references_are_resolved_by_name() {
    let loader = ModLoader::new(sample()).unwrap();
    let descs = vec![ImageDescription { name: "mscorlib.dll".to_string() }, ImageDescription { name: "Assembly-CSharp.dll".to_string() }];
    assert_eq!(loader.resolve_image_refs(&descs).unwrap(), vec![1, 0]);
    let missing = vec![ImageDescription { name: "Other.dll".to_string() }];
    assert_eq!(loader.resolve_image_refs(&missing), Err(Error::UnresolvedImage("Other.dll".to_string())));
}

fn added(namespace: &str, name: &str) -> AddedTypeDefinition {
    AddedTypeDefinition {
        name: name.to_string(),
        namespace: namespace.to_string(),
        byval_type: 0,
        byref_type: 0,
        declaring_type_def: None,
        declaring_type: None,
        parent_type: None,
        element_type: 0,
        generic_container: None,
        flags: 0,
        fields: vec![],
        methods: vec![],
        events: vec![],
        properties: vec![],
        nested_types: vec![],
        interfaces: vec![],
        vtable: vec![],
        interface_offsets: vec![],
        bitfield: 0,
        token: 0,
    }
}

#[test]
fn type_references_resolve_in_their_images_map() {
    let mut loader = ModLoader::new(sample()).unwrap();
    loader.add_image_map(&vec![added("Mod", "Patch"), added("Mod", "Helper")]);
    assert_eq!(loader.image_type_def_map[2].get("Mod", "Helper"), Some(3));
    let image_refs = vec![0, 1, 2];
    let desc = |image: usize, ns: &str, n: &str| TypeDefDescription {
        image,
        decl_type: None,
        name: n.to_string(),
        namespace: ns.to_string(),
    };
    let descs = vec![desc(1, "System", "Object"), desc(2, "Mod", "Patch"), desc(0, "Game", "Player")];
    assert_eq!(loader.resolve_type_def_refs(&image_refs, &descs).unwrap(), vec![1, 2, 0]);
    let bad = vec![desc(0, "System", "Object")];
    assert_eq!(
        loader.resolve_type_def_refs(&image_refs, &bad),
        Err(Error::UnresolvedTypeReference("System".to_string(), "Object".to_string()))
    );
}
