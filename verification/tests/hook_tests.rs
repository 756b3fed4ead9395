use qmerge::hook::abi::{
    is_composite_ty, is_fp_ty, is_hfa, is_integral_ty, is_pointer_ty, layout_parameters,
    ClassDesc, FieldDesc, ParameterStorage, TypeDesc, IL2CPP_TYPE_CLASS, IL2CPP_TYPE_I4,
    IL2CPP_TYPE_I8, IL2CPP_TYPE_R4, IL2CPP_TYPE_R8, IL2CPP_TYPE_STRING, IL2CPP_TYPE_VALUETYPE,
    IL2CPP_TYPE_VOID,
};
use qmerge::hook::allocator::{HookAllocation, HookAllocator};
use qmerge::hook::codegen::{Code, DataFixup, DataFixupInfo, ParamInjection};
use qmerge::hook::{get_injections, InjectionError, Param, TypeRef, METHOD_ATTRIBUTE_STATIC};

fn prim(ty: u32) -> TypeDesc {
    TypeDesc { ty, class: None }
}

fn class_of(ty: u32, natural_alignment: u8) -> TypeDesc {
    TypeDesc {
        ty,
        class: Some(ClassDesc { instance_size: 16 + 8, actual_size: 8, natural_alignment, fields: vec![] }),
    }
}

fn value_type(fields: &[(i32, u32)], data_size: u32, natural_alignment: u8) -> TypeDesc {
    TypeDesc {
        ty: IL2CPP_TYPE_VALUETYPE,
        class: Some(ClassDesc {
            instance_size: 16 + data_size,
            actual_size: data_size,
            natural_alignment,
            fields: fields.iter().map(|&(offset, ty)| FieldDesc { offset, ty }).collect(),
        }),
    }
}

#[test]
fn type_classes() {
    assert!(is_fp_ty(IL2CPP_TYPE_R4));
    assert!(!is_fp_ty(IL2CPP_TYPE_I4));
    assert!(is_composite_ty(IL2CPP_TYPE_VALUETYPE));
    assert!(is_integral_ty(IL2CPP_TYPE_I8));
    assert!(!is_integral_ty(IL2CPP_TYPE_STRING));
    assert!(is_pointer_ty(IL2CPP_TYPE_STRING));
    assert!(is_pointer_ty(IL2CPP_TYPE_CLASS));
}

#[test]
fn scalars_go_to_registers() {
    let types = vec![prim(IL2CPP_TYPE_I4), prim(IL2CPP_TYPE_R8), prim(IL2CPP_TYPE_R4), prim(IL2CPP_TYPE_I8)];
    let l = layout_parameters(true, &types).unwrap();
    let storage: Vec<ParameterStorage> = l.args.iter().map(|a| a.storage).collect();
    assert_eq!(
        storage,
        vec![
            ParameterStorage::GPReg(1),
            ParameterStorage::VectorReg(0),
            ParameterStorage::VectorReg(1),
            ParameterStorage::GPReg(2)
        ]
    );
    let sizes: Vec<usize> = l.args.iter().map(|a| a.size).collect();
    assert_eq!(sizes, vec![4, 8, 4, 8]);
    assert_eq!((l.num_gprs, l.num_fprs, l.stack_size), (3, 2, 0));
}

#[test]
fn the_ninth_integer_goes_to_the_stack() {
    let mut types: Vec<TypeDesc> = (0..8).map(|_| prim(IL2CPP_TYPE_I4)).collect();
    types.push(class_of(IL2CPP_TYPE_I4, 4));
    let l = layout_parameters(false, &types).unwrap();
    assert_eq!(l.args[7].storage, ParameterStorage::GPReg(7));
    assert_eq!(l.args[8].storage, ParameterStorage::Stack(0));
    assert_eq!(l.args[8].size, 8);
    assert_eq!((l.num_gprs, l.num_fprs, l.stack_size), (8, 0, 8));
}

#[test]
fn aggregates_by_kind() {
    let hfa = value_type(&[(0, IL2CPP_TYPE_R4), (4, IL2CPP_TYPE_R4)], 8, 4);
    assert_eq!(is_hfa(&hfa, IL2CPP_TYPE_VALUETYPE), Some((2, IL2CPP_TYPE_R4)));
    let big = value_type(&[(0, IL2CPP_TYPE_I8), (8, IL2CPP_TYPE_I8), (16, IL2CPP_TYPE_I8)], 24, 8);
    let small = value_type(&[(0, IL2CPP_TYPE_I4), (4, IL2CPP_TYPE_I4), (8, IL2CPP_TYPE_I4)], 12, 4);
    assert_eq!(is_hfa(&small, IL2CPP_TYPE_VALUETYPE), None);
    let l = layout_parameters(false, &[hfa, big, small]).unwrap();
    assert_eq!(l.args[0].storage, ParameterStorage::VectorRange(0, 2, false));
    assert!(!l.args[0].ptr);
    assert_eq!(l.args[1].storage, ParameterStorage::GPReg(0));
    assert!(l.args[1].ptr);
    assert_eq!(l.args[1].size, 8);
    assert_eq!(l.args[2].storage, ParameterStorage::GPRRange(1, 2));
    assert_eq!(l.args[2].size, 16);
    assert_eq!((l.num_gprs, l.num_fprs, l.stack_size), (3, 2, 0));
}

#[test]
fn an_unknown_size_has_no_layout() {
    assert!(layout_parameters(false, &[prim(IL2CPP_TYPE_VOID)]).is_none());
    assert!(layout_parameters(false, &[prim(IL2CPP_TYPE_VALUETYPE)]).is_none());
}

#[test]
fn allocations_do_not_overlap() {
    let mut a = HookAllocator::new(16);
    assert_eq!(a.allocate(10), Some(HookAllocation { new_page: false, offset: 0 }));
    assert_eq!(a.allocate(10), Some(HookAllocation { new_page: true, offset: 0 }));
    assert_eq!(a.allocate(6), Some(HookAllocation { new_page: false, offset: 10 }));
    assert_eq!((a.old_pages, a.used), (1, 16));
    assert_eq!(a.allocate(0), None);
    assert_eq!((a.old_pages, a.used), (1, 16));
}

#[test]
fn encodes_instructions() {
    let mut c = Code::new();
    c.load_base_offset(0, 31, 16);
    c.store_base_offset(1, 31, 8);
    c.add_imm(0, 1, 16);
    c.sub_imm(31, 31, 32);
    c.load_base_offset_fp(0, 31, 8, 8);
    c.store_base_offset_fp(1, 31, 4, 4);
    c.ret();
    assert_eq!(
        c.code,
        vec![0xF9400BE0, 0xF90007E1, 0x91004020, 0xD10083FF, 0xFD4007E0, 0xBD0007E1, 0xD65F03C0]
    );
}

#[test]
fn spills_and_calls_are_fixed_up() {
    let mut c = Code::new();
    c.load_spill(2, 8);
    c.call_addr(Some(0x1122_3344_5566_7788));
    c.ret();
    assert_eq!(c.param_spill_fixups, vec![0]);
    assert_eq!(c.data, vec![DataFixup { ins_idx: 1, info: DataFixupInfo::Addr(0x1122_3344_5566_7788) }]);
    assert_eq!(c.size(), 6);
    let image = c.copy_to(0xAAAA_BBBB_CCCC_DDDD, 32);
    // ldr x2, [sp, #8] moved by the 32-byte frame: offset 40 / 8
    assert_eq!(image[0], 0xF9400000 | (5 << 10) | (31 << 5) | 2);
    // the literal load reaches the data word after the code
    assert_eq!(image[1], 0x58000009 | (3 << 5));
    assert_eq!(image[2], 0xD63F0120);
    assert_eq!(image[3], 0xD65F03C0);
    assert_eq!(&image[4..], &[0x5566_7788, 0x1122_3344]);
}

#[test]
fn calls_of_the_original_use_its_address() {
    let mut c = Code::new();
    c.call_addr(None);
    let image = c.copy_to(0x0000_0001_0000_0002, 0);
    assert_eq!(image, vec![0x58000009 | (2 << 5), 0xD63F0120, 2, 1]);
}

#[test]
fn push_front_shifts_fixups() {
    let mut c = Code::new();
    c.call_addr(None);
    let mut front = Code::new();
    front.ret();
    c.push_front(front);
    assert_eq!(c.code, vec![0xD65F03C0, 0x58000009, 0xD63F0120]);
    assert_eq!(c.data, vec![DataFixup { ins_idx: 1, info: DataFixupInfo::Orig }]);
}

fn ty(id: u64, t: u32) -> TypeRef {
    TypeRef { id, data: id, ty: t, byref: false }
}

fn param(name: &str, t: TypeRef) -> Param {
    Param { name: name.to_string(), ty: t }
}

#[test]
fn injections_by_name() {
    let fields = vec![param("speed", ty(1, IL2CPP_TYPE_R4)), param("health", ty(2, IL2CPP_TYPE_I4))];
    let original = vec![param("self", ty(9, IL2CPP_TYPE_CLASS)), param("amount", ty(2, IL2CPP_TYPE_I4))];
    let ret = Some(ty(3, IL2CPP_TYPE_I8));
    let params = vec![
        param("___health", ty(2, IL2CPP_TYPE_I4)),
        param("__instance", ty(9, IL2CPP_TYPE_CLASS)),
        param("__result", ty(3, IL2CPP_TYPE_I8)),
        param("amount", ty(2, IL2CPP_TYPE_I4)),
    ];
    let r = get_injections(METHOD_ATTRIBUTE_STATIC, &params, &fields, &original, ret, true).unwrap();
    assert_eq!(
        r,
        vec![
            ParamInjection::LoadField(1),
            ParamInjection::Instance,
            ParamInjection::Result,
            ParamInjection::OriginalParam(1)
        ]
    );
}

#[test]
fn injection_errors() {
    let fields = vec![param("health", ty(2, IL2CPP_TYPE_I4))];
    let original = vec![param("amount", ty(2, IL2CPP_TYPE_I4))];
    let run = |p: Param, ret: Option<TypeRef>, inst: bool| {
        get_injections(METHOD_ATTRIBUTE_STATIC, &[p], &fields, &original, ret, inst).err()
    };
    assert_eq!(
        get_injections(0, &[], &fields, &original, None, true).err(),
        Some(InjectionError::NotStatic)
    );
    assert_eq!(
        run(param("___mana", ty(2, IL2CPP_TYPE_I4)), None, true),
        Some(InjectionError::FieldNotFound("mana".to_string()))
    );
    assert_eq!(
        run(param("___health", ty(5, IL2CPP_TYPE_I8)), None, true),
        Some(InjectionError::FieldTypeMismatch("___health".to_string()))
    );
    assert_eq!(run(param("__instance", ty(9, IL2CPP_TYPE_CLASS)), None, false), Some(InjectionError::InstanceOnStatic));
    assert_eq!(run(param("__instance", ty(9, IL2CPP_TYPE_I4)), None, true), Some(InjectionError::InstanceTypeMismatch));
    assert_eq!(run(param("__result", ty(3, IL2CPP_TYPE_I8)), None, true), Some(InjectionError::ResultOnVoid));
    assert_eq!(
        run(param("__result", ty(3, IL2CPP_TYPE_I8)), Some(ty(1, IL2CPP_TYPE_VOID)), true),
        Some(InjectionError::ResultOnVoid)
    );
    assert_eq!(
        run(param("__result", ty(3, IL2CPP_TYPE_I8)), Some(ty(4, IL2CPP_TYPE_I8)), true),
        Some(InjectionError::ResultTypeMismatch)
    );
    assert_eq!(
        run(param("amount", ty(7, IL2CPP_TYPE_I4)), None, true),
        Some(InjectionError::ParamTypeMismatch("amount".to_string()))
    );
    assert_eq!(
        run(param("count", ty(2, IL2CPP_TYPE_I4)), None, true),
        Some(InjectionError::ParamNotFound("count".to_string()))
    );
}
