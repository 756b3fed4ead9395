//! Where the AArch64 procedure call standard (AAPCS64) puts each parameter of
//! an il2cpp method: in general purpose registers, in vector registers, or on
//! the stack.
//!
//! A type is described by plain values (`TypeDesc`): its il2cpp type enum and,
//! where the runtime has one, the class that its data index names.
use vstd::prelude::*;

verus! {

pub const IL2CPP_TYPE_VOID: u32 = 0x01;
pub const IL2CPP_TYPE_BOOLEAN: u32 = 0x02;
pub const IL2CPP_TYPE_CHAR: u32 = 0x03;
pub const IL2CPP_TYPE_I1: u32 = 0x04;
pub const IL2CPP_TYPE_U1: u32 = 0x05;
pub const IL2CPP_TYPE_I2: u32 = 0x06;
pub const IL2CPP_TYPE_U2: u32 = 0x07;
pub const IL2CPP_TYPE_I4: u32 = 0x08;
pub const IL2CPP_TYPE_U4: u32 = 0x09;
pub const IL2CPP_TYPE_I8: u32 = 0x0a;
pub const IL2CPP_TYPE_U8: u32 = 0x0b;
pub const IL2CPP_TYPE_R4: u32 = 0x0c;
pub const IL2CPP_TYPE_R8: u32 = 0x0d;
pub const IL2CPP_TYPE_STRING: u32 = 0x0e;
pub const IL2CPP_TYPE_PTR: u32 = 0x0f;
pub const IL2CPP_TYPE_VALUETYPE: u32 = 0x11;
pub const IL2CPP_TYPE_CLASS: u32 = 0x12;
pub const IL2CPP_TYPE_VAR: u32 = 0x13;
pub const IL2CPP_TYPE_ARRAY: u32 = 0x14;
pub const IL2CPP_TYPE_GENERICINST: u32 = 0x15;
pub const IL2CPP_TYPE_I: u32 = 0x18;
pub const IL2CPP_TYPE_U: u32 = 0x19;
pub const IL2CPP_TYPE_FNPTR: u32 = 0x1b;
pub const IL2CPP_TYPE_OBJECT: u32 = 0x1c;
pub const IL2CPP_TYPE_SZARRAY: u32 = 0x1d;
pub const IL2CPP_TYPE_MVAR: u32 = 0x1e;
pub const IL2CPP_TYPE_ENUM: u32 = 0x55;

/// The size of a pointer, and of `usize`, on AArch64.
pub const POINTER_SIZE: usize = 8;

/// The size of the object header (`Il2CppObject`) that a class's
/// `instance_size` counts and a value type's data does not.
pub const OBJECT_HEADER_SIZE: u32 = 16;

/// A field of a class: its offset (`-1` for a static field) and its type enum.
#[derive(Clone, Copy, Debug, PartialEq, Eq, Structural)]
pub struct FieldDesc {
    pub offset: i32,
    pub ty: u32,
}

/// What the layout reads of an `Il2CppClass`.
#[derive(Debug)]
pub struct ClassDesc {
    pub instance_size: u32,
    pub actual_size: u32,
    pub natural_alignment: u8,
    pub fields: Vec<FieldDesc>,
}

/// A parameter type: its type enum (`Il2CppType::type_()`) and the class that
/// its data names, where the runtime resolves one.
#[derive(Debug)]
pub struct TypeDesc {
    pub ty: u32,
    pub class: Option<ClassDesc>,
}

#[derive(Clone, Copy, Debug, PartialEq, Eq, Structural)]
pub enum ParameterStorage {
    Unallocated,
    VectorReg(u32),
    /// Copy fields to consecutive vector registers starting at v[.0] with count .1 (one register
    /// per member); .2 if double.
    VectorRange(u32, u32, bool),
    /// Copy to stack at offset .0
    Stack(u32),
    /// Copy to general purpose registers starting at x[.0] using .1 registers as if the structure
    /// was loaded with consecutive ldrs
    GPRRange(u32, u32),
    GPReg(u32),
}

#[derive(Clone, Copy, Debug, PartialEq, Eq, Structural)]
pub struct Arg {
    /// The type enum of the parameter.
    pub ty: u32,
    /// The parameter was copied to memory and is passed as a pointer.
    pub ptr: bool,
    pub storage: ParameterStorage,
    pub size: usize,
}

pub struct ParamLayout {
    pub args: Vec<Arg>,
    pub num_gprs: u32,
    pub num_fprs: u32,
    pub stack_size: u32,
}

pub open spec fn fp_ty(ty: u32) -> bool {
    ty == IL2CPP_TYPE_R4 || ty == IL2CPP_TYPE_R8
}

pub open spec fn composite_ty(ty: u32) -> bool {
    ty == IL2CPP_TYPE_VALUETYPE
}

pub open spec fn integral_ty(ty: u32) -> bool {
    ||| ty == IL2CPP_TYPE_BOOLEAN
    ||| ty == IL2CPP_TYPE_CHAR
    ||| ty == IL2CPP_TYPE_I1
    ||| ty == IL2CPP_TYPE_U1
    ||| ty == IL2CPP_TYPE_I2
    ||| ty == IL2CPP_TYPE_U2
    ||| ty == IL2CPP_TYPE_I4
    ||| ty == IL2CPP_TYPE_U4
    ||| ty == IL2CPP_TYPE_I8
    ||| ty == IL2CPP_TYPE_U8
    ||| ty == IL2CPP_TYPE_I
    ||| ty == IL2CPP_TYPE_U
    ||| ty == IL2CPP_TYPE_ENUM
}

pub open spec fn pointer_ty(ty: u32) -> bool {
    ||| ty == IL2CPP_TYPE_PTR
    ||| ty == IL2CPP_TYPE_FNPTR
    ||| ty == IL2CPP_TYPE_STRING
    ||| ty == IL2CPP_TYPE_SZARRAY
    ||| ty == IL2CPP_TYPE_ARRAY
    ||| ty == IL2CPP_TYPE_CLASS
    ||| ty == IL2CPP_TYPE_OBJECT
    ||| ty == IL2CPP_TYPE_VAR
    ||| ty == IL2CPP_TYPE_MVAR
}

pub fn is_fp_ty(ty: u32) -> (b: bool)
    ensures
        b == fp_ty(ty),
{
    ty == IL2CPP_TYPE_R4 || ty == IL2CPP_TYPE_R8
}

pub fn is_composite_ty(ty: u32) -> (b: bool)
    ensures
        b == composite_ty(ty),
{
    ty == IL2CPP_TYPE_VALUETYPE
}

pub fn is_integral_ty(ty: u32) -> (b: bool)
    ensures
        b == integral_ty(ty),
{
    ty == IL2CPP_TYPE_BOOLEAN || ty == IL2CPP_TYPE_CHAR || ty == IL2CPP_TYPE_I1 || ty
        == IL2CPP_TYPE_U1 || ty == IL2CPP_TYPE_I2 || ty == IL2CPP_TYPE_U2 || ty == IL2CPP_TYPE_I4
        || ty == IL2CPP_TYPE_U4 || ty == IL2CPP_TYPE_I8 || ty == IL2CPP_TYPE_U8 || ty
        == IL2CPP_TYPE_I || ty == IL2CPP_TYPE_U || ty == IL2CPP_TYPE_ENUM
}

pub fn is_pointer_ty(ty: u32) -> (b: bool)
    ensures
        b == pointer_ty(ty),
{
    ty == IL2CPP_TYPE_PTR || ty == IL2CPP_TYPE_FNPTR || ty == IL2CPP_TYPE_STRING || ty
        == IL2CPP_TYPE_SZARRAY || ty == IL2CPP_TYPE_ARRAY || ty == IL2CPP_TYPE_CLASS || ty
        == IL2CPP_TYPE_OBJECT || ty == IL2CPP_TYPE_VAR || ty == IL2CPP_TYPE_MVAR
}

/// The size in bytes of a value of type `t`; `None` for a type whose size is not
/// known here (or a value type without its class, or with an instance size
/// smaller than the object header).
pub open spec fn ty_size(t: TypeDesc) -> Option<usize> {
    let ty = t.ty;
    if ty == IL2CPP_TYPE_I1 || ty == IL2CPP_TYPE_U1 || ty == IL2CPP_TYPE_BOOLEAN {
        Some(1)
    } else if ty == IL2CPP_TYPE_I2 || ty == IL2CPP_TYPE_U2 || ty == IL2CPP_TYPE_CHAR {
        Some(2)
    } else if ty == IL2CPP_TYPE_I4 || ty == IL2CPP_TYPE_U4 || ty == IL2CPP_TYPE_R4 {
        Some(4)
    } else if ty == IL2CPP_TYPE_I8 || ty == IL2CPP_TYPE_U8 || ty == IL2CPP_TYPE_R8 {
        Some(8)
    } else if ty == IL2CPP_TYPE_I || ty == IL2CPP_TYPE_U || pointer_ty(ty) {
        Some(POINTER_SIZE)
    } else if ty == IL2CPP_TYPE_VALUETYPE {
        match t.class {
            Some(c) => if c.instance_size >= OBJECT_HEADER_SIZE {
                Some((c.instance_size - OBJECT_HEADER_SIZE) as usize)
            } else {
                None
            },
            None => None,
        }
    } else {
        None
    }
}

/// `get_ty_size`
pub fn get_ty_size(t: &TypeDesc) -> (s: usize)
    requires
        ty_size(*t) is Some,
    ensures
        ty_size(*t) == Some(s),
{
    let ty = t.ty;
    if ty == IL2CPP_TYPE_I1 || ty == IL2CPP_TYPE_U1 || ty == IL2CPP_TYPE_BOOLEAN {
        1
    } else if ty == IL2CPP_TYPE_I2 || ty == IL2CPP_TYPE_U2 || ty == IL2CPP_TYPE_CHAR {
        2
    } else if ty == IL2CPP_TYPE_I4 || ty == IL2CPP_TYPE_U4 || ty == IL2CPP_TYPE_R4 {
        4
    } else if ty == IL2CPP_TYPE_I8 || ty == IL2CPP_TYPE_U8 || ty == IL2CPP_TYPE_R8 {
        8
    } else if ty == IL2CPP_TYPE_I || ty == IL2CPP_TYPE_U || is_pointer_ty(ty) {
        POINTER_SIZE
    } else {
        match &t.class {
            Some(c) => (c.instance_size - OBJECT_HEADER_SIZE) as usize,
            None => 0,
        }
    }
}

/// The state of the scan of a class's fields for a homogeneous floating-point
/// aggregate.
pub enum HfaScan {
    /// Two instance fields had different types (after the first
    /// floating-point field).
    Mismatch,
    /// The base type so far (set by the first floating-point field) and the
    /// number of instance fields.
    Running(Option<u32>, nat),
}

pub open spec fn hfa_scan(fields: Seq<FieldDesc>) -> HfaScan
    decreases fields.len(),
{
    if fields.len() == 0 {
        HfaScan::Running(None, 0)
    } else {
        let field = fields.last();
        match hfa_scan(fields.drop_last()) {
            HfaScan::Mismatch => HfaScan::Mismatch,
            HfaScan::Running(base, num) => if field.offset == -1 {
                HfaScan::Running(base, num)
            } else {
                match base {
                    None => HfaScan::Running(
                        if fp_ty(field.ty) {
                            Some(field.ty)
                        } else {
                            None
                        },
                        num + 1,
                    ),
                    Some(b) => if field.ty != b {
                        HfaScan::Mismatch
                    } else {
                        HfaScan::Running(base, num + 1)
                    },
                }
            },
        }
    }
}

/// The number of registers and the base type of a homogeneous floating-point
/// aggregate with these fields, if it is one.
pub open spec fn hfa_of(fields: Seq<FieldDesc>) -> Option<(u32, u32)> {
    match hfa_scan(fields) {
        HfaScan::Mismatch => None,
        HfaScan::Running(base, num) => match base {
            Some(b) => if num <= 4 {
                Some((num as u32, b))
            } else {
                None
            },
            None => None,
        },
    }
}

/// `is_hfa(t, ty_enum)`: only a composite type can be one.
pub open spec fn hfa(t: TypeDesc, ty_enum: u32) -> Option<(u32, u32)> {
    if !composite_ty(ty_enum) {
        None
    } else {
        hfa_of(t.class.unwrap().fields@)
    }
}

/// Returns the number of registers the fields would consume and their type.
pub fn is_hfa(t: &TypeDesc, ty_enum: u32) -> (r: Option<(u32, u32)>)
    requires
        composite_ty(ty_enum) ==> t.class is Some,
        composite_ty(ty_enum) ==> t.class.unwrap().fields@.len() < u32::MAX,
    ensures
        r == hfa(*t, ty_enum),
{
    if !is_composite_ty(ty_enum) {
        return None;
    }
    let class = match &t.class {
        Some(c) => c,
        None => {
            return None;
        },
    };
    let fields = &class.fields;
    let mut base_ty: Option<u32> = None;
    let mut num: u32 = 0;
    let mut i: usize = 0;
    while i < fields.len()
        invariant
            composite_ty(ty_enum),
            t.class is Some,
            fields@ == t.class.unwrap().fields@,
            fields@.len() < u32::MAX,
            0 <= i <= fields@.len(),
            num <= i,
            hfa_scan(fields@.take(i as int)) == HfaScan::Running(base_ty, num as nat),
        decreases fields@.len() - i,
    {
        let field = fields[i];
        assert(fields@.take(i + 1).drop_last() =~= fields@.take(i as int));
        if field.offset == -1 {
            i = i + 1;
            continue;
        }
        match base_ty {
            None => {
                if is_fp_ty(field.ty) {
                    base_ty = Some(field.ty);
                }
            },
            Some(b) => {
                if field.ty != b {
                    proof {
                        assert(fields@.take(i + 1).last() == field);
                        assert(hfa_scan(fields@.take(i + 1)) == HfaScan::Mismatch);
                        lemma_hfa_mismatch_sticks(fields@, i as int + 1);
                    }
                    return None;
                }
            },
        }
        num = num + 1;
        i = i + 1;
    }
    assert(fields@.take(i as int) =~= fields@);
    if num <= 4 && base_ty.is_some() {
        Some((num, base_ty.unwrap()))
    } else {
        None
    }
}

proof fn lemma_hfa_mismatch_sticks(fields: Seq<FieldDesc>, k: int)
    requires
        0 <= k <= fields.len(),
        hfa_scan(fields.take(k)) == HfaScan::Mismatch,
    ensures
        hfa_scan(fields) == HfaScan::Mismatch,
    decreases fields.len() - k,
{
    if k < fields.len() {
        assert(fields.take(k + 1).drop_last() =~= fields.take(k));
        lemma_hfa_mismatch_sticks(fields, k + 1);
    } else {
        assert(fields.take(k) =~= fields);
    }
}

/// The allocation state of the procedure call standard's stage C: the next
/// general purpose register (NGRN), the next vector register (NSRN) and the
/// next stacked argument address (NSAA).
#[derive(Clone, Copy, Debug, PartialEq, Eq, Structural)]
pub struct AbiState {
    pub ngrn: u32,
    pub nsrn: u32,
    pub nsaa: u32,
}

/// `(x + a - 1) & !(a - 1)` on `u32`.
pub open spec fn align_up_u32(x: u32, a: u32) -> u32 {
    ((x + (a - 1)) as u32) & !((a - 1) as u32)
}

/// `(x + 7) & !7` on `usize`.
pub open spec fn round8(x: usize) -> usize {
    ((x + 7) as usize) & !7usize
}

/// A class description holds no more fields than `Il2CppClass::field_count`
/// (a `u16`) can count.
pub open spec fn desc_wf(t: TypeDesc) -> bool {
    t.class matches Some(c) ==> c.fields@.len() <= u16::MAX
}

/// Stage B for one parameter: whether it is passed by pointer, and its size.
/// `None` where the size of the type is not known.
pub open spec fn stage_b(t: TypeDesc) -> Option<(bool, usize)> {
    match ty_size(t) {
        None => None,
        Some(size) => if composite_ty(t.ty) {
            let c = t.class.unwrap();
            if hfa_of(c.fields@) is Some {
                Some((false, size))
            } else if c.actual_size > 16 {
                Some((true, round8(8)))
            } else {
                Some((false, round8(size)))
            }
        } else {
            Some((false, size))
        },
    }
}

/// C.3 and C.4: an HFA that does not fit in the remaining vector registers.
/// `None` where the stack offset would overflow.
pub open spec fn spill_hfa(st: AbiState, t: TypeDesc, size: usize) -> Option<(AbiState, usize)> {
    let na = t.class.unwrap().natural_alignment;
    let size2 = round8(size);
    if na <= 8 {
        if st.nsaa + 7 > u32::MAX {
            None
        } else {
            Some((AbiState { nsrn: 8, nsaa: align_up_u32(st.nsaa, 8), ..st }, size2))
        }
    } else if na >= 16 {
        if st.nsaa + 15 > u32::MAX {
            None
        } else {
            Some((AbiState { nsrn: 8, nsaa: align_up_u32(st.nsaa, 16), ..st }, size2))
        }
    } else {
        Some((AbiState { nsrn: 8, ..st }, size2))
    }
}

/// C.5 to C.17 for a parameter whose type enum is `ty`. `None` where the class
/// of the type is needed and not known, or where the stack offset would
/// overflow.
pub open spec fn stage_c_rest(st: AbiState, t: TypeDesc, ty: u32, size0: usize, was_hfa: bool) -> Option<
    (AbiState, ParameterStorage, usize),
> {
    let size = if fp_ty(ty) {
        8usize
    } else {
        size0
    };
    if was_hfa || fp_ty(ty) {
        if st.nsaa + (size as u32) > u32::MAX {
            None
        } else {
            Some(
                (
                    AbiState { nsaa: (st.nsaa + (size as u32)) as u32, ..st },
                    ParameterStorage::Stack(st.nsaa),
                    size,
                ),
            )
        }
    } else if (integral_ty(ty) || pointer_ty(ty)) && size <= 8 && st.ngrn < 8 {
        Some((AbiState { ngrn: (st.ngrn + 1) as u32, ..st }, ParameterStorage::GPReg(st.ngrn), size))
    } else {
        match t.class {
            None => None,
            Some(c) => {
                let ngrn = if c.natural_alignment == 16 {
                    align_up_u32(st.ngrn, 2)
                } else {
                    st.ngrn
                };
                let sdw = ((size + 7) / 8) as u32;
                if composite_ty(ty) && sdw + ngrn <= 8 {
                    Some(
                        (
                            AbiState { ngrn: (ngrn + sdw) as u32, ..st },
                            ParameterStorage::GPRRange(ngrn, sdw),
                            size,
                        ),
                    )
                } else {
                    let align: u32 = if composite_ty(ty) && c.natural_alignment as u32 > 8 {
                        c.natural_alignment as u32
                    } else {
                        8
                    };
                    if st.nsaa + (align - 1) > u32::MAX {
                        None
                    } else {
                        let nsaa1 = align_up_u32(st.nsaa, align);
                        if composite_ty(ty) && nsaa1 + (size as u32) > u32::MAX {
                            None
                        } else {
                            let nsaa2 = if composite_ty(ty) {
                                (nsaa1 + (size as u32)) as u32
                            } else {
                                nsaa1
                            };
                            let size2 = if size < 8 {
                                8usize
                            } else {
                                size
                            };
                            if nsaa2 + (size2 as u32) > u32::MAX {
                                None
                            } else {
                                Some(
                                    (
                                        AbiState {
                                            ngrn: 8,
                                            nsrn: st.nsrn,
                                            nsaa: (nsaa2 + (size2 as u32)) as u32,
                                        },
                                        ParameterStorage::Stack(nsaa2),
                                        size2,
                                    ),
                                )
                            }
                        }
                    }
                }
            },
        }
    }
}

/// Stage C for one parameter after stage B gave `ptr` and `size`.
pub open spec fn stage_c(st: AbiState, t: TypeDesc, ptr: bool, size: usize) -> Option<
    (AbiState, ParameterStorage, usize),
> {
    let ty = if ptr {
        IL2CPP_TYPE_PTR
    } else {
        t.ty
    };
    if fp_ty(ty) && st.nsrn < 8 {
        Some((AbiState { nsrn: (st.nsrn + 1) as u32, ..st }, ParameterStorage::VectorReg(st.nsrn), size))
    } else {
        match hfa(t, ty) {
            Some((num, base)) => if st.nsrn + num <= 8 {
                Some(
                    (
                        AbiState { nsrn: (st.nsrn + num) as u32, ..st },
                        ParameterStorage::VectorRange(st.nsrn, num, base == IL2CPP_TYPE_R8),
                        size,
                    ),
                )
            } else {
                match spill_hfa(st, t, size) {
                    None => None,
                    Some((st2, size2)) => stage_c_rest(st2, t, ty, size2, true),
                }
            },
            None => stage_c_rest(st, t, ty, size, false),
        }
    }
}

pub open spec fn initial_state(instance: bool) -> AbiState {
    AbiState {
        ngrn: if instance {
            1
        } else {
            0
        },
        nsrn: 0,
        nsaa: 0,
    }
}

/// The layout of the first `k` parameters, and the state after them.
pub open spec fn layout_prefix(instance: bool, types: Seq<TypeDesc>, k: nat) -> Option<
    (Seq<Arg>, AbiState),
>
    decreases k,
{
    if k == 0 {
        Some((Seq::empty(), initial_state(instance)))
    } else {
        let t = types[k - 1];
        match layout_prefix(instance, types, (k - 1) as nat) {
            None => None,
            Some((args, st)) => match stage_b(t) {
                None => None,
                Some((ptr, size)) => match stage_c(st, t, ptr, size) {
                    None => None,
                    Some((st2, storage, size2)) => Some(
                        (args.push(Arg { ty: t.ty, ptr, storage, size: size2 }), st2),
                    ),
                },
            },
        }
    }
}

/// The layout of all parameters of `types`.
pub open spec fn layout_spec(instance: bool, types: Seq<TypeDesc>) -> Option<(Seq<Arg>, AbiState)> {
    layout_prefix(instance, types, types.len())
}

/// The largest parameter size the layout handles: the largest value type
/// size, rounded up to a multiple of 8.
pub open spec fn size_bound() -> usize {
    0xffff_fff0usize
}

proof fn lemma_round8_bound(x: usize)
    requires
        x <= size_bound(),
    ensures
        round8(x) <= size_bound(),
{
    assert(((x + 7) as usize) & !7usize <= 0xffff_fff0usize) by (bit_vector)
        requires
            x <= 0xffff_fff0usize,
    ;
}

fn round8_exec(x: usize) -> (r: usize)
    requires
        x <= size_bound(),
    ensures
        r == round8(x),
        r <= size_bound(),
{
    proof {
        lemma_round8_bound(x);
    }
    (x + 7) & !7usize
}

fn stage_b_exec(t: &TypeDesc) -> (r: Option<(bool, usize)>)
    requires
        desc_wf(*t),
    ensures
        r == stage_b(*t),
{
    let size_known = match t.ty {
        IL2CPP_TYPE_VALUETYPE => match &t.class {
            Some(c) => c.instance_size >= OBJECT_HEADER_SIZE,
            None => false,
        },
        _ => is_integral_ty(t.ty) && t.ty != IL2CPP_TYPE_ENUM || t.ty == IL2CPP_TYPE_R4 || t.ty
            == IL2CPP_TYPE_R8 || is_pointer_ty(t.ty),
    };
    if !size_known {
        return None;
    }
    let size = get_ty_size(t);
    if is_composite_ty(t.ty) {
        let c = match &t.class {
            Some(c) => c,
            None => {
                return None;
            },
        };
        if is_hfa(t, t.ty).is_some() {
            Some((false, size))
        } else if c.actual_size > 16 {
            Some((true, round8_exec(8)))
        } else {
            Some((false, round8_exec(size)))
        }
    } else {
        Some((false, size))
    }
}

fn align_up_u32_exec(x: u32, a: u32) -> (r: u32)
    requires
        a >= 1,
        x + (a - 1) <= u32::MAX,
    ensures
        r == align_up_u32(x, a),
{
    (x + (a - 1)) & !(a - 1)
}

fn spill_hfa_exec(st: AbiState, t: &TypeDesc, size: usize) -> (r: Option<(AbiState, usize)>)
    requires
        t.class is Some,
        size <= size_bound(),
    ensures
        r == spill_hfa(st, *t, size),
        r matches Some((st2, size2)) ==> size2 <= size_bound() && st2.ngrn == st.ngrn,
{
    let na = match &t.class {
        Some(c) => c.natural_alignment,
        None => 0,
    };
    let size2 = round8_exec(size);
    if na <= 8 {
        if st.nsaa > u32::MAX - 7 {
            None
        } else {
            Some((AbiState { nsrn: 8, nsaa: align_up_u32_exec(st.nsaa, 8), ..st }, size2))
        }
    } else if na >= 16 {
        if st.nsaa > u32::MAX - 15 {
            None
        } else {
            Some((AbiState { nsrn: 8, nsaa: align_up_u32_exec(st.nsaa, 16), ..st }, size2))
        }
    } else {
        Some((AbiState { nsrn: 8, ..st }, size2))
    }
}

fn stage_c_rest_exec(st: AbiState, t: &TypeDesc, ty: u32, size0: usize, was_hfa: bool) -> (r: Option<
    (AbiState, ParameterStorage, usize),
>)
    requires
        st.ngrn <= 8,
        size0 <= size_bound(),
    ensures
        r == stage_c_rest(st, *t, ty, size0, was_hfa),
{
    let size: usize = if is_fp_ty(ty) {
        8
    } else {
        size0
    };
    if was_hfa || is_fp_ty(ty) {
        if st.nsaa as u64 + size as u32 as u64 > u32::MAX as u64 {
            None
        } else {
            Some((AbiState { nsaa: st.nsaa + size as u32, ..st }, ParameterStorage::Stack(st.nsaa), size))
        }
    } else if (is_integral_ty(ty) || is_pointer_ty(ty)) && size <= 8 && st.ngrn < 8 {
        Some((AbiState { ngrn: st.ngrn + 1, ..st }, ParameterStorage::GPReg(st.ngrn), size))
    } else {
        match &t.class {
            None => None,
            Some(c) => {
                let ngrn = if c.natural_alignment == 16 {
                    align_up_u32_exec(st.ngrn, 2)
                } else {
                    st.ngrn
                };
                let sdw = ((size + 7) / 8) as u32;
                if is_composite_ty(ty) && sdw as u64 + ngrn as u64 <= 8 {
                    Some((AbiState { ngrn: ngrn + sdw, ..st }, ParameterStorage::GPRRange(ngrn, sdw), size))
                } else {
                    let align: u32 = if is_composite_ty(ty) && c.natural_alignment as u32 > 8 {
                        c.natural_alignment as u32
                    } else {
                        8
                    };
                    if st.nsaa as u64 + (align - 1) as u64 > u32::MAX as u64 {
                        None
                    } else {
                        let nsaa1 = align_up_u32_exec(st.nsaa, align);
                        if is_composite_ty(ty) && nsaa1 as u64 + size as u32 as u64 > u32::MAX as u64 {
                            None
                        } else {
                            let nsaa2 = if is_composite_ty(ty) {
                                nsaa1 + size as u32
                            } else {
                                nsaa1
                            };
                            let size2: usize = if size < 8 {
                                8
                            } else {
                                size
                            };
                            if nsaa2 as u64 + size2 as u32 as u64 > u32::MAX as u64 {
                                None
                            } else {
                                Some(
                                    (
                                        AbiState {
                                            ngrn: 8,
                                            nsrn: st.nsrn,
                                            nsaa: nsaa2 + size2 as u32,
                                        },
                                        ParameterStorage::Stack(nsaa2),
                                        size2,
                                    ),
                                )
                            }
                        }
                    }
                }
            },
        }
    }
}

fn stage_c_exec(st: AbiState, t: &TypeDesc, ptr: bool, size: usize) -> (r: Option<
    (AbiState, ParameterStorage, usize),
>)
    requires
        st.ngrn <= 8,
        st.nsrn <= 8,
        size <= size_bound(),
        desc_wf(*t),
        ptr || composite_ty(t.ty) ==> t.class is Some,
    ensures
        r == stage_c(st, *t, ptr, size),
{
    let ty = if ptr {
        IL2CPP_TYPE_PTR
    } else {
        t.ty
    };
    if is_fp_ty(ty) && st.nsrn < 8 {
        return Some((AbiState { nsrn: st.nsrn + 1, ..st }, ParameterStorage::VectorReg(st.nsrn), size));
    }
    match is_hfa(t, ty) {
        Some((num, base)) => {
            if st.nsrn as u64 + num as u64 <= 8 {
                Some(
                    (
                        AbiState { nsrn: st.nsrn + num, ..st },
                        ParameterStorage::VectorRange(st.nsrn, num, base == IL2CPP_TYPE_R8),
                        size,
                    ),
                )
            } else {
                match spill_hfa_exec(st, t, size) {
                    None => None,
                    Some((st2, size2)) => stage_c_rest_exec(st2, t, ty, size2, true),
                }
            }
        },
        None => stage_c_rest_exec(st, t, ty, size, false),
    }
}

/// The layout of the parameters of a method with parameter types `types`
/// (the instance parameter, which is always in x0, is not returned).
///
/// `None` where the size of a parameter type is not known, where the class of
/// a type is needed and not known, or where the stack area would pass
/// `u32::MAX` bytes.
pub fn layout_parameters(instance: bool, types: &[TypeDesc]) -> (r: Option<ParamLayout>)
    requires
        forall|i: int| 0 <= i < types@.len() ==> desc_wf(#[trigger] types@[i]),
    ensures
        match r {
            Some(l) => layout_spec(instance, types@) == Some(
                (l.args@, AbiState { ngrn: l.num_gprs, nsrn: l.num_fprs, nsaa: l.stack_size }),
            ),
            None => layout_spec(instance, types@) is None,
        },
{
    let mut st = AbiState { ngrn: if instance { 1 } else { 0 }, nsrn: 0, nsaa: 0 };
    let mut args: Vec<Arg> = Vec::new();
    let mut i: usize = 0;
    while i < types.len()
        invariant
            forall|j: int| 0 <= j < types@.len() ==> desc_wf(#[trigger] types@[j]),
            0 <= i <= types@.len(),
            st.ngrn <= 8,
            st.nsrn <= 8,
            layout_prefix(instance, types@, i as nat) == Some((args@, st)),
        decreases types@.len() - i,
    {
        let t = &types[i];
        assert(desc_wf(types@[i as int]));
        let (ptr, size) = match stage_b_exec(t) {
            Some(b) => b,
            None => {
                proof {
                    lemma_layout_none_sticks(instance, types@, i as nat + 1);
                }
                return None;
            },
        };
        assert(size <= size_bound()) by {
            lemma_stage_b_bounds(*t);
        }
        match stage_c_exec(st, t, ptr, size) {
            Some((st2, storage, size2)) => {
                proof {
                    lemma_stage_c_bounds(st, *t, ptr, size);
                }
                args.push(Arg { ty: t.ty, ptr, storage, size: size2 });
                st = st2;
            },
            None => {
                proof {
                    lemma_layout_none_sticks(instance, types@, i as nat + 1);
                }
                return None;
            },
        }
        i = i + 1;
    }
    Some(ParamLayout { args, num_gprs: st.ngrn, num_fprs: st.nsrn, stack_size: st.nsaa })
}

proof fn lemma_layout_none_sticks(instance: bool, types: Seq<TypeDesc>, k: nat)
    requires
        k <= types.len(),
        layout_prefix(instance, types, k) is None,
    ensures
        layout_spec(instance, types) is None,
    decreases types.len() - k,
{
    if k < types.len() {
        lemma_layout_none_sticks(instance, types, k + 1);
    }
}

proof fn lemma_stage_b_bounds(t: TypeDesc)
    requires
        stage_b(t) is Some,
    ensures
        stage_b(t).unwrap().1 <= size_bound(),
        stage_b(t).unwrap().0 || composite_ty(t.ty) ==> t.class is Some,
{
    if composite_ty(t.ty) {
        let size = ty_size(t).unwrap();
        assert(size <= size_bound());
        lemma_round8_bound(size);
        lemma_round8_bound(8);
    }
}

proof fn lemma_stage_c_bounds(st: AbiState, t: TypeDesc, ptr: bool, size: usize)
    requires
        st.ngrn <= 8,
        st.nsrn <= 8,
        stage_c(st, t, ptr, size) is Some,
    ensures
        stage_c(st, t, ptr, size).unwrap().0.ngrn <= 8,
        stage_c(st, t, ptr, size).unwrap().0.nsrn <= 8,
{
    let ng = st.ngrn;
    assert(align_up_u32(ng, 2) <= 8) by (bit_vector)
        requires
            ng <= 8,
    ;
}

/// The general purpose registers that a storage uses: first register and count.
pub open spec fn gp_range(storage: ParameterStorage) -> Option<(u32, u32)> {
    match storage {
        ParameterStorage::GPReg(r) => Some((r, 1)),
        ParameterStorage::GPRRange(start, count) => Some((start, count)),
        _ => None,
    }
}

/// The vector registers that a storage uses: first register and count.
pub open spec fn vec_range(storage: ParameterStorage) -> Option<(u32, u32)> {
    match storage {
        ParameterStorage::VectorReg(r) => Some((r, 1)),
        ParameterStorage::VectorRange(start, count, _) => Some((start, count)),
        _ => None,
    }
}

proof fn lemma_stage_c_step(st: AbiState, t: TypeDesc, ptr: bool, size: usize)
    requires
        st.ngrn <= 8,
        st.nsrn <= 8,
        stage_c(st, t, ptr, size) is Some,
    ensures
        ({
            let (st2, storage, _) = stage_c(st, t, ptr, size).unwrap();
            &&& st.ngrn <= st2.ngrn <= 8
            &&& st.nsrn <= st2.nsrn <= 8
            &&& gp_range(storage) matches Some((s, n)) ==> st.ngrn <= s && s + n <= st2.ngrn
            &&& vec_range(storage) matches Some((s, n)) ==> st.nsrn <= s && s + n <= st2.nsrn
        }),
{
    let ng = st.ngrn;
    assert(ng <= align_up_u32(ng, 2) <= 8) by (bit_vector)
        requires
            ng <= 8,
    ;
}

/// The register allocation of the layout: every register handed out is one of
/// the eight argument registers of its bank; `x0` is left to the instance
/// parameter of an instance method; and no two parameters share a general
/// purpose or a vector register (each takes registers after those of the
/// parameters before it).
pub proof fn lemma_layout_registers(instance: bool, types: Seq<TypeDesc>)
    requires
        layout_spec(instance, types) is Some,
    ensures
        ({
            let (args, st) = layout_spec(instance, types).unwrap();
            &&& args.len() == types.len()
            &&& st.ngrn <= 8
            &&& st.nsrn <= 8
            &&& forall|i: int|
                0 <= i < args.len() ==> (#[trigger] gp_range(args[i].storage) matches Some((s, n)) ==> (
                instance ==> 1 <= s) && s + n <= st.ngrn)
            &&& forall|i: int|
                0 <= i < args.len() ==> (#[trigger] vec_range(args[i].storage) matches Some((s, n))
                ==> s + n <= st.nsrn)
            &&& forall|i: int, j: int|
                0 <= i < j < args.len() ==> (gp_range(#[trigger] args[i].storage) matches Some((s1, n1))
                ==> gp_range(#[trigger] args[j].storage) matches Some((s2, n2)) ==> s1 + n1 <= s2)
            &&& forall|i: int, j: int|
                0 <= i < j < args.len() ==> (vec_range(#[trigger] args[i].storage) matches Some((s1, n1))
                ==> vec_range(#[trigger] args[j].storage) matches Some((s2, n2)) ==> s1 + n1 <= s2)
        }),
{
    lemma_layout_registers_prefix(instance, types, types.len());
}

proof fn lemma_layout_registers_prefix(instance: bool, types: Seq<TypeDesc>, k: nat)
    requires
        k <= types.len(),
        layout_prefix(instance, types, k) is Some,
    ensures
        ({
            let (args, st) = layout_prefix(instance, types, k).unwrap();
            &&& args.len() == k
            &&& st.ngrn <= 8
            &&& st.nsrn <= 8
            &&& instance ==> st.ngrn >= 1
            &&& forall|i: int|
                0 <= i < args.len() ==> (#[trigger] gp_range(args[i].storage) matches Some((s, n)) ==> (
                instance ==> 1 <= s) && s + n <= st.ngrn)
            &&& forall|i: int|
                0 <= i < args.len() ==> (#[trigger] vec_range(args[i].storage) matches Some((s, n))
                ==> s + n <= st.nsrn)
            &&& forall|i: int, j: int|
                0 <= i < j < args.len() ==> (gp_range(#[trigger] args[i].storage) matches Some((s1, n1))
                ==> gp_range(#[trigger] args[j].storage) matches Some((s2, n2)) ==> s1 + n1 <= s2)
            &&& forall|i: int, j: int|
                0 <= i < j < args.len() ==> (vec_range(#[trigger] args[i].storage) matches Some((s1, n1))
                ==> vec_range(#[trigger] args[j].storage) matches Some((s2, n2)) ==> s1 + n1 <= s2)
        }),
    decreases k,
{
    if k > 0 {
        let t = types[k - 1];
        lemma_layout_registers_prefix(instance, types, (k - 1) as nat);
        let (args, st) = layout_prefix(instance, types, (k - 1) as nat).unwrap();
        let (ptr, size) = stage_b(t).unwrap();
        lemma_stage_c_step(st, t, ptr, size);
        let (st2, storage, size2) = stage_c(st, t, ptr, size).unwrap();
        let new_args = args.push(Arg { ty: t.ty, ptr, storage, size: size2 });
        assert(layout_prefix(instance, types, k) == Some((new_args, st2)));
        assert forall|i: int|
            0 <= i < new_args.len() implies (#[trigger] gp_range(new_args[i].storage) matches Some(
            (s, n),
        ) ==> (instance ==> 1 <= s) && s + n <= st2.ngrn) by {
            if i < args.len() {
                assert(new_args[i] == args[i]);
            }
        }
        assert forall|i: int|
            0 <= i < new_args.len() implies (#[trigger] vec_range(new_args[i].storage) matches Some(
            (s, n),
        ) ==> s + n <= st2.nsrn) by {
            if i < args.len() {
                assert(new_args[i] == args[i]);
            }
        }
        assert forall|i: int, j: int|
            0 <= i < j < new_args.len() implies (gp_range(#[trigger] new_args[i].storage) matches Some(
            (s1, n1),
        ) ==> gp_range(#[trigger] new_args[j].storage) matches Some((s2, n2)) ==> s1 + n1
            <= s2) by {
            assert(new_args[i] == args[i]);
            if j < args.len() {
                assert(new_args[j] == args[j]);
            }
        }
        assert forall|i: int, j: int|
            0 <= i < j < new_args.len() implies (vec_range(#[trigger] new_args[i].storage) matches Some(
            (s1, n1),
        ) ==> vec_range(#[trigger] new_args[j].storage) matches Some((s2, n2)) ==> s1 + n1
            <= s2) by {
            assert(new_args[i] == args[i]);
            if j < args.len() {
                assert(new_args[j] == args[j]);
            }
        }
    }
}

/// A floating-point parameter (`R4` or `R8`) takes the next vector register
/// while one of `v0`..`v7` is free: with `n` vector registers taken by the
/// parameters before it (`n < 8`), it is passed in `v<n>`, with its own size
/// (4 for a float, 8 for a double), and the parameters after it find `n + 1`
/// taken. Only once all eight are taken does it go elsewhere.
pub proof fn lemma_fp_takes_next_vector_register(instance: bool, types: Seq<TypeDesc>, k: nat)
    requires
        k < types.len(),
        types[k as int].ty == IL2CPP_TYPE_R4 || types[k as int].ty == IL2CPP_TYPE_R8,
        layout_prefix(instance, types, k) is Some,
        layout_prefix(instance, types, k).unwrap().1.nsrn < 8,
    ensures
        ({
            let n = layout_prefix(instance, types, k).unwrap().1.nsrn;
            let (args, st) = layout_prefix(instance, types, k + 1).unwrap();
            &&& layout_prefix(instance, types, k + 1) is Some
            &&& args.len() == k + 1
            &&& args[k as int].storage == ParameterStorage::VectorReg(n)
            &&& args[k as int].size == (if types[k as int].ty == IL2CPP_TYPE_R4 { 4usize } else { 8usize })
            &&& !args[k as int].ptr
            &&& st.nsrn == n + 1
            &&& st.ngrn == layout_prefix(instance, types, k).unwrap().1.ngrn
            &&& st.nsaa == layout_prefix(instance, types, k).unwrap().1.nsaa
        }),
{
    lemma_layout_registers_prefix(instance, types, k);
}

/// The layout of a static method whose parameters are all floats or doubles:
/// the first eight go to `v0`..`v7` in order, each with its own size; each
/// one after them takes the next 8-byte stack slot; no general purpose
/// register is used.
pub proof fn lemma_all_fp_layout(types: Seq<TypeDesc>)
    requires
        forall|i: int| 0 <= i < types.len() ==> #[trigger] types[i].ty == IL2CPP_TYPE_R4 || types[i].ty
            == IL2CPP_TYPE_R8,
        types.len() <= 0x1000_0000,
    ensures
        layout_spec(false, types) is Some,
        ({
            let (args, st) = layout_spec(false, types).unwrap();
            &&& args.len() == types.len()
            &&& st.ngrn == 0
            &&& st.nsrn == (if types.len() < 8 { types.len() } else { 8 })
            &&& st.nsaa == (if types.len() < 8 { 0 } else { 8 * (types.len() - 8) })
            &&& forall|i: int|
                0 <= i < types.len() ==> (#[trigger] args[i]).storage == if i < 8 {
                    ParameterStorage::VectorReg(i as u32)
                } else {
                    ParameterStorage::Stack((8 * (i - 8)) as u32)
                }
            &&& forall|i: int|
                0 <= i < 8 && i < types.len() ==> (#[trigger] args[i]).size == (if types[i].ty == IL2CPP_TYPE_R4 {
                    4usize
                } else {
                    8usize
                })
        }),
{
    lemma_all_fp_prefix(types, types.len());
}

proof fn lemma_all_fp_prefix(types: Seq<TypeDesc>, k: nat)
    requires
        k <= types.len(),
        forall|i: int| 0 <= i < types.len() ==> #[trigger] types[i].ty == IL2CPP_TYPE_R4 || types[i].ty
            == IL2CPP_TYPE_R8,
        types.len() <= 0x1000_0000,
    ensures
        layout_prefix(false, types, k) is Some,
        ({
            let (args, st) = layout_prefix(false, types, k).unwrap();
            &&& args.len() == k
            &&& st.ngrn == 0
            &&& st.nsrn == (if k < 8 { k } else { 8 })
            &&& st.nsaa == (if k < 8 { 0 } else { 8 * (k - 8) })
            &&& forall|i: int|
                0 <= i < k ==> (#[trigger] args[i]).storage == if i < 8 {
                    ParameterStorage::VectorReg(i as u32)
                } else {
                    ParameterStorage::Stack((8 * (i - 8)) as u32)
                }
            &&& forall|i: int|
                0 <= i < 8 && i < k ==> (#[trigger] args[i]).size == (if types[i].ty == IL2CPP_TYPE_R4 {
                    4usize
                } else {
                    8usize
                })
        }),
    decreases k,
{
    if k > 0 {
        lemma_all_fp_prefix(types, (k - 1) as nat);
        let t = types[k - 1];
        assert(t.ty == IL2CPP_TYPE_R4 || t.ty == IL2CPP_TYPE_R8);
        let (args, st) = layout_prefix(false, types, (k - 1) as nat).unwrap();
        assert(stage_b(t) == Some((false, if t.ty == IL2CPP_TYPE_R4 { 4usize } else { 8usize })));
        let new_args = layout_prefix(false, types, k).unwrap().0;
        assert forall|i: int| 0 <= i < k - 1 implies #[trigger] new_args[i] == args[i] by {}
    }
}

} // verus!
