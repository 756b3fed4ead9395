//! Method hooks: which source each parameter of a prefix or postfix hook is
//! loaded from, and the generation of the trampoline that calls the hooks
//! around the original method.
pub mod abi;
pub mod allocator;
pub mod codegen;

use crate::hook::codegen::{
    add_x_imm, blr_x9, call_orig_ok, call_orig_prelude, frame_of, frame_size, injection_ok, injections_code,
    ldr_x, ldr_x9_literal, new_gen, ret_ins, store_code, store_spills, str_x, sub_x_imm, CodegenMethod, DataFixup,
    DataFixupInfo, Frame, HookGenerator, ParamInjection,
};
use crate::text::{str_eq, strip_prefix};
use vstd::prelude::*;

verus! {

/// `METHOD_ATTRIBUTE_STATIC` of the method flags.
pub const METHOD_ATTRIBUTE_STATIC: u16 = 0x0010;

/// What the injection rules read of an `Il2CppType`: its address (types are
/// compared by identity), its data word, its type enum and whether it is by
/// reference.
#[derive(Clone, Copy, Debug, PartialEq, Eq, Structural)]
pub struct TypeRef {
    pub id: u64,
    pub data: u64,
    pub ty: u32,
    pub byref: bool,
}

/// A named parameter, or a named field, and its type.
pub struct Param {
    pub name: String,
    pub ty: TypeRef,
}

/// Why a hook method's parameters cannot be injected.
#[derive(Debug, PartialEq, Eq)]
pub enum InjectionError {
    /// "Hook method must be static"
    NotStatic,
    /// "Field injection type mismatch on parameter \"{}\"" (the parameter's name)
    FieldTypeMismatch(String),
    /// "could not find field with name {}" (the field's name)
    FieldNotFound(String),
    /// "cannot inject __instance parameter on non-instance method"
    InstanceOnStatic,
    /// "type mismatch for instance parameter injection"
    InstanceTypeMismatch,
    /// "cannot inject __result for method with void return type"
    ResultOnVoid,
    /// "__result type mismatch"
    ResultTypeMismatch,
    /// "Parameter injection type mismatch on parameter \"{}\"" (the parameter's name)
    ParamTypeMismatch(String),
    /// "could not find param with name {}" (the parameter's name)
    ParamNotFound(String),
}

/// The name prefix of a parameter that injects a field of the instance.
pub open spec fn field_prefix() -> Seq<char> {
    seq!['_', '_', '_']
}

pub open spec fn instance_name() -> Seq<char> {
    seq!['_', '_', 'i', 'n', 's', 't', 'a', 'n', 'c', 'e']
}

pub open spec fn result_name() -> Seq<char> {
    seq!['_', '_', 'r', 'e', 's', 'u', 'l', 't']
}

/// The instance of an instance method is injected into a parameter named
/// `__instance` whose type is a class, or a value type taken by reference
/// (the instance of a struct's method); a parameter of any other type is a
/// type mismatch, and on a static method there is no instance to inject.
pub proof fn lemma_instance_injection(
    param: Param,
    fields: Seq<Param>,
    original_params: Seq<Param>,
    original_return: Option<TypeRef>,
    is_instance: bool,
)
    requires
        param.name@ == seq!['_', '_', 'i', 'n', 's', 't', 'a', 'n', 'c', 'e'],
    ensures
        injection_for(param, fields, original_params, original_return, is_instance) == if !is_instance {
            Err::<ParamInjection, InjectionError>(InjectionError::InstanceOnStatic)
        } else if param.ty.ty == 0x12 || (param.ty.ty == 0x11 && param.ty.byref) {
            Ok::<ParamInjection, InjectionError>(ParamInjection::Instance)
        } else {
            Err::<ParamInjection, InjectionError>(InjectionError::InstanceTypeMismatch)
        },
{
    assert(param.name@.take(3) != field_prefix()) by {
        assert(param.name@.take(3)[2] == 'i');
    }
}

/// The first of `items` whose name is `name`.
pub open spec fn first_named(items: Seq<Param>, name: Seq<char>) -> Option<int> {
    if exists|i: int| 0 <= i < items.len() && #[trigger] items[i].name@ == name {
        Some(
            choose|i: int|
                0 <= i < items.len() && #[trigger] items[i].name@ == name && forall|j: int|
                    0 <= j < i ==> items[j].name@ != name,
        )
    } else {
        None
    }
}

/// `field_ty_matches`: same data, type enum and by-reference flag.
pub open spec fn ty_matches(a: TypeRef, b: TypeRef) -> bool {
    a.data == b.data && a.ty == b.ty && a.byref == b.byref
}

/// The injection for one hook parameter, or the reason there is none.
pub open spec fn injection_for(
    param: Param,
    fields: Seq<Param>,
    original_params: Seq<Param>,
    original_return: Option<TypeRef>,
    is_instance: bool,
) -> Result<ParamInjection, InjectionError> {
    let name = param.name@;
    if field_prefix().len() <= name.len() && name.take(3) == field_prefix() {
        let field_name = name.skip(3);
        match first_named(fields, field_name) {
            Some(idx) => if !ty_matches(fields[idx].ty, param.ty) {
                Err(InjectionError::FieldTypeMismatch(param.name))
            } else {
                Ok(ParamInjection::LoadField(idx as usize))
            },
            None => Err(InjectionError::FieldNotFound(arbitrary_named(field_name))),
        }
    } else if name == instance_name() {
        if !is_instance {
            Err(InjectionError::InstanceOnStatic)
        } else if param.ty.ty == crate::hook::abi::IL2CPP_TYPE_CLASS || (param.ty.ty
            == crate::hook::abi::IL2CPP_TYPE_VALUETYPE && param.ty.byref) {
            Ok(ParamInjection::Instance)
        } else {
            Err(InjectionError::InstanceTypeMismatch)
        }
    } else if name == result_name() {
        match original_return {
            None => Err(InjectionError::ResultOnVoid),
            Some(r) => if r.ty == crate::hook::abi::IL2CPP_TYPE_VOID {
                Err(InjectionError::ResultOnVoid)
            } else if param.ty.id != r.id {
                Err(InjectionError::ResultTypeMismatch)
            } else {
                Ok(ParamInjection::Result)
            },
        }
    } else {
        match first_named(original_params, name) {
            Some(i) => if original_params[i].ty.id != param.ty.id {
                Err(InjectionError::ParamTypeMismatch(param.name))
            } else {
                Ok(ParamInjection::OriginalParam(i as usize))
            },
            None => Err(InjectionError::ParamNotFound(param.name)),
        }
    }
}

/// A string whose view is `s` (the error for a missing field carries the
/// field's name, a part of the parameter's name).
pub open spec fn arbitrary_named(s: Seq<char>) -> String {
    choose|t: String| t@ == s
}

/// The error of a field-not-found result names this field.
pub open spec fn error_matches(a: InjectionError, b: InjectionError) -> bool {
    match (a, b) {
        (InjectionError::FieldNotFound(x), InjectionError::FieldNotFound(y)) => x@ == y@,
        (InjectionError::FieldTypeMismatch(x), InjectionError::FieldTypeMismatch(y)) => x@ == y@,
        (InjectionError::ParamTypeMismatch(x), InjectionError::ParamTypeMismatch(y)) => x@ == y@,
        (InjectionError::ParamNotFound(x), InjectionError::ParamNotFound(y)) => x@ == y@,
        _ => a == b,
    }
}

proof fn lemma_first_named(items: Seq<Param>, name: Seq<char>, i: int)
    requires
        0 <= i < items.len(),
        items[i].name@ == name,
        forall|j: int| 0 <= j < i ==> items[j].name@ != name,
    ensures
        first_named(items, name) == Some(i),
{
    let k = choose|k: int|
        0 <= k < items.len() && #[trigger] items[k].name@ == name && forall|j: int|
            0 <= j < k ==> items[j].name@ != name;
    assert(0 <= k < items.len() && items[k].name@ == name && forall|j: int|
        0 <= j < k ==> items[j].name@ != name);
    if k < i {
        assert(items[k].name@ != name);
    }
    if i < k {
        assert(items[i].name@ != name);
    }
}

/// `find_field`, and the search of the original parameters by name: the
/// position of the first of `items` named `name`.
pub fn find_named(items: &[Param], name: &str) -> (r: Option<usize>)
    ensures
        match r {
            Some(i) => i < items@.len() && first_named(items@, name@) == Some(i as int),
            None => first_named(items@, name@) is None,
        },
{
    let mut i: usize = 0;
    while i < items.len()
        invariant
            0 <= i <= items@.len(),
            forall|j: int| 0 <= j < i ==> items@[j].name@ != name@,
        decreases items@.len() - i,
    {
        if str_eq(items[i].name.as_str(), name) {
            proof {
                lemma_first_named(items@, name@, i as int);
            }
            return Some(i);
        }
        i = i + 1;
    }
    assert(!exists|j: int| 0 <= j < items@.len() && #[trigger] items@[j].name@ == name@);
    None
}

/// `field_ty_matches`
pub fn field_ty_matches(field_ty: TypeRef, injection_ty: TypeRef) -> (b: bool)
    ensures
        b == ty_matches(field_ty, injection_ty),
{
    field_ty.data == injection_ty.data && field_ty.ty == injection_ty.ty && field_ty.byref
        == injection_ty.byref
}

/// The injection for one hook parameter (see `injection_for`).
fn injection_for_param(
    param: &Param,
    fields: &[Param],
    original_params: &[Param],
    original_return: Option<TypeRef>,
    is_instance: bool,
) -> (r: Result<ParamInjection, InjectionError>)
    ensures
        match (r, injection_for(*param, fields@, original_params@, original_return, is_instance)) {
            (Ok(a), Ok(b)) => a == b,
            (Err(a), Err(b)) => error_matches(a, b),
            _ => false,
        },
{
    let name = param.name.as_str();
    if let Some(field_name) = strip_prefix(name, "___") {
        proof {
            reveal_strlit("___");
            assert("___"@ =~= field_prefix());
        }
        match find_named(fields, field_name) {
            Some(idx) => {
                if !field_ty_matches(fields[idx].ty, param.ty) {
                    Err(InjectionError::FieldTypeMismatch(param.name.clone()))
                } else {
                    Ok(ParamInjection::LoadField(idx))
                }
            },
            None => Err(InjectionError::FieldNotFound(field_name.to_string())),
        }
    } else {
        proof {
            reveal_strlit("___");
            assert("___"@ =~= field_prefix());
        }
        if str_eq(name, "__instance") {
            proof {
                reveal_strlit("__instance");
                assert("__instance"@ =~= instance_name());
            }
            if !is_instance {
                Err(InjectionError::InstanceOnStatic)
            } else if param.ty.ty == crate::hook::abi::IL2CPP_TYPE_CLASS || (param.ty.ty
                == crate::hook::abi::IL2CPP_TYPE_VALUETYPE && param.ty.byref) {
                Ok(ParamInjection::Instance)
            } else {
                Err(InjectionError::InstanceTypeMismatch)
            }
        } else {
            proof {
                reveal_strlit("__instance");
                assert("__instance"@ =~= instance_name());
            }
            if str_eq(name, "__result") {
                proof {
                    reveal_strlit("__result");
                    assert("__result"@ =~= result_name());
                }
                match original_return {
                    None => Err(InjectionError::ResultOnVoid),
                    Some(r) => {
                        if r.ty == crate::hook::abi::IL2CPP_TYPE_VOID {
                            Err(InjectionError::ResultOnVoid)
                        } else if param.ty.id != r.id {
                            Err(InjectionError::ResultTypeMismatch)
                        } else {
                            Ok(ParamInjection::Result)
                        }
                    },
                }
            } else {
                proof {
                    reveal_strlit("__result");
                    assert("__result"@ =~= result_name());
                }
                match find_named(original_params, name) {
                    Some(i) => {
                        if original_params[i].ty.id != param.ty.id {
                            Err(InjectionError::ParamTypeMismatch(param.name.clone()))
                        } else {
                            Ok(ParamInjection::OriginalParam(i))
                        }
                    },
                    None => Err(InjectionError::ParamNotFound(param.name.clone())),
                }
            }
        }
    }
}

/// Where each parameter of a hook method comes from: `___<field>` loads a
/// field of the instance, `__instance` the instance, `__result` the original's
/// result, and any other name the original's parameter of that name. The hook
/// method must be static; the first parameter that cannot be injected gives
/// the error.
pub fn get_injections(
    hook_flags: u16,
    params: &[Param],
    fields: &[Param],
    original_params: &[Param],
    original_return: Option<TypeRef>,
    is_instance: bool,
) -> (r: Result<Vec<ParamInjection>, InjectionError>)
    ensures
        hook_flags & METHOD_ATTRIBUTE_STATIC == 0 ==> r == Err::<Vec<ParamInjection>, InjectionError>(
            InjectionError::NotStatic,
        ),
        hook_flags & METHOD_ATTRIBUTE_STATIC != 0 ==> match r {
            Ok(v) => v@.len() == params@.len() && forall|i: int|
                0 <= i < params@.len() ==> #[trigger] injection_for(
                    params@[i],
                    fields@,
                    original_params@,
                    original_return,
                    is_instance,
                ) == Ok::<ParamInjection, InjectionError>(v@[i]),
            Err(e) => exists|k: int|
                0 <= k < params@.len() && (forall|j: int|
                    0 <= j < k ==> #[trigger] injection_for(
                        params@[j],
                        fields@,
                        original_params@,
                        original_return,
                        is_instance,
                    ) is Ok) && (#[trigger] injection_for(
                    params@[k],
                    fields@,
                    original_params@,
                    original_return,
                    is_instance,
                ) matches Err(e2) && error_matches(e, e2)),
        },
{
    if hook_flags & METHOD_ATTRIBUTE_STATIC == 0 {
        return Err(InjectionError::NotStatic);
    }
    let mut injections: Vec<ParamInjection> = Vec::new();
    let mut i: usize = 0;
    while i < params.len()
        invariant
            hook_flags & METHOD_ATTRIBUTE_STATIC != 0,
            0 <= i <= params@.len(),
            injections@.len() == i,
            forall|j: int|
                0 <= j < i ==> #[trigger] injection_for(
                    params@[j],
                    fields@,
                    original_params@,
                    original_return,
                    is_instance,
                ) == Ok::<ParamInjection, InjectionError>(injections@[j]),
        decreases params@.len() - i,
    {
        match injection_for_param(&params[i], fields, original_params, original_return, is_instance) {
            Ok(inj) => {
                injections.push(inj);
            },
            Err(e) => {
                proof {
                    assert(forall|j: int|
                        0 <= j < i ==> #[trigger] injection_for(
                            params@[j],
                            fields@,
                            original_params@,
                            original_return,
                            is_instance,
                        ) is Ok);
                }
                return Err(e);
            },
        }
        i = i + 1;
    }
    Ok(injections)
}

/// The calls a hook makes, in order: the prefix, the original method, the
/// postfix.
pub open spec fn hook_call_targets(prefix: Option<u64>, postfix: Option<u64>) -> Seq<DataFixupInfo> {
    (match prefix {
        Some(a) => seq![DataFixupInfo::Addr(a)],
        None => Seq::empty(),
    }) + seq![DataFixupInfo::Orig] + (match postfix {
        Some(a) => seq![DataFixupInfo::Addr(a)],
        None => Seq::empty(),
    })
}

/// The method pointer of a hook, where there is one.
pub open spec fn hook_pointer(h: Option<(&CodegenMethod, &[ParamInjection])>) -> Option<u64> {
    match h {
        Some((m, _)) => Some(m.method_pointer),
        None => None,
    }
}

/// What a hook generator holds: its frame, its stack use, and the code, data
/// fixups and spill fixups emitted so far.
pub ghost struct HookModel {
    pub frame: Frame,
    pub stack_offset: u32,
    pub code: Seq<u32>,
    pub data: Seq<DataFixup>,
    pub spills: Seq<usize>,
}

pub open spec fn model_of(g: HookGenerator) -> HookModel {
    HookModel {
        frame: frame_of(g),
        stack_offset: g.stack_offset,
        code: g.code.code@,
        data: g.code.data@,
        spills: g.code.param_spill_fixups@,
    }
}

/// A new generator (see `new_gen`).
pub open spec fn model_new(original: CodegenMethod, is_instance: bool, reserve: u32) -> Option<HookModel> {
    match new_gen(original, is_instance, reserve) {
        None => None,
        Some((st, inst, res)) => Some(
            HookModel {
                frame: Frame { original, offsets: st.offsets, instance: inst, result: res },
                stack_offset: st.stack_offset,
                code: st.code,
                data: Seq::empty(),
                spills: st.spills,
            },
        ),
    }
}

/// The call of a hook `method` with its `injections` (see
/// `HookGenerator::gen_call_hook`): `None` where an injection cannot be
/// loaded.
pub open spec fn model_call_hook(m: HookModel, method: CodegenMethod, injections: Seq<ParamInjection>) -> Option<
    HookModel,
> {
    let args = method.layout.args@;
    let n = if injections.len() <= args.len() {
        injections.len()
    } else {
        args.len()
    };
    if forall|i: int| 0 <= i < n ==> injection_ok(m.frame, #[trigger] injections[i], args[i]) {
        let pre = m.code + injections_code(m.frame, injections, args, n);
        Some(
            HookModel {
                code: pre.push(ldr_x9_literal()).push(blr_x9()),
                data: m.data.push(DataFixup { ins_idx: pre.len() as usize, info: DataFixupInfo::Addr(method.method_pointer) }),
                ..m
            },
        )
    } else {
        None
    }
}

/// The call of the original method (see `HookGenerator::call_orig`).
pub open spec fn model_call_orig(m: HookModel) -> Option<HookModel> {
    if call_orig_ok(m.frame) {
        let pre = m.code + call_orig_prelude(m.frame);
        let after_call = pre.push(ldr_x9_literal()).push(blr_x9());
        let data = m.data.push(DataFixup { ins_idx: pre.len() as usize, info: DataFixupInfo::Orig });
        match m.frame.original.ret_layout {
            None => Some(HookModel { code: after_call, data, ..m }),
            Some(r) => Some(
                HookModel {
                    code: after_call + store_code(r, m.frame.result.unwrap()),
                    data,
                    spills: m.spills + store_spills(r, after_call.len()),
                    ..m
                },
            ),
        }
    } else {
        None
    }
}

/// The frame set up around the code (see
/// `HookGenerator::write_prologue_epilogue`): `None` where the frame or a
/// position would overflow.
pub open spec fn model_prologue(m: HookModel) -> Option<HookModel> {
    if frame_size(m.stack_offset) is Some && m.code.len() + 5 <= usize::MAX && (forall|i: int|
        0 <= i < m.data.len() ==> #[trigger] m.data[i].ins_idx + 2 <= usize::MAX) && (forall|i: int|
        0 <= i < m.spills.len() ==> #[trigger] m.spills[i] + 2 <= usize::MAX) {
        let lr = m.stack_offset;
        let so = frame_size(lr).unwrap();
        Some(
            HookModel {
                stack_offset: so,
                code: seq![sub_x_imm(31, 31, so), str_x(30, 31, lr)] + m.code + seq![
                    ldr_x(30, 31, lr),
                    add_x_imm(31, 31, so),
                    ret_ins(),
                ],
                data: Seq::new(
                    m.data.len(),
                    |i: int| DataFixup { ins_idx: (m.data[i].ins_idx + 2) as usize, ..m.data[i] },
                ),
                spills: Seq::new(m.spills.len(), |i: int| (m.spills[i] + 2) as usize),
                ..m
            },
        )
    } else {
        None
    }
}

/// The stack room the hooks' own stack arguments need: the larger of theirs.
pub open spec fn hook_reserve(
    prefix: Option<(&CodegenMethod, &[ParamInjection])>,
    postfix: Option<(&CodegenMethod, &[ParamInjection])>,
) -> u32 {
    let a: u32 = match prefix {
        Some((m, _)) => m.layout.stack_size,
        None => 0,
    };
    match postfix {
        Some((m, _)) => if m.layout.stack_size > a {
            m.layout.stack_size
        } else {
            a
        },
        None => a,
    }
}

/// A hook call where there is one; else the model unchanged.
pub open spec fn model_maybe_call(m: HookModel, h: Option<(&CodegenMethod, &[ParamInjection])>) -> Option<HookModel> {
    match h {
        Some((c, inj)) => model_call_hook(m, *c, inj@),
        None => Some(m),
    }
}

/// The generator of a hook: a new one, the prefix's call, the original's,
/// the postfix's, then the frame; `None` where a step cannot be generated.
pub open spec fn hook_model(
    original: CodegenMethod,
    is_instance: bool,
    prefix: Option<(&CodegenMethod, &[ParamInjection])>,
    postfix: Option<(&CodegenMethod, &[ParamInjection])>,
) -> Option<HookModel> {
    match model_new(original, is_instance, hook_reserve(prefix, postfix)) {
        None => None,
        Some(m0) => match model_maybe_call(m0, prefix) {
            None => None,
            Some(m1) => match model_call_orig(m1) {
                None => None,
                Some(m2) => match model_maybe_call(m2, postfix) {
                    None => None,
                    Some(m3) => model_prologue(m3),
                },
            },
        },
    }
}

fn new_step<'a>(original: &'a CodegenMethod, is_instance: bool, reserve: u32) -> (r: Option<HookGenerator<'a>>)
    ensures
        match model_new(*original, is_instance, reserve) {
            None => r is None,
            Some(m) => r matches Some(g) && g.original == original && model_of(g) == m,
        },
{
    let r = HookGenerator::new(original, is_instance, reserve);
    proof {
        if r is Some {
            let g = r->0;
            let m = model_new(*original, is_instance, reserve).unwrap();
            assert(frame_of(g) == m.frame);
            assert(model_of(g) =~= m);
        }
    }
    r
}

fn call_hook_step(gen: &mut HookGenerator, h: Option<(&CodegenMethod, &[ParamInjection])>) -> (ok: bool)
    ensures
        ok == model_maybe_call(model_of(*old(gen)), h) is Some,
        ok ==> model_maybe_call(model_of(*old(gen)), h) == Some(model_of(*final(gen))),
        final(gen).original == old(gen).original,
{
    match h {
        Some((codegen, injections)) => {
            let ok = gen.gen_call_hook(codegen, injections);
            proof {
                if ok {
                    let m = model_call_hook(model_of(*old(gen)), *codegen, injections@).unwrap();
                    assert(frame_of(*gen) == m.frame);
                    assert(model_of(*gen) =~= m);
                }
            }
            ok
        },
        None => true,
    }
}

fn call_orig_step(gen: &mut HookGenerator) -> (ok: bool)
    ensures
        ok == model_call_orig(model_of(*old(gen))) is Some,
        ok ==> model_call_orig(model_of(*old(gen))) == Some(model_of(*final(gen))),
        final(gen).original == old(gen).original,
{
    let ok = gen.call_orig();
    proof {
        if ok {
            let m = model_call_orig(model_of(*old(gen))).unwrap();
            assert(frame_of(*gen) == m.frame);
            assert(model_of(*gen) =~= m);
        }
    }
    ok
}

fn prologue_step(gen: &mut HookGenerator) -> (ok: bool)
    ensures
        ok == model_prologue(model_of(*old(gen))) is Some,
        ok ==> model_prologue(model_of(*old(gen))) == Some(model_of(*final(gen))),
        final(gen).original == old(gen).original,
{
    let ok = gen.write_prologue_epilogue();
    proof {
        if ok {
            let m = model_prologue(model_of(*old(gen))).unwrap();
            assert(frame_of(*gen) == m.frame);
            assert(gen.code.data@ =~= m.data);
            assert(gen.code.param_spill_fixups@ =~= m.spills);
            assert(model_of(*gen) =~= m);
        }
    }
    ok
}

/// The data fixups of a hook's model call the prefix, the original and the
/// postfix, and its code opens and closes the frame.
proof fn lemma_hook_shape(
    prefix: Option<(&CodegenMethod, &[ParamInjection])>,
    postfix: Option<(&CodegenMethod, &[ParamInjection])>,
    m0: HookModel,
    m1: HookModel,
    m2: HookModel,
    m3: HookModel,
    m4: HookModel,
)
    requires
        m0.data.len() == 0,
        model_maybe_call(m0, prefix) == Some(m1),
        model_call_orig(m1) == Some(m2),
        model_maybe_call(m2, postfix) == Some(m3),
        model_prologue(m3) == Some(m4),
    ensures
        m4.data.map_values(|f: DataFixup| f.info) == hook_call_targets(hook_pointer(prefix), hook_pointer(postfix)),
        m4.code.len() >= 5,
        m4.code[0] == sub_x_imm(31, 31, m4.stack_offset),
        m4.code[m4.code.len() - 2] == add_x_imm(31, 31, m4.stack_offset),
        m4.code[m4.code.len() - 1] == ret_ins(),
{
    let pre = match prefix {
        Some((m, _)) => seq![DataFixupInfo::Addr(m.method_pointer)],
        None => Seq::<DataFixupInfo>::empty(),
    };
    let post = match postfix {
        Some((m, _)) => seq![DataFixupInfo::Addr(m.method_pointer)],
        None => Seq::<DataFixupInfo>::empty(),
    };
    assert(m1.data.map_values(|f: DataFixup| f.info) =~= pre);
    assert(m2.data.map_values(|f: DataFixup| f.info) =~= pre + seq![DataFixupInfo::Orig]);
    assert(m3.data.map_values(|f: DataFixup| f.info) =~= pre + seq![DataFixupInfo::Orig] + post);
    assert(m4.data.map_values(|f: DataFixup| f.info) =~= m3.data.map_values(|f: DataFixup| f.info));
    assert(hook_call_targets(hook_pointer(prefix), hook_pointer(postfix)) =~= pre + seq![DataFixupInfo::Orig] + post);
}

/// The trampoline of a hook of `original` that calls `prefix` (with its
/// injections), the original and `postfix`, with its frame set up: the frame
/// reserves room for the larger of the hooks' stack arguments. `None` where a
/// step cannot be generated (see `HookGenerator`).
pub fn generate_hook<'a>(
    original: &'a CodegenMethod,
    is_instance: bool,
    prefix: Option<(&CodegenMethod, &[ParamInjection])>,
    postfix: Option<(&CodegenMethod, &[ParamInjection])>,
) -> (r: Option<HookGenerator<'a>>)
    ensures
        r matches Some(g) ==> {
            let c = g.code.code@;
            &&& g.original == original
            &&& g.code.data@.map_values(|f: DataFixup| f.info) == hook_call_targets(
                hook_pointer(prefix),
                hook_pointer(postfix),
            )
            &&& c.len() >= 5
            &&& c[0] == sub_x_imm(31, 31, g.stack_offset)
            &&& c[c.len() - 2] == add_x_imm(31, 31, g.stack_offset)
            &&& c[c.len() - 1] == ret_ins()
        },
        match hook_model(*original, is_instance, prefix, postfix) {
            None => r is None,
            Some(m) => r matches Some(g) && g.original == original && model_of(g) == m,
        },
{
    let mut reserve_call_stack: u32 = 0;
    if let Some((codegen, _)) = prefix {
        if codegen.layout.stack_size > reserve_call_stack {
            reserve_call_stack = codegen.layout.stack_size;
        }
    }
    if let Some((codegen, _)) = postfix {
        if codegen.layout.stack_size > reserve_call_stack {
            reserve_call_stack = codegen.layout.stack_size;
        }
    }
    assert(reserve_call_stack == hook_reserve(prefix, postfix));
    let mut gen = match new_step(original, is_instance, reserve_call_stack) {
        Some(g) => g,
        None => {
            return None;
        },
    };
    let ghost m0 = model_of(gen);
    if !call_hook_step(&mut gen, prefix) {
        return None;
    }
    let ghost m1 = model_of(gen);
    if !call_orig_step(&mut gen) {
        return None;
    }
    let ghost m2 = model_of(gen);
    if !call_hook_step(&mut gen, postfix) {
        return None;
    }
    let ghost m3 = model_of(gen);
    if !prologue_step(&mut gen) {
        return None;
    }
    proof {
        lemma_hook_shape(prefix, postfix, m0, m1, m2, m3, model_of(gen));
    }
    Some(gen)
}

} // verus!
