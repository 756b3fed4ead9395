//! Generation of AArch64 hook trampolines: the instruction words that save the
//! parameters of the original method, call the prefix hook, the original and
//! the postfix hook, and return.
use crate::hook::abi::{
    Arg, ParamLayout, ParameterStorage, TypeDesc, desc_wf, layout_parameters, layout_spec, AbiState,
};
use vstd::prelude::*;

verus! {

/// `ldr x<dest>, [x<base>/sp, #<offset>]`
pub open spec fn ldr_x(dest: u32, base: u32, offset: u32) -> u32 {
    0xf9400000u32 | ((offset / 8) << 10u32) | (base << 5u32) | dest
}

/// `str x<src>, [x<base>/sp, #<offset>]`
pub open spec fn str_x(src: u32, base: u32, offset: u32) -> u32 {
    0xf9000000u32 | ((offset / 8) << 10u32) | (base << 5u32) | src
}

/// `ldr d<dest>/s<dest>, [x<base>/sp, #<offset>]` for an 8 or 4 byte value.
pub open spec fn ldr_fp(dest: u32, base: u32, offset: u32, size: u32) -> u32 {
    (if size == 8 {
        0xfd400000u32
    } else {
        0xbd400000u32
    }) | ((offset / size) << 10u32) | (base << 5u32) | dest
}

/// `str d<src>/s<src>, [x<base>/sp, #<offset>]` for an 8 or 4 byte value.
pub open spec fn str_fp(src: u32, base: u32, offset: u32, size: u32) -> u32 {
    (if size == 8 {
        0xfd000000u32
    } else {
        0xbd000000u32
    }) | ((offset / size) << 10u32) | (base << 5u32) | src
}

/// `add x<dest>, x<reg>, #<imm>`
pub open spec fn add_x_imm(dest: u32, reg: u32, imm: u32) -> u32 {
    0x91000000u32 | (imm << 10u32) | (reg << 5u32) | dest
}

/// `sub x<dest>, x<reg>, #<imm>`
pub open spec fn sub_x_imm(dest: u32, reg: u32, imm: u32) -> u32 {
    0xd1000000u32 | (imm << 10u32) | (reg << 5u32) | dest
}

/// `ret`
pub open spec fn ret_ins() -> u32 {
    0xd65f03c0u32
}

/// `ldr x9, <literal>` (the literal offset is filled in when the code is copied out)
pub open spec fn ldr_x9_literal() -> u32 {
    0x58000009u32
}

/// `blr x9`
pub open spec fn blr_x9() -> u32 {
    0xd63f0120u32
}

#[derive(Clone, Copy, Debug, PartialEq, Eq, Structural)]
pub enum DataFixupInfo {
    /// Call this address.
    Addr(u64),
    /// Call the original method (its relocated entry is known when the hook is installed).
    Orig,
}

/// Fix up an ldr with an offset to data
#[derive(Clone, Copy, Debug, PartialEq, Eq, Structural)]
pub struct DataFixup {
    pub ins_idx: usize,
    pub info: DataFixupInfo,
}

pub struct Code {
    pub code: Vec<u32>,
    pub data: Vec<DataFixup>,
    /// Positions of loads from the caller's stack area, whose offsets grow by
    /// the size of the hook's own frame.
    pub param_spill_fixups: Vec<usize>,
}

impl Code {
    pub fn new() -> (c: Code)
        ensures
            c.code@ == Seq::<u32>::empty(),
            c.data@ == Seq::<DataFixup>::empty(),
            c.param_spill_fixups@ == Seq::<usize>::empty(),
    {
        Code { code: Vec::new(), data: Vec::new(), param_spill_fixups: Vec::new() }
    }

    /// ldr x<dest>, [x<base>/sp, #<offset>]
    pub fn load_base_offset(&mut self, dest: u32, base: u32, offset: u32)
        ensures
            final(self).code@ == old(self).code@.push(ldr_x(dest, base, offset)),
            final(self).data@ == old(self).data@,
            final(self).param_spill_fixups@ == old(self).param_spill_fixups@,
    {
        let offset = offset / 8;
        let ins = 0xf9400000u32 | (offset << 10u32) | (base << 5u32) | dest;
        self.code.push(ins);
    }

    /// Load from the caller's stack area (an offset to fix up by the frame size).
    pub fn load_spill(&mut self, dest: u32, offset: u32)
        ensures
            final(self).code@ == old(self).code@.push(ldr_x(dest, 31, offset)),
            final(self).data@ == old(self).data@,
            final(self).param_spill_fixups@ == old(self).param_spill_fixups@.push(
                old(self).code@.len() as usize,
            ),
    {
        self.param_spill_fixups.push(self.code.len());
        self.load_base_offset(dest, 31, offset);
    }

    /// str x<src>, [x<base>/sp, #<offset>]
    pub fn store_base_offset(&mut self, src: u32, base: u32, offset: u32)
        ensures
            final(self).code@ == old(self).code@.push(str_x(src, base, offset)),
            final(self).data@ == old(self).data@,
            final(self).param_spill_fixups@ == old(self).param_spill_fixups@,
    {
        let offset = offset / 8;
        let ins = 0xf9000000u32 | (offset << 10u32) | (base << 5u32) | src;
        self.code.push(ins);
    }

    /// ldr d<dest>, [x<base>/sp, #<offset>]
    pub fn load_base_offset_fp(&mut self, dest: u32, base: u32, offset: u32, size: u32)
        requires
            size == 8 || size == 4,
        ensures
            final(self).code@ == old(self).code@.push(ldr_fp(dest, base, offset, size)),
            final(self).data@ == old(self).data@,
            final(self).param_spill_fixups@ == old(self).param_spill_fixups@,
    {
        let offset = offset / size;
        let ins: u32 = if size == 8 {
            0xfd400000
        } else {
            0xbd400000
        };
        let ins = ins | (offset << 10u32) | (base << 5u32) | dest;
        self.code.push(ins);
    }

    /// str d<src>, [x<base>/sp, #<offset>]
    pub fn store_base_offset_fp(&mut self, src: u32, base: u32, offset: u32, size: u32)
        requires
            size == 8 || size == 4,
        ensures
            final(self).code@ == old(self).code@.push(str_fp(src, base, offset, size)),
            final(self).data@ == old(self).data@,
            final(self).param_spill_fixups@ == old(self).param_spill_fixups@,
    {
        let offset = offset / size;
        let ins: u32 = if size == 8 {
            0xfd000000
        } else {
            0xbd000000
        };
        let ins = ins | (offset << 10u32) | (base << 5u32) | src;
        self.code.push(ins);
    }

    /// add x<dest>, x<reg>, #<imm>
    pub fn add_imm(&mut self, dest: u32, reg: u32, imm: u32)
        ensures
            final(self).code@ == old(self).code@.push(add_x_imm(dest, reg, imm)),
            final(self).data@ == old(self).data@,
            final(self).param_spill_fixups@ == old(self).param_spill_fixups@,
    {
        self.code.push(0x91000000u32 | (imm << 10u32) | (reg << 5u32) | dest);
    }

    /// sub x<dest>, x<reg>, #<imm>
    pub fn sub_imm(&mut self, dest: u32, reg: u32, imm: u32)
        ensures
            final(self).code@ == old(self).code@.push(sub_x_imm(dest, reg, imm)),
            final(self).data@ == old(self).data@,
            final(self).param_spill_fixups@ == old(self).param_spill_fixups@,
    {
        self.code.push(0xd1000000u32 | (imm << 10u32) | (reg << 5u32) | dest);
    }

    pub fn ret(&mut self)
        ensures
            final(self).code@ == old(self).code@.push(ret_ins()),
            final(self).data@ == old(self).data@,
            final(self).param_spill_fixups@ == old(self).param_spill_fixups@,
    {
        self.code.push(0xd65f03c0);
    }

    /// Puts the code of `other` (which calls nothing) before this code.
    pub fn push_front(&mut self, other: Code)
        requires
            other.data@.len() == 0,
            forall|i: int|
                0 <= i < old(self).data@.len() ==> #[trigger] old(self).data@[i].ins_idx
                    + other.code@.len() <= usize::MAX,
            forall|i: int|
                0 <= i < old(self).param_spill_fixups@.len()
                    ==> #[trigger] old(self).param_spill_fixups@[i] + other.code@.len()
                    <= usize::MAX,
            old(self).code@.len() + other.code@.len() <= usize::MAX,
        ensures
            final(self).code@ == other.code@ + old(self).code@,
            final(self).data@ == old(self).data@.map_values(
                |f: DataFixup| (DataFixup { ins_idx: (f.ins_idx + other.code@.len()) as usize, ..f }),
            ),
            final(self).param_spill_fixups@ == old(self).param_spill_fixups@.map_values(
                |i: usize| (i + other.code@.len()) as usize,
            ),
    {
        let shift = other.code.len();
        let ghost old_data = self.data@;
        let ghost old_fixups = self.param_spill_fixups@;
        let mut i: usize = 0;
        while i < self.data.len()
            invariant
                shift == other.code@.len(),
                self.param_spill_fixups@ == old_fixups,
                self.code@ == old(self).code@,
                self.data@.len() == old_data.len(),
                0 <= i <= old_data.len(),
                forall|j: int|
                    0 <= j < old_data.len() ==> #[trigger] old_data[j].ins_idx + shift
                        <= usize::MAX,
                forall|j: int|
                    0 <= j < i ==> #[trigger] self.data@[j] == (DataFixup {
                        ins_idx: (old_data[j].ins_idx + shift) as usize,
                        ..old_data[j]
                    }),
                forall|j: int| i <= j < old_data.len() ==> #[trigger] self.data@[j] == old_data[j],
            decreases old_data.len() - i,
        {
            let f = self.data[i];
            self.data.set(i, DataFixup { ins_idx: f.ins_idx + shift, info: f.info });
            i = i + 1;
        }
        assert(self.data@ =~= old_data.map_values(
            |f: DataFixup| (DataFixup { ins_idx: (f.ins_idx + shift) as usize, ..f }),
        ));
        let mut i: usize = 0;
        while i < self.param_spill_fixups.len()
            invariant
                shift == other.code@.len(),
                self.code@ == old(self).code@,
                self.data@ =~= old_data.map_values(
                    |f: DataFixup| (DataFixup { ins_idx: (f.ins_idx + shift) as usize, ..f }),
                ),
                self.param_spill_fixups@.len() == old_fixups.len(),
                0 <= i <= old_fixups.len(),
                forall|j: int|
                    0 <= j < old_fixups.len() ==> #[trigger] old_fixups[j] + shift <= usize::MAX,
                forall|j: int|
                    0 <= j < i ==> #[trigger] self.param_spill_fixups@[j] == (old_fixups[j]
                        + shift) as usize,
                forall|j: int|
                    i <= j < old_fixups.len() ==> #[trigger] self.param_spill_fixups@[j]
                        == old_fixups[j],
            decreases old_fixups.len() - i,
        {
            let f = self.param_spill_fixups[i];
            self.param_spill_fixups.set(i, f + shift);
            i = i + 1;
        }
        assert(self.param_spill_fixups@ =~= old_fixups.map_values(|i: usize| (i + shift) as usize));
        let mut code = other.code;
        let ghost front = code@;
        let mut i: usize = 0;
        while i < self.code.len()
            invariant
                code@ == front + self.code@.take(i as int),
                self.code@ == old(self).code@,
                front == other.code@,
                self.data@ =~= old_data.map_values(
                    |f: DataFixup| (DataFixup { ins_idx: (f.ins_idx + shift) as usize, ..f }),
                ),
                self.param_spill_fixups@ =~= old_fixups.map_values(|i: usize| (i + shift) as usize),
                0 <= i <= self.code@.len(),
                front.len() + self.code@.len() <= usize::MAX,
            decreases self.code@.len() - i,
        {
            code.push(self.code[i]);
            assert(self.code@.take(i + 1) =~= self.code@.take(i as int).push(self.code@[i as int]));
            i = i + 1;
        }
        assert(self.code@.take(i as int) =~= self.code@);
        self.code = code;
        assert(self.data@ =~= old_data.map_values(
            |f: DataFixup| (DataFixup { ins_idx: (f.ins_idx + shift) as usize, ..f }),
        ));
        assert(self.param_spill_fixups@ =~= old_fixups.map_values(
            |i: usize| (i + shift) as usize,
        ));
    }

    /// Loads the address `addr` (or, for `None`, the original method's) and calls it.
    pub fn call_addr(&mut self, addr: Option<u64>)
        ensures
            final(self).code@ == old(self).code@.push(ldr_x9_literal()).push(blr_x9()),
            final(self).data@ == old(self).data@.push(
                (DataFixup {
                    ins_idx: old(self).code@.len() as usize,
                    info: match addr {
                        Some(a) => DataFixupInfo::Addr(a),
                        None => DataFixupInfo::Orig,
                    },
                }),
            ),
            final(self).param_spill_fixups@ == old(self).param_spill_fixups@,
    {
        self.data.push(
            DataFixup {
                ins_idx: self.code.len(),
                info: match addr {
                    Some(addr) => DataFixupInfo::Addr(addr),
                    None => DataFixupInfo::Orig,
                },
            },
        );
        self.code.push(0x58000009);  // ldr x9, 0x0
        self.code.push(0xd63f0120);  // blr x9
    }

    /// The size in instruction words: the code, then two words for each
    /// address loaded.
    pub fn size(&self) -> (s: usize)
        requires
            self.code@.len() + self.data@.len() * 2 <= usize::MAX,
        ensures
            s == self.code@.len() + self.data@.len() * 2,
    {
        self.code.len() + self.data.len() * 2
    }

    /// Fixes up the code for a frame of `stack_size` bytes and for the
    /// addresses that it calls (`orig_addr` for the original method), and
    /// returns the words to write where the hook goes: the code, then each
    /// called address as two little-endian words.
    pub fn copy_to(&mut self, orig_addr: u64, stack_size: u32) -> (image: Vec<u32>)
        requires
            spill_fold(old(self).code@, old(self).param_spill_fixups@, (stack_size / 8) << 10u32) is Some,
            data_fold(
                spill_fold(old(self).code@, old(self).param_spill_fixups@, (stack_size / 8) << 10u32).unwrap(),
                old(self).data@,
                old(self).data@.len(),
            ) is Some,
            old(self).code@.len() + old(self).data@.len() * 2 <= usize::MAX,
        ensures
            final(self).code@ == data_fold(
                spill_fold(old(self).code@, old(self).param_spill_fixups@, (stack_size / 8) << 10u32).unwrap(),
                old(self).data@,
                old(self).data@.len(),
            ).unwrap(),
            final(self).data@ == old(self).data@,
            final(self).param_spill_fixups@ == old(self).param_spill_fixups@,
            image@ == final(self).code@ + data_words(old(self).data@, orig_addr),
    {
        let stack_size_offset = stack_size / 8;
        let add = stack_size_offset << 10u32;
        let ghost code0 = self.code@;
        let mut k: usize = 0;
        while k < self.param_spill_fixups.len()
            invariant
                add == (stack_size / 8) << 10u32,
                code0 == old(self).code@,
                self.data@ == old(self).data@,
                self.param_spill_fixups@ == old(self).param_spill_fixups@,
                0 <= k <= self.param_spill_fixups@.len(),
                spill_fold(code0, self.param_spill_fixups@, add) is Some,
                spill_fold(code0, self.param_spill_fixups@.take(k as int), add) == Some(self.code@),
            decreases self.param_spill_fixups@.len() - k,
        {
            let ins_idx = self.param_spill_fixups[k];
            proof {
                lemma_spill_fold_prefix(code0, self.param_spill_fixups@, add, k as int + 1);
                assert(self.param_spill_fixups@.take(k + 1).drop_last() =~= self.param_spill_fixups@.take(
                    k as int,
                ));
            }
            let v = self.code[ins_idx];
            self.code.set(ins_idx, v + add);
            k = k + 1;
        }
        assert(self.param_spill_fixups@.take(k as int) =~= self.param_spill_fixups@);
        let ghost code1 = self.code@;
        let len = self.code.len();
        let mut i: usize = 0;
        while i < self.data.len()
            invariant
                len == self.code@.len(),
                len == code1.len(),
                code1 == spill_fold(code0, old(self).param_spill_fixups@, add).unwrap(),
                self.data@ == old(self).data@,
                self.param_spill_fixups@ == old(self).param_spill_fixups@,
                0 <= i <= self.data@.len(),
                data_fold(code1, self.data@, self.data@.len()) is Some,
                data_fold(code1, self.data@, i as nat) == Some(self.code@),
            decreases self.data@.len() - i,
        {
            let ins_idx = self.data[i].ins_idx;
            proof {
                lemma_data_fold_prefix(code1, self.data@, i as nat + 1);
            }
            let offset = ((len - ins_idx) + i * 2) as u32;
            let v = self.code[ins_idx];
            self.code.set(ins_idx, v | (offset << 5u32));
            i = i + 1;
        }
        let mut image: Vec<u32> = Vec::new();
        let mut j: usize = 0;
        while j < self.code.len()
            invariant
                image@ == self.code@.take(j as int),
                0 <= j <= self.code@.len(),
            decreases self.code@.len() - j,
        {
            image.push(self.code[j]);
            assert(self.code@.take(j + 1) =~= self.code@.take(j as int).push(self.code@[j as int]));
            j = j + 1;
        }
        assert(self.code@.take(j as int) =~= self.code@);
        let mut i: usize = 0;
        while i < self.data.len()
            invariant
                image@ == self.code@ + data_words(self.data@.take(i as int), orig_addr),
                0 <= i <= self.data@.len(),
            decreases self.data@.len() - i,
        {
            let value: u64 = match self.data[i].info {
                DataFixupInfo::Addr(a) => a,
                DataFixupInfo::Orig => orig_addr,
            };
            image.push(value as u32);
            image.push((value >> 32u64) as u32);
            assert(data_words(self.data@.take(i + 1), orig_addr) =~= data_words(
                self.data@.take(i as int),
                orig_addr,
            ).push(value as u32).push((value >> 32u64) as u32));
            i = i + 1;
        }
        assert(self.data@.take(i as int) =~= self.data@);
        image
    }
}

/// The code after adding `add` to the instruction at each position of
/// `fixups`, in order; `None` where a position is out of range or an
/// instruction word would overflow.
pub open spec fn spill_fold(code: Seq<u32>, fixups: Seq<usize>, add: u32) -> Option<Seq<u32>>
    decreases fixups.len(),
{
    if fixups.len() == 0 {
        Some(code)
    } else {
        match spill_fold(code, fixups.drop_last(), add) {
            None => None,
            Some(c) => {
                let idx = fixups.last() as int;
                if idx < c.len() && c[idx] + add <= u32::MAX {
                    Some(c.update(idx, (c[idx] + add) as u32))
                } else {
                    None
                }
            },
        }
    }
}

/// The code after pointing the literal load of each of the first `n` calls at
/// its address word: the addresses follow the code, two words each.
/// `None` where a position is out of range.
pub open spec fn data_fold(code: Seq<u32>, data: Seq<DataFixup>, n: nat) -> Option<Seq<u32>>
    decreases n,
{
    if n == 0 {
        Some(code)
    } else {
        let i = n - 1;
        match data_fold(code, data, i as nat) {
            None => None,
            Some(c) => {
                let idx = data[i].ins_idx as int;
                if idx < c.len() && (c.len() - idx) + i * 2 <= usize::MAX {
                    let offset = ((c.len() - idx) + i * 2) as u32;
                    Some(c.update(idx, c[idx] | (offset << 5u32)))
                } else {
                    None
                }
            },
        }
    }
}

/// The address a call loads.
pub open spec fn fixup_value(f: DataFixup, orig_addr: u64) -> u64 {
    match f.info {
        DataFixupInfo::Addr(a) => a,
        DataFixupInfo::Orig => orig_addr,
    }
}

/// The called addresses, each as two little-endian words.
pub open spec fn data_words(data: Seq<DataFixup>, orig_addr: u64) -> Seq<u32> {
    Seq::new(
        data.len() * 2,
        |k: int|
            if k % 2 == 0 {
                fixup_value(data[k / 2], orig_addr) as u32
            } else {
                (fixup_value(data[k / 2], orig_addr) >> 32u64) as u32
            },
    )
}

proof fn lemma_spill_fold_prefix(code: Seq<u32>, fixups: Seq<usize>, add: u32, k: int)
    requires
        0 <= k <= fixups.len(),
        spill_fold(code, fixups, add) is Some,
    ensures
        spill_fold(code, fixups.take(k), add) is Some,
    decreases fixups.len(),
{
    if k < fixups.len() {
        assert(fixups.drop_last().take(k) =~= fixups.take(k));
        lemma_spill_fold_prefix(code, fixups.drop_last(), add, k);
    } else {
        assert(fixups.take(k) =~= fixups);
    }
}

proof fn lemma_data_fold_prefix(code: Seq<u32>, data: Seq<DataFixup>, k: nat)
    requires
        k <= data.len(),
        data_fold(code, data, data.len()) is Some,
    ensures
        data_fold(code, data, k) is Some,
    decreases data.len() - k,
{
    if k < data.len() {
        lemma_data_fold_prefix(code, data, k + 1);
    }
}

/// An `ldr x9, <literal>` with a word offset below 2^19 put in its imm19
/// field stays an `ldr x9, <literal>` and gives that offset back.
proof fn lemma_literal_field(offset: u32)
    requires
        offset < 0x80000,
    ensures
        ((0x58000009u32 | (offset << 5u32)) >> 5u32) & 0x7ffffu32 == offset,
        (0x58000009u32 | (offset << 5u32)) & 0xff00001fu32 == 0x58000009u32,
{
    assert(((0x58000009u32 | (offset << 5u32)) >> 5u32) & 0x7ffffu32 == offset) by (bit_vector)
        requires
            offset < 0x80000u32,
    ;
    assert((0x58000009u32 | (offset << 5u32)) & 0xff00001fu32 == 0x58000009u32) by (bit_vector)
        requires
            offset < 0x80000u32,
    ;
}

/// Adding to the words at the spill positions keeps the length and every
/// other word.
proof fn lemma_spill_fold_keeps(code: Seq<u32>, fixups: Seq<usize>, add: u32)
    requires
        spill_fold(code, fixups, add) is Some,
    ensures
        spill_fold(code, fixups, add).unwrap().len() == code.len(),
        forall|p: int|
            0 <= p < code.len() && (forall|k: int| 0 <= k < fixups.len() ==> #[trigger] fixups[k] as int != p)
                ==> spill_fold(code, fixups, add).unwrap()[p] == code[p],
    decreases fixups.len(),
{
    if fixups.len() > 0 {
        let rest = fixups.drop_last();
        lemma_spill_fold_keeps(code, rest, add);
        assert forall|p: int|
            0 <= p < code.len() && (forall|k: int| 0 <= k < fixups.len() ==> #[trigger] fixups[k] as int != p)
                implies spill_fold(code, fixups, add).unwrap()[p] == code[p] by {
            assert(fixups[fixups.len() - 1] as int != p);
            assert forall|k: int| 0 <= k < rest.len() implies #[trigger] rest[k] as int != p by {
                assert(rest[k] == fixups[k]);
            }
        }
    }
}

/// Pointing the literal loads of the first `n` calls at their address words
/// sets each such load's imm19 field to the distance from it to its call's
/// words after the code, and keeps the length and every other word.
proof fn lemma_data_fold_literals(code: Seq<u32>, data: Seq<DataFixup>, n: nat)
    requires
        n <= data.len(),
        code.len() + 2 * data.len() < 0x80000,
        forall|i: int|
            0 <= i < data.len() ==> #[trigger] data[i].ins_idx < code.len() && code[data[i].ins_idx as int]
                == ldr_x9_literal(),
        forall|i: int, j: int|
            0 <= i < data.len() && 0 <= j < data.len() && i != j ==> #[trigger] data[i].ins_idx
                != #[trigger] data[j].ins_idx,
    ensures
        data_fold(code, data, n) is Some,
        data_fold(code, data, n).unwrap().len() == code.len(),
        forall|i: int|
            0 <= i < n ==> data_fold(code, data, n).unwrap()[#[trigger] data[i].ins_idx as int] == ldr_x9_literal()
                | ((((code.len() - data[i].ins_idx) + 2 * i) as u32) << 5u32),
        forall|p: int|
            0 <= p < code.len() && (forall|i: int| 0 <= i < n ==> #[trigger] data[i].ins_idx as int != p)
                ==> data_fold(code, data, n).unwrap()[p] == code[p],
    decreases n,
{
    if n > 0 {
        let i = n - 1;
        lemma_data_fold_literals(code, data, i as nat);
        let c = data_fold(code, data, i as nat).unwrap();
        let idx = data[i].ins_idx as int;
        assert forall|j: int| 0 <= j < i implies #[trigger] data[j].ins_idx as int != idx by {
            assert(data[j].ins_idx != data[i].ins_idx);
        }
        assert(c[idx] == code[idx]);
        let out = data_fold(code, data, n).unwrap();
        assert forall|j: int| 0 <= j < n implies out[#[trigger] data[j].ins_idx as int] == ldr_x9_literal() | ((((
            code.len() - data[j].ins_idx) + 2 * j) as u32) << 5u32) by {
            if j < i {
                assert(data[j].ins_idx != data[i].ins_idx);
            }
        }
        assert forall|p: int|
            0 <= p < code.len() && (forall|j: int| 0 <= j < n ==> #[trigger] data[j].ins_idx as int != p)
                implies out[p] == code[p] by {
            assert(data[i].ins_idx as int != p);
            assert forall|j: int| 0 <= j < i implies #[trigger] data[j].ins_idx as int != p by {
                assert(data[j].ins_idx as int != p);
            }
        }
    }
}

/// In the image that `copy_to` gives, the literal load of the `i`-th call
/// stays an `ldr x9, <literal>` whose word offset, added to its own position,
/// reaches word `2 * i` after the code: the low word of that call's address,
/// followed by its high word. This holds where the calls' loads sit at
/// distinct positions that no spill fixup touches, and the image is short
/// enough for a 19-bit word offset.
pub proof fn lemma_literal_loads_reach_their_address(
    code: Seq<u32>,
    spills: Seq<usize>,
    data: Seq<DataFixup>,
    stack_size: u32,
    orig_addr: u64,
)
    requires
        spill_fold(code, spills, (stack_size / 8) << 10u32) is Some,
        code.len() + 2 * data.len() < 0x80000,
        forall|i: int|
            0 <= i < data.len() ==> #[trigger] data[i].ins_idx < code.len() && code[data[i].ins_idx as int]
                == ldr_x9_literal(),
        forall|i: int, j: int|
            0 <= i < data.len() && 0 <= j < data.len() && i != j ==> #[trigger] data[i].ins_idx
                != #[trigger] data[j].ins_idx,
        forall|i: int, k: int|
            0 <= i < data.len() && 0 <= k < spills.len() ==> #[trigger] data[i].ins_idx != #[trigger] spills[k],
    ensures
        data_fold(spill_fold(code, spills, (stack_size / 8) << 10u32).unwrap(), data, data.len()) is Some,
        forall|i: int|
            #![trigger data[i]]
            0 <= i < data.len() ==> {
                let image = data_fold(spill_fold(code, spills, (stack_size / 8) << 10u32).unwrap(), data, data.len()).unwrap()
                    + data_words(data, orig_addr);
                let idx = data[i].ins_idx as int;
                let target = idx + ((image[idx] >> 5u32) & 0x7ffffu32);
                &&& image[idx] & 0xff00001fu32 == ldr_x9_literal()
                &&& target == code.len() + 2 * i
                &&& image[target] == fixup_value(data[i], orig_addr) as u32
                &&& image[target + 1] == (fixup_value(data[i], orig_addr) >> 32u64) as u32
            },
{
    let add = (stack_size / 8) << 10u32;
    let c1 = spill_fold(code, spills, add).unwrap();
    lemma_spill_fold_keeps(code, spills, add);
    assert forall|i: int| 0 <= i < data.len() implies #[trigger] data[i].ins_idx < c1.len() && c1[data[i].ins_idx as int]
        == ldr_x9_literal() by {
        assert forall|k: int| 0 <= k < spills.len() implies #[trigger] spills[k] as int != data[i].ins_idx as int by {
            assert(data[i].ins_idx != spills[k]);
        }
    }
    lemma_data_fold_literals(c1, data, data.len());
    let c2 = data_fold(c1, data, data.len()).unwrap();
    let image = c2 + data_words(data, orig_addr);
    assert forall|i: int| #![trigger data[i]] 0 <= i < data.len() implies {
        let idx = data[i].ins_idx as int;
        let target = idx + ((image[idx] >> 5u32) & 0x7ffffu32);
        &&& image[idx] & 0xff00001fu32 == ldr_x9_literal()
        &&& target == code.len() + 2 * i
        &&& image[target] == fixup_value(data[i], orig_addr) as u32
        &&& image[target + 1] == (fixup_value(data[i], orig_addr) >> 32u64) as u32
    } by {
        let idx = data[i].ins_idx as int;
        let offset = ((code.len() - idx) + 2 * i) as u32;
        lemma_literal_field(offset);
        assert(image[idx] == c2[idx]);
        assert(c2[idx] == ldr_x9_literal() | (offset << 5u32));
        let target = idx + ((image[idx] >> 5u32) & 0x7ffffu32);
        assert(target == code.len() + 2 * i);
        assert(image[target] == data_words(data, orig_addr)[2 * i]);
        assert(image[target + 1] == data_words(data, orig_addr)[2 * i + 1]);
        assert((2 * i + 1) / 2 == i);
        assert((2 * i) / 2 == i);
    }
}

/// The size of one element of a vector register range.
pub open spec fn fp_size(is_double: bool) -> u32 {
    if is_double {
        8
    } else {
        4
    }
}

/// The number of 8-byte words of a stack-passed parameter (`size / 8`, as a `u32`).
pub open spec fn stack_words(arg: Arg) -> u32 {
    (arg.size / 8) as u32
}

/// Storing `arg` from where the call put it to the stack slot at `off` is
/// supported, and its offsets do not overflow.
pub open spec fn store_ok(arg: Arg, off: u32) -> bool {
    match arg.storage {
        ParameterStorage::GPReg(_) => !arg.ptr,
        ParameterStorage::VectorReg(_) => true,
        ParameterStorage::VectorRange(start, count, d) => count == 0 || (start + (count - 1)
            <= u32::MAX && off + (count - 1) * fp_size(d) <= u32::MAX),
        ParameterStorage::Stack(offset) => stack_words(arg) == 0 || (offset + (stack_words(arg) - 1)
            * 8 <= u32::MAX && off + (stack_words(arg) - 1) * 8 <= u32::MAX),
        _ => false,
    }
}

/// The instructions that store `arg` to the stack slot at `off`.
pub open spec fn store_code(arg: Arg, off: u32) -> Seq<u32> {
    match arg.storage {
        ParameterStorage::GPReg(reg) => seq![str_x(reg, 31, off)],
        ParameterStorage::VectorReg(reg) => seq![str_fp(reg, 31, off, 8)],
        ParameterStorage::VectorRange(start, count, d) => Seq::new(
            count as nat,
            |i: int| str_fp((start + i) as u32, 31, (off + i * fp_size(d)) as u32, fp_size(d)),
        ),
        ParameterStorage::Stack(offset) => Seq::new(
            (stack_words(arg) * 2) as nat,
            |k: int|
                if k % 2 == 0 {
                    ldr_x(9, 31, (offset + (k / 2) * 8) as u32)
                } else {
                    str_x(9, 31, (off + (k / 2) * 8) as u32)
                },
        ),
        _ => Seq::empty(),
    }
}

/// The loads from the caller's stack area among `store_code(arg, _)`, placed
/// after `base` instructions.
pub open spec fn store_spills(arg: Arg, base: nat) -> Seq<usize> {
    match arg.storage {
        ParameterStorage::Stack(_) => Seq::new(
            stack_words(arg) as nat,
            |i: int| (base + 2 * i) as usize,
        ),
        _ => Seq::empty(),
    }
}

/// Loading the value saved at stack slot `off` to where a call takes `to` is
/// supported, and its offsets do not overflow.
pub open spec fn load_ok(off: u32, to: Arg) -> bool {
    match to.storage {
        ParameterStorage::GPReg(_) => !to.ptr,
        ParameterStorage::VectorReg(_) => true,
        ParameterStorage::VectorRange(start, count, d) => count == 0 || (start + (count - 1)
            <= u32::MAX && off + (count - 1) * fp_size(d) <= u32::MAX),
        ParameterStorage::Stack(to_offset) => stack_words(to) == 0 || (off + (stack_words(to) - 1)
            * 8 <= u32::MAX && to_offset + (stack_words(to) - 1) * 8 <= u32::MAX),
        _ => false,
    }
}

/// The instructions that load the value saved at stack slot `off` to where a
/// call takes `to`.
pub open spec fn load_code(off: u32, to: Arg) -> Seq<u32> {
    match to.storage {
        ParameterStorage::GPReg(reg) => seq![ldr_x(reg, 31, off)],
        ParameterStorage::VectorReg(reg) => seq![ldr_fp(reg, 31, off, 8)],
        ParameterStorage::VectorRange(start, count, d) => Seq::new(
            count as nat,
            |i: int| ldr_fp((start + i) as u32, 31, (off + i * fp_size(d)) as u32, fp_size(d)),
        ),
        ParameterStorage::Stack(to_offset) => Seq::new(
            (stack_words(to) * 2) as nat,
            |k: int|
                if k % 2 == 0 {
                    ldr_x(9, 31, (off + (k / 2) * 8) as u32)
                } else {
                    str_x(9, 31, (to_offset + (k / 2) * 8) as u32)
                },
        ),
        _ => Seq::empty(),
    }
}

/// The stack space a saved parameter takes; `None` for a storage that is not supported.
pub open spec fn slot_size(arg: Arg) -> Option<u32> {
    match arg.storage {
        ParameterStorage::GPReg(_) => if arg.ptr {
            None
        } else {
            Some(8)
        },
        ParameterStorage::VectorReg(_) => Some(8),
        ParameterStorage::VectorRange(_, count, d) => if fp_size(d) * count <= u32::MAX {
            Some((fp_size(d) * count) as u32)
        } else {
            None
        },
        ParameterStorage::Stack(_) => Some(arg.size as u32),
        _ => None,
    }
}

/// `(x + 7) & !7`
pub open spec fn align8(x: u32) -> u32 {
    ((x + 7) as u32) & !7u32
}

/// The stack slot for `arg` when `so` bytes are in use, and the bytes in use
/// after it; `None` where the storage is not supported or the offset overflows.
pub open spec fn alloc_slot(so: u32, arg: Arg) -> Option<(u32, u32)> {
    if so + 7 > u32::MAX {
        None
    } else {
        match slot_size(arg) {
            None => None,
            Some(n) => if align8(so) + n > u32::MAX {
                None
            } else {
                Some((align8(so), (align8(so) + n) as u32))
            },
        }
    }
}

/// The code a generator has emitted, with the stack offset and the slots saved so far.
pub struct GenState {
    pub stack_offset: u32,
    pub code: Seq<u32>,
    pub spills: Seq<usize>,
    pub offsets: Seq<u32>,
}

/// Saving the first `k` parameters of `args` after `st`.
pub open spec fn save_args(args: Seq<Arg>, k: nat, st: GenState) -> Option<GenState>
    decreases k,
{
    if k == 0 {
        Some(st)
    } else {
        match save_args(args, (k - 1) as nat, st) {
            None => None,
            Some(s) => {
                let arg = args[k - 1];
                match alloc_slot(s.stack_offset, arg) {
                    None => None,
                    Some((off, so)) => if !store_ok(arg, off) {
                        None
                    } else {
                        Some(
                            GenState {
                                stack_offset: so,
                                code: s.code + store_code(arg, off),
                                spills: s.spills + store_spills(arg, s.code.len()),
                                offsets: s.offsets.push(off),
                            },
                        )
                    },
                }
            },
        }
    }
}

/// What a method hook is generated from: the method's entry point, the number
/// of its parameters, their layout and that of its return value, and the
/// offsets of the fields of its class.
pub struct CodegenMethod {
    pub method_pointer: u64,
    pub param_count: usize,
    pub layout: ParamLayout,
    pub ret_layout: Option<Arg>,
    pub field_offsets: Vec<i32>,
}

/// Where a hook method's parameter comes from.
#[derive(Clone, Copy, Debug, PartialEq, Eq, Structural)]
pub enum ParamInjection {
    OriginalParam(usize),
    LoadField(usize),
    Result,
    Instance,
}

pub struct HookGenerator<'a> {
    pub original: &'a CodegenMethod,
    pub orig_param_offsets: Vec<u32>,
    pub instance_param_offset: Option<u32>,
    pub result_offset: Option<u32>,
    pub stack_offset: u32,
    pub code: Code,
}

/// What the code a generator emits depends on besides its code: the method
/// hooked, the stack slots of its parameters, of its instance and of its
/// result.
pub ghost struct Frame {
    pub original: CodegenMethod,
    pub offsets: Seq<u32>,
    pub instance: Option<u32>,
    pub result: Option<u32>,
}

pub open spec fn frame_of(g: HookGenerator) -> Frame {
    Frame {
        original: *g.original,
        offsets: g.orig_param_offsets@,
        instance: g.instance_param_offset,
        result: g.result_offset,
    }
}

/// The state of a new generator after the instance parameter: the frame
/// starts above the larger of `reserve_call_stack` and the original's stack
/// arguments.
pub open spec fn initial_gen(original: CodegenMethod, is_instance: bool, reserve_call_stack: u32) -> Option<
    (GenState, Option<u32>),
> {
    let so0 = if reserve_call_stack >= original.layout.stack_size {
        reserve_call_stack
    } else {
        original.layout.stack_size
    };
    if is_instance {
        if so0 + 8 > u32::MAX {
            None
        } else {
            Some(
                (
                    GenState {
                        stack_offset: (so0 + 8) as u32,
                        code: seq![str_x(0, 31, so0)],
                        spills: Seq::empty(),
                        offsets: Seq::empty(),
                    },
                    Some(so0),
                ),
            )
        }
    } else {
        Some(
            (
                GenState {
                    stack_offset: so0,
                    code: Seq::empty(),
                    spills: Seq::empty(),
                    offsets: Seq::empty(),
                },
                None,
            ),
        )
    }
}

/// The generator state after saving all parameters and reserving the result slot:
/// the state, the instance slot and the result slot.
pub open spec fn new_gen(original: CodegenMethod, is_instance: bool, reserve_call_stack: u32) -> Option<
    (GenState, Option<u32>, Option<u32>),
> {
    match initial_gen(original, is_instance, reserve_call_stack) {
        None => None,
        Some((st0, inst)) => match save_args(
            original.layout.args@,
            original.layout.args@.len(),
            st0,
        ) {
            None => None,
            Some(st) => match original.ret_layout {
                None => Some((st, inst, None)),
                Some(r) => match alloc_slot(st.stack_offset, r) {
                    None => None,
                    Some((off, so)) => Some((GenState { stack_offset: so, ..st }, inst, Some(off))),
                },
            },
        },
    }
}

fn align8_exec(x: u32) -> (r: u32)
    requires
        x + 7 <= u32::MAX,
    ensures
        r == align8(x),
{
    (x + 7) & !7u32
}

/// The exec counterpart of `slot_size`.
fn slot_size_exec(arg: &Arg) -> (r: Option<u32>)
    ensures
        r == slot_size(*arg),
{
    match arg.storage {
        ParameterStorage::GPReg(_) => if arg.ptr {
            None
        } else {
            Some(8)
        },
        ParameterStorage::VectorReg(_) => Some(8),
        ParameterStorage::VectorRange(_, count, d) => {
            let size: u32 = if d {
                8
            } else {
                4
            };
            if size as u64 * count as u64 <= u32::MAX as u64 {
                Some(size * count)
            } else {
                None
            }
        },
        ParameterStorage::Stack(_) => Some(#[verifier::truncate] (arg.size as u32)),
        _ => None,
    }
}

fn store_ok_exec(arg: &Arg, off: u32) -> (b: bool)
    ensures
        b == store_ok(*arg, off),
{
    match arg.storage {
        ParameterStorage::GPReg(_) => !arg.ptr,
        ParameterStorage::VectorReg(_) => true,
        ParameterStorage::VectorRange(start, count, d) => {
            let size: u64 = if d {
                8
            } else {
                4
            };
            count == 0 || (start as u64 + (count - 1) as u64 <= u32::MAX as u64 && off as u64 + (
            count - 1) as u64 * size <= u32::MAX as u64)
        },
        ParameterStorage::Stack(offset) => {
            let c = #[verifier::truncate] ((arg.size / 8) as u32);
            c == 0 || (offset as u64 + (c - 1) as u64 * 8 <= u32::MAX as u64 && off as u64 + (c
                - 1) as u64 * 8 <= u32::MAX as u64)
        },
        _ => false,
    }
}

fn load_ok_exec(off: u32, to: &Arg) -> (b: bool)
    ensures
        b == load_ok(off, *to),
{
    match to.storage {
        ParameterStorage::GPReg(_) => !to.ptr,
        ParameterStorage::VectorReg(_) => true,
        ParameterStorage::VectorRange(start, count, d) => {
            let size: u64 = if d {
                8
            } else {
                4
            };
            count == 0 || (start as u64 + (count - 1) as u64 <= u32::MAX as u64 && off as u64 + (
            count - 1) as u64 * size <= u32::MAX as u64)
        },
        ParameterStorage::Stack(to_offset) => {
            let c = #[verifier::truncate] ((to.size / 8) as u32);
            c == 0 || (off as u64 + (c - 1) as u64 * 8 <= u32::MAX as u64 && to_offset as u64 + (c
                - 1) as u64 * 8 <= u32::MAX as u64)
        },
        _ => false,
    }
}

/// The exec counterpart of `alloc_slot`.
fn alloc_slot_exec(so: u32, arg: &Arg) -> (r: Option<(u32, u32)>)
    ensures
        r == alloc_slot(so, *arg),
{
    if so > u32::MAX - 7 {
        return None;
    }
    match slot_size_exec(arg) {
        None => None,
        Some(n) => {
            let a = align8_exec(so);
            if a as u64 + n as u64 > u32::MAX as u64 {
                None
            } else {
                Some((a, a + n))
            }
        },
    }
}

/// The loads of the first `k` original parameters from their saved slots to
/// where the original method takes them.
pub open spec fn loads_code(offsets: Seq<u32>, args: Seq<Arg>, k: nat) -> Seq<u32>
    decreases k,
{
    if k == 0 {
        Seq::empty()
    } else {
        loads_code(offsets, args, (k - 1) as nat) + load_code(offsets[k - 1], args[k - 1])
    }
}

/// What `call_orig` emits: reload the instance and the parameters, call the
/// original, and save its result.
pub open spec fn call_orig_ok(g: Frame) -> bool {
    &&& g.original.param_count <= g.original.layout.args@.len()
    &&& g.original.param_count <= g.offsets.len()
    &&& forall|i: int|
        0 <= i < g.original.param_count ==> load_ok(
            #[trigger] g.offsets[i],
            g.original.layout.args@[i],
        )
    &&& g.original.ret_layout matches Some(r) ==> (g.result matches Some(off) && store_ok(
        r,
        off,
    ))
}

/// A hook parameter can be loaded from its source.
pub open spec fn injection_ok(g: Frame, inj: ParamInjection, arg: Arg) -> bool {
    match inj {
        ParamInjection::LoadField(idx) => idx < g.original.field_offsets@.len()
            && g.instance is Some && arg.storage is GPReg,
        ParamInjection::OriginalParam(idx) => idx < g.offsets.len() && load_ok(
            g.offsets[idx as int],
            arg,
        ),
        ParamInjection::Instance => g.instance is Some && (arg.storage is GPReg
            || arg.storage is Stack),
        ParamInjection::Result => g.result matches Some(off) && load_ok(off, arg),
    }
}

/// The instructions that load a hook parameter from its source.
pub open spec fn injection_code(g: Frame, inj: ParamInjection, arg: Arg) -> Seq<u32> {
    match inj {
        ParamInjection::LoadField(idx) => {
            let num = arg.storage->GPReg_0;
            let field_offset = g.original.field_offsets@[idx as int] as u32;
            seq![
                ldr_x(num, 31, g.instance.unwrap()),
                if arg.ptr {
                    add_x_imm(num, num, field_offset)
                } else {
                    ldr_x(num, num, field_offset)
                },
            ]
        },
        ParamInjection::OriginalParam(idx) => load_code(g.offsets[idx as int], arg),
        ParamInjection::Instance => {
            let off = g.instance.unwrap();
            match arg.storage {
                ParameterStorage::GPReg(reg) => seq![ldr_x(reg, 31, off)],
                ParameterStorage::Stack(to) => seq![ldr_x(9, 31, off), str_x(9, 31, to)],
                _ => Seq::empty(),
            }
        },
        ParamInjection::Result => load_code(g.result.unwrap(), arg),
    }
}

/// The loads of the first `k` hook parameters.
pub open spec fn injections_code(
    g: Frame,
    injections: Seq<ParamInjection>,
    args: Seq<Arg>,
    k: nat,
) -> Seq<u32>
    decreases k,
{
    if k == 0 {
        Seq::empty()
    } else {
        injections_code(g, injections, args, (k - 1) as nat) + injection_code(
            g,
            injections[k - 1],
            args[k - 1],
        )
    }
}

/// The generator's fields other than the code are as before.
pub open spec fn same_frame(a: HookGenerator, b: HookGenerator) -> bool {
    &&& a.original == b.original
    &&& a.orig_param_offsets@ == b.orig_param_offsets@
    &&& a.instance_param_offset == b.instance_param_offset
    &&& a.result_offset == b.result_offset
    &&& a.stack_offset == b.stack_offset
}

impl<'a> HookGenerator<'a> {
    /// Takes the stack slot for `arg`.
    fn alloc_arg_on_stack(&mut self, arg: &Arg) -> (off: u32)
        requires
            alloc_slot(old(self).stack_offset, *arg) is Some,
        ensures
            alloc_slot(old(self).stack_offset, *arg) == Some((off, final(self).stack_offset)),
            final(self).code == old(self).code,
            final(self).original == old(self).original,
            final(self).orig_param_offsets == old(self).orig_param_offsets,
            final(self).instance_param_offset == old(self).instance_param_offset,
            final(self).result_offset == old(self).result_offset,
    {
        let (off, so) = match alloc_slot_exec(self.stack_offset, arg) {
            Some(p) => p,
            None => (0, 0),
        };
        self.stack_offset = so;
        off
    }

    /// Saves `arg` from where the call put it to the stack slot at `stack_offset`.
    fn store_arg(&mut self, arg: &Arg, stack_offset: u32)
        requires
            store_ok(*arg, stack_offset),
        ensures
            final(self).code.code@ == old(self).code.code@ + store_code(*arg, stack_offset),
            final(self).code.param_spill_fixups@ == old(self).code.param_spill_fixups@
                + store_spills(*arg, old(self).code.code@.len()),
            final(self).code.data@ == old(self).code.data@,
            same_frame(*final(self), *old(self)),
    {
        match arg.storage {
            ParameterStorage::GPReg(reg) => {
                self.code.store_base_offset(reg, 31, stack_offset);
            },
            ParameterStorage::VectorReg(reg) => {
                self.code.store_base_offset_fp(reg, 31, stack_offset, 8);
            },
            ParameterStorage::VectorRange(start, count, is_double) => {
                let size: u32 = if is_double {
                    8
                } else {
                    4
                };
                let ghost c0 = self.code.code@;
                let mut i: u32 = 0;
                while i < count
                    invariant
                        store_ok(*arg, stack_offset),
                        arg.storage == ParameterStorage::VectorRange(start, count, is_double),
                        size == fp_size(is_double),
                        0 <= i <= count,
                        self.code.code@ == c0 + store_code(*arg, stack_offset).take(i as int),
                        self.code.param_spill_fixups@ == old(self).code.param_spill_fixups@,
                        self.code.data@ == old(self).code.data@,
                        c0 == old(self).code.code@,
                        same_frame(*self, *old(self)),
                    decreases count - i,
                {
                    assert(i * size <= (count - 1) * size) by (nonlinear_arith)
                        requires
                            i <= count - 1,
                    ;
                    self.code.store_base_offset_fp(start + i, 31, stack_offset + i * size, size);
                    assert(store_code(*arg, stack_offset).take(i + 1) =~= store_code(
                        *arg,
                        stack_offset,
                    ).take(i as int).push(store_code(*arg, stack_offset)[i as int]));
                    i = i + 1;
                }
                assert(store_code(*arg, stack_offset).take(count as int) =~= store_code(
                    *arg,
                    stack_offset,
                ));
            },
            ParameterStorage::Stack(offset) => {
                let count = #[verifier::truncate] ((arg.size / 8) as u32);
                let ghost c0 = self.code.code@;
                let ghost f0 = self.code.param_spill_fixups@;
                let mut i: u32 = 0;
                while i < count
                    invariant
                        store_ok(*arg, stack_offset),
                        arg.storage == ParameterStorage::Stack(offset),
                        count == stack_words(*arg),
                        0 <= i <= count,
                        self.code.code@ == c0 + store_code(*arg, stack_offset).take(2 * i),
                        self.code.param_spill_fixups@ == f0 + store_spills(*arg, c0.len()).take(
                            i as int,
                        ),
                        self.code.data@ == old(self).code.data@,
                        c0 == old(self).code.code@,
                        f0 == old(self).code.param_spill_fixups@,
                        same_frame(*self, *old(self)),
                    decreases count - i,
                {
                    self.code.load_spill(9, offset + i * 8);
                    self.code.store_base_offset(9, 31, stack_offset + i * 8);
                    assert(store_code(*arg, stack_offset).take(2 * i + 2) =~= store_code(
                        *arg,
                        stack_offset,
                    ).take(2 * i).push(store_code(*arg, stack_offset)[2 * i]).push(
                        store_code(*arg, stack_offset)[2 * i + 1],
                    ));
                    assert(store_spills(*arg, c0.len()).take(i + 1) =~= store_spills(
                        *arg,
                        c0.len(),
                    ).take(i as int).push(store_spills(*arg, c0.len())[i as int]));
                    i = i + 1;
                }
                assert(store_code(*arg, stack_offset).take(2 * count) =~= store_code(
                    *arg,
                    stack_offset,
                ));
                assert(store_spills(*arg, c0.len()).take(count as int) =~= store_spills(
                    *arg,
                    c0.len(),
                ));
            },
            _ => {},
        }
    }

    /// Loads the value saved at stack slot `stack_offset` to where a call takes `to`.
    fn load_arg(&mut self, stack_offset: u32, to: &Arg)
        requires
            load_ok(stack_offset, *to),
        ensures
            final(self).code.code@ == old(self).code.code@ + load_code(stack_offset, *to),
            final(self).code.param_spill_fixups@ == old(self).code.param_spill_fixups@,
            final(self).code.data@ == old(self).code.data@,
            same_frame(*final(self), *old(self)),
    {
        match to.storage {
            ParameterStorage::GPReg(reg) => {
                self.code.load_base_offset(reg, 31, stack_offset);
            },
            ParameterStorage::VectorReg(reg) => {
                self.code.load_base_offset_fp(reg, 31, stack_offset, 8);
            },
            ParameterStorage::VectorRange(start, count, is_double) => {
                let size: u32 = if is_double {
                    8
                } else {
                    4
                };
                let ghost c0 = self.code.code@;
                let mut i: u32 = 0;
                while i < count
                    invariant
                        load_ok(stack_offset, *to),
                        to.storage == ParameterStorage::VectorRange(start, count, is_double),
                        size == fp_size(is_double),
                        0 <= i <= count,
                        self.code.code@ == c0 + load_code(stack_offset, *to).take(i as int),
                        self.code.param_spill_fixups@ == old(self).code.param_spill_fixups@,
                        self.code.data@ == old(self).code.data@,
                        c0 == old(self).code.code@,
                        same_frame(*self, *old(self)),
                    decreases count - i,
                {
                    assert(i * size <= (count - 1) * size) by (nonlinear_arith)
                        requires
                            i <= count - 1,
                    ;
                    let offset = stack_offset + i * size;
                    self.code.load_base_offset_fp(start + i, 31, offset, size);
                    assert(load_code(stack_offset, *to).take(i + 1) =~= load_code(
                        stack_offset,
                        *to,
                    ).take(i as int).push(load_code(stack_offset, *to)[i as int]));
                    i = i + 1;
                }
                assert(load_code(stack_offset, *to).take(count as int) =~= load_code(
                    stack_offset,
                    *to,
                ));
            },
            ParameterStorage::Stack(to_offset) => {
                let count = #[verifier::truncate] ((to.size / 8) as u32);
                let ghost c0 = self.code.code@;
                let mut i: u32 = 0;
                while i < count
                    invariant
                        load_ok(stack_offset, *to),
                        to.storage == ParameterStorage::Stack(to_offset),
                        count == stack_words(*to),
                        0 <= i <= count,
                        self.code.code@ == c0 + load_code(stack_offset, *to).take(2 * i),
                        self.code.param_spill_fixups@ == old(self).code.param_spill_fixups@,
                        self.code.data@ == old(self).code.data@,
                        c0 == old(self).code.code@,
                        same_frame(*self, *old(self)),
                    decreases count - i,
                {
                    self.code.load_base_offset(9, 31, stack_offset + i * 8);
                    self.code.store_base_offset(9, 31, to_offset + i * 8);
                    assert(load_code(stack_offset, *to).take(2 * i + 2) =~= load_code(
                        stack_offset,
                        *to,
                    ).take(2 * i).push(load_code(stack_offset, *to)[2 * i]).push(
                        load_code(stack_offset, *to)[2 * i + 1],
                    ));
                    i = i + 1;
                }
                assert(load_code(stack_offset, *to).take(2 * count) =~= load_code(
                    stack_offset,
                    *to,
                ));
            },
            _ => {},
        }
    }

    /// Loads original parameter `num` to where a call takes `to`.
    fn load_orig_param(&mut self, num: usize, to: &Arg)
        requires
            num < old(self).orig_param_offsets@.len(),
            load_ok(old(self).orig_param_offsets@[num as int], *to),
        ensures
            final(self).code.code@ == old(self).code.code@ + load_code(
                old(self).orig_param_offsets@[num as int],
                *to,
            ),
            final(self).code.param_spill_fixups@ == old(self).code.param_spill_fixups@,
            final(self).code.data@ == old(self).code.data@,
            same_frame(*final(self), *old(self)),
    {
        let offset = self.orig_param_offsets[num];
        self.load_arg(offset, to);
    }

    /// A generator for a hook of `original` that saves the instance (for an
    /// instance method) and the parameters to a frame that starts above the
    /// larger of `reserve_call_stack` and the original's stack arguments, and
    /// reserves a slot for the result. `None` where a parameter's storage is
    /// not supported or an offset would overflow.
    pub fn new(original: &'a CodegenMethod, is_instance: bool, reserve_call_stack: u32) -> (r: Option<
        HookGenerator<'a>,
    >)
        ensures
            match r {
                None => new_gen(*original, is_instance, reserve_call_stack) is None,
                Some(g) => {
                    &&& new_gen(*original, is_instance, reserve_call_stack) matches Some(
                        (st, inst, res),
                    )
                    &&& g.original == original
                    &&& g.stack_offset == st.stack_offset
                    &&& g.code.code@ == st.code
                    &&& g.code.param_spill_fixups@ == st.spills
                    &&& g.code.data@ == Seq::<DataFixup>::empty()
                    &&& g.orig_param_offsets@ == st.offsets
                    &&& g.instance_param_offset == inst
                    &&& g.result_offset == res
                },
            },
    {
        let max_param_spill = if reserve_call_stack >= original.layout.stack_size {
            reserve_call_stack
        } else {
            original.layout.stack_size
        };
        let mut hook_gen = HookGenerator {
            original,
            orig_param_offsets: Vec::new(),
            instance_param_offset: None,
            result_offset: None,
            stack_offset: max_param_spill,
            code: Code::new(),
        };
        if is_instance {
            if hook_gen.stack_offset > u32::MAX - 8 {
                return None;
            }
            hook_gen.code.store_base_offset(0, 31, hook_gen.stack_offset);
            let instance_offset = hook_gen.stack_offset;
            hook_gen.stack_offset = hook_gen.stack_offset + 8;
            hook_gen.instance_param_offset = Some(instance_offset);
        }
        let ghost st0 = GenState {
            stack_offset: hook_gen.stack_offset,
            code: hook_gen.code.code@,
            spills: hook_gen.code.param_spill_fixups@,
            offsets: hook_gen.orig_param_offsets@,
        };
        assert(initial_gen(*original, is_instance, reserve_call_stack) == Some(
            (st0, hook_gen.instance_param_offset),
        ));
        let args = &original.layout.args;
        let mut i: usize = 0;
        while i < args.len()
            invariant
                args@ == original.layout.args@,
                hook_gen.original == original,
                0 <= i <= args@.len(),
                hook_gen.code.data@ == Seq::<DataFixup>::empty(),
                hook_gen.result_offset is None,
                initial_gen(*original, is_instance, reserve_call_stack) == Some(
                    (st0, hook_gen.instance_param_offset),
                ),
                save_args(args@, i as nat, st0) == Some(
                    GenState {
                        stack_offset: hook_gen.stack_offset,
                        code: hook_gen.code.code@,
                        spills: hook_gen.code.param_spill_fixups@,
                        offsets: hook_gen.orig_param_offsets@,
                    },
                ),
            decreases args@.len() - i,
        {
            let arg = &args[i];
            if alloc_slot_exec(hook_gen.stack_offset, arg).is_none() {
                proof {
                    lemma_save_args_none_sticks(args@, i as nat + 1, st0);
                }
                return None;
            }
            let offset = hook_gen.alloc_arg_on_stack(arg);
            if !store_ok_exec(arg, offset) {
                proof {
                    lemma_save_args_none_sticks(args@, i as nat + 1, st0);
                }
                return None;
            }
            hook_gen.store_arg(arg, offset);
            hook_gen.orig_param_offsets.push(offset);
            i = i + 1;
        }
        match &original.ret_layout {
            Some(ret_layout) => {
                if alloc_slot_exec(hook_gen.stack_offset, ret_layout).is_none() {
                    return None;
                }
                let offset = hook_gen.alloc_arg_on_stack(ret_layout);
                hook_gen.result_offset = Some(offset);
            },
            None => {},
        }
        Some(hook_gen)
    }
}

/// The instructions of `call_orig` before the call.
pub open spec fn call_orig_prelude(g: Frame) -> Seq<u32> {
    (match g.instance {
        Some(o) => seq![ldr_x(0, 31, o)],
        None => Seq::empty(),
    }) + loads_code(g.offsets, g.original.layout.args@, g.original.param_count as nat)
}

/// `(x + 15) & !15`
pub open spec fn align16(x: u32) -> u32 {
    ((x + 15) as u32) & !15u32
}

/// The frame size after `finish`: the generator's stack use plus the saved
/// link register, rounded up to 16 bytes; `None` where it overflows.
pub open spec fn frame_size(so: u32) -> Option<u32> {
    if so + 8 + 15 > u32::MAX {
        None
    } else {
        Some(align16((so + 8) as u32))
    }
}

impl<'a> HookGenerator<'a> {
    /// Reloads the instance and the original parameters, calls the original
    /// method and saves its result. Emits nothing and returns `false` where a
    /// storage is not supported or an offset would overflow.
    pub fn call_orig(&mut self) -> (ok: bool)
        ensures
            ok == call_orig_ok(frame_of(*old(self))),
            !ok ==> *final(self) == *old(self),
            ok ==> {
                let pre = old(self).code.code@ + call_orig_prelude(frame_of(*old(self)));
                let after_call = pre.push(ldr_x9_literal()).push(blr_x9());
                &&& same_frame(*final(self), *old(self))
                &&& final(self).code.data@ == old(self).code.data@.push(
                    (DataFixup { ins_idx: pre.len() as usize, info: DataFixupInfo::Orig }),
                )
                &&& match old(self).original.ret_layout {
                    None => {
                        &&& final(self).code.code@ == after_call
                        &&& final(self).code.param_spill_fixups@ == old(
                            self,
                        ).code.param_spill_fixups@
                    },
                    Some(r) => {
                        &&& final(self).code.code@ == after_call + store_code(
                            r,
                            old(self).result_offset.unwrap(),
                        )
                        &&& final(self).code.param_spill_fixups@ == old(
                            self,
                        ).code.param_spill_fixups@ + store_spills(r, after_call.len())
                    },
                }
            },
    {
        let n = self.original.param_count;
        if n > self.original.layout.args.len() || n > self.orig_param_offsets.len() {
            return false;
        }
        let mut i: usize = 0;
        while i < n
            invariant
                n == self.original.param_count,
                n <= self.original.layout.args@.len(),
                n <= self.orig_param_offsets@.len(),
                0 <= i <= n,
                forall|j: int|
                    0 <= j < i ==> load_ok(
                        #[trigger] self.orig_param_offsets@[j],
                        self.original.layout.args@[j],
                    ),
            decreases n - i,
        {
            if !load_ok_exec(self.orig_param_offsets[i], &self.original.layout.args[i]) {
                return false;
            }
            i = i + 1;
        }
        match (&self.original.ret_layout, self.result_offset) {
            (Some(r), Some(off)) => {
                if !store_ok_exec(r, off) {
                    return false;
                }
            },
            (Some(_), None) => {
                return false;
            },
            _ => {},
        }
        let ghost g0 = *self;
        if let Some(instance_offset) = self.instance_param_offset {
            self.code.load_base_offset(0, 31, instance_offset);
        }
        let ghost c1 = self.code.code@;
        let mut i: usize = 0;
        while i < n
            invariant
                n == self.original.param_count,
                n <= self.original.layout.args@.len(),
                n <= self.orig_param_offsets@.len(),
                0 <= i <= n,
                forall|j: int|
                    0 <= j < n ==> load_ok(
                        #[trigger] self.orig_param_offsets@[j],
                        self.original.layout.args@[j],
                    ),
                self.code.code@ == c1 + loads_code(
                    self.orig_param_offsets@,
                    self.original.layout.args@,
                    i as nat,
                ),
                self.code.data@ == g0.code.data@,
                self.code.param_spill_fixups@ == g0.code.param_spill_fixups@,
                same_frame(*self, g0),
            decreases n - i,
        {
            let ghost before = self.code.code@;
            self.load_orig_param(i, &self.original.layout.args[i]);
            proof {
                assert(self.code.code@ =~= c1 + loads_code(
                    self.orig_param_offsets@,
                    self.original.layout.args@,
                    (i + 1) as nat,
                ));
            }
            i = i + 1;
        }
        assert(self.code.code@ =~= g0.code.code@ + call_orig_prelude(frame_of(g0)));
        self.code.call_addr(None);
        match (&self.original.ret_layout, self.result_offset) {
            (Some(ret_layout), Some(offset)) => {
                self.store_arg(ret_layout, offset);
            },
            _ => {},
        }
        true
    }

    /// Loads a field of the instance to the general purpose register of `arg`
    /// (its address, where `arg` is passed by pointer).
    fn inject_field(&mut self, field_offset: i32, arg: &Arg)
        requires
            old(self).instance_param_offset is Some,
            arg.storage is GPReg,
        ensures
            ({
                let num = arg.storage->GPReg_0;
                final(self).code.code@ == old(self).code.code@.push(
                    ldr_x(num, 31, old(self).instance_param_offset.unwrap()),
                ).push(
                    if arg.ptr {
                        add_x_imm(num, num, field_offset as u32)
                    } else {
                        ldr_x(num, num, field_offset as u32)
                    },
                )
            }),
            final(self).code.param_spill_fixups@ == old(self).code.param_spill_fixups@,
            final(self).code.data@ == old(self).code.data@,
            same_frame(*final(self), *old(self)),
    {
        match (arg.storage, self.instance_param_offset) {
            (ParameterStorage::GPReg(num), Some(instance_offset)) => {
                self.code.load_base_offset(num, 31, instance_offset);
                if arg.ptr {
                    self.code.add_imm(num, num, field_offset as u32)
                } else {
                    self.code.load_base_offset(num, num, field_offset as u32);
                }
            },
            _ => {},
        }
    }

    /// Loads the instance to where a call takes `arg`.
    fn inject_instance(&mut self, arg: &Arg)
        requires
            old(self).instance_param_offset is Some,
            arg.storage is GPReg || arg.storage is Stack,
        ensures
            final(self).code.code@ == old(self).code.code@ + injection_code(
                frame_of(*old(self)),
                ParamInjection::Instance,
                *arg,
            ),
            final(self).code.param_spill_fixups@ == old(self).code.param_spill_fixups@,
            final(self).code.data@ == old(self).code.data@,
            same_frame(*final(self), *old(self)),
    {
        let offset = match self.instance_param_offset {
            Some(o) => o,
            None => 0,
        };
        match arg.storage {
            ParameterStorage::GPReg(reg) => {
                self.code.load_base_offset(reg, 31, offset);
                assert(self.code.code@ =~= old(self).code.code@ + seq![ldr_x(reg, 31, offset)]);
            },
            ParameterStorage::Stack(to_offset) => {
                self.code.load_base_offset(9, 31, offset);
                self.code.store_base_offset(9, 31, to_offset);
                assert(self.code.code@ =~= old(self).code.code@ + seq![
                    ldr_x(9, 31, offset),
                    str_x(9, 31, to_offset),
                ]);
            },
            _ => {},
        }
    }

    /// Loads the parameters of the hook `method` from the sources that
    /// `injections` gives, in order, and calls it. Emits nothing and returns
    /// `false` where a source or a storage is not supported or an offset would
    /// overflow.
    pub fn gen_call_hook(&mut self, method: &CodegenMethod, injections: &[ParamInjection]) -> (ok: bool)
        ensures
            ({
                let n = if injections@.len() <= method.layout.args@.len() {
                    injections@.len()
                } else {
                    method.layout.args@.len()
                };
                &&& ok == forall|i: int|
                    0 <= i < n ==> injection_ok(
                        frame_of(*old(self)),
                        #[trigger] injections@[i],
                        method.layout.args@[i],
                    )
                &&& !ok ==> *final(self) == *old(self)
                &&& ok ==> {
                    let pre = old(self).code.code@ + injections_code(
                        frame_of(*old(self)),
                        injections@,
                        method.layout.args@,
                        n as nat,
                    );
                    &&& final(self).code.code@ == pre.push(ldr_x9_literal()).push(blr_x9())
                    &&& final(self).code.data@ == old(self).code.data@.push(
                        (DataFixup {
                            ins_idx: pre.len() as usize,
                            info: DataFixupInfo::Addr(method.method_pointer),
                        }),
                    )
                    &&& final(self).code.param_spill_fixups@ == old(self).code.param_spill_fixups@
                    &&& same_frame(*final(self), *old(self))
                }
            }),
    {
        let args = &method.layout.args;
        let n = if injections.len() <= args.len() {
            injections.len()
        } else {
            args.len()
        };
        let mut i: usize = 0;
        while i < n
            invariant
                n <= injections@.len(),
                n <= args@.len(),
                args@ == method.layout.args@,
                0 <= i <= n,
                *self == *old(self),
                forall|j: int|
                    0 <= j < i ==> injection_ok(frame_of(*self), #[trigger] injections@[j], args@[j]),
            decreases n - i,
        {
            let ok = match injections[i] {
                ParamInjection::LoadField(idx) => idx < self.original.field_offsets.len()
                    && self.instance_param_offset.is_some() && match args[i].storage {
                    ParameterStorage::GPReg(_) => true,
                    _ => false,
                },
                ParamInjection::OriginalParam(idx) => idx < self.orig_param_offsets.len()
                    && load_ok_exec(self.orig_param_offsets[idx], &args[i]),
                ParamInjection::Instance => self.instance_param_offset.is_some() && match args[i].storage {
                    ParameterStorage::GPReg(_) => true,
                    ParameterStorage::Stack(_) => true,
                    _ => false,
                },
                ParamInjection::Result => match self.result_offset {
                    Some(off) => load_ok_exec(off, &args[i]),
                    None => false,
                },
            };
            if !ok {
                return false;
            }
            i = i + 1;
        }
        let ghost g0 = *self;
        let ghost c0 = self.code.code@;
        let mut i: usize = 0;
        while i < n
            invariant
                n <= injections@.len(),
                n <= args@.len(),
                args@ == method.layout.args@,
                0 <= i <= n,
                same_frame(*self, g0),
                g0 == *old(self),
                c0 == g0.code.code@,
                forall|j: int| 0 <= j < n ==> injection_ok(frame_of(g0), #[trigger] injections@[j], args@[j]),
                self.code.code@ == c0 + injections_code(frame_of(g0), injections@, args@, i as nat),
                self.code.data@ == g0.code.data@,
                self.code.param_spill_fixups@ == g0.code.param_spill_fixups@,
            decreases n - i,
        {
            let arg = &args[i];
            assert(injection_ok(frame_of(g0), injections@[i as int], args@[i as int]));
            match injections[i] {
                ParamInjection::LoadField(idx) => {
                    let field_offset = self.original.field_offsets[idx];
                    self.inject_field(field_offset, arg);
                },
                ParamInjection::OriginalParam(idx) => {
                    self.load_orig_param(idx, arg);
                },
                ParamInjection::Instance => {
                    self.inject_instance(arg);
                },
                ParamInjection::Result => {
                    let offset = match self.result_offset {
                        Some(o) => o,
                        None => 0,
                    };
                    self.load_arg(offset, arg);
                },
            }
            proof {
                assert(self.code.code@ =~= c0 + injections_code(
                    frame_of(g0),
                    injections@,
                    args@,
                    (i + 1) as nat,
                ));
            }
            i = i + 1;
        }
        self.code.call_addr(Some(method.method_pointer));
        true
    }

    /// Puts the frame set-up before the code (reserve the frame, save the
    /// link register above the generator's slots) and the tear-down after it
    /// (restore the link register, release the frame, return). Changes nothing
    /// and returns `false` where the frame size or a position would overflow.
    pub fn write_prologue_epilogue(&mut self) -> (ok: bool)
        ensures
            ok == (frame_size(old(self).stack_offset) is Some && old(self).code.code@.len() + 5
                <= usize::MAX && (forall|i: int|
                0 <= i < old(self).code.data@.len() ==> #[trigger] old(self).code.data@[i].ins_idx
                    + 2 <= usize::MAX) && (forall|i: int|
                0 <= i < old(self).code.param_spill_fixups@.len()
                    ==> #[trigger] old(self).code.param_spill_fixups@[i] + 2 <= usize::MAX)),
            !ok ==> *final(self) == *old(self),
            ok ==> {
                let lr = old(self).stack_offset;
                let so = frame_size(lr).unwrap();
                &&& final(self).stack_offset == so
                &&& final(self).code.code@ == seq![sub_x_imm(31, 31, so), str_x(30, 31, lr)] + old(
                    self,
                ).code.code@ + seq![ldr_x(30, 31, lr), add_x_imm(31, 31, so), ret_ins()]
                &&& final(self).code.data@ == old(self).code.data@.map_values(
                    |f: DataFixup| (DataFixup { ins_idx: (f.ins_idx + 2) as usize, ..f }),
                )
                &&& final(self).code.param_spill_fixups@ == old(
                    self,
                ).code.param_spill_fixups@.map_values(|i: usize| (i + 2) as usize)
                &&& final(self).original == old(self).original
                &&& final(self).orig_param_offsets@ == old(self).orig_param_offsets@
                &&& final(self).instance_param_offset == old(self).instance_param_offset
                &&& final(self).result_offset == old(self).result_offset
            },
    {
        if self.stack_offset > u32::MAX - 23 || self.code.code.len() > usize::MAX - 5 {
            return false;
        }
        let mut i: usize = 0;
        while i < self.code.data.len()
            invariant
                0 <= i <= self.code.data@.len(),
                *self == *old(self),
                forall|j: int| 0 <= j < i ==> #[trigger] self.code.data@[j].ins_idx + 2 <= usize::MAX,
            decreases self.code.data@.len() - i,
        {
            if self.code.data[i].ins_idx > usize::MAX - 2 {
                return false;
            }
            i = i + 1;
        }
        let mut i: usize = 0;
        while i < self.code.param_spill_fixups.len()
            invariant
                0 <= i <= self.code.param_spill_fixups@.len(),
                *self == *old(self),
                forall|j: int| 0 <= j < i ==> #[trigger] self.code.param_spill_fixups@[j] + 2 <= usize::MAX,
            decreases self.code.param_spill_fixups@.len() - i,
        {
            if self.code.param_spill_fixups[i] > usize::MAX - 2 {
                return false;
            }
            i = i + 1;
        }
        let mut prologue = Code::new();
        // save space for lr
        let lr_offset = self.stack_offset;
        self.stack_offset = self.stack_offset + 8;
        self.stack_offset = (self.stack_offset + 15) & !15u32;
        prologue.sub_imm(31, 31, self.stack_offset);
        prologue.store_base_offset(30, 31, lr_offset);  // save lr
        assert(prologue.code@ =~= seq![sub_x_imm(31, 31, self.stack_offset), str_x(30, 31, lr_offset)]);
        self.code.push_front(prologue);
        self.code.load_base_offset(30, 31, lr_offset);  // restore lr
        self.code.add_imm(31, 31, self.stack_offset);
        self.code.ret();
        assert(self.code.code@ =~= seq![sub_x_imm(31, 31, self.stack_offset), str_x(30, 31, lr_offset)]
            + old(self).code.code@ + seq![
            ldr_x(30, 31, lr_offset),
            add_x_imm(31, 31, self.stack_offset),
            ret_ins(),
        ]);
        true
    }
}

impl CodegenMethod {
    /// The method with entry point `method_pointer`, parameters of types
    /// `param_types` (after the instance, for an instance method), return type
    /// `return_type` and class field offsets `field_offsets`, with the layout
    /// of its parameters and of its return value. `None` where a layout is not
    /// defined (see `layout_parameters`).
    pub fn new(
        method_pointer: u64,
        param_types: &[TypeDesc],
        return_type: Option<TypeDesc>,
        field_offsets: Vec<i32>,
        is_instance: bool,
    ) -> (r: Option<CodegenMethod>)
        requires
            forall|i: int| 0 <= i < param_types@.len() ==> desc_wf(#[trigger] param_types@[i]),
            return_type matches Some(t) ==> desc_wf(t),
        ensures
            match r {
                Some(m) => {
                    &&& m.method_pointer == method_pointer
                    &&& m.param_count == param_types@.len()
                    &&& m.field_offsets@ == field_offsets@
                    &&& layout_spec(is_instance, param_types@) == Some(
                        (
                            m.layout.args@,
                            AbiState {
                                ngrn: m.layout.num_gprs,
                                nsrn: m.layout.num_fprs,
                                nsaa: m.layout.stack_size,
                            },
                        ),
                    )
                    &&& match return_type {
                        None => m.ret_layout is None,
                        Some(t) => layout_spec(false, seq![t]) matches Some((args, _)) && m.ret_layout
                            == Some(args[0]),
                    }
                },
                None => layout_spec(is_instance, param_types@) is None || (return_type matches Some(
                    t,
                ) && layout_spec(false, seq![t]) is None),
            },
    {
        let layout = match layout_parameters(is_instance, param_types) {
            Some(l) => l,
            None => {
                return None;
            },
        };
        let ret_layout = match return_type {
            None => None,
            Some(t) => {
                let ts = [t];
                assert(ts@ =~= seq![t]);
                match layout_parameters(false, &ts) {
                    Some(mut l) => {
                        proof {
                            crate::hook::abi::lemma_layout_registers(false, ts@);
                        }
                        Some(l.args.remove(0))
                    },
                    None => {
                        return None;
                    },
                }
            },
        };
        Some(
            CodegenMethod {
                method_pointer,
                param_count: param_types.len(),
                layout,
                ret_layout,
                field_offsets,
            },
        )
    }
}

proof fn lemma_save_args_none_sticks(args: Seq<Arg>, k: nat, st: GenState)
    requires
        k <= args.len(),
        save_args(args, k, st) is None,
    ensures
        save_args(args, args.len(), st) is None,
    decreases args.len() - k,
{
    if k < args.len() {
        lemma_save_args_none_sticks(args, k + 1, st);
    }
}

} // verus!
