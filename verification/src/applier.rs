//! The applier's resolution of a mod's type descriptions: the generic
//! containers a type is resolved in, and the tables that remember what each
//! description resolved to.
use crate::data::{
    AddedTypeDefinition, GenericClassInst, GenericInst, GenericMethodFunctions, ImageDescription, MergeModData, TypeDefDescription,
    TypeDescription,
};
use crate::error::{Error, Fault, Outcome};
use crate::text::str_eq;
use crate::utils::{c_str, get_str, nul_after};
use crate::xref::{table_bounds, table_range};
use vstd::prelude::*;
use vstd::string::{StrSliceExecFns, StringSliceAdditionalSpecFns};
use vstd::utf8::{decode_utf8, valid_utf8};

verus! {

/// The generic containers (of a class, and of a method within it) that
/// generic parameters are resolved against.
#[derive(Clone, Copy, Debug, PartialEq, Eq, Structural)]
pub struct TypeResolveContext {
    pub class_container: Option<usize>,
    pub method_container: Option<usize>,
}

/// A container index of the metadata: -1 marks none.
pub open spec fn container(idx: i32) -> Option<usize> {
    if idx != -1 {
        Some(idx as usize)
    } else {
        None
    }
}

impl TypeResolveContext {
    /// The context of a class whose generic container is `class` (-1: none).
    pub fn new(class: i32) -> (r: Self)
        ensures
            r.class_container == container(class),
            r.method_container is None,
    {
        Self {
            class_container: if class != -1 {
                Some(class as usize)
            } else {
                None
            },
            method_container: None,
        }
    }

    /// This context within a method whose generic container is `method`
    /// (-1: none).
    pub fn with_method(self, method: i32) -> (r: Self)
        ensures
            r.class_container == self.class_container,
            r.method_container == container(method),
    {
        Self {
            class_container: self.class_container,
            method_container: if method != -1 {
                Some(method as usize)
            } else {
                None
            },
        }
    }
}

/// What each of a mod's type descriptions, generic instances and generic
/// classes resolved to in the running game, once resolved. Generic classes
/// are held by address.
pub struct TypeResolver<'a> {
    pub descs: &'a [TypeDescription],
    pub type_def_refs: &'a [usize],
    pub refs: Vec<Option<i32>>,
    pub generic_inst_descs: &'a [GenericInst],
    pub generic_insts: Vec<Option<i32>>,
    pub generic_class_descs: &'a [GenericClassInst],
    pub generic_classes: Vec<Option<u64>>,
}

fn nones<T: Copy>(n: usize) -> (r: Vec<Option<T>>)
    ensures
        r@.len() == n,
        forall|i: int| 0 <= i < n ==> r@[i] is None,
{
    let mut v: Vec<Option<T>> = Vec::new();
    let mut i: usize = 0;
    while i < n
        invariant
            0 <= i <= n,
            v@.len() == i,
            forall|j: int| 0 <= j < i ==> v@[j] is None,
        decreases n - i,
    {
        v.push(None);
        i = i + 1;
    }
    v
}

impl<'a> TypeResolver<'a> {
    /// A resolver for `mod_data` with nothing resolved yet.
    pub fn new(mod_data: &'a MergeModData, type_def_refs: &'a [usize]) -> (r: Self)
        ensures
            r.descs@ == mod_data.type_descriptions@,
            r.type_def_refs@ == type_def_refs@,
            r.generic_inst_descs@ == mod_data.generic_instances@,
            r.generic_class_descs@ == mod_data.generic_class_insts@,
            r.refs@.len() == mod_data.type_descriptions@.len(),
            r.generic_insts@.len() == mod_data.generic_instances@.len(),
            r.generic_classes@.len() == mod_data.generic_class_insts@.len(),
            forall|i: int| 0 <= i < r.refs@.len() ==> r.refs@[i] is None,
            forall|i: int| 0 <= i < r.generic_insts@.len() ==> r.generic_insts@[i] is None,
            forall|i: int| 0 <= i < r.generic_classes@.len() ==> r.generic_classes@[i] is None,
    {
        Self {
            descs: mod_data.type_descriptions.as_slice(),
            type_def_refs,
            refs: nones(mod_data.type_descriptions.len()),
            generic_inst_descs: mod_data.generic_instances.as_slice(),
            generic_insts: nones(mod_data.generic_instances.len()),
            generic_class_descs: mod_data.generic_class_insts.as_slice(),
            generic_classes: nones(mod_data.generic_class_insts.len()),
        }
    }
}

} // verus!

verus! {

/// An image of the metadata, as far as the loader reads it.
#[derive(Clone, Copy, Debug)]
pub struct ImageDefinition {
    pub name_index: i32,
    pub type_start: i32,
    pub type_count: u32,
}

/// A type definition of the metadata, as far as the loader reads it.
#[derive(Clone, Copy, Debug)]
pub struct TypeDefinition {
    pub name_index: i32,
    pub namespace_index: i32,
    pub method_start: i32,
    pub method_count: u16,
}

/// A method definition of the metadata, as far as the loader reads it.
#[derive(Clone, Copy, Debug)]
pub struct MethodDefinition {
    pub name_index: i32,
    pub token: u32,
}

/// A string literal of the metadata: its length in bytes and where its
/// bytes start.
#[derive(Clone, Copy, Debug)]
pub struct StringLiteral {
    pub length: u32,
    pub data_index: i32,
}

/// The tables of the game's global metadata that the loader reads and
/// extends.
pub struct Metadata {
    pub string: Vec<u8>,
    pub string_literal: Vec<StringLiteral>,
    pub string_literal_data: Vec<u8>,
    pub images: Vec<ImageDefinition>,
    pub type_definitions: Vec<TypeDefinition>,
    pub methods: Vec<MethodDefinition>,
}

/// The string at `index` of a string table: reading it panics where no NUL
/// ends it, and fails where it is not UTF-8.
pub open spec fn str_at(data: Seq<u8>, index: i32) -> Outcome<Seq<char>> {
    let off = index as usize;
    if !nul_after(data, off as int) {
        Outcome::Panic
    } else if !valid_utf8(c_str(data, off as int)) {
        Outcome::Fail(Fault::InvalidUtf8)
    } else {
        Outcome::Done(decode_utf8(c_str(data, off as int)))
    }
}

/// The first image from the `i`-th on named `name`; the first name that
/// cannot be read decides.
pub open spec fn image_search(string: Seq<u8>, images: Seq<ImageDefinition>, name: Seq<char>, i: int) -> Outcome<
    Option<usize>,
>
    decreases images.len() - i,
{
    if i < 0 || i >= images.len() {
        Outcome::Done(None)
    } else {
        match str_at(string, images[i].name_index) {
            Outcome::Panic => Outcome::Panic,
            Outcome::Fail(f) => Outcome::Fail(f),
            Outcome::Done(n) => if n == name {
                Outcome::Done(Some(i as usize))
            } else {
                image_search(string, images, name, i + 1)
            },
        }
    }
}

/// Reads the string at `index` (see `str_at`).
pub fn read_metadata_str(data: &Vec<u8>, index: i32) -> (r: Result<&str, Error>)
    requires
        !(str_at(data@, index) is Panic),
    ensures
        match str_at(data@, index) {
            Outcome::Done(s) => r matches Ok(v) && v@ == s,
            Outcome::Fail(f) => r matches Err(e) && e@ == f,
            Outcome::Panic => false,
        },
{
    get_str(data.as_slice(), index as usize)
}

impl Metadata {
    /// The image named `find_name` (see `image_search`).
    pub fn find_image(&self, find_name: &str) -> (r: Result<Option<usize>, Error>)
        requires
            !(image_search(self.string@, self.images@, find_name@, 0) is Panic),
        ensures
            match image_search(self.string@, self.images@, find_name@, 0) {
                Outcome::Done(v) => r == Ok::<Option<usize>, Error>(v),
                Outcome::Fail(f) => r matches Err(e) && e@ == f,
                Outcome::Panic => false,
            },
    {
        let mut i: usize = 0;
        while i < self.images.len()
            invariant
                0 <= i <= self.images@.len(),
                !(image_search(self.string@, self.images@, find_name@, 0) is Panic),
                image_search(self.string@, self.images@, find_name@, 0) == image_search(
                    self.string@,
                    self.images@,
                    find_name@,
                    i as int,
                ),
            decreases self.images@.len() - i,
        {
            let name = read_metadata_str(&self.string, self.images[i].name_index)?;
            if str_eq(name, find_name) {
                return Ok(Some(i));
            }
            i = i + 1;
        }
        Ok(None)
    }

    /// Adds `s` to the string table, NUL-terminated; gives its index.
    pub fn add_str(&mut self, s: &str) -> (r: i32)
        ensures
            r == old(self).string@.len() as i32,
            final(self).string@ == old(self).string@ + s.spec_bytes() + seq![0u8],
            final(self).string_literal@ == old(self).string_literal@,
            final(self).string_literal_data@ == old(self).string_literal_data@,
            final(self).images@ == old(self).images@,
            final(self).type_definitions@ == old(self).type_definitions@,
            final(self).methods@ == old(self).methods@,
    {
        let idx = self.string.len() as i32;
        let mut bytes = s.as_bytes_vec();
        self.string.append(&mut bytes);
        self.string.push(0);
        idx
    }

    /// Adds `s` to the string literal data, NUL-terminated; gives its index.
    pub fn add_str_literal(&mut self, s: &str) -> (r: i32)
        ensures
            r == old(self).string_literal_data@.len() as i32,
            final(self).string_literal_data@ == old(self).string_literal_data@ + s.spec_bytes() + seq![0u8],
            final(self).string@ == old(self).string@,
            final(self).string_literal@ == old(self).string_literal@,
            final(self).images@ == old(self).images@,
            final(self).type_definitions@ == old(self).type_definitions@,
            final(self).methods@ == old(self).methods@,
    {
        let idx = self.string_literal_data.len() as i32;
        let mut bytes = s.as_bytes_vec();
        self.string_literal_data.append(&mut bytes);
        self.string_literal_data.push(0);
        idx
    }

    /// Adds the string literal `s` of a mod: its entry, pointing at its
    /// bytes, which are added to the literal data. Gives its encoded method
    /// index (the entry's index, tagged as a string literal).
    pub fn add_string_literal(&mut self, s: &str) -> (r: u32)
        ensures
            final(self).string_literal@ == old(self).string_literal@.push(
                StringLiteral {
                    length: s.spec_bytes().len() as u32,
                    data_index: old(self).string_literal_data@.len() as i32,
                },
            ),
            final(self).string_literal_data@ == old(self).string_literal_data@ + s.spec_bytes() + seq![0u8],
            r == (old(self).string_literal@.len() as u32 | 0xA0000000u32),
            final(self).string@ == old(self).string@,
            final(self).images@ == old(self).images@,
            final(self).type_definitions@ == old(self).type_definitions@,
            final(self).methods@ == old(self).methods@,
    {
        let literal_idx = self.string_literal.len();
        let literal_data_idx = self.string_literal_data.len();
        let bytes = s.as_bytes_vec();
        self.string_literal.push(StringLiteral { length: bytes.len() as u32, data_index: literal_data_idx as i32 });
        self.add_str_literal(s);
        literal_idx as u32 | 0xA0000000
    }
}

} // verus!

verus! {

/// An entry of the generic method table: the method spec it is for, and
/// where its code, its invoker and its adjustor thunk (or -1) are in the
/// code registration's tables.
#[derive(Clone, Copy, Debug, PartialEq, Eq, Structural)]
pub struct GenericMethodTableEntry {
    pub generic_method_index: i32,
    pub method_index: i32,
    pub invoker_index: i32,
    pub adjustor_thunk_index: i32,
}

/// Where a mod's code tables start in the game's: its generic method
/// pointers, invokers and adjustor thunks were appended there.
#[derive(Clone, Copy, Debug)]
pub struct CodeTableOffsets {
    pub generic_method_pointers: usize,
    pub invoker_pointers: usize,
    pub generic_adjustor_thunks: usize,
}

/// The table entry for the functions `f` of a mod's generic method, whose
/// method spec resolved to `idx`: none where the game already has that spec
/// (`idx` below `first_new`), as the game's own functions serve it.
pub open spec fn generic_method_entry(
    f: GenericMethodFunctions,
    idx: usize,
    first_new: usize,
    off: CodeTableOffsets,
) -> Option<GenericMethodTableEntry> {
    if idx < first_new {
        None
    } else {
        Some(
            GenericMethodTableEntry {
                generic_method_index: idx as i32,
                method_index: (f.method_idx + off.generic_method_pointers) as i32,
                invoker_index: (f.invoker_idx + off.invoker_pointers) as i32,
                adjustor_thunk_index: match f.adjustor_thunk_idx {
                    Some(t) => (t + off.generic_adjustor_thunks) as i32,
                    None => -1i32,
                },
            },
        )
    }
}

/// The entries for `funcs`, in order, each with the method spec that
/// `gen_methods` gives its generic method.
pub open spec fn generic_method_entries(
    funcs: Seq<GenericMethodFunctions>,
    gen_methods: Seq<usize>,
    first_new: usize,
    off: CodeTableOffsets,
) -> Seq<GenericMethodTableEntry>
    decreases funcs.len(),
{
    if funcs.len() == 0 {
        Seq::empty()
    } else {
        let f = funcs.last();
        let rest = generic_method_entries(funcs.drop_last(), gen_methods, first_new, off);
        match generic_method_entry(f, gen_methods[f.generic_method as int], first_new, off) {
            Some(e) => rest.push(e),
            None => rest,
        }
    }
}

/// No index of `f` runs past the end of its table once offset.
pub open spec fn offsets_fit(f: GenericMethodFunctions, off: CodeTableOffsets) -> bool {
    &&& f.method_idx + off.generic_method_pointers <= usize::MAX
    &&& f.invoker_idx + off.invoker_pointers <= usize::MAX
    &&& (f.adjustor_thunk_idx matches Some(t) ==> t + off.generic_adjustor_thunks <= usize::MAX)
}

/// The generic method table entries that a mod adds (see
/// `generic_method_entries`).
pub fn generic_method_table_entries(
    funcs: &Vec<GenericMethodFunctions>,
    gen_methods: &Vec<usize>,
    first_new: usize,
    off: CodeTableOffsets,
) -> (r: Vec<GenericMethodTableEntry>)
    requires
        forall|i: int| 0 <= i < funcs@.len() ==> (#[trigger] funcs@[i]).generic_method < gen_methods@.len(),
        forall|i: int| 0 <= i < funcs@.len() ==> offsets_fit(#[trigger] funcs@[i], off),
    ensures
        r@ == generic_method_entries(funcs@, gen_methods@, first_new, off),
{
    let mut r: Vec<GenericMethodTableEntry> = Vec::new();
    let mut i: usize = 0;
    while i < funcs.len()
        invariant
            0 <= i <= funcs@.len(),
            forall|k: int| 0 <= k < funcs@.len() ==> (#[trigger] funcs@[k]).generic_method < gen_methods@.len(),
            forall|k: int| 0 <= k < funcs@.len() ==> offsets_fit(#[trigger] funcs@[k], off),
            r@ == generic_method_entries(funcs@.take(i as int), gen_methods@, first_new, off),
        decreases funcs@.len() - i,
    {
        let f = &funcs[i];
        let idx = gen_methods[f.generic_method];
        proof {
            assert(funcs@.take(i + 1).drop_last() =~= funcs@.take(i as int));
            assert(funcs@.take(i + 1).last() == funcs@[i as int]);
            assert(offsets_fit(funcs@[i as int], off));
        }
        if idx >= first_new {
            let thunk = match f.adjustor_thunk_idx {
                Some(t) => (t + off.generic_adjustor_thunks) as i32,
                None => -1,
            };
            r.push(
                GenericMethodTableEntry {
                    generic_method_index: idx as i32,
                    method_index: (f.method_idx + off.generic_method_pointers) as i32,
                    invoker_index: (f.invoker_idx + off.invoker_pointers) as i32,
                    adjustor_thunk_index: thunk,
                },
            );
        }
        i = i + 1;
    }
    proof {
        assert(funcs@.take(i as int) =~= funcs@);
    }
    r
}

/// A pair of the metadata's usage lists: the encoded source of a usage and
/// the slot of the usage table it fills.
#[derive(Clone, Copy, Debug)]
pub struct MetadataUsagePair {
    pub encoded_source_index: u32,
    pub destination_index: u32,
}

/// The number of slots the usage pairs fill: one past the greatest
/// destination, 1 where there are none.
pub fn metadata_usages_count(pairs: &Vec<MetadataUsagePair>) -> (r: u32)
    requires
        forall|i: int| 0 <= i < pairs@.len() ==> (#[trigger] pairs@[i]).destination_index < u32::MAX,
    ensures
        forall|i: int| 0 <= i < pairs@.len() ==> (#[trigger] pairs@[i]).destination_index < r,
        pairs@.len() == 0 ==> r == 1,
        pairs@.len() > 0 ==> exists|i: int| 0 <= i < pairs@.len() && (#[trigger] pairs@[i]).destination_index + 1 == r,
{
    let mut max: Option<u32> = None;
    let mut i: usize = 0;
    while i < pairs.len()
        invariant
            0 <= i <= pairs@.len(),
            forall|k: int| 0 <= k < pairs@.len() ==> (#[trigger] pairs@[k]).destination_index < u32::MAX,
            i == 0 <==> max is None,
            max matches Some(m) ==> (forall|k: int| 0 <= k < i ==> (#[trigger] pairs@[k]).destination_index <= m)
                && exists|k: int| 0 <= k < i && (#[trigger] pairs@[k]).destination_index == m,
        decreases pairs@.len() - i,
    {
        let d = pairs[i].destination_index;
        match max {
            Some(m) => {
                if d > m {
                    max = Some(d);
                }
            },
            None => {
                max = Some(d);
            },
        }
        i = i + 1;
    }
    match max {
        Some(m) => m + 1,
        None => 1,
    }
}

/// Moves a mod's invoker indices past the game's invokers, which come
/// before the mod's in the joined table.
pub fn offset_invoker_indices(idxs: &mut Vec<i32>, offset: i32)
    requires
        forall|i: int| 0 <= i < old(idxs)@.len() ==> i32::MIN <= #[trigger] old(idxs)@[i] + offset <= i32::MAX,
    ensures
        final(idxs)@.len() == old(idxs)@.len(),
        forall|i: int| 0 <= i < old(idxs)@.len() ==> #[trigger] final(idxs)@[i] == old(idxs)@[i] + offset,
{
    let mut i: usize = 0;
    while i < idxs.len()
        invariant
            0 <= i <= idxs@.len(),
            idxs@.len() == old(idxs)@.len(),
            forall|k: int| 0 <= k < old(idxs)@.len() ==> i32::MIN <= #[trigger] old(idxs)@[k] + offset <= i32::MAX,
            forall|k: int| 0 <= k < i ==> #[trigger] idxs@[k] == old(idxs)@[k] + offset,
            forall|k: int| i <= k < idxs@.len() ==> #[trigger] idxs@[k] == old(idxs)@[k],
        decreases idxs@.len() - i,
    {
        let v = idxs[i] + offset;
        idxs.set(i, v);
        i = i + 1;
    }
}

} // verus!

verus! {

/// A type's namespace and name.
pub type TypeKey = (Seq<char>, Seq<char>);

/// What the entries `e` map `k` to: the index of the last entry with that
/// key, as each insertion replaces what the key held.
pub open spec fn last_with(e: Seq<(String, String, usize)>, k: TypeKey) -> Option<usize>
    decreases e.len(),
{
    if e.len() == 0 {
        None
    } else if (e.last().0@, e.last().1@) == k {
        Some(e.last().2)
    } else {
        last_with(e.drop_last(), k)
    }
}

/// The type definitions of an image by namespace and name, as the applier
/// keeps one map per image.
pub struct TypeDefMap {
    pub entries: Vec<(String, String, usize)>,
}

impl TypeDefMap {
    pub open spec fn view(&self) -> Map<TypeKey, usize> {
        Map::new(|k: TypeKey| last_with(self.entries@, k) is Some, |k: TypeKey| last_with(self.entries@, k)->0)
    }

    /// An empty map.
    pub fn new() -> (r: Self)
        ensures
            r.view() == Map::<TypeKey, usize>::empty(),
    {
        let r = TypeDefMap { entries: Vec::new() };
        assert(r.view() =~= Map::<TypeKey, usize>::empty());
        r
    }

    /// Maps the type `namespace.name` to `idx`.
    pub fn insert(&mut self, namespace: &str, name: &str, idx: usize)
        ensures
            final(self).view() == old(self).view().insert((namespace@, name@), idx),
    {
        self.entries.push((namespace.to_string(), name.to_string(), idx));
        proof {
            assert(self.entries@.drop_last() =~= old(self).entries@);
            assert(self.view() =~= old(self).view().insert((namespace@, name@), idx));
        }
    }

    /// The index that the type `namespace.name` maps to.
    pub fn get(&self, namespace: &str, name: &str) -> (r: Option<usize>)
        ensures
            r == (if self.view().contains_key((namespace@, name@)) {
                Some(self.view()[(namespace@, name@)])
            } else {
                None
            }),
    {
        let ghost k = (namespace@, name@);
        let mut j: usize = self.entries.len();
        assert(self.entries@.take(j as int) =~= self.entries@);
        while j > 0
            invariant
                j <= self.entries@.len(),
                k == (namespace@, name@),
                last_with(self.entries@.take(j as int), k) == last_with(self.entries@, k),
            decreases j,
        {
            let e = &self.entries[j - 1];
            proof {
                let t = self.entries@.take(j as int);
                assert(t.drop_last() =~= self.entries@.take(j - 1));
                assert(t.last() == self.entries@[j - 1]);
                assert(t.len() > 0);
                assert(last_with(t, k) == if (t.last().0@, t.last().1@) == k {
                    Some(t.last().2)
                } else {
                    last_with(t.drop_last(), k)
                });
            }
            if str_eq(e.0.as_str(), namespace) && str_eq(e.1.as_str(), name) {
                assert(last_with(self.entries@, k) == Some(e.2));
                return Some(e.2);
            }
            j = j - 1;
        }
        assert(self.entries@.take(0) =~= Seq::<(String, String, usize)>::empty());
        None
    }
}

/// The map of the type definitions `k..hi` of an image, each by the strings
/// at its namespace and name; the first string that cannot be read decides.
pub open spec fn image_type_defs(
    string: Seq<u8>,
    tds: Seq<TypeDefinition>,
    k: int,
    hi: int,
    m: Map<TypeKey, usize>,
) -> Outcome<Map<TypeKey, usize>>
    decreases hi - k,
{
    if k >= hi || k < 0 || k >= tds.len() {
        Outcome::Done(m)
    } else {
        match str_at(string, tds[k].namespace_index) {
            Outcome::Panic => Outcome::Panic,
            Outcome::Fail(f) => Outcome::Fail(f),
            Outcome::Done(ns) => match str_at(string, tds[k].name_index) {
                Outcome::Panic => Outcome::Panic,
                Outcome::Fail(f) => Outcome::Fail(f),
                Outcome::Done(n) => image_type_defs(string, tds, k + 1, hi, m.insert((ns, n), k as usize)),
            },
        }
    }
}

/// The type definition maps of the images from the `i`-th on, after `acc`.
pub open spec fn image_maps(
    string: Seq<u8>,
    images: Seq<ImageDefinition>,
    tds: Seq<TypeDefinition>,
    i: int,
    acc: Seq<Map<TypeKey, usize>>,
) -> Outcome<Seq<Map<TypeKey, usize>>>
    decreases images.len() - i,
{
    if i < 0 || i >= images.len() {
        Outcome::Done(acc)
    } else {
        match table_range(images[i].type_start, images[i].type_count as i32, tds.len()) {
            None => Outcome::Panic,
            Some((lo, hi)) => match image_type_defs(string, tds, lo, hi, Map::empty()) {
                Outcome::Panic => Outcome::Panic,
                Outcome::Fail(f) => Outcome::Fail(f),
                Outcome::Done(m) => image_maps(string, images, tds, i + 1, acc.push(m)),
            },
        }
    }
}

/// Whether the namespaces and names of the type definitions from the `k`-th
/// on can be read.
pub open spec fn type_names_readable(string: Seq<u8>, tds: Seq<TypeDefinition>, k: int) -> Outcome<()>
    decreases tds.len() - k,
{
    if k < 0 || k >= tds.len() {
        Outcome::Done(())
    } else {
        match str_at(string, tds[k].namespace_index) {
            Outcome::Panic => Outcome::Panic,
            Outcome::Fail(f) => Outcome::Fail(f),
            Outcome::Done(_) => match str_at(string, tds[k].name_index) {
                Outcome::Panic => Outcome::Panic,
                Outcome::Fail(f) => Outcome::Fail(f),
                Outcome::Done(_) => type_names_readable(string, tds, k + 1),
            },
        }
    }
}

/// What setting up the applier makes of the metadata: a map of each
/// image's type definitions, once every type definition's names read.
pub open spec fn loader_maps(md: &Metadata) -> Outcome<Seq<Map<TypeKey, usize>>> {
    match image_maps(md.string@, md.images@, md.type_definitions@, 0, Seq::empty()) {
        Outcome::Panic => Outcome::Panic,
        Outcome::Fail(f) => Outcome::Fail(f),
        Outcome::Done(ms) => match type_names_readable(md.string@, md.type_definitions@, 0) {
            Outcome::Panic => Outcome::Panic,
            Outcome::Fail(f) => Outcome::Fail(f),
            Outcome::Done(_) => Outcome::Done(ms),
        },
    }
}

pub open spec fn map_views(v: Seq<TypeDefMap>) -> Seq<Map<TypeKey, usize>> {
    v.map_values(|m: TypeDefMap| m.view())
}

fn fill_image_map(md: &Metadata, lo: usize, hi: usize, m: &mut TypeDefMap) -> (r: Result<(), Error>)
    requires
        lo <= hi <= md.type_definitions@.len(),
        !(image_type_defs(md.string@, md.type_definitions@, lo as int, hi as int, old(m).view()) is Panic),
    ensures
        match image_type_defs(md.string@, md.type_definitions@, lo as int, hi as int, old(m).view()) {
            Outcome::Done(v) => r is Ok && final(m).view() == v,
            Outcome::Fail(f) => r matches Err(e) && e@ == f,
            Outcome::Panic => false,
        },
{
    let ghost total = image_type_defs(md.string@, md.type_definitions@, lo as int, hi as int, m.view());
    let mut k: usize = lo;
    while k < hi
        invariant
            lo <= k <= hi <= md.type_definitions@.len(),
            !(total is Panic),
            total == image_type_defs(md.string@, md.type_definitions@, lo as int, hi as int, old(m).view()),
            total == image_type_defs(md.string@, md.type_definitions@, k as int, hi as int, m.view()),
        decreases hi - k,
    {
        let td = md.type_definitions[k];
        let ns = read_metadata_str(&md.string, td.namespace_index)?;
        let name = read_metadata_str(&md.string, td.name_index)?;
        m.insert(ns, name, k);
        k = k + 1;
    }
    Ok(())
}

fn check_type_names(md: &Metadata) -> (r: Result<(), Error>)
    requires
        !(type_names_readable(md.string@, md.type_definitions@, 0) is Panic),
    ensures
        match type_names_readable(md.string@, md.type_definitions@, 0) {
            Outcome::Done(_) => r is Ok,
            Outcome::Fail(f) => r matches Err(e) && e@ == f,
            Outcome::Panic => false,
        },
{
    let mut k: usize = 0;
    while k < md.type_definitions.len()
        invariant
            0 <= k <= md.type_definitions@.len(),
            !(type_names_readable(md.string@, md.type_definitions@, 0) is Panic),
            type_names_readable(md.string@, md.type_definitions@, 0) == type_names_readable(
                md.string@,
                md.type_definitions@,
                k as int,
            ),
        decreases md.type_definitions@.len() - k,
    {
        let td = md.type_definitions[k];
        read_metadata_str(&md.string, td.namespace_index)?;
        read_metadata_str(&md.string, td.name_index)?;
        k = k + 1;
    }
    Ok(())
}

/// The applier's state while it loads mods: the game's metadata, which the
/// mods' definitions are added to, and the map of each image's type
/// definitions by namespace and name.
pub struct ModLoader {
    pub metadata: Metadata,
    pub image_type_def_map: Vec<TypeDefMap>,
}

impl ModLoader {
    /// Sets up loading into `metadata`: the map of each of its images (see
    /// `loader_maps`).
    pub fn new(metadata: Metadata) -> (r: Result<ModLoader, Error>)
        requires
            !(loader_maps(&metadata) is Panic),
        ensures
            match loader_maps(&metadata) {
                Outcome::Done(ms) => r matches Ok(l) && l.metadata == metadata && map_views(l.image_type_def_map@) == ms,
                Outcome::Fail(f) => r matches Err(e) && e@ == f,
                Outcome::Panic => false,
            },
    {
        let maps = image_type_def_maps(&metadata)?;
        Ok(ModLoader { metadata, image_type_def_map: maps })
    }

    /// The image named `find_name` (see `image_search`).
    pub fn find_image(&self, find_name: &str) -> (r: Result<Option<usize>, Error>)
        requires
            !(image_search(self.metadata.string@, self.metadata.images@, find_name@, 0) is Panic),
        ensures
            match image_search(self.metadata.string@, self.metadata.images@, find_name@, 0) {
                Outcome::Done(v) => r == Ok::<Option<usize>, Error>(v),
                Outcome::Fail(f) => r matches Err(e) && e@ == f,
                Outcome::Panic => false,
            },
    {
        self.metadata.find_image(find_name)
    }

    /// Adds the map of the image a mod adds: its type definitions will
    /// follow those the metadata holds (see `added_type_map`).
    pub fn add_image_map(&mut self, added: &Vec<AddedTypeDefinition>)
        requires
            old(self).metadata.type_definitions@.len() + added@.len() <= usize::MAX,
        ensures
            final(self).metadata == old(self).metadata,
            map_views(final(self).image_type_def_map@) == map_views(old(self).image_type_def_map@).push(
                added_type_map(added@, old(self).metadata.type_definitions@.len() as usize),
            ),
    {
        let m = added_type_def_map(added, self.metadata.type_definitions.len());
        let ghost before = map_views(self.image_type_def_map@);
        self.image_type_def_map.push(m);
        proof {
            assert(map_views(self.image_type_def_map@) =~= before.push(m.view()));
        }
    }
}

/// The map of each image's type definitions by namespace and name, which
/// the applier sets up before it loads mods (see `loader_maps`).
fn image_type_def_maps(md: &Metadata) -> (r: Result<Vec<TypeDefMap>, Error>)
    requires
        !(loader_maps(md) is Panic),
    ensures
        match loader_maps(md) {
            Outcome::Done(ms) => r matches Ok(v) && map_views(v@) == ms,
            Outcome::Fail(f) => r matches Err(e) && e@ == f,
            Outcome::Panic => false,
        },
{
    let ghost total = image_maps(md.string@, md.images@, md.type_definitions@, 0, Seq::empty());
    let mut maps: Vec<TypeDefMap> = Vec::new();
    let mut i: usize = 0;
    proof {
        assert(map_views(maps@) =~= Seq::<Map<TypeKey, usize>>::empty());
    }
    while i < md.images.len()
        invariant
            0 <= i <= md.images@.len(),
            !(total is Panic),
            total == image_maps(md.string@, md.images@, md.type_definitions@, 0, Seq::empty()),
            total == image_maps(md.string@, md.images@, md.type_definitions@, i as int, map_views(maps@)),
        decreases md.images@.len() - i,
    {
        let image = md.images[i];
        let (lo, hi) = match table_bounds(image.type_start, image.type_count as i32, md.type_definitions.len()) {
            Some(b) => b,
            None => {
                proof {
                    assert(false);
                }
                return Ok(maps);
            },
        };
        let mut m = TypeDefMap::new();
        fill_image_map(md, lo, hi, &mut m)?;
        let ghost before = map_views(maps@);
        maps.push(m);
        proof {
            assert(map_views(maps@) =~= before.push(m.view()));
        }
        i = i + 1;
    }
    check_type_names(md)?;
    Ok(maps)
}

/// The images that a mod references, by name: the index of the first image
/// of that name where one is.
pub open spec fn image_refs_walk(md: &Metadata, descs: Seq<ImageDescription>, i: int, acc: Seq<usize>) -> Outcome<
    Seq<usize>,
>
    decreases descs.len() - i,
{
    if i < 0 || i >= descs.len() {
        Outcome::Done(acc)
    } else {
        match image_search(md.string@, md.images@, descs[i].name@, 0) {
            Outcome::Panic => Outcome::Panic,
            Outcome::Fail(f) => Outcome::Fail(f),
            Outcome::Done(None) => Outcome::Fail(Fault::UnresolvedImage(descs[i].name@)),
            Outcome::Done(Some(idx)) => image_refs_walk(md, descs, i + 1, acc.push(idx)),
        }
    }
}

impl ModLoader {
    /// Resolves the images a mod references (see `image_refs_walk`); fails on
    /// the first that the metadata does not hold.
    pub fn resolve_image_refs(&self, descs: &Vec<ImageDescription>) -> (r: Result<Vec<usize>, Error>)
        requires
            !(image_refs_walk(&self.metadata, descs@, 0, Seq::empty()) is Panic),
        ensures
            match image_refs_walk(&self.metadata, descs@, 0, Seq::empty()) {
                Outcome::Done(v) => r matches Ok(refs) && refs@ == v,
                Outcome::Fail(f) => r matches Err(e) && e@ == f,
                Outcome::Panic => false,
            },
    {
        let mut refs: Vec<usize> = Vec::new();
        let mut i: usize = 0;
        while i < descs.len()
            invariant
                0 <= i <= descs@.len(),
                !(image_refs_walk(&self.metadata, descs@, 0, Seq::empty()) is Panic),
                image_refs_walk(&self.metadata, descs@, 0, Seq::empty()) == image_refs_walk(&self.metadata, descs@, i as int, refs@),
            decreases descs@.len() - i,
        {
            match self.metadata.find_image(descs[i].name.as_str())? {
                Some(idx) => refs.push(idx),
                None => {
                    return Err(Error::UnresolvedImage(descs[i].name.clone()));
                },
            }
            i = i + 1;
        }
        Ok(refs)
    }
}

/// The map of the type definitions that a mod adds, which follow the
/// `first` ones of the metadata: each by its namespace and name.
pub open spec fn added_type_map(added: Seq<AddedTypeDefinition>, first: usize) -> Map<TypeKey, usize>
    decreases added.len(),
{
    if added.len() == 0 {
        Map::empty()
    } else {
        let i = added.len() - 1;
        added_type_map(added.drop_last(), first).insert(
            (added[i].namespace@, added[i].name@),
            (first + i) as usize,
        )
    }
}

/// Maps the type definitions a mod adds to where they will stand (see
/// `added_type_map`).
pub fn added_type_def_map(added: &Vec<AddedTypeDefinition>, first: usize) -> (r: TypeDefMap)
    requires
        first + added@.len() <= usize::MAX,
    ensures
        r.view() == added_type_map(added@, first),
{
    let mut m = TypeDefMap::new();
    let mut i: usize = 0;
    proof {
        assert(added@.take(0) =~= Seq::<AddedTypeDefinition>::empty());
    }
    while i < added.len()
        invariant
            0 <= i <= added@.len(),
            first + added@.len() <= usize::MAX,
            m.view() == added_type_map(added@.take(i as int), first),
        decreases added@.len() - i,
    {
        let t = &added[i];
        m.insert(t.namespace.as_str(), t.name.as_str(), first + i);
        proof {
            assert(added@.take(i + 1).drop_last() =~= added@.take(i as int));
        }
        i = i + 1;
    }
    proof {
        assert(added@.take(i as int) =~= added@);
    }
    m
}

/// What the type definitions a mod references resolve to: each looked up
/// in the map of the image that `image_refs` gives for its image.
pub open spec fn type_def_refs_walk(
    maps: Seq<Map<TypeKey, usize>>,
    image_refs: Seq<usize>,
    descs: Seq<TypeDefDescription>,
    i: int,
    acc: Seq<usize>,
) -> Result<Seq<usize>, Fault>
    decreases descs.len() - i,
{
    if i < 0 || i >= descs.len() {
        Ok(acc)
    } else {
        let d = descs[i];
        let m = maps[image_refs[d.image as int] as int];
        if m.contains_key((d.namespace@, d.name@)) {
            type_def_refs_walk(maps, image_refs, descs, i + 1, acc.push(m[(d.namespace@, d.name@)]))
        } else {
            Err(Fault::UnresolvedTypeReference(d.namespace@, d.name@))
        }
    }
}

impl ModLoader {
    /// Resolves the type definitions a mod references (see
    /// `type_def_refs_walk`); fails on the first that is not found.
    pub fn resolve_type_def_refs(
        &self,
        image_refs: &Vec<usize>,
        descs: &Vec<TypeDefDescription>,
    ) -> (r: Result<Vec<usize>, Error>)
        requires
            forall|i: int| 0 <= i < descs@.len() ==> (#[trigger] descs@[i]).image < image_refs@.len(),
            forall|i: int| 0 <= i < image_refs@.len() ==> #[trigger] image_refs@[i] < self.image_type_def_map@.len(),
        ensures
            match type_def_refs_walk(map_views(self.image_type_def_map@), image_refs@, descs@, 0, Seq::empty()) {
                Ok(v) => r matches Ok(refs) && refs@ == v,
                Err(f) => r matches Err(e) && e@ == f,
            },
    {
        let ghost mv = map_views(self.image_type_def_map@);
        let mut refs: Vec<usize> = Vec::new();
        let mut i: usize = 0;
        while i < descs.len()
            invariant
                0 <= i <= descs@.len(),
                mv == map_views(self.image_type_def_map@),
                forall|k: int| 0 <= k < descs@.len() ==> (#[trigger] descs@[k]).image < image_refs@.len(),
                forall|k: int| 0 <= k < image_refs@.len() ==> #[trigger] image_refs@[k] < self.image_type_def_map@.len(),
                type_def_refs_walk(mv, image_refs@, descs@, 0, Seq::empty()) == type_def_refs_walk(
                    mv,
                    image_refs@,
                    descs@,
                    i as int,
                    refs@,
                ),
            decreases descs@.len() - i,
        {
            let d = &descs[i];
            assert(descs@[i as int].image < image_refs@.len());
            let img = image_refs[d.image];
            assert(mv[img as int] == self.image_type_def_map@[img as int].view());
            match self.image_type_def_map[img].get(d.namespace.as_str(), d.name.as_str()) {
                Some(idx) => refs.push(idx),
                None => {
                    return Err(Error::UnresolvedTypeReference(d.namespace.clone(), d.name.clone()));
                },
            }
            i = i + 1;
        }
        Ok(refs)
    }
}

/// The token of the first of the methods `j..hi` named `name`; the first
/// name that cannot be read decides.
pub open spec fn token_search(string: Seq<u8>, methods: Seq<MethodDefinition>, name: Seq<char>, j: int, hi: int) -> Outcome<
    Option<u32>,
>
    decreases hi - j,
{
    if j >= hi || j < 0 || j >= methods.len() {
        Outcome::Done(None)
    } else {
        match str_at(string, methods[j].name_index) {
            Outcome::Panic => Outcome::Panic,
            Outcome::Fail(f) => Outcome::Fail(f),
            Outcome::Done(n) => if n == name {
                Outcome::Done(Some(methods[j].token))
            } else {
                token_search(string, methods, name, j + 1, hi)
            },
        }
    }
}

impl ModLoader {
    /// The token of the method `name` of the type `namespace.class` of the
    /// image `image`: the type is looked up in the image's map, and its methods
    /// searched by name (see `token_search`).
    pub fn find_method_token_by_name(
        &self,
        image: usize,
        namespace: &str,
        class: &str,
        name: &str,
    ) -> (r: Result<Option<u32>, Error>)
        requires
            image < self.image_type_def_map@.len(),
            self.image_type_def_map@[image as int].view().contains_key((namespace@, class@)),
            self.image_type_def_map@[image as int].view()[(namespace@, class@)] < self.metadata.type_definitions@.len(),
            ({
                let td = self.metadata.type_definitions@[self.image_type_def_map@[image as int].view()[(namespace@, class@)] as int];
                match table_range(td.method_start, td.method_count as i32, self.metadata.methods@.len()) {
                    None => false,
                    Some((lo, hi)) => !(token_search(self.metadata.string@, self.metadata.methods@, name@, lo, hi) is Panic),
                }
            }),
        ensures
            ({
                let td = self.metadata.type_definitions@[self.image_type_def_map@[image as int].view()[(namespace@, class@)] as int];
                match table_range(td.method_start, td.method_count as i32, self.metadata.methods@.len()) {
                    Some((lo, hi)) => match token_search(self.metadata.string@, self.metadata.methods@, name@, lo, hi) {
                        Outcome::Done(t) => r == Ok::<Option<u32>, Error>(t),
                        Outcome::Fail(f) => r matches Err(e) && e@ == f,
                        Outcome::Panic => false,
                    },
                    None => false,
                }
            }),
    {
        let idx = match self.image_type_def_map[image].get(namespace, class) {
            Some(i) => i,
            None => {
                proof {
                    assert(false);
                }
                return Ok(None);
            },
        };
        let td = self.metadata.type_definitions[idx];
        let (lo, hi) = match table_bounds(td.method_start, td.method_count as i32, self.metadata.methods.len()) {
            Some(b) => b,
            None => {
                proof {
                    assert(false);
                }
                return Ok(None);
            },
        };
        let ghost key = (namespace@, class@);
        assert(idx == self.image_type_def_map@[image as int].view()[key]);
        let mut j: usize = lo;
        while j < hi
            invariant
                lo <= j <= hi <= self.metadata.methods@.len(),
                image < self.image_type_def_map@.len(),
                self.image_type_def_map@[image as int].view().contains_key(key),
                key == (namespace@, class@),
                idx == self.image_type_def_map@[image as int].view()[key],
                idx < self.metadata.type_definitions@.len(),
                td == self.metadata.type_definitions@[idx as int],
                table_range(td.method_start, td.method_count as i32, self.metadata.methods@.len()) == Some((lo as int, hi as int)),
                !(token_search(self.metadata.string@, self.metadata.methods@, name@, lo as int, hi as int) is Panic),
                token_search(self.metadata.string@, self.metadata.methods@, name@, lo as int, hi as int) == token_search(
                    self.metadata.string@,
                    self.metadata.methods@,
                    name@,
                    j as int,
                    hi as int,
                ),
            decreases hi - j,
        {
            let m = self.metadata.methods[j];
            let n = read_metadata_str(&self.metadata.string, m.name_index)?;
            if str_eq(n, name) {
                return Ok(Some(m.token));
            }
            j = j + 1;
        }
        Ok(None)
    }
}

} // verus!
