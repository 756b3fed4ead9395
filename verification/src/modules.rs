//! The method pointer table of a module's `_CodeGen.c`.
use crate::build::parser::{table_lines, table_rows};
use crate::error::Error;
use crate::text::{str_eq, trim, trim_end_char, trim_end_matches_char, trim_ws, views};
use vstd::prelude::*;

verus! {

pub struct CodeGenModule<'src> {
    pub methods: Vec<Option<&'src str>>,
}

/// A row of a method pointer table: the method it names, `None` for `NULL`.
pub open spec fn method_slot(row: Seq<char>) -> Option<Seq<char>> {
    let name = trim_end_char(trim(row), ',');
    if name == "NULL"@ {
        None
    } else {
        Some(name)
    }
}

/// The slots of the method pointer table `s_methodPointers` of `src`, whose
/// rows start `skip` lines after the one that declares it; none where
/// `src` declares no such table.
pub open spec fn method_slots(src: Seq<char>, skip: nat) -> Seq<Option<Seq<char>>> {
    match table_rows(src, "static Il2CppMethodPointer s_methodPointers"@, skip) {
        None => Seq::empty(),
        Some(rows) => rows.map_values(|r: Seq<char>| method_slot(r)),
    }
}

pub open spec fn slot_views<'src>(v: Seq<Option<&'src str>>) -> Seq<Option<Seq<char>>> {
    v.map_values(
        |o: Option<&'src str>|
            match o {
                Some(s) => Some(s@),
                None => None,
            },
    )
}

/// `method_slot` on a string.
pub fn method_slot_str<'src>(row: &'src str) -> (r: Option<&'src str>)
    ensures
        match r {
            Some(s) => method_slot(row@) == Some(s@),
            None => method_slot(row@) is None,
        },
{
    let name = trim_end_matches_char(trim_ws(row), ',');
    if str_eq(name, "NULL") {
        None
    } else {
        Some(name)
    }
}

/// The slots of the method pointer table of `src` (see `method_slots`).
pub fn read_method_slots<'src>(src: &'src str, skip: usize) -> (r: Vec<Option<&'src str>>)
    ensures
        slot_views(r@) == method_slots(src@, skip as nat),
{
    let mut methods: Vec<Option<&'src str>> = Vec::new();
    proof {
        reveal_strlit("static Il2CppMethodPointer s_methodPointers");
    }
    let rows = match table_lines(src, "static Il2CppMethodPointer s_methodPointers", skip) {
        Some(r) => r,
        None => {
            assert(slot_views(methods@) =~= Seq::<Option<Seq<char>>>::empty());
            return methods;
        },
    };
    let ghost rv = views(rows@);
    let mut i: usize = 0;
    while i < rows.len()
        invariant
            0 <= i <= rows@.len(),
            rv == views(rows@),
            slot_views(methods@) == rv.take(i as int).map_values(|r: Seq<char>| method_slot(r)),
        decreases rows@.len() - i,
    {
        let ghost prev = methods@;
        methods.push(method_slot_str(rows[i]));
        proof {
            assert(rv[i as int] == rows@[i as int]@);
            assert(slot_views(methods@) =~= slot_views(prev).push(method_slot(rv[i as int])));
            assert(rv.take(i + 1).map_values(|r: Seq<char>| method_slot(r)) =~= rv.take(
                i as int,
            ).map_values(|r: Seq<char>| method_slot(r)).push(method_slot(rv[i as int])));
        }
        i = i + 1;
    }
    assert(rv.take(rows@.len() as int) =~= rv);
    methods
}

/// Reads the method pointer table of a module's `_CodeGen.c`.
pub fn parse<'src>(src: &'src str) -> (r: Result<CodeGenModule<'src>, Error>)
    ensures
        r is Ok,
        r matches Ok(m) && slot_views(m.methods@) == method_slots(src@, 3),
{
    Ok(CodeGenModule { methods: read_method_slots(src, 3) })
}

} // verus!
