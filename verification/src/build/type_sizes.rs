//! The type sizes and field offsets of the mod's own types: the generated
//! definitions are filtered down to the types of the mod's image, whose
//! type definitions are `type_start..type_start + type_count`.
use crate::build::function_usages::{codegen_header, lines_text};
use crate::build::parser::{has_prefix, table_slice};
use crate::error::{Error, Fault, Outcome};
use crate::text::{
    before_char, before_char_str, decimal, find, find_str, lines, lines_of, parse_u32, parse_unsigned,
    push_decimal, split_whitespace, starts_with, str_eq, strip_prefix, trim_end_char,
    trim_end_matches_char, trim_start_matches, trim_start_str, views, words,
};
use vstd::prelude::*;

verus! {

/// The type definition `num` is one of the image's.
pub open spec fn in_image(num: nat, type_start: u32, type_count: u32) -> bool {
    type_start <= num < type_start + type_count
}

/// The type number in `extern const Il2CppTypeDefinitionSizes g_typeDefinitionSize<n>;`.
pub open spec fn size_decl_num(line: Seq<char>) -> Outcome<nat> {
    let w = words(line);
    if w.len() < 4 {
        Outcome::Panic
    } else {
        let s = trim_end_char(trim_start_str(w[3], "g_typeDefinitionSize"@), ';');
        match parse_unsigned(s, u32::MAX as nat) {
            None => Outcome::Fail(Fault::InvalidNumber(s)),
            Some(n) => Outcome::Done(n),
        }
    }
}

/// The type number in `IL2CPP_EXTERN_C const int32_t g_FieldOffsetTable<n>[<len>] = ...`.
pub open spec fn offsets_decl_num(line: Seq<char>) -> Outcome<nat> {
    let w = words(line);
    if w.len() < 4 {
        Outcome::Panic
    } else {
        let s = before_char(trim_start_str(w[3], "g_FieldOffsetTable"@), '[');
        match parse_unsigned(s, u32::MAX as nat) {
            None => Outcome::Fail(Fault::InvalidNumber(s)),
            Some(n) => Outcome::Done(n),
        }
    }
}

/// The position of the first line from `i` on that is `};` (the number of
/// lines where none is).
pub open spec fn next_close(ls: Seq<Seq<char>>, i: int) -> int
    decreases ls.len() - i,
{
    if i < 0 || i >= ls.len() {
        ls.len() as int
    } else if ls[i] == "};"@ {
        i
    } else {
        next_close(ls, i + 1)
    }
}

pub proof fn lemma_next_close(ls: Seq<Seq<char>>, i: int)
    requires
        0 <= i,
    ensures
        i <= ls.len() ==> i <= next_close(ls, i) <= ls.len(),
        i > ls.len() ==> next_close(ls, i) == ls.len(),
        next_close(ls, i) < ls.len() ==> ls[next_close(ls, i)] == "};"@,
        forall|j: int| i <= j < next_close(ls, i) ==> ls[j] != "};"@,
    decreases ls.len() - i,
{
    if i < ls.len() && ls[i] != "};"@ {
        lemma_next_close(ls, i + 1);
    }
}

pub open spec fn then_outcome(out: Seq<char>, r: Outcome<Seq<char>>) -> Outcome<Seq<char>> {
    match r {
        Outcome::Done(t) => Outcome::Done(out + t),
        Outcome::Fail(f) => Outcome::Fail(f),
        Outcome::Panic => Outcome::Panic,
    }
}

/// `Il2CppCompilerCalculateTypeValues.cpp` from line `i` on, filtered to the
/// image's types: a size declaration is kept with the line after it, a
/// field offset table with its lines up to `};`, where the type is the
/// image's; every other line is kept.
pub open spec fn filter_type_values(ls: Seq<Seq<char>>, i: int, type_start: u32, type_count: u32) -> Outcome<
    Seq<char>,
>
    decreases ls.len() + 1 - i,
{
    if i < 0 || i >= ls.len() {
        Outcome::Done(Seq::empty())
    } else {
        let l = ls[i];
        if has_prefix(l, "extern const Il2CppTypeDefinitionSizes"@) {
            match size_decl_num(l) {
                Outcome::Panic => Outcome::Panic,
                Outcome::Fail(f) => Outcome::Fail(f),
                Outcome::Done(n) => if i + 1 >= ls.len() {
                    Outcome::Panic
                } else {
                    let written = if in_image(n, type_start, type_count) {
                        l + "\n"@ + ls[i + 1] + "\n"@
                    } else {
                        Seq::empty()
                    };
                    then_outcome(written, filter_type_values(ls, i + 2, type_start, type_count))
                },
            }
        } else if has_prefix(l, "IL2CPP_EXTERN_C const int32_t"@) {
            match offsets_decl_num(l) {
                Outcome::Panic => Outcome::Panic,
                Outcome::Fail(f) => Outcome::Fail(f),
                Outcome::Done(n) => {
                    let e = next_close(ls, i + 1);
                    proof {
                        lemma_next_close(ls, i + 1);
                    }
                    let end = if e < ls.len() {
                        e + 1
                    } else {
                        e
                    };
                    let written = if in_image(n, type_start, type_count) {
                        l + "\n"@ + lines_text(ls.subrange(i + 1, end))
                    } else {
                        Seq::empty()
                    };
                    then_outcome(written, filter_type_values(ls, end, type_start, type_count))
                },
            }
        } else {
            then_outcome(l + "\n"@, filter_type_values(ls, i + 1, type_start, type_count))
        }
    }
}

/// The number in a size declaration line (see `size_decl_num`).
fn size_decl_num_str(line: &str) -> (r: Result<u32, Error>)
    requires
        !(size_decl_num(line@) is Panic),
    ensures
        match r {
            Ok(n) => size_decl_num(line@) == Outcome::Done(n as nat),
            Err(e) => size_decl_num(line@) == Outcome::<nat>::Fail(e@),
        },
{
    let w = split_whitespace(line);
    proof {
        assert(views(w@).len() == w@.len());
        assert(views(w@)[3] == w@[3]@);
    }
    let s = trim_end_matches_char(trim_start_matches(w[3], "g_typeDefinitionSize"), ';');
    match parse_u32(s) {
        Some(n) => Ok(n),
        None => Err(Error::InvalidNumber(s.to_string())),
    }
}

/// The number in a field offset table line (see `offsets_decl_num`).
fn offsets_decl_num_str(line: &str) -> (r: Result<u32, Error>)
    requires
        !(offsets_decl_num(line@) is Panic),
    ensures
        match r {
            Ok(n) => offsets_decl_num(line@) == Outcome::Done(n as nat),
            Err(e) => offsets_decl_num(line@) == Outcome::<nat>::Fail(e@),
        },
{
    let w = split_whitespace(line);
    proof {
        assert(views(w@).len() == w@.len());
        assert(views(w@)[3] == w@[3]@);
    }
    let s = before_char_str(trim_start_matches(w[3], "g_FieldOffsetTable"), '[');
    match parse_u32(s) {
        Some(n) => Ok(n),
        None => Err(Error::InvalidNumber(s.to_string())),
    }
}

/// Filters `Il2CppCompilerCalculateTypeValues.cpp` (see `filter_type_values`).
pub fn type_values_source(src: &str, type_start: u32, type_count: u32) -> (r: Result<String, Error>)
    requires
        type_start + type_count <= u32::MAX,
        !(filter_type_values(lines(src@), 0, type_start, type_count) is Panic),
    ensures
        match r {
            Ok(s) => filter_type_values(lines(src@), 0, type_start, type_count) == Outcome::Done(s@),
            Err(e) => filter_type_values(lines(src@), 0, type_start, type_count) == Outcome::<
                Seq<char>,
            >::Fail(e@),
        },
{
    let ls = lines_of(src);
    let n = ls.len();
    let ghost all = views(ls@);
    let ghost total = filter_type_values(all, 0, type_start, type_count);
    let mut out = String::new();
    let mut i: usize = 0;
    proof {
        reveal_strlit("extern const Il2CppTypeDefinitionSizes");
        reveal_strlit("IL2CPP_EXTERN_C const int32_t");
        reveal_strlit("};");
        match total {
            Outcome::Done(t) => assert(Seq::<char>::empty() + t =~= t),
            _ => {},
        }
    }
    while i < n
        invariant
            0 <= i <= n,
            n == ls@.len(),
            all == views(ls@),
            all == lines(src@),
            type_start + type_count <= u32::MAX,
            total == filter_type_values(all, 0, type_start, type_count),
            !(total is Panic),
            then_outcome(out@, filter_type_values(all, i as int, type_start, type_count)) == total,
        decreases n - i,
    {
        let line = ls[i];
        proof {
            assert(all[i as int] == line@);
        }
        let ghost before = out@;
        if starts_with(line, "extern const Il2CppTypeDefinitionSizes") {
            proof {
                if size_decl_num(line@) is Panic {
                    assert(filter_type_values(all, i as int, type_start, type_count) is Panic);
                }
            }
            let num = match size_decl_num_str(line) {
                Ok(v) => v,
                Err(e) => {
                    return Err(e);
                },
            };
            if i + 1 >= n {
                proof {
                    assert(filter_type_values(all, i as int, type_start, type_count) is Panic);
                }
                return Ok(out);
            }
            let def = ls[i + 1];
            proof {
                assert(all[i + 1] == def@);
            }
            if type_start <= num && num < type_start + type_count {
                out.append(line);
                out.append("\n");
                out.append(def);
                out.append("\n");
            }
            proof {
                let written = if in_image(num as nat, type_start, type_count) {
                    line@ + "\n"@ + def@ + "\n"@
                } else {
                    Seq::<char>::empty()
                };
                assert(out@ =~= before + written);
                match filter_type_values(all, i + 2, type_start, type_count) {
                    Outcome::Done(t) => assert(before + (written + t) =~= out@ + t),
                    _ => {},
                }
            }
            i = i + 2;
        } else if starts_with(line, "IL2CPP_EXTERN_C const int32_t") {
            proof {
                if offsets_decl_num(line@) is Panic {
                    assert(filter_type_values(all, i as int, type_start, type_count) is Panic);
                }
            }
            let num = match offsets_decl_num_str(line) {
                Ok(v) => v,
                Err(e) => {
                    return Err(e);
                },
            };
            let keep = type_start <= num && num < type_start + type_count;
            proof {
                lemma_next_close(all, i + 1);
            }
            let ghost e = next_close(all, i + 1);
            let ghost end = if e < all.len() { e + 1 } else { e };
            if keep {
                out.append(line);
                out.append("\n");
            }
            let ghost mid = out@;
            let mut j: usize = i + 1;
            let mut done = false;
            proof {
                assert(lines_text(all.subrange(i + 1, i + 1)) =~= Seq::<char>::empty()) by {
                    assert(all.subrange(i + 1, i + 1) =~= Seq::<Seq<char>>::empty());
                }
                assert(mid + Seq::<char>::empty() =~= mid);
            }
            while j < n && !done
                invariant
                    i + 1 <= j <= n,
                    n == ls@.len(),
                    all == views(ls@),
                    e == next_close(all, i + 1),
                    end == (if e < all.len() { e + 1 } else { e }),
                    forall|q: int| i + 1 <= q < e ==> all[q] != "};"@,
                    e < all.len() ==> all[e] == "};"@,
                    i + 1 <= e <= all.len(),
                    !done ==> j <= e,
                    done ==> j == end && e < all.len(),
                    keep ==> out@ == mid + lines_text(all.subrange(i + 1, j as int)),
                    !keep ==> out@ == mid,
                decreases n - j,
            {
                let l2 = ls[j];
                proof {
                    assert(all[j as int] == l2@);
                }
                if keep {
                    out.append(l2);
                    out.append("\n");
                    proof {
                        assert(all.subrange(i + 1, j + 1).drop_last() =~= all.subrange(i + 1, j as int));
                    }
                }
                if str_eq(l2, "};") {
                    done = true;
                }
                j = j + 1;
            }
            proof {
                assert(j == end);
                let written = if in_image(num as nat, type_start, type_count) {
                    line@ + "\n"@ + lines_text(all.subrange(i + 1, end))
                } else {
                    Seq::<char>::empty()
                };
                assert(out@ =~= before + written);
                match filter_type_values(all, end, type_start, type_count) {
                    Outcome::Done(t) => assert(before + (written + t) =~= out@ + t),
                    _ => {},
                }
            }
            i = j;
        } else {
            out.append(line);
            out.append("\n");
            proof {
                match filter_type_values(all, i + 1, type_start, type_count) {
                    Outcome::Done(t) => assert(before + (line@ + "\n"@ + t) =~= out@ + t),
                    _ => {},
                }
            }
            i = i + 1;
        }
    }
    proof {
        assert(out@ + Seq::<char>::empty() =~= out@);
    }
    Ok(out)
}

} // verus!

verus! {

/// What one line of `Il2CppCompilerCalculateTypeValuesTable.cpp` adds to
/// the declarations: a size or field offset table declaration of one of
/// the image's types is kept.
pub open spec fn table_decl_line(l: Seq<char>, type_start: u32, type_count: u32) -> Outcome<Seq<char>> {
    if has_prefix(l, "extern const Il2CppTypeDefinitionSizes"@) {
        match size_decl_num(l) {
            Outcome::Panic => Outcome::Panic,
            Outcome::Fail(f) => Outcome::Fail(f),
            Outcome::Done(n) => Outcome::Done(
                if in_image(n, type_start, type_count) {
                    l + "\n"@
                } else {
                    Seq::empty()
                },
            ),
        }
    } else if has_prefix(l, "IL2CPP_EXTERN_C_CONST int32_t g_FieldOffsetTable"@) {
        let s = before_char(l.skip("IL2CPP_EXTERN_C_CONST int32_t g_FieldOffsetTable"@.len() as int), '[');
        match parse_unsigned(s, u32::MAX as nat) {
            None => Outcome::Fail(Fault::InvalidNumber(s)),
            Some(n) => Outcome::Done(
                if in_image(n, type_start, type_count) {
                    l + "\n"@
                } else {
                    Seq::empty()
                },
            ),
        }
    } else {
        Outcome::Done(Seq::empty())
    }
}

/// The declarations of the image's types, in order; the first line that
/// fails decides.
pub open spec fn table_decls(ls: Seq<Seq<char>>, type_start: u32, type_count: u32) -> Outcome<Seq<char>>
    decreases ls.len(),
{
    if ls.len() == 0 {
        Outcome::Done(Seq::empty())
    } else {
        match table_decls(ls.drop_last(), type_start, type_count) {
            Outcome::Done(t) => match table_decl_line(ls.last(), type_start, type_count) {
                Outcome::Done(u) => Outcome::Done(t + u),
                other => other,
            },
            other => other,
        }
    }
}

/// `Il2CppCompilerCalculateTypeValuesTable.cpp` for the image's types: the
/// declarations of its types, then its rows of the field offset table and
/// of the type definition sizes table.
pub open spec fn type_values_table(src: Seq<char>, type_start: u32, type_count: u32) -> Outcome<Seq<char>> {
    match table_decls(lines(src), type_start, type_count) {
        Outcome::Panic => Outcome::Panic,
        Outcome::Fail(f) => Outcome::Fail(f),
        Outcome::Done(decls) => match table_slice(
            src,
            "IL2CPP_EXTERN_C_CONST int32_t* g_FieldOffsetTable"@,
            2 + type_start as nat,
            type_count as nat,
        ) {
            None => Outcome::Fail(Fault::TableNotFound("g_FieldOffsetTable"@)),
            Some(offsets) => match table_slice(
                src,
                "IL2CPP_EXTERN_C_CONST Il2CppTypeDefinitionSizes* g_Il2CppTypeDefinitionSizesTable"@,
                2 + type_start as nat,
                type_count as nat,
            ) {
                None => Outcome::Fail(Fault::TableNotFound("g_Il2CppTypeDefinitionSizesTable"@)),
                Some(sizes) => Outcome::Done(
                    codegen_header() + decls + "IL2CPP_EXTERN_C_CONST int32_t* g_FieldOffsetTable["@
                        + decimal(type_count as nat) + "] =\n{\n"@ + lines_text(offsets) + "};\n"@
                        + "IL2CPP_EXTERN_C_CONST Il2CppTypeDefinitionSizes* g_Il2CppTypeDefinitionSizesTable["@
                        + decimal(type_count as nat) + "] =\n{\n"@ + lines_text(sizes) + "};\n"@,
                ),
            },
        },
    }
}

/// Appends each line of `ls[a..b)` with a line break.
fn push_lines(out: &mut String, ls: &Vec<&str>, a: usize, b: usize)
    requires
        a <= b <= ls@.len(),
    ensures
        final(out)@ == old(out)@ + lines_text(views(ls@).subrange(a as int, b as int)),
{
    let ghost all = views(ls@);
    let mut i: usize = a;
    proof {
        assert(all.subrange(a as int, a as int) =~= Seq::<Seq<char>>::empty());
        assert(old(out)@ + Seq::<char>::empty() =~= old(out)@);
    }
    while i < b
        invariant
            a <= i <= b <= ls@.len(),
            all == views(ls@),
            out@ == old(out)@ + lines_text(all.subrange(a as int, i as int)),
        decreases b - i,
    {
        out.append(ls[i]);
        out.append("\n");
        proof {
            assert(all[i as int] == ls@[i as int]@);
            assert(all.subrange(a as int, i + 1).drop_last() =~= all.subrange(a as int, i as int));
            assert(all.subrange(a as int, i + 1).last() == all[i as int]);
            assert(out@ =~= old(out)@ + lines_text(all.subrange(a as int, i + 1)));
        }
        i = i + 1;
    }
}

/// Appends the rows of `table_slice(src, header, skip, count)`; `false`
/// (and nothing appended) where `header` stands nowhere in `src`.
fn push_slice(out: &mut String, src: &str, header: &str, skip: u32, count: u32) -> (found: bool)
    ensures
        match table_slice(src@, header@, 2 + skip as nat, count as nat) {
            None => !found && final(out)@ == old(out)@,
            Some(rows) => found && final(out)@ == old(out)@ + lines_text(rows),
        },
{
    let start = match find_str(src, header) {
        Some(p) => p,
        None => {
            return false;
        },
    };
    let len = src.unicode_len();
    let rest = src.substring_char(start, len);
    assert(rest@ =~= src@.skip(start as int));
    let ls = lines_of(rest);
    let n = ls.len();
    let a: u64 = 2 + skip as u64;
    let b: u64 = a + count as u64;
    let a2: usize = if a <= n as u64 {
        a as usize
    } else {
        n
    };
    let b2: usize = if b <= n as u64 {
        b as usize
    } else {
        n
    };
    push_lines(out, &ls, a2, b2);
    true
}

/// Builds `Il2CppCompilerCalculateTypeValuesTable.cpp` for the image (see
/// `type_values_table`).
pub fn type_values_table_source(src: &str, type_start: u32, type_count: u32) -> (r: Result<String, Error>)
    requires
        type_start + type_count <= u32::MAX,
        !(type_values_table(src@, type_start, type_count) is Panic),
    ensures
        match r {
            Ok(s) => type_values_table(src@, type_start, type_count) == Outcome::Done(s@),
            Err(e) => type_values_table(src@, type_start, type_count) == Outcome::<Seq<char>>::Fail(e@),
        },
{
    let ls = lines_of(src);
    let n = ls.len();
    let ghost all = views(ls@);
    let mut decls = String::new();
    let mut i: usize = 0;
    proof {
        reveal_strlit("extern const Il2CppTypeDefinitionSizes");
        reveal_strlit("IL2CPP_EXTERN_C_CONST int32_t g_FieldOffsetTable");
        assert(all.take(0) =~= Seq::<Seq<char>>::empty());
    }
    while i < n
        invariant
            0 <= i <= n,
            n == ls@.len(),
            all == views(ls@),
            all == lines(src@),
            type_start + type_count <= u32::MAX,
            !(type_values_table(src@, type_start, type_count) is Panic),
            table_decls(all.take(i as int), type_start, type_count) == Outcome::Done(decls@),
        decreases n - i,
    {
        let line = ls[i];
        let ghost t1 = all.take(i + 1);
        proof {
            assert(all[i as int] == line@);
            assert(t1.drop_last() =~= all.take(i as int));
            assert(t1.last() == line@);
        }
        let ghost before = decls@;
        if starts_with(line, "extern const Il2CppTypeDefinitionSizes") {
            proof {
                if size_decl_num(line@) is Panic {
                    lemma_decls_stop(all, i + 1, type_start, type_count);
                    assert(false);
                }
            }
            let num = match size_decl_num_str(line) {
                Ok(v) => v,
                Err(e) => {
                    proof {
                        lemma_decls_stop(all, i + 1, type_start, type_count);
                    }
                    return Err(e);
                },
            };
            if type_start <= num && num < type_start + type_count {
                decls.append(line);
                decls.append("\n");
            }
            proof {
                let added = if in_image(num as nat, type_start, type_count) {
                    line@ + "\n"@
                } else {
                    Seq::<char>::empty()
                };
                assert(decls@ =~= before + added);
                assert(table_decl_line(line@, type_start, type_count) == Outcome::Done(added));
            }
        } else if let Some(rest) = strip_prefix(line, "IL2CPP_EXTERN_C_CONST int32_t g_FieldOffsetTable") {
            let s = before_char_str(rest, '[');
            match parse_u32(s) {
                Some(num) => {
                    if type_start <= num && num < type_start + type_count {
                        decls.append(line);
                        decls.append("\n");
                    }
                    proof {
                        let added = if in_image(num as nat, type_start, type_count) {
                            line@ + "\n"@
                        } else {
                            Seq::<char>::empty()
                        };
                        assert(decls@ =~= before + added);
                        assert(!has_prefix(line@, "extern const Il2CppTypeDefinitionSizes"@));
                        assert(rest@ == line@.skip("IL2CPP_EXTERN_C_CONST int32_t g_FieldOffsetTable"@.len() as int));
                        assert(table_decl_line(line@, type_start, type_count) == Outcome::Done(added));
                    }
                },
                None => {
                    proof {
                        lemma_decls_stop(all, i + 1, type_start, type_count);
                    }
                    return Err(Error::InvalidNumber(s.to_string()));
                },
            }
        } else {
            proof {
                assert(table_decl_line(line@, type_start, type_count) == Outcome::Done(Seq::<char>::empty()));
                assert(decls@ =~= before + Seq::<char>::empty());
            }
        }
        proof {
            assert(table_decls(t1, type_start, type_count) == Outcome::Done(decls@));
        }
        i = i + 1;
    }
    proof {
        assert(all.take(n as int) =~= all);
    }
    let mut out = String::new();
    out.append("#include \"codegen/il2cpp-codegen.h\"\n#include \"merge/codegen.h\"\n\n");
    out.append(decls.as_str());
    out.append("IL2CPP_EXTERN_C_CONST int32_t* g_FieldOffsetTable[");
    push_decimal(&mut out, type_count as usize);
    out.append("] =\n{\n");
    if !push_slice(&mut out, src, "IL2CPP_EXTERN_C_CONST int32_t* g_FieldOffsetTable", type_start, type_count) {
        return Err(Error::TableNotFound("g_FieldOffsetTable".to_string()));
    }
    out.append("};\n");
    out.append("IL2CPP_EXTERN_C_CONST Il2CppTypeDefinitionSizes* g_Il2CppTypeDefinitionSizesTable[");
    push_decimal(&mut out, type_count as usize);
    out.append("] =\n{\n");
    if !push_slice(
        &mut out,
        src,
        "IL2CPP_EXTERN_C_CONST Il2CppTypeDefinitionSizes* g_Il2CppTypeDefinitionSizesTable",
        type_start,
        type_count,
    ) {
        return Err(Error::TableNotFound("g_Il2CppTypeDefinitionSizesTable".to_string()));
    }
    out.append("};\n");
    proof {
        match type_values_table(src@, type_start, type_count) {
            Outcome::Done(t) => assert(out@ =~= t),
            _ => {},
        }
    }
    Ok(out)
}

/// Declarations that have stopped at a line stay stopped there.
proof fn lemma_decls_stop(ls: Seq<Seq<char>>, k: int, type_start: u32, type_count: u32)
    requires
        0 <= k <= ls.len(),
        !(table_decls(ls.take(k), type_start, type_count) is Done),
    ensures
        table_decls(ls, type_start, type_count) == table_decls(ls.take(k), type_start, type_count),
    decreases ls.len() - k,
{
    if k < ls.len() {
        assert(ls.take(k + 1).drop_last() =~= ls.take(k));
        lemma_decls_stop(ls, k + 1, type_start, type_count);
    } else {
        assert(ls.take(k) =~= ls);
    }
}

} // verus!

verus! {

/// Both files for the image: `Il2CppCompilerCalculateTypeValues.cpp` from
/// `values_src` (see `filter_type_values`), then
/// `Il2CppCompilerCalculateTypeValuesTable.cpp` from `table_src` (see
/// `type_values_table`); the first error stops.
pub fn transform(values_src: &str, table_src: &str, type_start: u32, type_count: u32) -> (r: Result<
    (String, String),
    Error,
>)
    requires
        type_start + type_count <= u32::MAX,
        !(filter_type_values(lines(values_src@), 0, type_start, type_count) is Panic),
        filter_type_values(lines(values_src@), 0, type_start, type_count) is Done ==> !(type_values_table(
            table_src@,
            type_start,
            type_count,
        ) is Panic),
    ensures
        match filter_type_values(lines(values_src@), 0, type_start, type_count) {
            Outcome::Fail(f) => r matches Err(e) && e@ == f,
            Outcome::Done(v) => match type_values_table(table_src@, type_start, type_count) {
                Outcome::Fail(f) => r matches Err(e) && e@ == f,
                Outcome::Done(t) => r matches Ok((a, b)) && a@ == v && b@ == t,
                Outcome::Panic => false,
            },
            Outcome::Panic => false,
        },
{
    let values = type_values_source(values_src, type_start, type_count)?;
    let table = type_values_table_source(table_src, type_start, type_count)?;
    Ok((values, table))
}

} // verus!

verus! {

/// Each size or field offset declaration has the four words its type number
/// is read from, and each size declaration has its definition after it.
pub open spec fn type_value_lines_complete(ls: Seq<Seq<char>>) -> bool {
    forall|i: int|
        0 <= i < ls.len() ==> {
            &&& has_prefix(#[trigger] ls[i], "extern const Il2CppTypeDefinitionSizes"@) ==> words(ls[i]).len()
                >= 4 && i + 1 < ls.len()
            &&& has_prefix(ls[i], "IL2CPP_EXTERN_C const int32_t"@) ==> words(ls[i]).len() >= 4
        }
}

/// Each size declaration has the four words its type number is read from.
pub open spec fn table_lines_complete(ls: Seq<Seq<char>>) -> bool {
    forall|i: int|
        0 <= i < ls.len() && has_prefix(#[trigger] ls[i], "extern const Il2CppTypeDefinitionSizes"@)
            ==> words(ls[i]).len() >= 4
}

proof fn lemma_filter_complete(ls: Seq<Seq<char>>, i: int, type_start: u32, type_count: u32)
    requires
        type_value_lines_complete(ls),
        0 <= i,
    ensures
        !(filter_type_values(ls, i, type_start, type_count) is Panic),
    decreases ls.len() + 1 - i,
{
    if i < ls.len() {
        let l = ls[i];
        if has_prefix(l, "extern const Il2CppTypeDefinitionSizes"@) {
            lemma_filter_complete(ls, i + 2, type_start, type_count);
        } else if has_prefix(l, "IL2CPP_EXTERN_C const int32_t"@) {
            lemma_next_close(ls, i + 1);
            let e = next_close(ls, i + 1);
            let end = if e < ls.len() {
                e + 1
            } else {
                e
            };
            lemma_filter_complete(ls, end, type_start, type_count);
        } else {
            lemma_filter_complete(ls, i + 1, type_start, type_count);
        }
    }
}

proof fn lemma_table_complete(ls: Seq<Seq<char>>, type_start: u32, type_count: u32)
    requires
        table_lines_complete(ls),
    ensures
        !(table_decls(ls, type_start, type_count) is Panic),
    decreases ls.len(),
{
    if ls.len() > 0 {
        let p = ls.drop_last();
        assert(table_lines_complete(p)) by {
            assert forall|i: int|
                0 <= i < p.len() && has_prefix(#[trigger] p[i], "extern const Il2CppTypeDefinitionSizes"@)
                    implies words(p[i]).len() >= 4 by {
                assert(p[i] == ls[i]);
            }
        }
        lemma_table_complete(p, type_start, type_count);
        assert(ls.last() == ls[ls.len() - 1]);
    }
}

/// Whether the size and field offset declarations of both files can be read
/// (see `type_value_lines_complete` and `table_lines_complete`): where they
/// can, `transform` does not stop short on any image.
pub fn type_value_files_complete(values_src: &str, table_src: &str) -> (b: bool)
    ensures
        b == (type_value_lines_complete(lines(values_src@)) && table_lines_complete(lines(table_src@))),
        b ==> forall|type_start: u32, type_count: u32|
            !(#[trigger] filter_type_values(lines(values_src@), 0, type_start, type_count) is Panic) && !(
            type_values_table(table_src@, type_start, type_count) is Panic),
{
    let ls = lines_of(values_src);
    let ghost all = views(ls@);
    let mut i: usize = 0;
    while i < ls.len()
        invariant
            0 <= i <= ls@.len(),
            all == views(ls@),
            all == lines(values_src@),
            forall|j: int|
                0 <= j < i ==> {
                    &&& has_prefix(#[trigger] all[j], "extern const Il2CppTypeDefinitionSizes"@) ==> words(all[j]).len()
                        >= 4 && j + 1 < all.len()
                    &&& has_prefix(all[j], "IL2CPP_EXTERN_C const int32_t"@) ==> words(all[j]).len() >= 4
                },
        decreases ls@.len() - i,
    {
        let line = ls[i];
        proof {
            assert(all[i as int] == line@);
        }
        let w = split_whitespace(line);
        let n = w.len();
        proof {
            assert(views(w@).len() == n);
        }
        if starts_with(line, "extern const Il2CppTypeDefinitionSizes") && (n < 4 || i + 1 >= ls.len()) {
            return false;
        }
        if starts_with(line, "IL2CPP_EXTERN_C const int32_t") && n < 4 {
            return false;
        }
        i = i + 1;
    }
    let ts = lines_of(table_src);
    let ghost tall = views(ts@);
    let mut j: usize = 0;
    while j < ts.len()
        invariant
            0 <= j <= ts@.len(),
            tall == views(ts@),
            tall == lines(table_src@),
            type_value_lines_complete(lines(values_src@)),
            forall|q: int|
                0 <= q < j && has_prefix(#[trigger] tall[q], "extern const Il2CppTypeDefinitionSizes"@)
                    ==> words(tall[q]).len() >= 4,
        decreases ts@.len() - j,
    {
        let line = ts[j];
        proof {
            assert(tall[j as int] == line@);
        }
        let w = split_whitespace(line);
        let n = w.len();
        proof {
            assert(views(w@).len() == n);
        }
        if starts_with(line, "extern const Il2CppTypeDefinitionSizes") && n < 4 {
            return false;
        }
        j = j + 1;
    }
    proof {
        assert forall|type_start: u32, type_count: u32|
            !(#[trigger] filter_type_values(lines(values_src@), 0, type_start, type_count) is Panic) && !(
            type_values_table(table_src@, type_start, type_count) is Panic) by {
            lemma_filter_complete(lines(values_src@), 0, type_start, type_count);
            lemma_table_complete(lines(table_src@), type_start, type_count);
        }
    }
    true
}

} // verus!
