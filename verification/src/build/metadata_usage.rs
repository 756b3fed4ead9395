//! `Il2CppMetadataUsage.c` for the mod: the metadata usage ids of the mod's
//! functions, renumbered by the mod's data, and the metadata usage table cut
//! down to the usages that they name.
use crate::build::parser::has_prefix;
use crate::error::{Error, Fault, Outcome};
use crate::text::{
    decimal, find, find_str, lines, lines_of, parse_u32, parse_unsigned, push_decimal, split_whitespace,
    starts_with, str_eq, trim, trim_end_char, trim_end_matches, trim_end_matches_char, trim_end_str,
    trim_start_matches, trim_start_str, trim_ws, views, words,
};
use vstd::hash_set::StringHashSet;
use vstd::prelude::*;

verus! {

/// The function whose metadata usage id a name such as
/// `F_m..._MetadataUsageId` is: the name without its last 16 characters.
pub open spec fn usage_id_fn(name: Seq<char>) -> Seq<char> {
    name.take(name.len() - 16)
}

/// One line of `Il2CppMetadataUsage.c` read for the usage ids of the
/// functions `funcs`: a `const uint32_t <name> = <id>;` of one of them adds
/// (name, id).
pub open spec fn usage_id_step(acc: Seq<(Seq<char>, u32)>, l: Seq<char>, funcs: Set<Seq<char>>) -> Outcome<
    Seq<(Seq<char>, u32)>,
> {
    if !has_prefix(l, "const uint32_t"@) {
        Outcome::Done(acc)
    } else {
        let w = words(l);
        if w.len() < 3 || w[2].len() < 16 {
            Outcome::Panic
        } else if !funcs.contains(usage_id_fn(w[2])) {
            Outcome::Done(acc)
        } else if w.len() < 5 {
            Outcome::Panic
        } else {
            let s = trim_end_char(w[4], ';');
            match parse_unsigned(s, u32::MAX as nat) {
                None => Outcome::Fail(Fault::InvalidNumber(s)),
                Some(id) => Outcome::Done(acc.push((w[2], id as u32))),
            }
        }
    }
}

/// The usage ids of the functions `funcs` that the lines `ls` define, in
/// order; the first line that fails decides.
pub open spec fn required_ids(ls: Seq<Seq<char>>, funcs: Set<Seq<char>>) -> Outcome<Seq<(Seq<char>, u32)>>
    decreases ls.len(),
{
    if ls.len() == 0 {
        Outcome::Done(Seq::empty())
    } else {
        match required_ids(ls.drop_last(), funcs) {
            Outcome::Done(acc) => usage_id_step(acc, ls.last(), funcs),
            other => other,
        }
    }
}

proof fn lemma_ids_stop(ls: Seq<Seq<char>>, k: int, funcs: Set<Seq<char>>)
    requires
        0 <= k <= ls.len(),
        !(required_ids(ls.take(k), funcs) is Done),
    ensures
        required_ids(ls, funcs) == required_ids(ls.take(k), funcs),
    decreases ls.len() - k,
{
    if k < ls.len() {
        assert(ls.take(k + 1).drop_last() =~= ls.take(k));
        lemma_ids_stop(ls, k + 1, funcs);
    } else {
        assert(ls.take(k) =~= ls);
    }
}

pub open spec fn id_views<'a>(v: Seq<(&'a str, u32)>) -> Seq<(Seq<char>, u32)> {
    v.map_values(|p: (&'a str, u32)| (p.0@, p.1))
}

/// The metadata usage ids of the mod's functions `mod_functions` (see
/// `required_ids`): their names and their ids in the generated metadata.
pub fn required_usage_ids<'a>(src: &'a str, mod_functions: &StringHashSet) -> (r: Result<Vec<(&'a str, u32)>, Error>)
    requires
        !(required_ids(lines(src@), mod_functions@) is Panic),
    ensures
        match r {
            Ok(v) => required_ids(lines(src@), mod_functions@) == Outcome::Done(id_views(v@)),
            Err(e) => required_ids(lines(src@), mod_functions@) == Outcome::<Seq<(Seq<char>, u32)>>::Fail(e@),
        },
{
    let ls = lines_of(src);
    let ghost all = views(ls@);
    let ghost funcs = mod_functions@;
    let mut out: Vec<(&'a str, u32)> = Vec::new();
    let mut i: usize = 0;
    proof {
        assert(all.take(0) =~= Seq::<Seq<char>>::empty());
        assert(id_views(out@) =~= Seq::<(Seq<char>, u32)>::empty());
    }
    while i < ls.len()
        invariant
            0 <= i <= ls@.len(),
            all == views(ls@),
            all == lines(src@),
            funcs == mod_functions@,
            !(required_ids(all, funcs) is Panic),
            required_ids(all.take(i as int), funcs) == Outcome::Done(id_views(out@)),
        decreases ls@.len() - i,
    {
        let line = ls[i];
        let ghost acc = id_views(out@);
        proof {
            assert(all[i as int] == line@);
            assert(all.take(i + 1).drop_last() =~= all.take(i as int));
            assert(all.take(i + 1).last() == line@);
            assert(required_ids(all.take(i + 1), funcs) == usage_id_step(acc, line@, funcs));
        }
        if starts_with(line, "const uint32_t") {
            let w = split_whitespace(line);
            proof {
                assert(views(w@).len() == w@.len());
            }
            if w.len() < 3 || w[2].unicode_len() < 16 {
                proof {
                    if w@.len() >= 3 {
                        assert(views(w@)[2] == w@[2]@);
                    }
                    lemma_ids_stop(all, i + 1, funcs);
                    assert(false);
                }
                return Err(Error::WrongWordCount);
            }
            proof {
                assert(views(w@)[2] == w@[2]@);
            }
            let name = w[2];
            let f = name.substring_char(0, name.unicode_len() - 16);
            if mod_functions.contains(f) {
                if w.len() < 5 {
                    proof {
                        lemma_ids_stop(all, i + 1, funcs);
                        assert(false);
                    }
                    return Err(Error::WrongWordCount);
                }
                proof {
                    assert(views(w@)[4] == w@[4]@);
                }
                let s = trim_end_matches_char(w[4], ';');
                match parse_u32(s) {
                    Some(id) => {
                        out.push((name, id));
                        proof {
                            assert(id_views(out@) =~= acc.push((name@, id)));
                        }
                    },
                    None => {
                        proof {
                            lemma_ids_stop(all, i + 1, funcs);
                            assert(all.take(ls@.len() as int) =~= all);
                        }
                        return Err(Error::InvalidNumber(s.to_string()));
                    },
                }
            }
        }
        i = i + 1;
    }
    proof {
        assert(all.take(ls@.len() as int) =~= all);
    }
    Ok(out)
}

} // verus!

verus! {

/// The name a row of the metadata usage table points at:
/// `(void**)(&name),` trimmed.
pub open spec fn usage_row_name(line: Seq<char>) -> Seq<char> {
    trim_end_str(trim_start_str(trim(line), "(void**)(&"@), "),"@)
}

/// A usage index whose row is past the end of the file.
pub open spec fn usage_out_of_range(ls: Seq<Seq<char>>, usages: Seq<usize>) -> bool {
    exists|k: int| 0 <= k < usages.len() && #[trigger] usages[k] + 3 >= ls.len()
}

/// The names of the usages `usages` (the rows of `g_MetadataUsages`, which
/// start three lines after its first mention).
pub open spec fn usage_names(src: Seq<char>, usages: Seq<usize>) -> Outcome<Seq<Seq<char>>> {
    match find(src, "const g_MetadataUsages"@) {
        None => Outcome::Fail(Fault::TableNotFound("g_MetadataUsages"@)),
        Some(p) => {
            let ls = lines(src.skip(p));
            if usage_out_of_range(ls, usages) {
                Outcome::Fail(Fault::MetadataUsageOutOfRange)
            } else {
                Outcome::Done(usages.map_values(|u: usize| usage_row_name(ls[u + 3])))
            }
        },
    }
}

/// A declaration of a metadata usage (a type, class, method, field or
/// string literal).
pub open spec fn usage_decl(l: Seq<char>) -> bool {
    ||| has_prefix(l, "const RuntimeType*"@)
    ||| has_prefix(l, "RuntimeClass*"@)
    ||| has_prefix(l, "const RuntimeMethod*"@)
    ||| has_prefix(l, "RuntimeField*"@)
    ||| has_prefix(l, "String_t*"@)
}

/// The words of a usage declaration; the second is its name.
pub open spec fn usage_decl_words(l: Seq<char>) -> Seq<Seq<char>> {
    words(trim_end_char(trim_start_str(l, "const "@), ';'))
}

pub open spec fn usage_rows(names: Seq<Seq<char>>) -> Seq<char>
    decreases names.len(),
{
    if names.len() == 0 {
        Seq::empty()
    } else {
        usage_rows(names.drop_last()) + "    (void**)(&"@ + names.last() + "),\n"@
    }
}

/// The new metadata usage table.
pub open spec fn usage_table(names: Seq<Seq<char>>) -> Seq<char> {
    "void** const g_MetadataUsages["@ + decimal(names.len()) + "] = \n{\n"@ + usage_rows(names) + "};\n"@
}

/// The reading of `Il2CppMetadataUsage.c` after some lines.
pub ghost struct UsageScan {
    pub out: Seq<char>,
    /// The declarations of the usages kept.
    pub fds: Seq<Seq<char>>,
    /// Inside the old table, which is dropped.
    pub skipping: bool,
    pub panicked: bool,
}

/// One line read, with `names` the usages kept: their declarations are
/// kept, the table is replaced, the usage ids are dropped (they are written
/// anew), every other line is kept.
pub open spec fn usage_step(st: UsageScan, l: Seq<char>, names: Seq<Seq<char>>) -> UsageScan {
    if st.panicked {
        st
    } else if st.skipping {
        if l == "};"@ {
            UsageScan { skipping: false, ..st }
        } else {
            st
        }
    } else if usage_decl(l) {
        let w = usage_decl_words(l);
        if w.len() < 2 {
            UsageScan { panicked: true, ..st }
        } else if names.contains(w[1]) {
            UsageScan { out: st.out + l + "\n"@, fds: st.fds.push(l), ..st }
        } else {
            st
        }
    } else if has_prefix(l, "void** const g_MetadataUsages"@) {
        UsageScan { out: st.out + usage_table(names), skipping: true, ..st }
    } else if !has_prefix(trim_start_str(l, "extern "@), "const uint32_t"@) {
        UsageScan { out: st.out + l + "\n"@, ..st }
    } else {
        st
    }
}

pub open spec fn usage_run(ls: Seq<Seq<char>>, names: Seq<Seq<char>>) -> UsageScan
    decreases ls.len(),
{
    if ls.len() == 0 {
        UsageScan { out: Seq::empty(), fds: Seq::empty(), skipping: false, panicked: false }
    } else {
        usage_step(usage_run(ls.drop_last(), names), ls.last(), names)
    }
}

/// The usage ids written anew: each declared, then defined as its new index.
pub open spec fn new_id_lines(ids: Seq<(Seq<char>, u32)>, news: Seq<usize>) -> Seq<char>
    decreases ids.len(),
{
    if ids.len() == 0 {
        Seq::empty()
    } else {
        let k = ids.len() - 1;
        new_id_lines(ids.drop_last(), news) + "extern const uint32_t "@ + ids[k].0 + ";\n"@ + "const uint32_t "@
            + ids[k].0 + " = "@ + decimal(news[k] as nat) + ";\n"@
    }
}

proof fn lemma_usage_panicked(ls: Seq<Seq<char>>, k: int, names: Seq<Seq<char>>)
    requires
        0 <= k <= ls.len(),
        usage_run(ls.take(k), names).panicked,
    ensures
        usage_run(ls, names).panicked,
    decreases ls.len() - k,
{
    if k < ls.len() {
        assert(ls.take(k + 1).drop_last() =~= ls.take(k));
        lemma_usage_panicked(ls, k + 1, names);
    } else {
        assert(ls.take(k) =~= ls);
    }
}

} // verus!

verus! {

/// The names of the usages `usages` (see `usage_names`).
fn read_usage_names<'a>(src: &'a str, usages: &Vec<usize>) -> (r: Result<Vec<&'a str>, Error>)
    requires
        forall|k: int| 0 <= k < usages@.len() ==> #[trigger] usages@[k] + 3 <= usize::MAX,
    ensures
        match usage_names(src@, usages@) {
            Outcome::Done(names) => r matches Ok(v) && views(v@) == names,
            Outcome::Fail(f) => r matches Err(e) && e@ == f,
            Outcome::Panic => false,
        },
{
    let start = match find_str(src, "const g_MetadataUsages") {
        Some(p) => p,
        None => {
            return Err(Error::TableNotFound("g_MetadataUsages".to_string()));
        },
    };
    let len = src.unicode_len();
    let rest = src.substring_char(start, len);
    assert(rest@ =~= src@.skip(start as int));
    let ls = lines_of(rest);
    let ghost all = views(ls@);
    let mut out: Vec<&'a str> = Vec::new();
    let mut k: usize = 0;
    while k < usages.len()
        invariant
            0 <= k <= usages@.len(),
            all == views(ls@),
            all == lines(src@.skip(start as int)),
            find(src@, "const g_MetadataUsages"@) == Some(start as int),
            forall|j: int| 0 <= j < usages@.len() ==> #[trigger] usages@[j] + 3 <= usize::MAX,
            forall|j: int| 0 <= j < k ==> #[trigger] usages@[j] + 3 < all.len(),
            views(out@) == usages@.take(k as int).map_values(|u: usize| usage_row_name(all[u + 3])),
        decreases usages@.len() - k,
    {
        let u = usages[k];
        if u + 3 >= ls.len() {
            proof {
                assert(usage_out_of_range(all, usages@));
            }
            return Err(Error::MetadataUsageOutOfRange);
        }
        let row = ls[u + 3];
        let name = trim_end_matches(trim_start_matches(trim_ws(row), "(void**)(&"), "),");
        let ghost prev = out@;
        out.push(name);
        proof {
            assert(all[u + 3] == row@);
            assert(views(prev).len() == k);
            assert forall|j: int| 0 <= j < k + 1 implies #[trigger] views(out@)[j] == usages@.take(k + 1).map_values(
                |u: usize| usage_row_name(all[u + 3]),
            )[j] by {
                if j < k {
                    assert(out@[j] == prev[j]);
                    assert(views(prev)[j] == usages@.take(k as int).map_values(|u: usize| usage_row_name(all[u + 3]))[j]);
                }
            }
            assert(views(out@) =~= usages@.take(k + 1).map_values(|u: usize| usage_row_name(all[u + 3])));
        }
        k = k + 1;
    }
    proof {
        assert(usages@.take(usages@.len() as int) =~= usages@);
        assert(!usage_out_of_range(all, usages@));
    }
    Ok(out)
}

fn push_usage_table(out: &mut String, names: &Vec<&str>)
    ensures
        final(out)@ == old(out)@ + usage_table(views(names@)),
{
    let ghost ns = views(names@);
    out.append("void** const g_MetadataUsages[");
    push_decimal(out, names.len());
    out.append("] = \n{\n");
    let ghost head = out@;
    let mut i: usize = 0;
    proof {
        assert(ns.take(0) =~= Seq::<Seq<char>>::empty());
        assert(head + Seq::<char>::empty() =~= head);
    }
    while i < names.len()
        invariant
            0 <= i <= names@.len(),
            ns == views(names@),
            out@ == head + usage_rows(ns.take(i as int)),
        decreases names@.len() - i,
    {
        out.append("    (void**)(&");
        out.append(names[i]);
        out.append("),\n");
        proof {
            assert(ns[i as int] == names@[i as int]@);
            assert(ns.take(i + 1).drop_last() =~= ns.take(i as int));
            assert(out@ =~= head + usage_rows(ns.take(i + 1)));
        }
        i = i + 1;
    }
    out.append("};\n");
    proof {
        assert(ns.take(names@.len() as int) =~= ns);
        assert(out@ =~= old(out)@ + usage_table(ns));
    }
}

/// Builds `Il2CppMetadataUsage.c` for the mod from the generated one: the
/// mod's usage ids `ids` get the new indices `new_ids` that the mod's data
/// gave them, and the usage table keeps the usages `usage_list` (in the
/// order the mod's data lists them) with their declarations (see
/// `usage_step`). Gives the new source, the declarations of the usages kept
/// and how many they are.
pub fn transform(src: &str, ids: &Vec<(&str, u32)>, new_ids: &Vec<usize>, usage_list: &Vec<usize>) -> (r: Result<
    (String, Vec<String>, usize),
    Error,
>)
    requires
        new_ids@.len() == ids@.len(),
        forall|k: int| 0 <= k < usage_list@.len() ==> #[trigger] usage_list@[k] + 3 <= usize::MAX,
        usage_names(src@, usage_list@) matches Outcome::Done(names) ==> !usage_run(lines(src@), names).panicked,
    ensures
        match usage_names(src@, usage_list@) {
            Outcome::Done(names) => {
                let st = usage_run(lines(src@), names);
                r matches Ok((s, fds, n)) && s@ == st.out + new_id_lines(id_views(ids@), new_ids@)
                    && crate::build::sources::strings(fds@) == st.fds && n == names.len()
            },
            Outcome::Fail(f) => r matches Err(e) && e@ == f,
            Outcome::Panic => false,
        },
{
    let mut new_usage_ids = String::new();
    let mut j: usize = 0;
    let ghost iv = id_views(ids@);
    proof {
        assert(iv.take(0) =~= Seq::<(Seq<char>, u32)>::empty());
    }
    while j < ids.len()
        invariant
            0 <= j <= ids@.len(),
            new_ids@.len() == ids@.len(),
            iv == id_views(ids@),
            new_usage_ids@ == new_id_lines(iv.take(j as int), new_ids@),
        decreases ids@.len() - j,
    {
        let (name, _) = ids[j];
        new_usage_ids.append("extern const uint32_t ");
        new_usage_ids.append(name);
        new_usage_ids.append(";\n");
        new_usage_ids.append("const uint32_t ");
        new_usage_ids.append(name);
        new_usage_ids.append(" = ");
        push_decimal(&mut new_usage_ids, new_ids[j]);
        new_usage_ids.append(";\n");
        proof {
            let t = iv.take(j + 1);
            assert(t.drop_last() =~= iv.take(j as int));
            assert(t[j as int].0 == name@);
            assert(new_usage_ids@ =~= new_id_lines(t, new_ids@));
        }
        j = j + 1;
    }
    proof {
        assert(iv.take(ids@.len() as int) =~= iv);
    }
    let names = read_usage_names(src, usage_list)?;
    let ghost ns = views(names@);
    let mut names_set = StringHashSet::new();
    let mut q: usize = 0;
    while q < names.len()
        invariant
            0 <= q <= names@.len(),
            ns == views(names@),
            forall|x: Seq<char>| names_set@.contains(x) <==> ns.take(q as int).contains(x),
        decreases names@.len() - q,
    {
        names_set.insert(names[q].to_string());
        proof {
            let t0 = ns.take(q as int);
            let t1 = ns.take(q + 1);
            assert forall|x: Seq<char>| t1.contains(x) <==> (t0.contains(x) || x == names@[q as int]@) by {
                if t0.contains(x) {
                    let z = choose|z: int| 0 <= z < t0.len() && t0[z] == x;
                    assert(t1[z] == x);
                }
                if t1.contains(x) && x != names@[q as int]@ {
                    let z = choose|z: int| 0 <= z < t1.len() && t1[z] == x;
                    assert(t0[z] == x);
                }
                assert(t1[q as int] == names@[q as int]@);
            }
        }
        q = q + 1;
    }
    proof {
        assert(ns.take(names@.len() as int) =~= ns);
    }
    let ls = lines_of(src);
    let ghost all = views(ls@);
    let mut out = String::new();
    let mut fds: Vec<String> = Vec::new();
    let mut skipping = false;
    let mut i: usize = 0;
    proof {
        reveal_strlit("};");
        assert(all.take(0) =~= Seq::<Seq<char>>::empty());
        assert(crate::build::sources::strings(fds@) =~= Seq::<Seq<char>>::empty());
    }
    while i < ls.len()
        invariant
            0 <= i <= ls@.len(),
            all == views(ls@),
            all == lines(src@),
            ns == views(names@),
            usage_names(src@, usage_list@) == Outcome::Done(ns),
            !usage_run(all, ns).panicked,
            forall|x: Seq<char>| names_set@.contains(x) <==> ns.contains(x),
            ({
                let st = usage_run(all.take(i as int), ns);
                &&& !st.panicked
                &&& out@ == st.out
                &&& crate::build::sources::strings(fds@) == st.fds
                &&& skipping == st.skipping
            }),
        decreases ls@.len() - i,
    {
        let line = ls[i];
        let ghost st = usage_run(all.take(i as int), ns);
        proof {
            assert(all[i as int] == line@);
            assert(all.take(i + 1).drop_last() =~= all.take(i as int));
            assert(all.take(i + 1).last() == line@);
        }
        if skipping {
            if str_eq(line, "};") {
                skipping = false;
            }
        } else if starts_with(line, "const RuntimeType*") || starts_with(line, "RuntimeClass*") || starts_with(
            line,
            "const RuntimeMethod*",
        ) || starts_with(line, "RuntimeField*") || starts_with(line, "String_t*") {
            let w = split_whitespace(trim_end_matches_char(trim_start_matches(line, "const "), ';'));
            proof {
                assert(views(w@).len() == w@.len());
            }
            if w.len() < 2 {
                proof {
                    lemma_usage_panicked(all, i + 1, ns);
                    assert(all.take(ls@.len() as int) =~= all);
                    assert(false);
                }
                return Err(Error::WrongWordCount);
            }
            proof {
                assert(views(w@)[1] == w@[1]@);
            }
            if names_set.contains(w[1]) {
                out.append(line);
                out.append("\n");
                let ghost f0 = fds@;
                fds.push(line.to_string());
                proof {
                    assert(crate::build::sources::strings(fds@) =~= crate::build::sources::strings(f0).push(line@));
                }
            }
        } else if starts_with(line, "void** const g_MetadataUsages") {
            push_usage_table(&mut out, &names);
            skipping = true;
        } else if !starts_with(trim_start_matches(line, "extern "), "const uint32_t") {
            out.append(line);
            out.append("\n");
        }
        i = i + 1;
    }
    proof {
        assert(all.take(ls@.len() as int) =~= all);
    }
    out.append(new_usage_ids.as_str());
    let n = names.len();
    Ok((out, fds, n))
}

} // verus!

verus! {

/// Every usage id line has the words its name and id are read from.
pub open spec fn id_lines_complete(ls: Seq<Seq<char>>, funcs: Set<Seq<char>>) -> bool {
    forall|i: int|
        0 <= i < ls.len() && has_prefix(#[trigger] ls[i], "const uint32_t"@) ==> {
            let w = words(ls[i]);
            &&& w.len() >= 3 && w[2].len() >= 16
            &&& funcs.contains(usage_id_fn(w[2])) ==> w.len() >= 5
        }
}

/// Every usage declaration has a name.
pub open spec fn decl_lines_complete(ls: Seq<Seq<char>>) -> bool {
    forall|i: int| 0 <= i < ls.len() && usage_decl(#[trigger] ls[i]) ==> usage_decl_words(ls[i]).len() >= 2
}

proof fn lemma_ids_complete(ls: Seq<Seq<char>>, funcs: Set<Seq<char>>)
    requires
        id_lines_complete(ls, funcs),
    ensures
        !(required_ids(ls, funcs) is Panic),
    decreases ls.len(),
{
    if ls.len() > 0 {
        let p = ls.drop_last();
        assert(id_lines_complete(p, funcs)) by {
            assert forall|i: int| 0 <= i < p.len() && has_prefix(#[trigger] p[i], "const uint32_t"@) implies {
                let w = words(p[i]);
                &&& w.len() >= 3 && w[2].len() >= 16
                &&& funcs.contains(usage_id_fn(w[2])) ==> w.len() >= 5
            } by {
                assert(p[i] == ls[i]);
            }
        }
        lemma_ids_complete(p, funcs);
        assert(ls.last() == ls[ls.len() - 1]);
    }
}

proof fn lemma_decls_complete(ls: Seq<Seq<char>>, names: Seq<Seq<char>>)
    requires
        decl_lines_complete(ls),
    ensures
        !usage_run(ls, names).panicked,
    decreases ls.len(),
{
    if ls.len() > 0 {
        let p = ls.drop_last();
        assert(decl_lines_complete(p)) by {
            assert forall|i: int| 0 <= i < p.len() && usage_decl(#[trigger] p[i]) implies usage_decl_words(p[i]).len()
                >= 2 by {
                assert(p[i] == ls[i]);
            }
        }
        lemma_decls_complete(p, names);
        assert(ls.last() == ls[ls.len() - 1]);
    }
}

/// Whether the usage ids and usage declarations of `src` can be read (see
/// `id_lines_complete` and `decl_lines_complete`): where they can, neither
/// `required_usage_ids` nor `transform` stops short.
pub fn usage_lines_complete(src: &str, mod_functions: &StringHashSet) -> (b: bool)
    ensures
        b == (id_lines_complete(lines(src@), mod_functions@) && decl_lines_complete(lines(src@))),
        b ==> !(required_ids(lines(src@), mod_functions@) is Panic),
        b ==> forall|names: Seq<Seq<char>>| !(#[trigger] usage_run(lines(src@), names)).panicked,
{
    let ls = lines_of(src);
    let ghost all = views(ls@);
    let mut i: usize = 0;
    while i < ls.len()
        invariant
            0 <= i <= ls@.len(),
            all == views(ls@),
            all == lines(src@),
            forall|j: int|
                0 <= j < i && has_prefix(#[trigger] all[j], "const uint32_t"@) ==> {
                    let w = words(all[j]);
                    &&& w.len() >= 3 && w[2].len() >= 16
                    &&& mod_functions@.contains(usage_id_fn(w[2])) ==> w.len() >= 5
                },
            forall|j: int| 0 <= j < i && usage_decl(#[trigger] all[j]) ==> usage_decl_words(all[j]).len() >= 2,
        decreases ls@.len() - i,
    {
        let line = ls[i];
        proof {
            assert(all[i as int] == line@);
        }
        if starts_with(line, "const uint32_t") {
            let w = split_whitespace(line);
            proof {
                assert(views(w@).len() == w@.len());
            }
            if w.len() < 3 || w[2].unicode_len() < 16 {
                proof {
                    if w@.len() >= 3 {
                        assert(views(w@)[2] == w@[2]@);
                    }
                }
                return false;
            }
            proof {
                assert(views(w@)[2] == w@[2]@);
            }
            let f = w[2].substring_char(0, w[2].unicode_len() - 16);
            if mod_functions.contains(f) && w.len() < 5 {
                return false;
            }
        }
        if starts_with(line, "const RuntimeType*") || starts_with(line, "RuntimeClass*") || starts_with(
            line,
            "const RuntimeMethod*",
        ) || starts_with(line, "RuntimeField*") || starts_with(line, "String_t*") {
            let w = split_whitespace(trim_end_matches_char(trim_start_matches(line, "const "), ';'));
            proof {
                assert(views(w@).len() == w@.len());
            }
            if w.len() < 2 {
                return false;
            }
        }
        i = i + 1;
    }
    proof {
        lemma_ids_complete(all, mod_functions@);
        assert forall|names: Seq<Seq<char>>| !(#[trigger] usage_run(all, names)).panicked by {
            lemma_decls_complete(all, names);
        }
    }
    true
}

} // verus!
