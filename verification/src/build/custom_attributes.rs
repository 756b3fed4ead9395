//! `Il2CppAttributes.cpp` for the mod: the custom attribute generators of the
//! mod's image, `custom_attribute_start..custom_attribute_start +
//! custom_attribute_count` of `g_AttributeGenerators`, with their bodies, and
//! the generator table cut down to them.
use crate::build::function_usages::{
    decl_texts, insert_decls, lemma_first_unhandled, lemma_usages_push, ModFunctionUsages,
};
use crate::build::parser::{
    has_prefix, has_suffix, lemma_rows_before_close, parse_call, parse_decl, rows_before_close, table_slice, table_slice_lines,
    try_parse_call, FnDecl,
};
use crate::error::{Error, Fault};
use crate::text::{
    before_char, before_char_str, decimal, ends_with, lines, lines_of, push_decimal, starts_with, str_eq,
    trim, trim_end_char, trim_end_matches_char, trim_start_char, trim_start_matches, trim_start_matches_char,
    trim_start_str, trim_ws, views,
};
use vstd::hash_set::StringHashSet;
use vstd::prelude::*;

verus! {

/// The header of the generator table.
pub open spec fn generators_header() -> Seq<char> {
    "const CustomAttributesCacheGenerator g_AttributeGenerators"@
}

/// The generator a table row names: `&name,` trimmed.
pub open spec fn generator_name(row: Seq<char>) -> Seq<char> {
    trim_end_char(trim_start_char(trim(row), '&'), ',')
}

/// The names of the image's generators: rows `3 + start` to `3 + start +
/// count` after the table's header, up to the closing brace; `None` where the
/// table stands nowhere.
pub open spec fn generator_names(src: Seq<char>, start: u32, count: u32) -> Option<Seq<Seq<char>>> {
    match table_slice(src, generators_header(), 3 + start as nat, count as nat) {
        None => None,
        Some(rows) => Some(
            rows.take(rows_before_close(rows) as int).map_values(|r: Seq<char>| generator_name(r)),
        ),
    }
}

/// The rows of the new generator table.
pub open spec fn generator_rows(names: Seq<Seq<char>>) -> Seq<char>
    decreases names.len(),
{
    if names.len() == 0 {
        Seq::empty()
    } else {
        generator_rows(names.drop_last()) + "    &"@ + names.last() + ",\n"@
    }
}

/// The new generator table.
pub open spec fn generator_table(names: Seq<Seq<char>>) -> Seq<char> {
    "const CustomAttributesCacheGenerator g_AttributeGenerators["@ + decimal(names.len()) + "] =\n{\n"@
        + generator_rows(names) + "};\n"@
}

/// Where the reading of `Il2CppAttributes.cpp` stands after some lines.
pub ghost struct AttrScan {
    /// What has been written.
    pub out: Seq<char>,
    /// The method calls in the bodies of the image's generators, in order.
    pub calls: Seq<Seq<char>>,
    /// For each call, how many forward declarations came before it.
    pub call_decls: Seq<nat>,
    /// The forward declarations (name, declaration without `;`), in order.
    pub decls: Seq<(Seq<char>, Seq<char>)>,
    /// Inside a generator's body: whether the generator is the image's.
    pub body: Option<bool>,
    /// The generator table has been written: the rest is dropped.
    pub done: bool,
}

/// The scan before any line.
pub open spec fn attr_start() -> AttrScan {
    AttrScan {
        out: Seq::empty(),
        calls: Seq::empty(),
        call_decls: Seq::empty(),
        decls: Seq::empty(),
        body: None,
        done: false,
    }
}

/// The name of the generator that a `static void` line defines.
pub open spec fn generator_def_name(line: Seq<char>) -> Seq<char> {
    before_char(trim_start_str(line, "static void "@), '(')
}

/// The forward declarations that a line outside the bodies adds.
pub open spec fn line_decls(line: Seq<char>, decls: Seq<(Seq<char>, Seq<char>)>) -> Seq<(Seq<char>, Seq<char>)> {
    match parse_decl(line) {
        Some((_, name, _, _)) => if has_suffix(line, seq![';']) {
            decls.push((name, trim_end_char(line, ';')))
        } else {
            decls
        },
        None => decls,
    }
}

/// One line of the source read, with `names` the image's generators.
pub open spec fn attr_step(st: AttrScan, line: Seq<char>, names: Seq<Seq<char>>) -> AttrScan {
    if st.done {
        st
    } else {
        match st.body {
            Some(copy) => {
                let st2 = if copy {
                    match parse_call(line, false) {
                        Some(c) => AttrScan {
                            out: st.out + line + "\n"@,
                            calls: st.calls.push(c),
                            call_decls: st.call_decls.push(st.decls.len()),
                            ..st
                        },
                        None => AttrScan { out: st.out + line + "\n"@, ..st },
                    }
                } else {
                    st
                };
                if line == seq!['}'] {
                    AttrScan { body: None, ..st2 }
                } else {
                    st2
                }
            },
            None => if has_prefix(line, "static void"@) {
                let copy = names.contains(generator_def_name(line));
                AttrScan {
                    out: if copy {
                        st.out + line + "\n"@
                    } else {
                        st.out
                    },
                    body: Some(copy),
                    ..st
                }
            } else if has_prefix(line, "extern const CustomAttributesCacheGenerator g_AttributeGenerators"@) {
                AttrScan { out: st.out + line + "\n"@ + generator_table(names), done: true, ..st }
            } else {
                AttrScan { out: st.out + line + "\n"@, decls: line_decls(line, st.decls), ..st }
            },
        }
    }
}

/// The scan after the lines `ls`.
pub open spec fn attr_run(ls: Seq<Seq<char>>, names: Seq<Seq<char>>) -> AttrScan
    decreases ls.len(),
{
    if ls.len() == 0 {
        attr_start()
    } else {
        attr_step(attr_run(ls.drop_last(), names), ls.last(), names)
    }
}

/// Once the table is written, further lines change nothing.
proof fn lemma_attr_done(ls: Seq<Seq<char>>, k: int, names: Seq<Seq<char>>)
    requires
        0 <= k <= ls.len(),
        attr_run(ls.take(k), names).done,
    ensures
        attr_run(ls, names) == attr_run(ls.take(k), names),
    decreases ls.len() - k,
{
    if k < ls.len() {
        assert(ls.take(k + 1).drop_last() =~= ls.take(k));
        lemma_attr_done(ls, k + 1, names);
    } else {
        assert(ls.take(k) =~= ls);
    }
}

/// The calls found after some lines are the first calls found after all.
proof fn lemma_attr_calls_grow(ls: Seq<Seq<char>>, k: int, names: Seq<Seq<char>>)
    requires
        0 <= k <= ls.len(),
    ensures
        ({
            let a = attr_run(ls.take(k), names);
            let b = attr_run(ls, names);
            &&& a.calls.len() <= b.calls.len()
            &&& b.calls.take(a.calls.len() as int) == a.calls
            &&& a.call_decls.len() == a.calls.len()
            &&& b.call_decls.len() == b.calls.len()
            &&& b.call_decls.take(a.calls.len() as int) == a.call_decls
        }),
    decreases ls.len() - k,
{
    lemma_attr_lens(ls.take(k), names);
    lemma_attr_lens(ls, names);
    if k < ls.len() {
        assert(ls.take(k + 1).drop_last() =~= ls.take(k));
        lemma_attr_calls_grow(ls, k + 1, names);
        let a = attr_run(ls.take(k), names);
        let m = attr_run(ls.take(k + 1), names);
        let b = attr_run(ls, names);
        assert(m.calls.take(a.calls.len() as int) =~= a.calls);
        assert(m.call_decls.take(a.calls.len() as int) =~= a.call_decls);
        assert(b.calls.take(a.calls.len() as int) =~= m.calls.take(m.calls.len() as int).take(a.calls.len() as int));
        assert(b.call_decls.take(a.calls.len() as int) =~= m.call_decls.take(m.calls.len() as int).take(
            a.calls.len() as int,
        ));
    } else {
        assert(ls.take(k) =~= ls);
        assert(attr_run(ls, names).calls.take(attr_run(ls, names).calls.len() as int) =~= attr_run(ls, names).calls);
        assert(attr_run(ls, names).call_decls.take(attr_run(ls, names).calls.len() as int) =~= attr_run(
            ls,
            names,
        ).call_decls);
    }
}

/// Each call has its count of declarations, which is at most all of them.
proof fn lemma_attr_lens(ls: Seq<Seq<char>>, names: Seq<Seq<char>>)
    ensures
        attr_run(ls, names).call_decls.len() == attr_run(ls, names).calls.len(),
        forall|j: int|
            0 <= j < attr_run(ls, names).call_decls.len() ==> #[trigger] attr_run(ls, names).call_decls[j]
                <= attr_run(ls, names).decls.len(),
    decreases ls.len(),
{
    if ls.len() > 0 {
        lemma_attr_lens(ls.drop_last(), names);
    }
}

/// The declarations found after some lines are the first declarations found
/// after all.
proof fn lemma_attr_decls_grow(ls: Seq<Seq<char>>, k: int, names: Seq<Seq<char>>)
    requires
        0 <= k <= ls.len(),
    ensures
        ({
            let a = attr_run(ls.take(k), names);
            let b = attr_run(ls, names);
            &&& a.decls.len() <= b.decls.len()
            &&& b.decls.take(a.decls.len() as int) == a.decls
        }),
    decreases ls.len() - k,
{
    if k < ls.len() {
        assert(ls.take(k + 1).drop_last() =~= ls.take(k));
        lemma_attr_decls_grow(ls, k + 1, names);
        let a = attr_run(ls.take(k), names);
        let m = attr_run(ls.take(k + 1), names);
        let b = attr_run(ls, names);
        assert(m.decls.take(a.decls.len() as int) =~= a.decls);
        assert(b.decls.take(a.decls.len() as int) =~= m.decls.take(m.decls.len() as int).take(a.decls.len() as int));
    } else {
        assert(ls.take(k) =~= ls);
        assert(attr_run(ls, names).decls.take(attr_run(ls, names).decls.len() as int) =~= attr_run(ls, names).decls);
    }
}

} // verus!

verus! {

/// The name a generator table row holds (see `generator_name`).
fn generator_name_str<'a>(row: &'a str) -> (r: &'a str)
    ensures
        r@ == generator_name(row@),
{
    trim_end_matches_char(trim_start_matches_char(trim_ws(row), '&'), ',')
}

/// The image's generator names (see `generator_names`).
fn read_generator_names<'a>(src: &'a str, start: u32, count: u32) -> (r: Option<Vec<&'a str>>)
    ensures
        match r {
            Some(v) => generator_names(src@, start, count) == Some(views(v@)),
            None => generator_names(src@, start, count) is None,
        },
{
    let rows = match table_slice_lines(
        src,
        "const CustomAttributesCacheGenerator g_AttributeGenerators",
        3 + start as u64,
        count as u64,
    ) {
        Some(v) => v,
        None => {
            return None;
        },
    };
    let ghost t = views(rows@);
    proof {
        reveal_strlit("}");
        assert("}"@ =~= seq!['}']);
    }
    let mut out: Vec<&'a str> = Vec::new();
    let mut i: usize = 0;
    while i < rows.len() && !starts_with(rows[i], "}")
        invariant
            0 <= i <= rows@.len(),
            t == views(rows@),
            "}"@ == seq!['}'],
            forall|j: int| 0 <= j < i ==> !has_prefix(#[trigger] t[j], seq!['}']),
            views(out@) == t.take(i as int).map_values(|r: Seq<char>| generator_name(r)),
        decreases rows@.len() - i,
    {
        let name = generator_name_str(rows[i]);
        let ghost prev = out@;
        out.push(name);
        proof {
            assert(t[i as int] == rows@[i as int]@);
            assert(views(prev).len() == i);
            assert forall|j: int| 0 <= j < i + 1 implies #[trigger] views(out@)[j] == t.take(i + 1).map_values(
                |r: Seq<char>| generator_name(r),
            )[j] by {
                if j < i {
                    assert(out@[j] == prev[j]);
                    assert(views(prev)[j] == t.take(i as int).map_values(|r: Seq<char>| generator_name(r))[j]);
                }
            }
            assert(views(out@) =~= t.take(i + 1).map_values(|r: Seq<char>| generator_name(r)));
        }
        i = i + 1;
    }
    proof {
        if i < rows@.len() {
            assert(t[i as int] == rows@[i as int]@);
        }
        lemma_rows_before_close(t, i as int);
    }
    Some(out)
}

/// Appends the new generator table (see `generator_table`).
fn push_generator_table(out: &mut String, names: &Vec<&str>)
    ensures
        final(out)@ == old(out)@ + generator_table(views(names@)),
{
    let ghost ns = views(names@);
    out.append("const CustomAttributesCacheGenerator g_AttributeGenerators[");
    push_decimal(out, names.len());
    out.append("] =\n{\n");
    let ghost head = out@;
    let mut i: usize = 0;
    proof {
        assert(ns.take(0) =~= Seq::<Seq<char>>::empty());
        assert(head + Seq::<char>::empty() =~= head);
    }
    while i < names.len()
        invariant
            0 <= i <= names@.len(),
            ns == views(names@),
            out@ == head + generator_rows(ns.take(i as int)),
        decreases names@.len() - i,
    {
        out.append("    &");
        out.append(names[i]);
        out.append(",\n");
        proof {
            assert(ns[i as int] == names@[i as int]@);
            assert(ns.take(i + 1).drop_last() =~= ns.take(i as int));
            assert(out@ =~= head + generator_rows(ns.take(i + 1)));
        }
        i = i + 1;
    }
    out.append("};\n");
    proof {
        assert(ns.take(names@.len() as int) =~= ns);
        assert(out@ =~= old(out)@ + generator_table(ns));
    }
}

} // verus!

verus! {

/// The forward declarations that `function_usages` holds once the scan of
/// `run` has stopped at call `k` (after all of them where `k` is past the
/// last call).
pub open spec fn decls_upto(run: AttrScan, k: int) -> Seq<(Seq<char>, Seq<char>)> {
    if 0 <= k < run.calls.len() {
        run.decls.take(run.call_decls[k] as int)
    } else {
        run.decls
    }
}

/// Builds `Il2CppAttributes.cpp` for the mod from the generated one, `src`:
/// the image's generators (rows `custom_attribute_start..` of
/// `g_AttributeGenerators`) go to `metadata_usage_names`; the lines before
/// the generator table are kept but for the bodies of the other generators;
/// each call in the kept bodies is recorded in `function_usages`, and each
/// forward declaration outside them too; then the table is written with the
/// image's generators only. An unhandled call stops the build.
pub fn transform(
    src: &str,
    custom_attribute_start: u32,
    custom_attribute_count: u32,
    metadata_usage_names: &mut StringHashSet,
    function_usages: &mut ModFunctionUsages,
) -> (r: Result<String, Error>)
    requires
        match generator_names(src@, custom_attribute_start, custom_attribute_count) {
            None => true,
            Some(names) => {
                let run = attr_run(lines(src@), names);
                run.body is Some ==> old(function_usages).first_unhandled(run.calls) < run.calls.len()
            },
        },
    ensures
        final(function_usages).external_methods@ == old(function_usages).external_methods@,
        final(function_usages).mod_functions@ == old(function_usages).mod_functions@,
        final(function_usages).generic_proxies@ == old(function_usages).generic_proxies@,
        final(function_usages).generic_using_fns@ == old(function_usages).generic_using_fns@,
        final(function_usages).required_invokers@ == old(function_usages).required_invokers@,
        final(function_usages).invokers_map@ == old(function_usages).invokers_map@,
        final(function_usages).required_generic_funcs@ == old(function_usages).required_generic_funcs@,
        final(function_usages).generic_func_map@ == old(function_usages).generic_func_map@,
        final(function_usages).required_generic_adj_thunks@ == old(function_usages).required_generic_adj_thunks@,
        final(function_usages).generic_adj_thunk_map@ == old(function_usages).generic_adj_thunk_map@,
        match generator_names(src@, custom_attribute_start, custom_attribute_count) {
            None => {
                &&& r matches Err(e) && e@ == Fault::TableNotFound("g_AttributeGenerators"@)
                &&& final(metadata_usage_names)@ == old(metadata_usage_names)@
                &&& final(function_usages).using_external@ == old(function_usages).using_external@
                &&& final(function_usages).using_gshared@ == old(function_usages).using_gshared@
                &&& final(function_usages).forward_decls@ == old(function_usages).forward_decls@
            },
            Some(names) => {
                let run = attr_run(lines(src@), names);
                let k = old(function_usages).first_unhandled(run.calls);
                &&& final(metadata_usage_names)@ == old(metadata_usage_names)@.union(names.to_set())
                &&& 0 <= k <= run.calls.len()
                &&& r is Ok <==> k == run.calls.len()
                &&& r matches Ok(s) ==> s@ == run.out
                &&& r matches Err(e) ==> e@ == Fault::UnhandledFunctionUsage(run.calls[k])
                &&& final(function_usages).using_external@ == old(function_usages).using_external@.union(
                    old(function_usages).externals_in(run.calls.take(k)),
                )
                &&& final(function_usages).using_gshared@ == old(function_usages).using_gshared@.union(
                    old(function_usages).gshared_in(run.calls.take(k)),
                )
                &&& decl_texts(final(function_usages).forward_decls@) == insert_decls(
                    decl_texts(old(function_usages).forward_decls@),
                    decls_upto(run, k),
                )
            },
        },
{
    let names = match read_generator_names(src, custom_attribute_start, custom_attribute_count) {
        Some(v) => v,
        None => {
            return Err(Error::TableNotFound("g_AttributeGenerators".to_string()));
        },
    };
    let ghost ns = views(names@);
    let ghost s0 = *old(function_usages);
    let mut names_set = StringHashSet::new();
    let mut j: usize = 0;
    while j < names.len()
        invariant
            0 <= j <= names@.len(),
            ns == views(names@),
            forall|x: Seq<char>| names_set@.contains(x) <==> ns.take(j as int).contains(x),
            metadata_usage_names@ == old(metadata_usage_names)@.union(ns.take(j as int).to_set()),
        decreases names@.len() - j,
    {
        names_set.insert(names[j].to_string());
        metadata_usage_names.insert(names[j].to_string());
        proof {
            let t0 = ns.take(j as int);
            let t1 = ns.take(j + 1);
            assert(t1 =~= t0.push(names@[j as int]@));
            assert forall|x: Seq<char>| t1.contains(x) <==> (t0.contains(x) || x == names@[j as int]@) by {
                if t0.contains(x) {
                    let q = choose|q: int| 0 <= q < t0.len() && t0[q] == x;
                    assert(t1[q] == x);
                }
                if t1.contains(x) && x != names@[j as int]@ {
                    let q = choose|q: int| 0 <= q < t1.len() && t1[q] == x;
                    assert(t0[q] == x);
                }
                assert(t1[j as int] == names@[j as int]@);
            }
            assert(metadata_usage_names@ =~= old(metadata_usage_names)@.union(t1.to_set()));
        }
        j = j + 1;
    }
    proof {
        assert(ns.take(names@.len() as int) =~= ns);
    }
    let ls = lines_of(src);
    let ghost all = views(ls@);
    let mut out = String::new();
    let mut body: Option<bool> = None;
    let mut i: usize = 0;
    proof {
        reveal_strlit("}");
        reveal_strlit(";");
        assert("}"@ =~= seq!['}']);
        assert(";"@ =~= seq![';']);
        assert(all.take(0) =~= Seq::<Seq<char>>::empty());
        assert(s0.externals_in(Seq::empty()) =~= Set::empty());
        assert(s0.gshared_in(Seq::empty()) =~= Set::empty());
        assert(function_usages.using_external@ =~= s0.using_external@.union(Set::empty()));
        assert(function_usages.using_gshared@ =~= s0.using_gshared@.union(Set::empty()));
    }
    while i < ls.len()
        invariant
            0 <= i <= ls@.len(),
            all == views(ls@),
            all == lines(src@),
            ns == views(names@),
            generator_names(src@, custom_attribute_start, custom_attribute_count) == Some(ns),
            "}"@ == seq!['}'],
            ";"@ == seq![';'],
            forall|x: Seq<char>| names_set@.contains(x) <==> ns.contains(x),
            metadata_usage_names@ == old(metadata_usage_names)@.union(ns.to_set()),
            s0 == *old(function_usages),
            ({
                let st = attr_run(all.take(i as int), ns);
                &&& !st.done
                &&& out@ == st.out
                &&& body == st.body
                &&& forall|q: int| 0 <= q < st.calls.len() ==> s0.handles(#[trigger] st.calls[q])
                &&& function_usages.using_external@ == s0.using_external@.union(s0.externals_in(st.calls))
                &&& function_usages.using_gshared@ == s0.using_gshared@.union(s0.gshared_in(st.calls))
                &&& decl_texts(function_usages.forward_decls@) == insert_decls(
                    decl_texts(s0.forward_decls@),
                    st.decls,
                )
            }),
            function_usages.external_methods@ == s0.external_methods@,
            function_usages.mod_functions@ == s0.mod_functions@,
            function_usages.generic_proxies@ == s0.generic_proxies@,
            function_usages.generic_using_fns@ == s0.generic_using_fns@,
            function_usages.required_invokers@ == s0.required_invokers@,
            function_usages.invokers_map@ == s0.invokers_map@,
            function_usages.required_generic_funcs@ == s0.required_generic_funcs@,
            function_usages.generic_func_map@ == s0.generic_func_map@,
            function_usages.required_generic_adj_thunks@ == s0.required_generic_adj_thunks@,
            function_usages.generic_adj_thunk_map@ == s0.generic_adj_thunk_map@,
        decreases ls@.len() - i,
    {
        let line = ls[i];
        let ghost st = attr_run(all.take(i as int), ns);
        let ghost st1 = attr_run(all.take(i + 1), ns);
        proof {
            assert(all[i as int] == line@);
            assert(all.take(i + 1).drop_last() =~= all.take(i as int));
            assert(all.take(i + 1).last() == line@);
            assert(st1 == attr_step(st, line@, ns));
        }
        match body {
            Some(copy) => {
                if copy {
                    if let Some(name) = try_parse_call(line, false) {
                        let res = function_usages.process_function_usage(name);
                        proof {
                            lemma_usages_push(s0, st.calls, name@);
                        }
                        match res {
                            Ok(()) => {},
                            Err(e) => {
                                proof {
                                    let run = attr_run(all, ns);
                                    lemma_attr_calls_grow(all, i + 1, ns);
                                    lemma_attr_decls_grow(all, i + 1, ns);
                                    lemma_attr_lens(all.take(i as int), ns);
                                    assert(all.take(ls@.len() as int) =~= all);
                                    let k = st.calls.len() as int;
                                    assert(st1.calls == st.calls.push(name@));
                                    assert(run.calls[k] == st1.calls[k]);
                                    assert forall|q: int| 0 <= q < k implies s0.handles(#[trigger] run.calls[q]) by {
                                        assert(run.calls[q] == st1.calls[q]);
                                        assert(st1.calls[q] == st.calls[q]);
                                    }
                                    lemma_first_unhandled(s0, run.calls, k);
                                    assert(run.calls.take(k) =~= st.calls);
                                    assert(run.call_decls[k] == st1.call_decls[k]);
                                    assert(st1.call_decls[k] == st.decls.len());
                                    assert(st1.decls == st.decls);
                                    assert(decls_upto(run, k) =~= st.decls);
                                    assert(function_usages.using_external@ =~= s0.using_external@.union(
                                        s0.externals_in(st.calls),
                                    ));
                                    assert(function_usages.using_gshared@ =~= s0.using_gshared@.union(
                                        s0.gshared_in(st.calls),
                                    ));
                                }
                                return Err(e);
                            },
                        }
                        proof {
                            assert(function_usages.using_external@ =~= s0.using_external@.union(
                                s0.externals_in(st1.calls),
                            ));
                            assert(function_usages.using_gshared@ =~= s0.using_gshared@.union(
                                s0.gshared_in(st1.calls),
                            ));
                        }
                    }
                    out.append(line);
                    out.append("\n");
                }
                if str_eq(line, "}") {
                    body = None;
                }
            },
            None => {
                if starts_with(line, "static void") {
                    let name = before_char_str(trim_start_matches(line, "static void "), '(');
                    let copy = names_set.contains(name);
                    if copy {
                        out.append(line);
                        out.append("\n");
                    }
                    body = Some(copy);
                } else if starts_with(line, "extern const CustomAttributesCacheGenerator g_AttributeGenerators") {
                    out.append(line);
                    out.append("\n");
                    push_generator_table(&mut out, &names);
                    proof {
                        lemma_attr_done(all, i + 1, ns);
                        lemma_first_unhandled(s0, st.calls, st.calls.len() as int);
                        assert(st.calls.take(st.calls.len() as int) =~= st.calls);
                    }
                    return Ok(out);
                } else {
                    if let Some(d) = FnDecl::try_parse(line) {
                        if ends_with(line, ";") {
                            let key = d.name.to_string();
                            let text = trim_end_matches_char(line, ';').to_string();
                            let ghost old_fd = function_usages.forward_decls@;
                            function_usages.forward_decls.insert(key, text);
                            proof {
                                assert(has_suffix(line@, seq![';']));
                                assert(st1.decls == st.decls.push((key@, text@)));
                                assert(st1.decls.drop_last() =~= st.decls);
                                assert(decl_texts(function_usages.forward_decls@) =~= decl_texts(
                                    old_fd,
                                ).insert(key@, text@));
                                assert(decl_texts(function_usages.forward_decls@) =~= insert_decls(
                                    decl_texts(s0.forward_decls@),
                                    st1.decls,
                                ));
                            }
                        }
                    }
                    out.append(line);
                    out.append("\n");
                }
            },
        }
        i = i + 1;
    }
    proof {
        assert(all.take(ls@.len() as int) =~= all);
        let run = attr_run(all, ns);
        lemma_first_unhandled(s0, run.calls, run.calls.len() as int);
        assert(run.calls.take(run.calls.len() as int) =~= run.calls);
    }
    Ok(out)
}

} // verus!

verus! {

/// Whether the source ends inside a generator's body (where `transform`
/// would read past the last line); `false` where the generator table stands
/// nowhere.
pub fn ends_in_generator_body(src: &str, custom_attribute_start: u32, custom_attribute_count: u32) -> (b: bool)
    ensures
        b == (match generator_names(src@, custom_attribute_start, custom_attribute_count) {
            None => false,
            Some(names) => attr_run(lines(src@), names).body is Some,
        }),
{
    let names = match read_generator_names(src, custom_attribute_start, custom_attribute_count) {
        Some(v) => v,
        None => {
            return false;
        },
    };
    let ghost ns = views(names@);
    let mut names_set = StringHashSet::new();
    let mut j: usize = 0;
    while j < names.len()
        invariant
            0 <= j <= names@.len(),
            ns == views(names@),
            forall|x: Seq<char>| names_set@.contains(x) <==> ns.take(j as int).contains(x),
        decreases names@.len() - j,
    {
        names_set.insert(names[j].to_string());
        proof {
            let t0 = ns.take(j as int);
            let t1 = ns.take(j + 1);
            assert forall|x: Seq<char>| t1.contains(x) <==> (t0.contains(x) || x == names@[j as int]@) by {
                if t0.contains(x) {
                    let q = choose|q: int| 0 <= q < t0.len() && t0[q] == x;
                    assert(t1[q] == x);
                }
                if t1.contains(x) && x != names@[j as int]@ {
                    let q = choose|q: int| 0 <= q < t1.len() && t1[q] == x;
                    assert(t0[q] == x);
                }
                assert(t1[j as int] == names@[j as int]@);
            }
        }
        j = j + 1;
    }
    proof {
        assert(ns.take(names@.len() as int) =~= ns);
    }
    let ls = lines_of(src);
    let ghost all = views(ls@);
    let mut body: Option<bool> = None;
    let mut i: usize = 0;
    proof {
        reveal_strlit("}");
        assert("}"@ =~= seq!['}']);
        assert(all.take(0) =~= Seq::<Seq<char>>::empty());
    }
    while i < ls.len()
        invariant
            0 <= i <= ls@.len(),
            all == views(ls@),
            all == lines(src@),
            ns == views(names@),
            generator_names(src@, custom_attribute_start, custom_attribute_count) == Some(ns),
            "}"@ == seq!['}'],
            forall|x: Seq<char>| names_set@.contains(x) <==> ns.contains(x),
            !attr_run(all.take(i as int), ns).done,
            body == attr_run(all.take(i as int), ns).body,
        decreases ls@.len() - i,
    {
        let line = ls[i];
        proof {
            assert(all[i as int] == line@);
            assert(all.take(i + 1).drop_last() =~= all.take(i as int));
            assert(all.take(i + 1).last() == line@);
        }
        match body {
            Some(_) => {
                if str_eq(line, "}") {
                    body = None;
                }
            },
            None => {
                if starts_with(line, "static void") {
                    let name = before_char_str(trim_start_matches(line, "static void "), '(');
                    body = Some(names_set.contains(name));
                } else if starts_with(line, "extern const CustomAttributesCacheGenerator g_AttributeGenerators") {
                    proof {
                        lemma_attr_done(all, i + 1, ns);
                    }
                    return false;
                }
            },
        }
        i = i + 1;
    }
    proof {
        assert(all.take(ls@.len() as int) =~= all);
    }
    body.is_some()
}

} // verus!
