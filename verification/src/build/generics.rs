//! The generic sources of a mod: the generic method pointer table.
use crate::build::function_usages::{lines_text, ModFunctionUsages};
use crate::build::parser::{
    has_suffix, parse_call, parse_decl, table_lines, table_rows, try_parse_call, FnDecl,
};
use crate::error::{Error, Fault, Outcome};
use crate::text::{
    before_char, before_char_str, ends_with, lines, lines_of, starts_with, str_eq, strip_suffix, trim,
    trim_end_matches, trim_end_str, trim_start_matches, trim_start_str, trim_ws, views,
};
use vstd::hash_set::StringHashSet;
use vstd::prelude::*;

verus! {

/// The function a row of the generic method pointer table names:
/// `(Il2CppMethodPointer)&name/* comment */,` gives `name`.
pub open spec fn generic_ptr_name(row: Seq<char>) -> Seq<char> {
    before_char(trim_start_str(trim(row), "(Il2CppMethodPointer)&"@), '/')
}

/// The functions of `g_Il2CppGenericMethodPointers` in `src`, in order;
/// none where `src` declares no such table.
pub open spec fn method_ptr_table(src: Seq<char>) -> Seq<Seq<char>> {
    match table_rows(src, "const Il2CppMethodPointer g_Il2CppGenericMethodPointers"@, 3) {
        None => Seq::empty(),
        Some(rows) => rows.map_values(|r: Seq<char>| generic_ptr_name(r)),
    }
}

pub fn read_method_ptr_table<'src>(src: &'src str) -> (r: Result<Vec<&'src str>, Error>)
    ensures
        r is Ok,
        r matches Ok(v) && views(v@) == method_ptr_table(src@),
{
    let mut methods: Vec<&'src str> = Vec::new();
    proof {
        reveal_strlit("const Il2CppMethodPointer g_Il2CppGenericMethodPointers");
    }
    let rows = match table_lines(src, "const Il2CppMethodPointer g_Il2CppGenericMethodPointers", 3) {
        Some(r) => r,
        None => {
            assert(views(methods@) =~= Seq::<Seq<char>>::empty());
            return Ok(methods);
        },
    };
    let ghost rv = views(rows@);
    let mut i: usize = 0;
    while i < rows.len()
        invariant
            0 <= i <= rows@.len(),
            rv == views(rows@),
            views(methods@) == rv.take(i as int).map_values(|r: Seq<char>| generic_ptr_name(r)),
        decreases rows@.len() - i,
    {
        let ghost prev = methods@;
        let name = before_char_str(trim_start_matches(trim_ws(rows[i]), "(Il2CppMethodPointer)&"), '/');
        methods.push(name);
        proof {
            assert(rv[i as int] == rows@[i as int]@);
            assert(views(methods@) =~= views(prev).push(generic_ptr_name(rv[i as int])));
            assert(rv.take(i + 1).map_values(|r: Seq<char>| generic_ptr_name(r)) =~= rv.take(
                i as int,
            ).map_values(|r: Seq<char>| generic_ptr_name(r)).push(generic_ptr_name(rv[i as int])));
        }
        i = i + 1;
    }
    assert(rv.take(rows@.len() as int) =~= rv);
    Ok(methods)
}

} // verus!

verus! {

/// The name under which a function's metadata usage id is declared: without
/// a `_gshared` ending; an inline function's carries the name of its source.
pub open spec fn md_usage_name(fn_name: Seq<char>, source_name: Seq<char>) -> Seq<char> {
    if has_suffix(fn_name, "_inline"@) {
        trim_end_str(fn_name.take(fn_name.len() - "_inline"@.len()), "_gshared"@) + source_name
    } else {
        trim_end_str(fn_name, "_gshared"@)
    }
}

pub fn get_md_usage_name(fn_name: &str, source_name: &str) -> (r: String)
    ensures
        r@ == md_usage_name(fn_name@, source_name@),
{
    proof {
        reveal_strlit("_inline");
    }
    match strip_suffix(fn_name, "_inline") {
        Some(f) => {
            let mut s = trim_end_matches(f, "_gshared").to_string();
            s.append(source_name);
            s
        },
        None => trim_end_matches(fn_name, "_gshared").to_string(),
    }
}

/// What the generic pass has gathered so far.
pub ghost struct UsageState {
    pub using_external: Set<Seq<char>>,
    pub generic_using_fns: Set<Seq<char>>,
    pub gshared_queue: Seq<Seq<char>>,
    pub inline_queue: Seq<(Seq<char>, usize)>,
}

/// What a generic pass reads of the usages: the external methods and the
/// mod's own functions by name, and the function each gshared proxy calls.
pub ghost struct UsageTables {
    pub external_methods: Set<Seq<char>>,
    pub mod_functions: Set<Seq<char>>,
    pub generic_proxies: Map<Seq<char>, Seq<char>>,
}

pub open spec fn usage_tables(fu: &ModFunctionUsages) -> UsageTables {
    UsageTables {
        external_methods: fu.external_methods@.dom(),
        mod_functions: fu.mod_functions@,
        generic_proxies: crate::build::function_usages::decl_texts(fu.generic_proxies@),
    }
}

/// What one line of a generic function's body adds: the function it calls,
/// if any and not visited yet, queued (a gshared proxy's function, or an
/// inline function with the source it is in) or recorded (an external
/// method, or one of the mod's own); a call of anything else is an error.
pub open spec fn line_effect(
    fu: UsageTables,
    visited: Set<Seq<char>>,
    st: UsageState,
    line: Seq<char>,
    src_idx: usize,
) -> Result<UsageState, Fault> {
    match parse_call(line, true) {
        None => Ok(st),
        Some(usage) => if visited.contains(usage) {
            Ok(st)
        } else if fu.generic_proxies.contains_key(usage) {
            Ok(UsageState { gshared_queue: st.gshared_queue.push(fu.generic_proxies[usage]), ..st })
        } else if has_suffix(usage, "_inline"@) {
            Ok(UsageState { inline_queue: st.inline_queue.push((usage, src_idx)), ..st })
        } else if fu.external_methods.contains(usage) {
            Ok(
                UsageState {
                    using_external: st.using_external.insert(usage),
                    generic_using_fns: st.generic_using_fns.insert(usage),
                    ..st
                },
            )
        } else if fu.mod_functions.contains(usage) {
            Ok(UsageState { generic_using_fns: st.generic_using_fns.insert(usage), ..st })
        } else {
            Err(Fault::UnhandledFunctionUsage(usage))
        },
    }
}

pub open spec fn usage_state<'a>(
    fu: &ModFunctionUsages,
    gq: Seq<String>,
    iq: Seq<(&'a str, usize)>,
) -> UsageState {
    UsageState {
        using_external: fu.using_external@,
        generic_using_fns: fu.generic_using_fns@,
        gshared_queue: gq.map_values(|s: String| s@),
        inline_queue: iq.map_values(|p: (&'a str, usize)| (p.0@, p.1)),
    }
}

/// `fu` and `other` agree on everything a generic pass only reads.
pub open spec fn same_tables(fu: &ModFunctionUsages, other: &ModFunctionUsages) -> bool {
    &&& fu.external_methods@ == other.external_methods@
    &&& fu.mod_functions@ == other.mod_functions@
    &&& fu.forward_decls@ == other.forward_decls@
    &&& fu.generic_proxies@ == other.generic_proxies@
    &&& fu.using_gshared@ == other.using_gshared@
    &&& fu.wf() == other.wf()
    &&& fu.required_invokers@ == other.required_invokers@
    &&& fu.required_generic_funcs@ == other.required_generic_funcs@
    &&& fu.required_generic_adj_thunks@ == other.required_generic_adj_thunks@
    &&& fu.invokers_map@ == other.invokers_map@
    &&& fu.generic_func_map@ == other.generic_func_map@
    &&& fu.generic_adj_thunk_map@ == other.generic_adj_thunk_map@
}

/// One line of a generic function's body (see `line_effect`).
pub fn process_line<'a>(
    line: &'a str,
    src_idx: usize,
    function_usages: &mut ModFunctionUsages,
    visited: &StringHashSet,
    gshared_queue: &mut Vec<String>,
    inline_queue: &mut Vec<(&'a str, usize)>,
) -> (r: Result<(), Error>)
    ensures
        same_tables(final(function_usages), old(function_usages)),
        match r {
            Ok(()) => line_effect(
                usage_tables(old(function_usages)),
                visited@,
                usage_state(old(function_usages), old(gshared_queue)@, old(inline_queue)@),
                line@,
                src_idx,
            ) == Ok::<UsageState, Fault>(
                usage_state(final(function_usages), final(gshared_queue)@, final(inline_queue)@),
            ),
            Err(e) => line_effect(
                usage_tables(old(function_usages)),
                visited@,
                usage_state(old(function_usages), old(gshared_queue)@, old(inline_queue)@),
                line@,
                src_idx,
            ) == Err::<UsageState, Fault>(e@),
        },
{
    let usage = match try_parse_call(line, true) {
        Some(name) => name,
        None => {
            return Ok(());
        },
    };
    if visited.contains(usage) {
        return Ok(());
    }
    proof {
        reveal_strlit("_inline");
    }
    let ghost gq0 = gshared_queue@;
    let ghost iq0 = inline_queue@;
    if let Some(gshared) = function_usages.generic_proxies.get(usage) {
        gshared_queue.push(gshared.clone());
        proof {
            assert(gshared_queue@.map_values(|s: String| s@) =~= gq0.map_values(|s: String| s@).push(
                gshared@,
            ));
        }
    } else if ends_with(usage, "_inline") {
        inline_queue.push((usage, src_idx));
        proof {
            assert(inline_queue@.map_values(|p: (&'a str, usize)| (p.0@, p.1)) =~= iq0.map_values(
                |p: (&'a str, usize)| (p.0@, p.1),
            ).push((usage@, src_idx)));
        }
    } else if function_usages.external_methods.contains_key(usage) {
        function_usages.using_external.insert(usage.to_string());
        function_usages.generic_using_fns.insert(usage.to_string());
    } else if function_usages.mod_functions.contains(usage) {
        function_usages.generic_using_fns.insert(usage.to_string());
    } else {
        return Err(Error::UnhandledFunctionUsage(usage.to_string()));
    }
    Ok(())
}

} // verus!

verus! {

/// `line` defines the function `name` (a declaration that is not a forward
/// declaration).
pub open spec fn defines(line: Seq<char>, name: Seq<char>) -> bool {
    &&& !has_suffix(line, ";"@)
    &&& parse_decl(line) matches Some((_, n, _, _)) && n == name
}

/// The position of the first line from `i` on that defines `name` (the
/// number of lines where none does).
pub open spec fn first_def(ls: Seq<Seq<char>>, name: Seq<char>, i: int) -> int
    decreases ls.len() - i,
{
    if i < 0 || i >= ls.len() {
        ls.len() as int
    } else if defines(ls[i], name) {
        i
    } else {
        first_def(ls, name, i + 1)
    }
}

/// The position of the first line from `i` on that is `}` (the number of
/// lines where none is).
pub open spec fn body_end(ls: Seq<Seq<char>>, i: int) -> int
    decreases ls.len() - i,
{
    if i < 0 || i >= ls.len() {
        ls.len() as int
    } else if ls[i] == "}"@ {
        i
    } else {
        body_end(ls, i + 1)
    }
}

/// The lines of a body processed in order; the first error stops it.
pub open spec fn fold_lines(
    fu: UsageTables,
    visited: Set<Seq<char>>,
    st: UsageState,
    body: Seq<Seq<char>>,
    src_idx: usize,
) -> Result<UsageState, Fault>
    decreases body.len(),
{
    if body.len() == 0 {
        Ok(st)
    } else {
        match fold_lines(fu, visited, st, body.drop_last(), src_idx) {
            Ok(s) => line_effect(fu, visited, s, body.last(), src_idx),
            Err(e) => Err(e),
        }
    }
}

/// The body of the function `name` in `src`: the lines after the one after
/// its definition, up to the closing `}`; `None` where `src` defines no
/// such function.
pub open spec fn fn_body(src: Seq<char>, name: Seq<char>) -> Option<Seq<Seq<char>>> {
    let ls = lines(src);
    let d = first_def(ls, name, 0);
    if d >= ls.len() {
        None
    } else {
        Some(ls.subrange(d + 2, body_end(ls, d + 2)))
    }
}

/// The body of `name` in `src` can be read: a line follows its definition,
/// and a `}` line closes it.
pub open spec fn body_readable(src: Seq<char>, name: Seq<char>) -> bool {
    let ls = lines(src);
    let d = first_def(ls, name, 0);
    d < ls.len() ==> d + 2 <= ls.len() && body_end(ls, d + 2) < ls.len()
}

proof fn lemma_first_def_skip(ls: Seq<Seq<char>>, name: Seq<char>, i: int)
    requires
        0 <= i < ls.len(),
        !defines(ls[i], name),
    ensures
        first_def(ls, name, i) == first_def(ls, name, i + 1),
{
}

pub proof fn lemma_body_end_bound(ls: Seq<Seq<char>>, i: int)
    requires
        0 <= i,
    ensures
        i <= body_end(ls, i) <= ls.len() || (i > ls.len() && body_end(ls, i) == ls.len()),
        body_end(ls, i) < ls.len() ==> ls[body_end(ls, i)] == "}"@,
        forall|j: int| i <= j < body_end(ls, i) ==> ls[j] != "}"@,
    decreases ls.len() - i,
{
    if i < ls.len() && ls[i] != "}"@ {
        lemma_body_end_bound(ls, i + 1);
    }
}

/// Finds the definition of `name` in `src` and processes each line of its
/// body in order (see `line_effect`), stopping at the first error; does
/// nothing where `src` does not define `name`.
pub fn process_fn<'a>(
    src: &'a str,
    name: &str,
    src_idx: usize,
    function_usages: &mut ModFunctionUsages,
    visited: &StringHashSet,
    gshared_queue: &mut Vec<String>,
    inline_queue: &mut Vec<(&'a str, usize)>,
) -> (r: Result<(), Error>)
    requires
        body_readable(src@, name@),
    ensures
        same_tables(final(function_usages), old(function_usages)),
        ({
            let st0 = usage_state(old(function_usages), old(gshared_queue)@, old(inline_queue)@);
            let st1 = usage_state(final(function_usages), final(gshared_queue)@, final(inline_queue)@);
            match fn_body(src@, name@) {
                None => r is Ok && st1 == st0,
                Some(body) => match r {
                    Ok(()) => fold_lines(usage_tables(old(function_usages)), visited@, st0, body, src_idx) == Ok::<
                        UsageState,
                        Fault,
                    >(st1),
                    Err(e) => fold_lines(usage_tables(old(function_usages)), visited@, st0, body, src_idx)
                        == Err::<UsageState, Fault>(e@),
                },
            }
        }),
{
    let ls = lines_of(src);
    let n = ls.len();
    let ghost all = views(ls@);
    let ghost fu0 = *function_usages;
    let ghost st0 = usage_state(function_usages, gshared_queue@, inline_queue@);
    proof {
        reveal_strlit(";");
        reveal_strlit("}");
    }
    let mut i: usize = 0;
    while i < ls.len()
        invariant
            0 <= i <= ls@.len(),
            n == ls@.len(),
            all == views(ls@),
            all == lines(src@),
            first_def(all, name@, 0) == first_def(all, name@, i as int),
            *function_usages == fu0,
            st0 == usage_state(function_usages, gshared_queue@, inline_queue@),
            gshared_queue@ == old(gshared_queue)@,
            inline_queue@ == old(inline_queue)@,
            fu0 == *old(function_usages),
            body_readable(src@, name@),
        decreases ls@.len() - i,
    {
        let line = ls[i];
        proof {
            assert(all[i as int] == line@);
        }
        let is_def = if ends_with(line, ";") {
            false
        } else {
            match FnDecl::try_parse(line) {
                Some(fn_def) => str_eq(fn_def.name, name),
                None => false,
            }
        };
        if is_def {
            proof {
                assert(defines(all[i as int], name@));
                assert(first_def(all, name@, i as int) == i);
                lemma_body_end_bound(all, i + 2);
            }
            let ghost end = body_end(all, i + 2);
            let ghost body = all.subrange(i + 2, end);
            let mut j: usize = i + 2;
            proof {
                assert(body.take(0) =~= Seq::<Seq<char>>::empty());
            }
            while !str_eq(ls[j], "}")
                invariant
                    i + 2 <= j <= end,
                    end < ls@.len(),
                    n == ls@.len(),
                    all == lines(src@),
                    first_def(all, name@, 0) == i,
                    end == body_end(all, i + 2),
                    all == views(ls@),
                    all[end] == "}"@,
                    forall|k: int| i + 2 <= k < end ==> all[k] != "}"@,
                    body == all.subrange(i + 2, end),
                    same_tables(function_usages, &fu0),
                    fu0 == *old(function_usages),
                    st0 == usage_state(&fu0, old(gshared_queue)@, old(inline_queue)@),
                    fold_lines(usage_tables(&fu0), visited@, st0, body.take(j - i - 2), src_idx) == Ok::<
                        UsageState,
                        Fault,
                    >(usage_state(function_usages, gshared_queue@, inline_queue@)),
                decreases end - j,
            {
                proof {
                    assert(all[j as int] == ls@[j as int]@);
                    if j == end {
                        assert(false);
                    }
                }
                let ghost before = usage_state(function_usages, gshared_queue@, inline_queue@);
                let ghost t1 = body.take(j - i - 1);
                proof {
                    assert(t1.drop_last() =~= body.take(j - i - 2));
                    assert(t1.last() == ls@[j as int]@);
                }
                let ghost cur = *function_usages;
                let res = process_line(ls[j], src_idx, function_usages, visited, gshared_queue, inline_queue);
                proof {
                    lemma_line_effect_tables(cur, fu0, visited@, before, ls@[j as int]@, src_idx);
                }
                match res {
                    Ok(()) => {},
                    Err(e) => {
                        proof {
                            lemma_fold_stops(usage_tables(&fu0), visited@, st0, body, src_idx, j - i - 1);
                        }
                        return Err(e);
                    },
                }
                j = j + 1;
            }
            proof {
                assert(all[j as int] == ls@[j as int]@);
                assert(j == end);
                assert(body.take(j - i - 2) =~= body);
            }
            return Ok(());
        }
        proof {
            assert(!defines(all[i as int], name@));
            lemma_first_def_skip(all, name@, i as int);
        }
        i = i + 1;
    }
    Ok(())
}

proof fn lemma_line_effect_tables(
    a: ModFunctionUsages,
    b: ModFunctionUsages,
    visited: Set<Seq<char>>,
    st: UsageState,
    line: Seq<char>,
    src_idx: usize,
)
    requires
        same_tables(&a, &b),
    ensures
        line_effect(usage_tables(&a), visited, st, line, src_idx) == line_effect(usage_tables(&b), visited, st, line, src_idx),
{
}

/// A fold that has failed on a prefix of the body fails on the whole body.
proof fn lemma_fold_stops(
    fu: UsageTables,
    visited: Set<Seq<char>>,
    st: UsageState,
    body: Seq<Seq<char>>,
    src_idx: usize,
    k: int,
)
    requires
        0 <= k <= body.len(),
        fold_lines(fu, visited, st, body.take(k), src_idx) is Err,
    ensures
        fold_lines(fu, visited, st, body, src_idx) == fold_lines(fu, visited, st, body.take(k), src_idx),
    decreases body.len() - k,
{
    if k < body.len() {
        assert(body.take(k + 1).drop_last() =~= body.take(k));
        lemma_fold_stops(fu, visited, st, body, src_idx, k + 1);
    } else {
        assert(body.take(k) =~= body);
    }
}

} // verus!

verus! {

/// The parameter list of a declaration without its parentheses, split at
/// the commas.
pub open spec fn param_pieces(params: Seq<char>) -> Seq<Seq<char>> {
    crate::text::split_by(
        crate::text::trim_end_char(crate::text::trim_start_char(params, '('), ')'),
        false,
        ',',
    )
}

/// Every parameter has a name (its last word).
pub open spec fn params_named(params: Seq<char>) -> bool {
    forall|i: int| 0 <= i < param_pieces(params).len() ==> crate::text::words(#[trigger] param_pieces(params)[i]).len() > 0
}

/// The names of the parameters.
pub open spec fn param_names(params: Seq<char>) -> Seq<Seq<char>> {
    param_pieces(params).map_values(|p: Seq<char>| crate::text::words(p).last())
}

/// `names` joined by `, `.
pub open spec fn joined(names: Seq<Seq<char>>) -> Seq<char>
    decreases names.len(),
{
    if names.len() == 0 {
        Seq::empty()
    } else if names.len() == 1 {
        names[0]
    } else {
        joined(names.drop_last()) + ", "@ + names.last()
    }
}

/// The body of a shim: it calls the method pointer of the method info it
/// is given, cast to the function's type, with the function's parameters.
pub open spec fn shim_text(return_ty: Seq<char>, params: Seq<char>) -> Seq<char> {
    "{\n"@ + "    return (("@ + return_ty + " (*)"@ + params + ")(method->methodPointer))("@ + joined(
        param_names(params),
    ) + ");\n"@ + "}\n\n"@
}

/// The names of the parameters `params`, joined by `, ` (see
/// `param_names`).
pub fn joined_param_names(params: &str) -> (r: String)
    requires
        params_named(params@),
    ensures
        r@ == joined(param_names(params@)),
{
    let inner = crate::text::trim_end_matches_char(crate::text::trim_start_matches_char(params, '('), ')');
    let pieces = crate::text::split_str(inner, false, ',');
    let ghost pv = views(pieces@);
    let ghost names = param_names(params@);
    let mut list = String::new();
    let mut i: usize = 0;
    proof {
        assert(pv == param_pieces(params@));
        assert(names.take(0) =~= Seq::<Seq<char>>::empty());
    }
    while i < pieces.len()
        invariant
            0 <= i <= pieces@.len(),
            pv == views(pieces@),
            pv == param_pieces(params@),
            names == param_names(params@),
            params_named(params@),
            list@ == joined(names.take(i as int)),
        decreases pieces@.len() - i,
    {
        let w = crate::text::split_whitespace(pieces[i]);
        proof {
            assert(pv[i as int] == pieces@[i as int]@);
            assert(views(w@).len() == w@.len());
            assert(crate::text::words(pv[i as int]).len() > 0);
        }
        let name = w[w.len() - 1];
        proof {
            assert(views(w@)[w@.len() - 1] == name@);
            assert(names[i as int] == name@);
            assert(names.take(i + 1).drop_last() =~= names.take(i as int));
            assert(names.take(i + 1).last() == name@);
        }
        if i > 0 {
            list.append(", ");
        }
        list.append(name);
        proof {
            if i == 0 {
                assert(names.take(1) =~= seq![name@]);
            }
            assert(list@ =~= joined(names.take(i + 1)));
        }
        i = i + 1;
    }
    proof {
        assert(names.take(pieces@.len() as int) =~= names);
    }
    list
}

/// Appends the body of a shim for `fn_decl` (see `shim_text`).
pub fn write_shim(out: &mut String, fn_decl: &FnDecl)
    requires
        params_named(fn_decl.params@),
    ensures
        final(out)@ == old(out)@ + shim_text(fn_decl.return_ty@, fn_decl.params@),
{
    let list = joined_param_names(fn_decl.params);
    out.append("{\n");
    out.append("    return ((");
    out.append(fn_decl.return_ty);
    out.append(" (*)");
    out.append(fn_decl.params);
    out.append(")(method->methodPointer))(");
    out.append(list.as_str());
    out.append(");\n");
    out.append("}\n\n");
    proof {
        assert(out@ =~= old(out)@ + shim_text(fn_decl.return_ty@, fn_decl.params@));
    }
}

} // verus!

verus! {

/// Reads the generic invoker templates of a source from line `p` on into
/// `m`: a `template` line, the struct's line, then the lines up to and with
/// `};`, under the struct's name. `None` where a template is the last line.
pub open spec fn templates_from(ls: Seq<Seq<char>>, p: int, m: Map<Seq<char>, Seq<char>>) -> Option<
    Map<Seq<char>, Seq<char>>,
>
    decreases ls.len() - p,
{
    if p < 0 || p >= ls.len() {
        Some(m)
    } else if !crate::build::parser::has_prefix(ls[p], "template"@) {
        templates_from(ls, p + 1, m)
    } else if p + 1 >= ls.len() {
        None
    } else {
        let e = crate::build::type_sizes::next_close(ls, p + 2);
        proof {
            crate::build::type_sizes::lemma_next_close(ls, p + 2);
        }
        let end = if e < ls.len() {
            e + 1
        } else {
            e
        };
        let body = ls[p] + "\n"@ + ls[p + 1] + "\n"@ + crate::build::function_usages::lines_text(
            ls.subrange(p + 2, end),
        );
        templates_from(ls, end, m.insert(trim_start_str(ls[p + 1], "struct "@), body))
    }
}

/// The generic invoker templates of the sources `srcs`, read in order.
pub open spec fn templates_of(srcs: Seq<Seq<char>>) -> Option<Map<Seq<char>, Seq<char>>>
    decreases srcs.len(),
{
    if srcs.len() == 0 {
        Some(Map::empty())
    } else {
        match templates_of(srcs.drop_last()) {
            None => None,
            Some(m) => templates_from(lines(srcs.last()), 0, m),
        }
    }
}

proof fn lemma_templates_prefix(srcs: Seq<Seq<char>>, k: int)
    requires
        0 <= k <= srcs.len(),
        templates_of(srcs) is Some,
    ensures
        templates_of(srcs.take(k)) is Some,
    decreases srcs.len() - k,
{
    if k < srcs.len() {
        lemma_templates_prefix(srcs, k + 1);
        assert(srcs.take(k + 1).drop_last() =~= srcs.take(k));
    } else {
        assert(srcs.take(k) =~= srcs);
    }
}

fn read_templates(src: &str, m: &mut vstd::hash_map::StringHashMap<String>)
    requires
        templates_from(lines(src@), 0, crate::build::function_usages::decl_texts(old(m)@)) is Some,
    ensures
        templates_from(lines(src@), 0, crate::build::function_usages::decl_texts(old(m)@)) == Some(
            crate::build::function_usages::decl_texts(final(m)@),
        ),
{
    let ls = lines_of(src);
    let ghost all = views(ls@);
    let ghost total = templates_from(all, 0, crate::build::function_usages::decl_texts(m@));
    proof {
        reveal_strlit("};");
    }
    let mut p: usize = 0;
    while p < ls.len()
        invariant
            0 <= p <= ls@.len(),
            all == views(ls@),
            all == lines(src@),
            total == templates_from(all, 0, crate::build::function_usages::decl_texts(old(m)@)),
            total == templates_from(all, p as int, crate::build::function_usages::decl_texts(m@)),
            total is Some,
        decreases ls@.len() - p,
    {
        let line = ls[p];
        proof {
            assert(all[p as int] == line@);
        }
        if !crate::text::starts_with(line, "template") {
            p = p + 1;
        } else {
            if ls.len() - p <= 1 {
                proof {
                    assert(false);
                }
                return;
            }
            let name = ls[p + 1];
            proof {
                assert(all[p + 1] == name@);
                crate::build::type_sizes::lemma_next_close(all, p + 2);
            }
            let mut body = String::new();
            body.append(line);
            body.append("\n");
            body.append(name);
            body.append("\n");
            let ghost head = body@;
            let mut j: usize = p + 2;
            proof {
                assert(all.subrange(p + 2, p + 2) =~= Seq::<Seq<char>>::empty());
                assert(head + Seq::<char>::empty() =~= head);
            }
            let mut done = false;
            while j < ls.len() && !done
                invariant
                    p + 2 <= j <= ls@.len(),
                    all == views(ls@),
                    done ==> j >= p + 3 && all[j - 1] == "};"@ && crate::build::type_sizes::next_close(all, p + 2) == j - 1,
                    !done ==> crate::build::type_sizes::next_close(all, p + 2) == crate::build::type_sizes::next_close(all, j as int),
                    body@ == head + crate::build::function_usages::lines_text(all.subrange(p + 2, j as int)),
                decreases ls@.len() - j,
            {
                let l = ls[j];
                body.append(l);
                body.append("\n");
                proof {
                    assert(all[j as int] == l@);
                    assert(all.subrange(p + 2, j + 1).drop_last() =~= all.subrange(p + 2, j as int));
                    assert(body@ =~= head + crate::build::function_usages::lines_text(all.subrange(p + 2, j + 1)));
                }
                if str_eq(l, "};") {
                    done = true;
                }
                j = j + 1;
            }
            let key = trim_start_matches(name, "struct ");
            let ghost m0 = m@;
            m.insert(key.to_string(), body);
            proof {
                let e = crate::build::type_sizes::next_close(all, p + 2);
                if !done {
                    assert(j == ls@.len());
                    assert(e == ls@.len());
                }
                assert(crate::build::function_usages::decl_texts(m@) =~= crate::build::function_usages::decl_texts(
                    m0,
                ).insert(key@, head + crate::build::function_usages::lines_text(all.subrange(p + 2, j as int))));
            }
            p = j;
        }
    }
}

/// The generic invoker templates of the sources (see `templates_of`), by
/// struct name.
pub fn generic_invoker_templates(sources: &Vec<String>) -> (r: vstd::hash_map::StringHashMap<String>)
    requires
        templates_of(sources@.map_values(|s: String| s@)) is Some,
    ensures
        templates_of(sources@.map_values(|s: String| s@)) == Some(crate::build::function_usages::decl_texts(r@)),
{
    let ghost sv = sources@.map_values(|s: String| s@);
    let mut m: vstd::hash_map::StringHashMap<String> = vstd::hash_map::StringHashMap::new();
    let mut k: usize = 0;
    proof {
        assert(sv.take(0) =~= Seq::<Seq<char>>::empty());
        assert(crate::build::function_usages::decl_texts(m@) =~= Map::<Seq<char>, Seq<char>>::empty());
    }
    while k < sources.len()
        invariant
            0 <= k <= sources@.len(),
            sv == sources@.map_values(|s: String| s@),
            templates_of(sv) is Some,
            templates_of(sv.take(k as int)) == Some(crate::build::function_usages::decl_texts(m@)),
        decreases sources@.len() - k,
    {
        proof {
            assert(sv.take(k + 1).drop_last() =~= sv.take(k as int));
            assert(sv.take(k + 1).last() == sources@[k as int]@);
            lemma_templates_prefix(sv, k + 1);
        }
        read_templates(sources[k].as_str(), &mut m);
        k = k + 1;
    }
    proof {
        assert(sv.take(sources@.len() as int) =~= sv);
    }
    m
}

} // verus!

verus! {

/// What reading a generic source finds.
pub ghost struct GenericScan {
    /// Forward declarations (name, declaration without `;`), in order.
    pub decls: Seq<(Seq<char>, Seq<char>)>,
    /// The functions defined, in order.
    pub defs: Seq<Seq<char>>,
    /// The inline functions among them.
    pub inlines: Seq<Seq<char>>,
    /// Gshared proxies (proxy, gshared function), in order.
    pub proxies: Seq<(Seq<char>, Seq<char>)>,
}

pub open spec fn empty_generic_scan() -> GenericScan {
    GenericScan { decls: Seq::empty(), defs: Seq::empty(), inlines: Seq::empty(), proxies: Seq::empty() }
}

/// Reads a generic source from line `p` on: a forward declaration is
/// recorded; a definition is recorded and its opening line skipped; an
/// `inline` line that declares no function starts a gshared proxy. `None`
/// where a definition or a proxy runs past the end.
pub open spec fn generic_scan_from(ls: Seq<Seq<char>>, p: int) -> Option<GenericScan>
    decreases ls.len() - p,
{
    if p < 0 || p >= ls.len() {
        Some(empty_generic_scan())
    } else {
        let line = ls[p];
        match parse_decl(line) {
            Some((_, name, _, inline)) => if has_suffix(line, seq![';']) {
                match generic_scan_from(ls, p + 1) {
                    None => None,
                    Some(r) => Some(GenericScan { decls: seq![(name, crate::text::trim_end_char(line, ';'))] + r.decls, ..r }),
                }
            } else if p + 1 >= ls.len() {
                None
            } else {
                match generic_scan_from(ls, p + 2) {
                    None => None,
                    Some(r) => Some(
                        GenericScan {
                            defs: seq![name] + r.defs,
                            inlines: if inline {
                                seq![name] + r.inlines
                            } else {
                                r.inlines
                            },
                            ..r
                        },
                    ),
                }
            },
            None => if crate::build::parser::has_prefix(line, "inline"@) {
                if crate::build::sources::proxy_readable(ls, p) {
                    match generic_scan_from(ls, p + 3) {
                        None => None,
                        Some(r) => Some(
                            GenericScan {
                                proxies: seq![
                                    (
                                        crate::build::function_usages::proxy_name(line),
                                        crate::build::function_usages::proxy_target(ls[p + 2]),
                                    ),
                                ] + r.proxies,
                                ..r
                            },
                        ),
                    }
                } else {
                    None
                }
            } else {
                generic_scan_from(ls, p + 1)
            },
        }
    }
}

/// `m` with each of `names` mapped to `idx`, in order.
pub open spec fn insert_all(m: Map<Seq<char>, usize>, names: Seq<Seq<char>>, idx: usize) -> Map<Seq<char>, usize>
    decreases names.len(),
{
    if names.len() == 0 {
        m
    } else {
        insert_all(m, names.drop_last(), idx).insert(names.last(), idx)
    }
}

/// Reads the generic source `src`, the `src_idx`-th (see
/// `generic_scan_from`): its forward declarations and gshared proxies go to
/// `function_usages`, each function it defines is mapped to `src_idx` in
/// `def_src_map`, and its inline functions go to `inline_functions`.
pub fn scan_generic_source(
    src: &str,
    src_idx: usize,
    function_usages: &mut ModFunctionUsages,
    def_src_map: &mut vstd::hash_map::StringHashMap<usize>,
    inline_functions: &mut StringHashSet,
)
    requires
        generic_scan_from(lines(src@), 0) is Some,
    ensures
        ({
            let t = generic_scan_from(lines(src@), 0).unwrap();
            &&& crate::build::function_usages::decl_texts(final(function_usages).forward_decls@)
                == crate::build::function_usages::insert_decls(
                crate::build::function_usages::decl_texts(old(function_usages).forward_decls@),
                t.decls,
            )
            &&& crate::build::function_usages::decl_texts(final(function_usages).generic_proxies@)
                == crate::build::function_usages::insert_decls(
                crate::build::function_usages::decl_texts(old(function_usages).generic_proxies@),
                t.proxies,
            )
            &&& final(def_src_map)@ == insert_all(old(def_src_map)@, t.defs, src_idx)
            &&& final(inline_functions)@ == old(inline_functions)@.union(t.inlines.to_set())
        }),
        final(function_usages).wf() == old(function_usages).wf(),
        final(function_usages).external_methods@ == old(function_usages).external_methods@,
        final(function_usages).mod_functions@ == old(function_usages).mod_functions@,
        final(function_usages).using_gshared@ == old(function_usages).using_gshared@,
        final(function_usages).using_external@ == old(function_usages).using_external@,
        final(function_usages).generic_using_fns@ == old(function_usages).generic_using_fns@,
        final(function_usages).required_invokers@ == old(function_usages).required_invokers@,
        final(function_usages).invokers_map@ == old(function_usages).invokers_map@,
        final(function_usages).required_generic_funcs@ == old(function_usages).required_generic_funcs@,
        final(function_usages).generic_func_map@ == old(function_usages).generic_func_map@,
        final(function_usages).required_generic_adj_thunks@ == old(function_usages).required_generic_adj_thunks@,
        final(function_usages).generic_adj_thunk_map@ == old(function_usages).generic_adj_thunk_map@,
{
    let mut cur = crate::build::parser::LineCursor::new(src);
    let ghost ls = views(cur.lines@);
    let ghost total = generic_scan_from(ls, 0).unwrap();
    let ghost mut done = empty_generic_scan();
    let ghost s0 = *old(function_usages);
    proof {
        reveal_strlit(";");
        assert(";"@ =~= seq![';']);
        assert(done.decls + total.decls =~= total.decls);
        assert(done.defs + total.defs =~= total.defs);
        assert(done.inlines + total.inlines =~= total.inlines);
        assert(done.proxies + total.proxies =~= total.proxies);
        assert(inline_functions@ =~= old(inline_functions)@.union(done.inlines.to_set()));
    }
    while cur.pos < cur.lines.len()
        invariant
            ls == views(cur.lines@),
            ls == lines(src@),
            0 <= cur.pos <= ls.len(),
            ";"@ == seq![';'],
            s0 == *old(function_usages),
            generic_scan_from(ls, cur.pos as int) is Some,
            total == generic_scan_from(lines(src@), 0).unwrap(),
            total.decls == done.decls + generic_scan_from(ls, cur.pos as int).unwrap().decls,
            total.defs == done.defs + generic_scan_from(ls, cur.pos as int).unwrap().defs,
            total.inlines == done.inlines + generic_scan_from(ls, cur.pos as int).unwrap().inlines,
            total.proxies == done.proxies + generic_scan_from(ls, cur.pos as int).unwrap().proxies,
            crate::build::function_usages::decl_texts(function_usages.forward_decls@)
                == crate::build::function_usages::insert_decls(
                crate::build::function_usages::decl_texts(s0.forward_decls@),
                done.decls,
            ),
            crate::build::function_usages::decl_texts(function_usages.generic_proxies@)
                == crate::build::function_usages::insert_decls(
                crate::build::function_usages::decl_texts(s0.generic_proxies@),
                done.proxies,
            ),
            def_src_map@ == insert_all(old(def_src_map)@, done.defs, src_idx),
            inline_functions@ == old(inline_functions)@.union(done.inlines.to_set()),
            function_usages.wf() == s0.wf(),
            function_usages.external_methods@ == s0.external_methods@,
            function_usages.mod_functions@ == s0.mod_functions@,
            function_usages.using_gshared@ == s0.using_gshared@,
            function_usages.using_external@ == s0.using_external@,
            function_usages.generic_using_fns@ == s0.generic_using_fns@,
            function_usages.required_invokers@ == s0.required_invokers@,
            function_usages.invokers_map@ == s0.invokers_map@,
            function_usages.required_generic_funcs@ == s0.required_generic_funcs@,
            function_usages.generic_func_map@ == s0.generic_func_map@,
            function_usages.required_generic_adj_thunks@ == s0.required_generic_adj_thunks@,
            function_usages.generic_adj_thunk_map@ == s0.generic_adj_thunk_map@,
        decreases ls.len() - cur.pos,
    {
        let ghost p = cur.pos as int;
        let ghost rest = generic_scan_from(ls, p).unwrap();
        let line = cur.lines[cur.pos];
        cur.pos = cur.pos + 1;
        proof {
            assert(ls[p] == line@);
        }
        match FnDecl::try_parse(line) {
            Some(d) => {
                if ends_with(line, ";") {
                    let key = d.name.to_string();
                    let text = crate::text::trim_end_matches_char(line, ';').to_string();
                    let ghost fd0 = function_usages.forward_decls@;
                    function_usages.forward_decls.insert(key, text);
                    proof {
                        let r2 = generic_scan_from(ls, p + 1).unwrap();
                        assert(rest.decls == seq![(key@, text@)] + r2.decls);
                        assert(total.decls =~= done.decls.push((key@, text@)) + r2.decls);
                        assert(total.defs =~= done.defs + r2.defs);
                        assert(total.inlines =~= done.inlines + r2.inlines);
                        assert(total.proxies =~= done.proxies + r2.proxies);
                        assert(done.decls.push((key@, text@)).drop_last() =~= done.decls);
                        assert(crate::build::function_usages::decl_texts(function_usages.forward_decls@)
                            =~= crate::build::function_usages::decl_texts(fd0).insert(key@, text@));
                        done = GenericScan { decls: done.decls.push((key@, text@)), ..done };
                    }
                } else {
                    cur.pos = cur.pos + 1;
                    let ghost m0 = def_src_map@;
                    def_src_map.insert(d.name.to_string(), src_idx);
                    let ghost i0 = inline_functions@;
                    if d.inline {
                        inline_functions.insert(d.name.to_string());
                    }
                    proof {
                        let r2 = generic_scan_from(ls, p + 2).unwrap();
                        let nm = d.name@;
                        let ins = if d.inline {
                            seq![nm]
                        } else {
                            Seq::<Seq<char>>::empty()
                        };
                        assert(rest.defs == seq![nm] + r2.defs);
                        assert(rest.inlines == ins + r2.inlines);
                        assert(total.decls =~= done.decls + r2.decls);
                        assert(total.defs =~= done.defs.push(nm) + r2.defs);
                        assert(total.inlines =~= (done.inlines + ins) + r2.inlines);
                        assert(total.proxies =~= done.proxies + r2.proxies);
                        assert(done.defs.push(nm).drop_last() =~= done.defs);
                        if d.inline {
                            assert(ins.contains(nm)) by {
                                assert(ins[0] == nm);
                            }
                        }
                        assert forall|x: Seq<char>| ins.contains(x) implies x == nm by {
                            let q = choose|q: int| 0 <= q < ins.len() && ins[q] == x;
                        }
                        assert forall|x: Seq<char>| #[trigger] inline_functions@.contains(x) == old(
                            inline_functions,
                        )@.union((done.inlines + ins).to_set()).contains(x) by {
                            assert(i0.contains(x) == (old(inline_functions)@.contains(x) || done.inlines.contains(x)));
                            assert((done.inlines + ins).to_set().contains(x) == (done.inlines + ins).contains(x));
                            assert((done.inlines + ins).contains(x) == (done.inlines.contains(x) || ins.contains(x))) by {
                                let cat = done.inlines + ins;
                                if cat.contains(x) {
                                    let q = choose|q: int| 0 <= q < cat.len() && cat[q] == x;
                                    if q < done.inlines.len() {
                                        assert(done.inlines[q] == x);
                                    } else {
                                        assert(ins[q - done.inlines.len()] == x);
                                    }
                                }
                                if done.inlines.contains(x) {
                                    let q = choose|q: int| 0 <= q < done.inlines.len() && done.inlines[q] == x;
                                    assert(cat[q] == x);
                                }
                                if ins.contains(x) {
                                    let q = choose|q: int| 0 <= q < ins.len() && ins[q] == x;
                                    assert(cat[done.inlines.len() + q] == x);
                                }
                            }
                            if d.inline {
                                assert(ins.contains(x) == (x == nm));
                                assert(inline_functions@.contains(x) == (i0.contains(x) || x == nm));
                            } else {
                                assert(!ins.contains(x));
                            }
                        }
                        assert(inline_functions@ =~= old(inline_functions)@.union((done.inlines + ins).to_set()));
                        done = GenericScan { defs: done.defs.push(nm), inlines: done.inlines + ins, ..done };
                    }
                }
            },
            None => {
                if crate::text::starts_with(line, "inline") {
                    let ghost gp0 = function_usages.generic_proxies@;
                    function_usages.add_gshared_proxy(line, &mut cur);
                    proof {
                        let r2 = generic_scan_from(ls, p + 3).unwrap();
                        let e = (crate::build::function_usages::proxy_name(line@), crate::build::function_usages::proxy_target(ls[p + 2]));
                        assert(rest.proxies == seq![e] + r2.proxies);
                        assert(total.decls =~= done.decls + r2.decls);
                        assert(total.defs =~= done.defs + r2.defs);
                        assert(total.inlines =~= done.inlines + r2.inlines);
                        assert(total.proxies =~= done.proxies.push(e) + r2.proxies);
                        assert(done.proxies.push(e).drop_last() =~= done.proxies);
                        assert(crate::build::function_usages::decl_texts(function_usages.generic_proxies@)
                            =~= crate::build::function_usages::decl_texts(gp0).insert(e.0, e.1));
                        done = GenericScan { proxies: done.proxies.push(e), ..done };
                    }
                } else {
                    proof {
                        let r2 = generic_scan_from(ls, p + 1).unwrap();
                        assert(rest == r2);
                    }
                }
            },
        }
    }
    proof {
        let r = generic_scan_from(ls, cur.pos as int).unwrap();
        assert(r == empty_generic_scan());
        assert(total.decls =~= done.decls);
        assert(total.defs =~= done.defs);
        assert(total.inlines =~= done.inlines);
        assert(total.proxies =~= done.proxies);
    }
}

} // verus!

verus! {

/// The line of an adjustor thunk's body that calls the method it adjusts
/// for: the fourth after its definition, without `return `.
pub open spec fn thunk_call(line: Seq<char>) -> Seq<char> {
    trim_start_str(trim(line), "return "@)
}

/// Reads a generic source from line `p` on for the calls of the adjustor
/// thunks `thunks` that the mod needs (see `line_effect`); a thunk whose
/// call line is past the end panics.
pub open spec fn thunk_calls_from(
    fu: UsageTables,
    visited: Set<Seq<char>>,
    thunks: Set<Seq<char>>,
    ls: Seq<Seq<char>>,
    p: int,
    st: UsageState,
    src_idx: usize,
) -> crate::error::Outcome<UsageState>
    decreases ls.len() - p,
{
    if p < 0 || p >= ls.len() {
        crate::error::Outcome::Done(st)
    } else {
        let line = ls[p];
        if has_suffix(line, seq![';']) {
            thunk_calls_from(fu, visited, thunks, ls, p + 1, st, src_idx)
        } else {
            match parse_decl(line) {
                Some((_, name, _, _)) => if thunks.contains(name) {
                    if p + 4 >= ls.len() {
                        crate::error::Outcome::Panic
                    } else {
                        match line_effect(fu, visited, st, thunk_call(ls[p + 4]), src_idx) {
                            Err(f) => crate::error::Outcome::Fail(f),
                            Ok(st2) => thunk_calls_from(fu, visited, thunks, ls, p + 5, st2, src_idx),
                        }
                    }
                } else {
                    thunk_calls_from(fu, visited, thunks, ls, p + 1, st, src_idx)
                },
                None => thunk_calls_from(fu, visited, thunks, ls, p + 1, st, src_idx),
            }
        }
    }
}

/// The same for the first `k` sources, the `i`-th read as source `i`.
pub open spec fn thunk_calls_upto(
    fu: UsageTables,
    visited: Set<Seq<char>>,
    thunks: Set<Seq<char>>,
    srcs: Seq<Seq<char>>,
    k: nat,
    st: UsageState,
) -> crate::error::Outcome<UsageState>
    decreases k,
{
    if k == 0 {
        crate::error::Outcome::Done(st)
    } else {
        match thunk_calls_upto(fu, visited, thunks, srcs, (k - 1) as nat, st) {
            crate::error::Outcome::Done(st1) => thunk_calls_from(
                fu,
                visited,
                thunks,
                lines(srcs[k - 1]),
                0,
                st1,
                (k - 1) as usize,
            ),
            other => other,
        }
    }
}

fn thunk_calls_in<'a>(
    src: &'a str,
    src_idx: usize,
    thunks: &StringHashSet,
    function_usages: &mut ModFunctionUsages,
    visited: &StringHashSet,
    gshared_queue: &mut Vec<String>,
    inline_queue: &mut Vec<(&'a str, usize)>,
) -> (r: Result<(), Error>)
    requires
        !(thunk_calls_from(
            usage_tables(old(function_usages)),
            visited@,
            thunks@,
            lines(src@),
            0,
            usage_state(old(function_usages), old(gshared_queue)@, old(inline_queue)@),
            src_idx,
        ) is Panic),
    ensures
        same_tables(final(function_usages), old(function_usages)),
        match thunk_calls_from(
            usage_tables(old(function_usages)),
            visited@,
            thunks@,
            lines(src@),
            0,
            usage_state(old(function_usages), old(gshared_queue)@, old(inline_queue)@),
            src_idx,
        ) {
            crate::error::Outcome::Done(st) => r is Ok && st == usage_state(
                final(function_usages),
                final(gshared_queue)@,
                final(inline_queue)@,
            ),
            crate::error::Outcome::Fail(f) => r matches Err(e) && e@ == f,
            crate::error::Outcome::Panic => false,
        },
{
    let ls = lines_of(src);
    let ghost all = views(ls@);
    let ghost s0 = *old(function_usages);
    let ghost total = thunk_calls_from(
        usage_tables(&s0),
        visited@,
        thunks@,
        all,
        0,
        usage_state(old(function_usages), old(gshared_queue)@, old(inline_queue)@),
        src_idx,
    );
    proof {
        reveal_strlit(";");
        assert(";"@ =~= seq![';']);
    }
    let mut p: usize = 0;
    while p < ls.len()
        invariant
            0 <= p <= ls@.len(),
            all == views(ls@),
            all == lines(src@),
            ";"@ == seq![';'],
            s0 == *old(function_usages),
            same_tables(function_usages, &s0),
            total == thunk_calls_from(
                usage_tables(&s0),
                visited@,
                thunks@,
                all,
                0,
                usage_state(old(function_usages), old(gshared_queue)@, old(inline_queue)@),
                src_idx,
            ),
            !(total is Panic),
            total == thunk_calls_from(
                usage_tables(&s0),
                visited@,
                thunks@,
                all,
                p as int,
                usage_state(function_usages, gshared_queue@, inline_queue@),
                src_idx,
            ),
        decreases ls@.len() - p,
    {
        let line = ls[p];
        proof {
            assert(all[p as int] == line@);
        }
        if ends_with(line, ";") {
            p = p + 1;
        } else {
            match FnDecl::try_parse(line) {
                Some(d) => {
                    if thunks.contains(d.name) {
                        if ls.len() - p <= 4 {
                            proof {
                                assert(false);
                            }
                            return Ok(());
                        }
                        let call = trim_start_matches(trim_ws(ls[p + 4]), "return ");
                        proof {
                            assert(all[p + 4] == ls@[p + 4]@);
                            lemma_line_effect_tables(
                                *function_usages,
                                s0,
                                visited@,
                                usage_state(function_usages, gshared_queue@, inline_queue@),
                                call@,
                                src_idx,
                            );
                        }
                        match process_line(call, src_idx, function_usages, visited, gshared_queue, inline_queue) {
                            Ok(()) => {},
                            Err(e) => {
                                return Err(e);
                            },
                        }
                        p = p + 5;
                    } else {
                        p = p + 1;
                    }
                },
                None => {
                    p = p + 1;
                },
            }
        }
    }
    Ok(())
}

/// Records the calls of the adjustor thunks `thunks` in the generic sources
/// (see `thunk_calls_upto`), stopping at the first that cannot be handled.
pub fn process_adj_thunk_calls<'a>(
    sources: &'a Vec<String>,
    thunks: &StringHashSet,
    function_usages: &mut ModFunctionUsages,
    visited: &StringHashSet,
    gshared_queue: &mut Vec<String>,
    inline_queue: &mut Vec<(&'a str, usize)>,
) -> (r: Result<(), Error>)
    requires
        !(thunk_calls_upto(
            usage_tables(old(function_usages)),
            visited@,
            thunks@,
            sources@.map_values(|s: String| s@),
            sources@.len(),
            usage_state(old(function_usages), old(gshared_queue)@, old(inline_queue)@),
        ) is Panic),
    ensures
        same_tables(final(function_usages), old(function_usages)),
        match thunk_calls_upto(
            usage_tables(old(function_usages)),
            visited@,
            thunks@,
            sources@.map_values(|s: String| s@),
            sources@.len(),
            usage_state(old(function_usages), old(gshared_queue)@, old(inline_queue)@),
        ) {
            crate::error::Outcome::Done(st) => r is Ok && st == usage_state(
                final(function_usages),
                final(gshared_queue)@,
                final(inline_queue)@,
            ),
            crate::error::Outcome::Fail(f) => r matches Err(e) && e@ == f,
            crate::error::Outcome::Panic => false,
        },
{
    let ghost sv = sources@.map_values(|s: String| s@);
    let ghost s0 = *old(function_usages);
    let ghost st0 = usage_state(old(function_usages), old(gshared_queue)@, old(inline_queue)@);
    let mut k: usize = 0;
    while k < sources.len()
        invariant
            0 <= k <= sources@.len(),
            sv == sources@.map_values(|s: String| s@),
            s0 == *old(function_usages),
            st0 == usage_state(old(function_usages), old(gshared_queue)@, old(inline_queue)@),
            same_tables(function_usages, &s0),
            !(thunk_calls_upto(usage_tables(&s0), visited@, thunks@, sv, sources@.len(), st0) is Panic),
            thunk_calls_upto(usage_tables(&s0), visited@, thunks@, sv, k as nat, st0) == crate::error::Outcome::Done(
                usage_state(function_usages, gshared_queue@, inline_queue@),
            ),
        decreases sources@.len() - k,
    {
        proof {
            lemma_upto_stops(usage_tables(&s0), visited@, thunks@, sv, (k + 1) as nat, st0);
            assert(sv[k as int] == sources@[k as int]@);
            lemma_thunk_calls_tables(
                *function_usages,
                s0,
                visited@,
                thunks@,
                lines(sv[k as int]),
                0,
                usage_state(function_usages, gshared_queue@, inline_queue@),
                k,
            );
        }
        let res = thunk_calls_in(sources[k].as_str(), k, thunks, function_usages, visited, gshared_queue, inline_queue);
        match res {
            Ok(()) => {},
            Err(e) => {
                proof {
                    lemma_upto_fail(usage_tables(&s0), visited@, thunks@, sv, (k + 1) as nat, sources@.len(), st0);
                }
                return Err(e);
            },
        }
        k = k + 1;
    }
    Ok(())
}

proof fn lemma_thunk_calls_tables(
    a: ModFunctionUsages,
    b: ModFunctionUsages,
    visited: Set<Seq<char>>,
    thunks: Set<Seq<char>>,
    ls: Seq<Seq<char>>,
    p: int,
    st: UsageState,
    idx: usize,
)
    requires
        same_tables(&a, &b),
    ensures
        thunk_calls_from(usage_tables(&a), visited, thunks, ls, p, st, idx) == thunk_calls_from(
            usage_tables(&b),
            visited,
            thunks,
            ls,
            p,
            st,
            idx,
        ),
    decreases ls.len() - p,
{
    if 0 <= p < ls.len() {
        lemma_thunk_calls_tables(a, b, visited, thunks, ls, p + 1, st, idx);
        if p + 4 < ls.len() {
            lemma_line_effect_tables(a, b, visited, st, thunk_call(ls[p + 4]), idx);
            match line_effect(usage_tables(&a), visited, st, thunk_call(ls[p + 4]), idx) {
                Ok(st2) => lemma_thunk_calls_tables(a, b, visited, thunks, ls, p + 5, st2, idx),
                Err(_) => {},
            }
        }
    }
}

/// A reading that panics somewhere does not panic earlier: the first `k`
/// sources do not panic where all do not.
proof fn lemma_upto_stops(
    fu: UsageTables,
    visited: Set<Seq<char>>,
    thunks: Set<Seq<char>>,
    srcs: Seq<Seq<char>>,
    k: nat,
    st: UsageState,
)
    requires
        k <= srcs.len(),
        !(thunk_calls_upto(fu, visited, thunks, srcs, srcs.len(), st) is Panic),
    ensures
        !(thunk_calls_upto(fu, visited, thunks, srcs, k, st) is Panic),
    decreases srcs.len() - k,
{
    if k < srcs.len() {
        lemma_upto_stops(fu, visited, thunks, srcs, k + 1, st);
    }
}

/// A reading that fails after `k` sources fails the same after all.
proof fn lemma_upto_fail(
    fu: UsageTables,
    visited: Set<Seq<char>>,
    thunks: Set<Seq<char>>,
    srcs: Seq<Seq<char>>,
    k: nat,
    n: nat,
    st: UsageState,
)
    requires
        k <= n,
        thunk_calls_upto(fu, visited, thunks, srcs, k, st) is Fail,
    ensures
        thunk_calls_upto(fu, visited, thunks, srcs, n, st) == thunk_calls_upto(fu, visited, thunks, srcs, k, st),
    decreases n - k,
{
    if k < n {
        lemma_upto_fail(fu, visited, thunks, srcs, k, (n - 1) as nat, st);
    }
}

} // verus!

verus! {

/// Where the worklist of generic functions stands: what the lines processed
/// so far gathered and queued, the functions visited, the metadata usage
/// names recorded, and whether it is the inline queue's turn.
pub ghost struct Worklist {
    pub st: UsageState,
    pub visited: Set<Seq<char>>,
    pub names: Set<Seq<char>>,
    pub inline_turn: bool,
}

/// What the worklist reads: the usage tables, the source each function is
/// defined in, and the sources with their names.
pub ghost struct GenericSources {
    pub fu: UsageTables,
    pub def_src: Map<Seq<char>, usize>,
    pub source_names: Seq<Seq<char>>,
    pub sources: Seq<Seq<char>>,
}

/// Processes the function `name` of the source `idx`, once `marks` are
/// visited and `usage_name` recorded: its body's lines in order (see
/// `fold_lines`).
pub open spec fn visit_fn(
    gs: GenericSources,
    w: Worklist,
    name: Seq<char>,
    idx: usize,
    usage_name: Seq<char>,
    marks: Set<Seq<char>>,
) -> Outcome<Worklist> {
    let visited = w.visited.union(marks);
    let names = w.names.insert(usage_name);
    if idx >= gs.sources.len() || !body_readable(gs.sources[idx as int], name) {
        Outcome::Panic
    } else {
        match fn_body(gs.sources[idx as int], name) {
            None => Outcome::Done(Worklist { visited, names, ..w }),
            Some(body) => match fold_lines(gs.fu, visited, w.st, body, idx) {
                Ok(st) => Outcome::Done(Worklist { st, visited, names, ..w }),
                Err(f) => Outcome::Fail(f),
            },
        }
    }
}

/// The names that processing the gshared function `g` marks as visited: `g`,
/// and for an inline one its name without `_inline` too.
pub open spec fn gshared_marks(g: Seq<char>) -> Set<Seq<char>> {
    if has_suffix(g, "_inline"@) {
        set![g, g.take(g.len() - "_inline"@.len())]
    } else {
        set![g]
    }
}

/// One step of the worklist: the gshared queue is drained first, the last
/// queued first, each function processed from its source; then the inline
/// queue likewise; then the gshared queue again.
pub open spec fn work_step(gs: GenericSources, w: Worklist) -> Outcome<Worklist> {
    if !w.inline_turn {
        if w.st.gshared_queue.len() > 0 {
            let g = w.st.gshared_queue.last();
            let w1 = Worklist { st: UsageState { gshared_queue: w.st.gshared_queue.drop_last(), ..w.st }, ..w };
            if !gs.def_src.contains_key(g) {
                Outcome::Panic
            } else {
                visit_fn(gs, w1, g, gs.def_src[g], md_usage_name(g, Seq::empty()), gshared_marks(g))
            }
        } else {
            Outcome::Done(Worklist { inline_turn: true, ..w })
        }
    } else if w.st.inline_queue.len() > 0 {
        let (n, idx) = w.st.inline_queue.last();
        let w1 = Worklist { st: UsageState { inline_queue: w.st.inline_queue.drop_last(), ..w.st }, ..w };
        if idx >= gs.source_names.len() {
            Outcome::Panic
        } else {
            visit_fn(gs, w1, n, idx, md_usage_name(n, gs.source_names[idx as int]), set![n])
        }
    } else {
        Outcome::Done(Worklist { inline_turn: false, ..w })
    }
}

/// The worklist run for at most `fuel` steps, until both queues are empty:
/// `None` where it is not done by then.
pub open spec fn work_run(gs: GenericSources, w: Worklist, fuel: nat) -> Option<Outcome<Worklist>>
    decreases fuel,
{
    if w.st.gshared_queue.len() == 0 && w.st.inline_queue.len() == 0 {
        Some(Outcome::Done(w))
    } else if fuel == 0 {
        None
    } else {
        match work_step(gs, w) {
            Outcome::Done(w2) => work_run(gs, w2, (fuel - 1) as nat),
            Outcome::Fail(f) => Some(Outcome::Fail(f)),
            Outcome::Panic => Some(Outcome::Panic),
        }
    }
}

/// The worklist ends within `fuel` steps, and does not panic.
pub open spec fn work_ends(gs: GenericSources, w: Worklist, fuel: nat) -> bool {
    work_run(gs, w, fuel) matches Some(o) && !(o is Panic)
}

/// The worklist empties its queues at some point, and does not panic.
pub open spec fn work_terminates(gs: GenericSources, w: Worklist) -> bool {
    exists|fuel: nat| #[trigger] work_ends(gs, w, fuel)
}

/// What the worklist comes to, where it ends.
pub open spec fn work_result(gs: GenericSources, w: Worklist) -> Outcome<Worklist> {
    work_run(gs, w, choose|fuel: nat| #[trigger] work_ends(gs, w, fuel))->0
}

proof fn lemma_fold_tables(
    a: ModFunctionUsages,
    b: ModFunctionUsages,
    visited: Set<Seq<char>>,
    st: UsageState,
    body: Seq<Seq<char>>,
    src_idx: usize,
)
    requires
        same_tables(&a, &b),
    ensures
        fold_lines(usage_tables(&a), visited, st, body, src_idx) == fold_lines(usage_tables(&b), visited, st, body, src_idx),
    decreases body.len(),
{
    if body.len() > 0 {
        lemma_fold_tables(a, b, visited, st, body.drop_last(), src_idx);
        match fold_lines(usage_tables(&a), visited, st, body.drop_last(), src_idx) {
            Ok(s) => lemma_line_effect_tables(a, b, visited, s, body.last(), src_idx),
            Err(_) => {},
        }
    }
}

pub open spec fn worklist_of<'a>(
    fu: &ModFunctionUsages,
    gq: Seq<String>,
    iq: Seq<(&'a str, usize)>,
    visited: Set<Seq<char>>,
    names: Set<Seq<char>>,
    inline_turn: bool,
) -> Worklist {
    Worklist { st: usage_state(fu, gq, iq), visited, names, inline_turn }
}

pub open spec fn generic_sources(
    fu: UsageTables,
    def_src: Map<Seq<char>, usize>,
    source_names: Seq<String>,
    sources: Seq<String>,
) -> GenericSources {
    GenericSources {
        fu,
        def_src,
        source_names: source_names.map_values(|s: String| s@),
        sources: sources.map_values(|s: String| s@),
    }
}

/// Drains the queues of generic functions (see `work_step`), each function
/// processed from the source that defines it, until both are empty; stops
/// at the first usage that cannot be handled. A run that never empties the
/// queues (a gshared function that reaches itself through a proxy) is no
/// input.
pub fn process_generic_queues<'a>(
    function_usages: &mut ModFunctionUsages,
    metadata_usage_names: &mut StringHashSet,
    visited: &mut StringHashSet,
    def_src_map: &vstd::hash_map::StringHashMap<usize>,
    source_names: &Vec<String>,
    sources: &'a Vec<String>,
    gshared_queue: &mut Vec<String>,
    inline_queue: &mut Vec<(&'a str, usize)>,
) -> (r: Result<(), Error>)
    requires
        work_terminates(
            generic_sources(usage_tables(old(function_usages)), def_src_map@, source_names@, sources@),
            worklist_of(
                old(function_usages),
                old(gshared_queue)@,
                old(inline_queue)@,
                old(visited)@,
                old(metadata_usage_names)@,
                false,
            ),
        ),
    ensures
        same_tables(final(function_usages), old(function_usages)),
        match work_result(
            generic_sources(usage_tables(old(function_usages)), def_src_map@, source_names@, sources@),
            worklist_of(
                old(function_usages),
                old(gshared_queue)@,
                old(inline_queue)@,
                old(visited)@,
                old(metadata_usage_names)@,
                false,
            ),
        ) {
            Outcome::Done(w) => r is Ok && w.st == usage_state(
                final(function_usages),
                final(gshared_queue)@,
                final(inline_queue)@,
            ) && w.visited == final(visited)@ && w.names == final(metadata_usage_names)@,
            Outcome::Fail(f) => r matches Err(e) && e@ == f,
            Outcome::Panic => false,
        },
{
    let ghost gs = generic_sources(usage_tables(function_usages), def_src_map@, source_names@, sources@);
    let ghost w0 = worklist_of(function_usages, gshared_queue@, inline_queue@, visited@, metadata_usage_names@, false);
    let ghost fuel = choose|fuel: nat| #[trigger] work_ends(gs, w0, fuel);
    assert(work_ends(gs, w0, fuel));
    let ghost total = work_run(
        gs,
        worklist_of(function_usages, gshared_queue@, inline_queue@, visited@, metadata_usage_names@, false),
        fuel,
    );
    let ghost mut left: nat = fuel;
    let mut inline_turn = false;
    proof {
        reveal_strlit("_inline");
        reveal_strlit("");
    }
    while !(gshared_queue.len() == 0 && inline_queue.len() == 0)
        invariant
            same_tables(function_usages, old(function_usages)),
            gs == generic_sources(usage_tables(old(function_usages)), def_src_map@, source_names@, sources@),
            total == work_run(
                gs,
                worklist_of(
                    old(function_usages),
                    old(gshared_queue)@,
                    old(inline_queue)@,
                    old(visited)@,
                    old(metadata_usage_names)@,
                    false,
                ),
                fuel,
            ),
            total matches Some(o) && !(o is Panic),
            total == Some(
                work_result(
                    gs,
                    worklist_of(
                        old(function_usages),
                        old(gshared_queue)@,
                        old(inline_queue)@,
                        old(visited)@,
                        old(metadata_usage_names)@,
                        false,
                    ),
                ),
            ),
            total == work_run(
                gs,
                worklist_of(function_usages, gshared_queue@, inline_queue@, visited@, metadata_usage_names@, inline_turn),
                left,
            ),
        decreases left,
    {
        let ghost w = worklist_of(function_usages, gshared_queue@, inline_queue@, visited@, metadata_usage_names@, inline_turn);
        assert(left > 0);
        proof {
            reveal_strlit("");
            reveal_strlit("_inline");
            assert(""@ =~= Seq::<char>::empty());
        }
        assert(total == match work_step(gs, w) {
            Outcome::Done(w2) => work_run(gs, w2, (left - 1) as nat),
            Outcome::Fail(f) => Some(Outcome::Fail(f)),
            Outcome::Panic => Some(Outcome::<Worklist>::Panic),
        });
        let ghost cur = *function_usages;
        if !inline_turn {
            if gshared_queue.len() > 0 {
                let ghost gq0 = gshared_queue@;
                let g = gshared_queue.pop().unwrap();
                proof {
                    assert(gq0.drop_last() == gshared_queue@);
                    assert(gshared_queue@.map_values(|s: String| s@) =~= gq0.map_values(|s: String| s@).drop_last());
                    assert(g@ == w.st.gshared_queue.last());
                }
                let ghost v0 = visited@;
                if let Some(non_inline) = strip_suffix(g.as_str(), "_inline") {
                    visited.insert(non_inline.to_string());
                }
                visited.insert(g.clone());
                proof {
                    assert(visited@ =~= v0.union(gshared_marks(g@)));
                }
                metadata_usage_names.insert(get_md_usage_name(g.as_str(), ""));
                let src_idx = match def_src_map.get(g.as_str()) {
                    Some(i) => *i,
                    None => {
                        proof {
                            assert(false);
                        }
                        return Ok(());
                    },
                };
                let ghost w1 = worklist_of(&cur, gshared_queue@, inline_queue@, v0, w.names, false);
                if src_idx >= sources.len() {
                    proof {
                        assert(false);
                    }
                    return Ok(());
                }
                proof {
                    assert(gs.sources[src_idx as int] == sources@[src_idx as int]@);
                    assert(body_readable(sources@[src_idx as int]@, g@));
                    lemma_fold_tables(cur, *old(function_usages), visited@, w1.st, fn_body(sources@[src_idx as int]@, g@).unwrap_or(Seq::empty()), src_idx);
                }
                let res = process_fn(sources[src_idx].as_str(), g.as_str(), src_idx, function_usages, visited, gshared_queue, inline_queue);
                proof {
                    assert(metadata_usage_names@ == w.names.insert(md_usage_name(g@, Seq::empty())));
                    assert(gs.def_src[g@] == src_idx);
                }
                match res {
                    Ok(()) => {
                        proof {
                            assert(work_step(gs, w) == Outcome::Done(
                                worklist_of(function_usages, gshared_queue@, inline_queue@, visited@, metadata_usage_names@, false),
                            ));
                        }
                    },
                    Err(e) => {
                        return Err(e);
                    },
                }
            } else {
                inline_turn = true;
            }
        } else {
            if inline_queue.len() > 0 {
                let ghost iq0 = inline_queue@;
                let (inl, src_idx) = inline_queue.pop().unwrap();
                proof {
                    assert(iq0.drop_last() == inline_queue@);
                    assert(inline_queue@.map_values(|p: (&'a str, usize)| (p.0@, p.1)) =~= iq0.map_values(
                        |p: (&'a str, usize)| (p.0@, p.1),
                    ).drop_last());
                    assert((inl@, src_idx) == w.st.inline_queue.last());
                }
                let ghost v0 = visited@;
                visited.insert(inl.to_string());
                proof {
                    assert(visited@ =~= v0.union(set![inl@]));
                }
                if src_idx >= source_names.len() {
                    proof {
                        assert(false);
                    }
                    return Ok(());
                }
                metadata_usage_names.insert(get_md_usage_name(inl, source_names[src_idx].as_str()));
                let ghost w1 = worklist_of(&cur, gshared_queue@, inline_queue@, v0, w.names, true);
                if src_idx >= sources.len() {
                    proof {
                        assert(false);
                    }
                    return Ok(());
                }
                proof {
                    assert(gs.source_names[src_idx as int] == source_names@[src_idx as int]@);
                    assert(gs.sources[src_idx as int] == sources@[src_idx as int]@);
                    lemma_fold_tables(cur, *old(function_usages), visited@, w1.st, fn_body(sources@[src_idx as int]@, inl@).unwrap_or(Seq::empty()), src_idx);
                }
                let res = process_fn(sources[src_idx].as_str(), inl, src_idx, function_usages, visited, gshared_queue, inline_queue);
                proof {
                    assert(metadata_usage_names@ == w.names.insert(md_usage_name(inl@, gs.source_names[src_idx as int])));
                }
                match res {
                    Ok(()) => {
                        proof {
                            assert(work_step(gs, w) == Outcome::Done(
                                worklist_of(function_usages, gshared_queue@, inline_queue@, visited@, metadata_usage_names@, true),
                            ));
                        }
                    },
                    Err(e) => {
                        return Err(e);
                    },
                }
            } else {
                inline_turn = false;
            }
        }
        proof {
            left = (left - 1) as nat;
        }
    }
    Ok(())
}

} // verus!

verus! {

/// What reading the generic sources gathers: their forward declarations and
/// gshared proxies inserted in order, each function they define mapped to
/// its source, and their inline functions.
pub ghost struct SourcesScan {
    pub decls: Map<Seq<char>, Seq<char>>,
    pub proxies: Map<Seq<char>, Seq<char>>,
    pub def_src: Map<Seq<char>, usize>,
    pub inlines: Set<Seq<char>>,
}

/// The generic sources `srcs` read in order after `init`, the `i`-th as
/// source `i` (see `generic_scan_from`); `None` where one cannot be read.
pub open spec fn scan_sources(srcs: Seq<Seq<char>>, init: SourcesScan) -> Option<SourcesScan>
    decreases srcs.len(),
{
    if srcs.len() == 0 {
        Some(init)
    } else {
        match scan_sources(srcs.drop_last(), init) {
            None => None,
            Some(sc) => match generic_scan_from(lines(srcs.last()), 0) {
                None => None,
                Some(t) => Some(
                    SourcesScan {
                        decls: crate::build::function_usages::insert_decls(sc.decls, t.decls),
                        proxies: crate::build::function_usages::insert_decls(sc.proxies, t.proxies),
                        def_src: insert_all(sc.def_src, t.defs, (srcs.len() - 1) as usize),
                        inlines: sc.inlines.union(t.inlines.to_set()),
                    },
                ),
            },
        }
    }
}

proof fn lemma_scan_prefix(srcs: Seq<Seq<char>>, init: SourcesScan, k: int)
    requires
        0 <= k <= srcs.len(),
        scan_sources(srcs, init) is Some,
    ensures
        scan_sources(srcs.take(k), init) is Some,
    decreases srcs.len() - k,
{
    if k < srcs.len() {
        lemma_scan_prefix(srcs, init, k + 1);
        assert(srcs.take(k + 1).drop_last() =~= srcs.take(k));
    } else {
        assert(srcs.take(k) =~= srcs);
    }
}

/// What the usages hold before the sources are read.
pub open spec fn scan_start(fu: &ModFunctionUsages, def_src: Map<Seq<char>, usize>, inlines: Set<Seq<char>>) -> SourcesScan {
    SourcesScan {
        decls: crate::build::function_usages::decl_texts(fu.forward_decls@),
        proxies: crate::build::function_usages::decl_texts(fu.generic_proxies@),
        def_src,
        inlines,
    }
}

/// Reads each generic source in order (see `scan_sources`).
pub fn scan_generic_sources(
    sources: &Vec<String>,
    function_usages: &mut ModFunctionUsages,
    def_src_map: &mut vstd::hash_map::StringHashMap<usize>,
    inline_functions: &mut StringHashSet,
)
    requires
        scan_sources(
            sources@.map_values(|s: String| s@),
            scan_start(old(function_usages), old(def_src_map)@, old(inline_functions)@),
        ) is Some,
    ensures
        scan_sources(
            sources@.map_values(|s: String| s@),
            scan_start(old(function_usages), old(def_src_map)@, old(inline_functions)@),
        ) == Some(scan_start(final(function_usages), final(def_src_map)@, final(inline_functions)@)),
        usage_tables(final(function_usages)).external_methods == usage_tables(old(function_usages)).external_methods,
        usage_tables(final(function_usages)).mod_functions == usage_tables(old(function_usages)).mod_functions,
        final(function_usages).wf() == old(function_usages).wf(),
        final(function_usages).using_gshared@ == old(function_usages).using_gshared@,
        final(function_usages).using_external@ == old(function_usages).using_external@,
        final(function_usages).generic_using_fns@ == old(function_usages).generic_using_fns@,
        final(function_usages).required_invokers@ == old(function_usages).required_invokers@,
        final(function_usages).invokers_map@ == old(function_usages).invokers_map@,
        final(function_usages).required_generic_funcs@ == old(function_usages).required_generic_funcs@,
        final(function_usages).generic_func_map@ == old(function_usages).generic_func_map@,
        final(function_usages).required_generic_adj_thunks@ == old(function_usages).required_generic_adj_thunks@,
        final(function_usages).generic_adj_thunk_map@ == old(function_usages).generic_adj_thunk_map@,
{
    let ghost sv = sources@.map_values(|s: String| s@);
    let ghost init = scan_start(function_usages, def_src_map@, inline_functions@);
    let mut k: usize = 0;
    proof {
        assert(sv.take(0) =~= Seq::<Seq<char>>::empty());
    }
    while k < sources.len()
        invariant
            0 <= k <= sources@.len(),
            sv == sources@.map_values(|s: String| s@),
            init == scan_start(old(function_usages), old(def_src_map)@, old(inline_functions)@),
            scan_sources(sv, init) is Some,
            scan_sources(sv.take(k as int), init) == Some(scan_start(function_usages, def_src_map@, inline_functions@)),
            function_usages.external_methods@ == old(function_usages).external_methods@,
            function_usages.mod_functions@ == old(function_usages).mod_functions@,
            function_usages.wf() == old(function_usages).wf(),
            function_usages.using_gshared@ == old(function_usages).using_gshared@,
            function_usages.using_external@ == old(function_usages).using_external@,
            function_usages.generic_using_fns@ == old(function_usages).generic_using_fns@,
            function_usages.required_invokers@ == old(function_usages).required_invokers@,
            function_usages.invokers_map@ == old(function_usages).invokers_map@,
            function_usages.required_generic_funcs@ == old(function_usages).required_generic_funcs@,
            function_usages.generic_func_map@ == old(function_usages).generic_func_map@,
            function_usages.required_generic_adj_thunks@ == old(function_usages).required_generic_adj_thunks@,
            function_usages.generic_adj_thunk_map@ == old(function_usages).generic_adj_thunk_map@,
        decreases sources@.len() - k,
    {
        proof {
            lemma_scan_prefix(sv, init, k + 1);
            assert(sv.take(k + 1).drop_last() =~= sv.take(k as int));
            assert(sv.take(k + 1).last() == sources@[k as int]@);
        }
        scan_generic_source(sources[k].as_str(), k, function_usages, def_src_map, inline_functions);
        k = k + 1;
    }
    proof {
        assert(sv.take(k as int) =~= sv);
    }
}

/// What the generic pass hands on to writing the generic source: the
/// structs declared and defined in the sources, the invoker templates, the
/// source each function is defined in, and the generic functions visited
/// (which the shim check reads).
pub struct GenericTransformData<'a> {
    pub struct_fds: StringHashSet,
    pub struct_defs: vstd::hash_map::StringHashMap<crate::build::structs::StructDef<'a>>,
    pub generic_invoker_templates: vstd::hash_map::StringHashMap<String>,
    pub def_src_map: vstd::hash_map::StringHashMap<usize>,
    pub visited: StringHashSet,
}

/// The tables the generic pass reads once the sources are read.
pub open spec fn scanned_tables(fu: &ModFunctionUsages, sc: SourcesScan) -> UsageTables {
    UsageTables { generic_proxies: sc.proxies, ..usage_tables(fu) }
}

pub open spec fn string_views(v: Seq<String>) -> Seq<Seq<char>> {
    v.map_values(|s: String| s@)
}

/// Where the generic pass stands before the worklist: the usages gathered
/// so far, the gshared functions the mod's sources use queued in `order`.
pub open spec fn initial_usages(fu: &ModFunctionUsages, order: Seq<String>) -> UsageState {
    UsageState {
        using_external: fu.using_external@,
        generic_using_fns: fu.generic_using_fns@,
        gshared_queue: string_views(order),
        inline_queue: Seq::empty(),
    }
}

/// Whether the generic pass gets through on these inputs: the sources read,
/// the adjustor thunks' calls do not panic, and where they succeed the
/// worklist ends, and the sources' templates and structs can be read.
pub open spec fn transform_runs(
    fu: &ModFunctionUsages,
    names: Set<Seq<char>>,
    source_names: Seq<String>,
    sources: Seq<String>,
    thunks: Set<Seq<char>>,
    order: Seq<String>,
) -> bool {
    let sv = string_views(sources);
    match scan_sources(sv, scan_start(fu, Map::empty(), Set::empty())) {
        None => false,
        Some(sc) => {
            let t = scanned_tables(fu, sc);
            match thunk_calls_upto(t, Set::empty(), thunks, sv, sv.len(), initial_usages(fu, order)) {
                Outcome::Panic => false,
                Outcome::Fail(_) => true,
                Outcome::Done(st) => {
                    let gs = GenericSources { fu: t, def_src: sc.def_src, source_names: string_views(source_names), sources: sv };
                    let w = Worklist { st, visited: Set::empty(), names, inline_turn: false };
                    &&& work_terminates(gs, w)
                    &&& (work_result(gs, w) is Done ==> templates_of(sv) is Some && crate::build::structs::structs_of(sv) is Some)
                }
            }
        },
    }
}

/// The generic pass over the mod's generic sources: reads their declarations,
/// definitions and proxies, records the calls of the adjustor thunks
/// `gen_adj_thunks`, then drains the worklist of generic functions that
/// starts from the gshared functions the mod's own sources use (queued in
/// `gshared_order`, the order their set is walked in), and collects the
/// invoker templates and structs of the sources. Stops at the first usage
/// that cannot be handled.
pub fn transform<'a>(
    function_usages: &mut ModFunctionUsages,
    metadata_usage_names: &mut StringHashSet,
    source_names: &Vec<String>,
    sources: &'a Vec<String>,
    gen_adj_thunks: &StringHashSet,
    gshared_order: Vec<String>,
) -> (r: Result<GenericTransformData<'a>, Error>)
    requires
        string_views(gshared_order@).no_duplicates(),
        string_views(gshared_order@).to_set() == old(function_usages).using_gshared@,
        transform_runs(
            old(function_usages),
            old(metadata_usage_names)@,
            source_names@,
            sources@,
            gen_adj_thunks@,
            gshared_order@,
        ),
    ensures
        ({
            let sv = string_views(sources@);
            let sc = scan_sources(sv, scan_start(old(function_usages), Map::empty(), Set::empty())).unwrap();
            let t = scanned_tables(old(function_usages), sc);
            &&& crate::build::function_usages::decl_texts(final(function_usages).forward_decls@) == sc.decls
            &&& usage_tables(final(function_usages)) == t
            &&& final(function_usages).using_gshared@ == old(function_usages).using_gshared@
            &&& final(function_usages).wf() == old(function_usages).wf()
            &&& match thunk_calls_upto(t, Set::empty(), gen_adj_thunks@, sv, sv.len(), initial_usages(old(function_usages), gshared_order@)) {
                Outcome::Fail(f) => r matches Err(e) && e@ == f,
                Outcome::Panic => false,
                Outcome::Done(st) => {
                    let gs = GenericSources { fu: t, def_src: sc.def_src, source_names: string_views(source_names@), sources: sv };
                    let w0 = Worklist { st, visited: Set::empty(), names: old(metadata_usage_names)@, inline_turn: false };
                    match work_result(gs, w0) {
                        Outcome::Fail(f) => r matches Err(e) && e@ == f,
                        Outcome::Panic => false,
                        Outcome::Done(w) => r matches Ok(d) && {
                            &&& d.def_src_map@ == sc.def_src
                            &&& d.visited@ == w.visited
                            &&& final(metadata_usage_names)@ == w.names
                            &&& final(function_usages).using_external@ == w.st.using_external
                            &&& final(function_usages).generic_using_fns@ == w.st.generic_using_fns
                            &&& templates_of(sv) == Some(crate::build::function_usages::decl_texts(d.generic_invoker_templates@))
                            &&& crate::build::structs::structs_of(sv) == Some(
                                (d.struct_fds@, crate::build::structs::defs_view(d.struct_defs@)),
                            )
                        },
                    }
                },
            }
        }),
{
    let ghost sv = string_views(sources@);
    let mut def_src_map: vstd::hash_map::StringHashMap<usize> = vstd::hash_map::StringHashMap::new();
    let mut inline_functions = StringHashSet::new();
    proof {
        assert(sources@.map_values(|s: String| s@) == sv);
    }
    scan_generic_sources(sources, function_usages, &mut def_src_map, &mut inline_functions);
    let ghost sc = scan_start(function_usages, def_src_map@, inline_functions@);
    let ghost t = usage_tables(function_usages);
    let mut visited = StringHashSet::new();
    let mut gshared_queue = gshared_order;
    let mut inline_queue: Vec<(&'a str, usize)> = Vec::new();
    proof {
        assert(t == scanned_tables(old(function_usages), sc));
        assert(usage_state(function_usages, gshared_queue@, inline_queue@) =~= initial_usages(old(function_usages), gshared_queue@)) by {
            assert(inline_queue@.map_values(|p: (&'a str, usize)| (p.0@, p.1)) =~= Seq::<(Seq<char>, usize)>::empty());
        }
        assert(visited@ =~= Set::<Seq<char>>::empty());
    }
    process_adj_thunk_calls(sources, gen_adj_thunks, function_usages, &visited, &mut gshared_queue, &mut inline_queue)?;
    proof {
        assert(usage_tables(function_usages) == t);
    }
    process_generic_queues(
        function_usages,
        metadata_usage_names,
        &mut visited,
        &def_src_map,
        source_names,
        sources,
        &mut gshared_queue,
        &mut inline_queue,
    )?;
    let generic_invoker_templates = generic_invoker_templates(sources);
    let (struct_fds, struct_defs) = crate::build::structs::find_struct_defs(sources);
    proof {
        assert(crate::build::structs::source_views(sources@) == sv);
    }
    Ok(GenericTransformData { struct_fds, struct_defs, generic_invoker_templates, def_src_map, visited })
}

} // verus!

verus! {

/// What writing the generic definitions reads: the generic functions to
/// write (each with whether it is written as a shim), the source each
/// function is defined in, the sources' names, the adjustor thunks the mod
/// needs, and the gshared proxies.
pub ghost struct GenInputs {
    pub funcs: Map<Seq<char>, bool>,
    pub def_src: Map<Seq<char>, usize>,
    pub source_names: Seq<Seq<char>>,
    pub thunks: Set<Seq<char>>,
    pub proxies: Map<Seq<char>, Seq<char>>,
}

/// The inline gshared functions and the proxies written so far.
pub ghost struct GenWritten {
    pub inl: Set<Seq<char>>,
    pub proxies: Set<Seq<char>>,
}

/// The line that declares the metadata usage id of the function `name`
/// from the source named `source_name`.
pub open spec fn usage_id_decl(name: Seq<char>, source_name: Seq<char>) -> Seq<char> {
    "IL2CPP_EXTERN_C const uint32_t "@ + md_usage_name(name, source_name) + "_MetadataUsageId;\n"@
}

/// Writes the definitions the generic source needs from the lines `ls` of a
/// source, from line `p` on, after `out`: each generic function to write,
/// after the declaration of its metadata usage id, as a shim or with its
/// body (an inline gshared function once); each adjustor thunk the mod
/// needs; each proxy of a function to write, once. A body copied runs up
/// to the first `}` line, and panics where there is none.
pub open spec fn gen_defs_from(g: GenInputs, ls: Seq<Seq<char>>, p: int, out: Seq<char>, st: GenWritten) -> Outcome<
    (Seq<char>, GenWritten),
>
    decreases ls.len() - p,
{
    if p < 0 || p >= ls.len() {
        Outcome::Done((out, st))
    } else {
        let line = ls[p];
        proof {
            lemma_body_end_bound(ls, p + 1);
        }
        let q = body_end(ls, p + 1);
        if has_suffix(line, ";"@) {
            gen_defs_from(g, ls, p + 1, out, st)
        } else {
            match parse_decl(line) {
                Some((ret, name, params, _)) => if g.funcs.contains_key(name) {
                    if has_suffix(name, "_inline"@) && st.inl.contains(name) {
                        gen_defs_from(g, ls, p + 1, out, st)
                    } else {
                        let st1 = if has_suffix(name, "_inline"@) {
                            GenWritten { inl: st.inl.insert(name), ..st }
                        } else {
                            st
                        };
                        if !g.def_src.contains_key(name) || g.def_src[name] >= g.source_names.len() {
                            Outcome::Panic
                        } else {
                            let head = out + usage_id_decl(name, g.source_names[g.def_src[name] as int]) + line + "\n"@;
                            if g.funcs[name] {
                                if !params_named(params) {
                                    Outcome::Panic
                                } else {
                                    gen_defs_from(g, ls, p + 1, head + shim_text(ret, params), st1)
                                }
                            } else if q >= ls.len() {
                                Outcome::Panic
                            } else {
                                gen_defs_from(g, ls, q + 1, head + lines_text(ls.subrange(p + 1, q + 1)), st1)
                            }
                        }
                    }
                } else if g.thunks.contains(name) {
                    if q >= ls.len() {
                        Outcome::Panic
                    } else {
                        gen_defs_from(g, ls, q + 1, out + line + "\n"@ + lines_text(ls.subrange(p + 1, q + 1)), st)
                    }
                } else {
                    gen_defs_from(g, ls, p + 1, out, st)
                },
                None => if crate::build::parser::has_prefix(line, "inline"@) {
                    if !crate::build::function_usages::proxy_decl_ok(line) {
                        Outcome::Panic
                    } else {
                        let pn = crate::build::function_usages::proxy_name(line);
                        if g.proxies.contains_key(pn) && g.funcs.contains_key(g.proxies[pn]) && !st.proxies.contains(pn) {
                            if q >= ls.len() {
                                Outcome::Panic
                            } else {
                                gen_defs_from(
                                    g,
                                    ls,
                                    q + 1,
                                    out + line + "\n"@ + lines_text(ls.subrange(p + 1, q + 1)),
                                    GenWritten { proxies: st.proxies.insert(pn), ..st },
                                )
                            }
                        } else {
                            gen_defs_from(g, ls, p + 1, out, st)
                        }
                    }
                } else {
                    gen_defs_from(g, ls, p + 1, out, st)
                },
            }
        }
    }
}

/// The same over the first `k` sources, in order.
pub open spec fn gen_defs_upto(g: GenInputs, srcs: Seq<Seq<char>>, k: nat, out: Seq<char>, st: GenWritten) -> Outcome<
    (Seq<char>, GenWritten),
>
    decreases k,
{
    if k == 0 || k > srcs.len() {
        Outcome::Done((out, st))
    } else {
        match gen_defs_upto(g, srcs, (k - 1) as nat, out, st) {
            Outcome::Done((o, s)) => gen_defs_from(g, lines(srcs[k - 1]), 0, o, s),
            other => other,
        }
    }
}

/// Appends the lines from `from` up to and with the first `}` line, each
/// with a line break; gives the position after it.
fn copy_body(out: &mut String, ls: &Vec<&str>, from: usize) -> (r: usize)
    requires
        from <= ls@.len(),
        body_end(views(ls@), from as int) < ls@.len(),
    ensures
        r == body_end(views(ls@), from as int) + 1,
        final(out)@ == old(out)@ + lines_text(views(ls@).subrange(from as int, r as int)),
{
    let ghost all = views(ls@);
    let ghost q = body_end(all, from as int);
    proof {
        lemma_body_end_bound(all, from as int);
        reveal_strlit("}");
        assert(all.subrange(from as int, from as int) =~= Seq::<Seq<char>>::empty());
    }
    let mut j: usize = from;
    loop
        invariant
            from <= j <= q,
            q < ls@.len(),
            ls@.len() == ls.len(),
            all == views(ls@),
            q == body_end(all, from as int),
            all[q] == "}"@,
            forall|k: int| from <= k < q ==> all[k] != "}"@,
            out@ == old(out)@ + lines_text(all.subrange(from as int, j as int)),
        decreases q - j,
    {
        let line = ls[j];
        proof {
            assert(all[j as int] == line@);
            assert(all.subrange(from as int, j + 1).drop_last() =~= all.subrange(from as int, j as int));
        }
        out.append(line);
        out.append("\n");
        proof {
            assert(out@ =~= old(out)@ + lines_text(all.subrange(from as int, j + 1)));
        }
        if str_eq(line, "}") {
            proof {
                if j < q {
                    assert(false);
                }
            }
            return j + 1;
        }
        proof {
            assert(j != q);
        }
        j = j + 1;
    }
}

pub open spec fn gen_written(inl: &StringHashSet, proxies: &StringHashSet) -> GenWritten {
    GenWritten { inl: inl@, proxies: proxies@ }
}

pub open spec fn gen_inputs(
    funcs: Map<Seq<char>, bool>,
    def_src: Map<Seq<char>, usize>,
    source_names: Seq<String>,
    thunks: Set<Seq<char>>,
    fu: &ModFunctionUsages,
) -> GenInputs {
    GenInputs {
        funcs,
        def_src,
        source_names: string_views(source_names),
        thunks,
        proxies: crate::build::function_usages::decl_texts(fu.generic_proxies@),
    }
}

/// Writes the definitions the generic source needs from one source (see
/// `gen_defs_from`).
fn write_defs_of(
    out: &mut String,
    src: &str,
    funcs: &vstd::hash_map::StringHashMap<bool>,
    def_src_map: &vstd::hash_map::StringHashMap<usize>,
    source_names: &Vec<String>,
    required_adj_thunks: &StringHashSet,
    function_usages: &ModFunctionUsages,
    written_inline: &mut StringHashSet,
    written_proxies: &mut StringHashSet,
)
    requires
        !(gen_defs_from(
            gen_inputs(funcs@, def_src_map@, source_names@, required_adj_thunks@, function_usages),
            lines(src@),
            0,
            old(out)@,
            gen_written(old(written_inline), old(written_proxies)),
        ) is Panic),
    ensures
        gen_defs_from(
            gen_inputs(funcs@, def_src_map@, source_names@, required_adj_thunks@, function_usages),
            lines(src@),
            0,
            old(out)@,
            gen_written(old(written_inline), old(written_proxies)),
        ) == Outcome::Done((final(out)@, gen_written(final(written_inline), final(written_proxies)))),
{
    let ghost g = gen_inputs(funcs@, def_src_map@, source_names@, required_adj_thunks@, function_usages);
    let ls = lines_of(src);
    let ghost all = views(ls@);
    let ghost total = gen_defs_from(g, all, 0, out@, gen_written(written_inline, written_proxies));
    proof {
        reveal_strlit(";");
        reveal_strlit("_inline");
        reveal_strlit("inline");
        reveal_strlit("\n");
        reveal_strlit("IL2CPP_EXTERN_C const uint32_t ");
        reveal_strlit("_MetadataUsageId;\n");
    }
    let mut p: usize = 0;
    while p < ls.len()
        invariant
            0 <= p <= ls@.len(),
            all == views(ls@),
            all == lines(src@),
            g == gen_inputs(funcs@, def_src_map@, source_names@, required_adj_thunks@, function_usages),
            !(total is Panic),
            total == gen_defs_from(g, all, p as int, out@, gen_written(written_inline, written_proxies)),
        decreases ls@.len() - p,
    {
        let line = ls[p];
        proof {
            assert(all[p as int] == line@);
            lemma_body_end_bound(all, p + 1);
        }
        if ends_with(line, ";") {
            p = p + 1;
        } else {
            match FnDecl::try_parse(line) {
                Some(fn_def) => {
                    match funcs.get(fn_def.name) {
                        Some(stub) => {
                            let is_inline = ends_with(fn_def.name, "_inline");
                            if is_inline && written_inline.contains(fn_def.name) {
                                p = p + 1;
                            } else {
                                if is_inline {
                                    written_inline.insert(fn_def.name.to_string());
                                }
                                let idx = match def_src_map.get(fn_def.name) {
                                    Some(i) => *i,
                                    None => {
                                        proof {
                                            assert(false);
                                        }
                                        return;
                                    },
                                };
                                if idx >= source_names.len() {
                                    proof {
                                        assert(false);
                                    }
                                    return;
                                }
                                let usage = get_md_usage_name(fn_def.name, source_names[idx].as_str());
                                let ghost before = out@;
                                out.append("IL2CPP_EXTERN_C const uint32_t ");
                                out.append(usage.as_str());
                                out.append("_MetadataUsageId;\n");
                                out.append(line);
                                out.append("\n");
                                proof {
                                    assert(out@ =~= before + usage_id_decl(fn_def.name@, g.source_names[idx as int]) + line@
                                        + "\n"@);
                                }
                                if *stub {
                                    write_shim(out, &fn_def);
                                    p = p + 1;
                                } else {
                                    p = copy_body(out, &ls, p + 1);
                                }
                            }
                        },
                        None => {
                            if required_adj_thunks.contains(fn_def.name) {
                                out.append(line);
                                out.append("\n");
                                p = copy_body(out, &ls, p + 1);
                            } else {
                                p = p + 1;
                            }
                        },
                    }
                },
                None => {
                    if starts_with(line, "inline") {
                        let pn = function_usages.parse_gshared_proxy_decl(line);
                        let write_it = match function_usages.generic_proxies.get(pn) {
                            Some(name) => funcs.contains_key(name.as_str()) && !written_proxies.contains(pn),
                            None => false,
                        };
                        if write_it {
                            written_proxies.insert(pn.to_string());
                            out.append(line);
                            out.append("\n");
                            p = copy_body(out, &ls, p + 1);
                        } else {
                            p = p + 1;
                        }
                    } else {
                        p = p + 1;
                    }
                },
            }
        }
    }
}

} // verus!

verus! {

/// A forward declaration of each struct of `names`, in order.
pub open spec fn fd_lines(names: Seq<Seq<char>>) -> Seq<char>
    decreases names.len(),
{
    if names.len() == 0 {
        Seq::empty()
    } else {
        fd_lines(names.drop_last()) + "struct "@ + names.last() + ";\n"@
    }
}

/// The templates of `names`, in order, each followed by a line break.
pub open spec fn template_texts(names: Seq<Seq<char>>, templates: Map<Seq<char>, Seq<char>>) -> Seq<char>
    decreases names.len(),
{
    if names.len() == 0 {
        Seq::empty()
    } else {
        template_texts(names.drop_last(), templates) + templates[names.last()] + "\n"@
    }
}

/// Each of `items` after `prefix`, on a line of its own.
pub open spec fn prefixed_lines(prefix: Seq<char>, items: Seq<Seq<char>>) -> Seq<char>
    decreases items.len(),
{
    if items.len() == 0 {
        Seq::empty()
    } else {
        prefixed_lines(prefix, items.drop_last()) + prefix + items.last() + "\n"@
    }
}

/// The forward declaration of each of `names` that `decls` holds, in order,
/// each ended by `;`.
pub open spec fn known_decl_lines(names: Seq<Seq<char>>, decls: Map<Seq<char>, Seq<char>>) -> Seq<char>
    decreases names.len(),
{
    if names.len() == 0 {
        Seq::empty()
    } else {
        known_decl_lines(names.drop_last(), decls) + if decls.contains_key(names.last()) {
            decls[names.last()] + ";\n"@
        } else {
            Seq::empty()
        }
    }
}

/// The C++ types of the declarations `srcs` written in order (see
/// `add_cpp_ty`).
pub open spec fn cpp_all(
    defs: Map<Seq<char>, (Seq<char>, Option<Seq<char>>)>,
    srcs: Seq<Seq<char>>,
    s: crate::build::structs::CppTypes,
) -> Outcome<crate::build::structs::CppTypes>
    decreases srcs.len(),
{
    if srcs.len() == 0 {
        Outcome::Done(s)
    } else {
        match cpp_all(defs, srcs.drop_last(), s) {
            Outcome::Done(s1) => crate::build::structs::cpp_ty_result(defs, srcs.last(), s1),
            other => other,
        }
    }
}

/// Each of those writes ends and does not panic.
pub open spec fn cpp_all_ends(
    defs: Map<Seq<char>, (Seq<char>, Option<Seq<char>>)>,
    srcs: Seq<Seq<char>>,
    s: crate::build::structs::CppTypes,
) -> bool
    decreases srcs.len(),
{
    srcs.len() > 0 ==> {
        &&& cpp_all_ends(defs, srcs.drop_last(), s)
        &&& (cpp_all(defs, srcs.drop_last(), s) matches Outcome::Done(s1) ==> exists|fuel: nat|
            #[trigger] crate::build::structs::cpp_ty_ends(defs, srcs.last(), s1, fuel))
    }
}

/// The orders in which the generic source's sets are walked: the structs
/// declared ahead, the invoker templates, the structs defined, the
/// functions the generic sources use, and the generic functions to write.
pub struct WriteOrder {
    pub struct_fds: Vec<String>,
    pub templates: Vec<String>,
    pub struct_defs: Vec<String>,
    pub generic_using_fns: Vec<String>,
    pub funcs: Vec<String>,
}

/// The opening of the generic source.
pub open spec fn generic_header() -> Seq<char> {
    "#include \"codegen/il2cpp-codegen.h\"\n"@ + "#include \"merge/codegen.h\"\n"@ + "\n"@
}

/// Everything the generic source holds before the definitions: its
/// opening, the structs declared ahead, the invoker templates, then the
/// C++ types of the structs defined (see `cpp_all`); the declarations of
/// the metadata usages, of the functions the generic sources use and of the
/// generic functions to write follow.
pub open spec fn generic_head(
    data_fds: Set<Seq<char>>,
    templates: Map<Seq<char>, Seq<char>>,
    defs: Map<Seq<char>, (Seq<char>, Option<Seq<char>>)>,
    order: (Seq<Seq<char>>, Seq<Seq<char>>, Seq<Seq<char>>, Seq<Seq<char>>, Seq<Seq<char>>),
    usage_fds: Seq<Seq<char>>,
    decls: Map<Seq<char>, Seq<char>>,
) -> Outcome<Seq<char>> {
    let (fd_order, template_order, struct_order, using_order, func_order) = order;
    let start = crate::build::structs::CppTypes {
        out: generic_header() + fd_lines(fd_order) + template_texts(template_order, templates),
        fds: data_fds,
        added: template_order.to_set(),
    };
    match cpp_all(defs, struct_order, start) {
        Outcome::Done(c) => Outcome::Done(
            c.out + prefixed_lines("IL2CPP_EXTERN_C "@, usage_fds) + known_decl_lines(using_order, decls) + "\n"@
                + known_decl_lines(func_order, decls),
        ),
        Outcome::Fail(f) => Outcome::Fail(f),
        Outcome::Panic => Outcome::Panic,
    }
}

pub open spec fn order_views(o: &WriteOrder) -> (
    Seq<Seq<char>>,
    Seq<Seq<char>>,
    Seq<Seq<char>>,
    Seq<Seq<char>>,
    Seq<Seq<char>>,
) {
    (
        string_views(o.struct_fds@),
        string_views(o.templates@),
        string_views(o.struct_defs@),
        string_views(o.generic_using_fns@),
        string_views(o.funcs@),
    )
}

} // verus!

verus! {

proof fn lemma_gen_defs_upto_stops(g: GenInputs, srcs: Seq<Seq<char>>, k: nat, out: Seq<char>, st: GenWritten)
    requires
        k <= srcs.len(),
        !(gen_defs_upto(g, srcs, srcs.len(), out, st) is Panic),
    ensures
        !(gen_defs_upto(g, srcs, k, out, st) is Panic),
    decreases srcs.len() - k,
{
    if k < srcs.len() {
        lemma_gen_defs_upto_stops(g, srcs, k + 1, out, st);
    }
}

pub proof fn lemma_cpp_all_prefix(
    defs: Map<Seq<char>, (Seq<char>, Option<Seq<char>>)>,
    srcs: Seq<Seq<char>>,
    s: crate::build::structs::CppTypes,
    k: int,
)
    requires
        0 <= k <= srcs.len(),
        cpp_all_ends(defs, srcs, s),
    ensures
        cpp_all_ends(defs, srcs.take(k), s),
    decreases srcs.len() - k,
{
    if k < srcs.len() {
        lemma_cpp_all_prefix(defs, srcs, s, k + 1);
        assert(srcs.take(k + 1).drop_last() =~= srcs.take(k));
    } else {
        assert(srcs.take(k) =~= srcs);
    }
}

/// The text of the mod's generic source (MergeGeneric.cpp), which the caller
/// saves and adds to the compile command: the opening, the structs declared
/// ahead, the invoker templates, the C++ types of the structs defined, the
/// declarations of the metadata usages `usage_fds`, of the functions the
/// generic sources use and of the generic functions to write (`funcs`, each
/// with whether it is written as a shim), then the definitions copied from
/// the sources (see `gen_defs_from`). The sets are walked in the orders
/// `order` gives. Fails where a struct's type cannot be written.
pub fn write<'a>(
    transform_data: GenericTransformData<'a>,
    order: &WriteOrder,
    funcs: &vstd::hash_map::StringHashMap<bool>,
    usage_fds: &Vec<String>,
    source_names: &Vec<String>,
    sources: &Vec<String>,
    function_usages: &ModFunctionUsages,
    required_adj_thunks: &StringHashSet,
) -> (r: Result<String, Error>)
    requires
        string_views(order.struct_fds@).no_duplicates(),
        string_views(order.struct_fds@).to_set() == transform_data.struct_fds@,
        string_views(order.templates@).no_duplicates(),
        string_views(order.templates@).to_set() == transform_data.generic_invoker_templates@.dom(),
        string_views(order.struct_defs@).no_duplicates(),
        string_views(order.struct_defs@).to_set() == transform_data.struct_defs@.dom(),
        string_views(order.generic_using_fns@).no_duplicates(),
        string_views(order.generic_using_fns@).to_set() == function_usages.generic_using_fns@,
        string_views(order.funcs@).no_duplicates(),
        string_views(order.funcs@).to_set() == funcs@.dom(),
        forall|n: Seq<char>|
            #[trigger] function_usages.generic_using_fns@.contains(n) ==> function_usages.forward_decls@.contains_key(n),
        cpp_all_ends(
            crate::build::structs::defs_view(transform_data.struct_defs@),
            string_views(order.struct_defs@),
            crate::build::structs::CppTypes {
                out: generic_header() + fd_lines(string_views(order.struct_fds@)) + template_texts(
                    string_views(order.templates@),
                    crate::build::function_usages::decl_texts(transform_data.generic_invoker_templates@),
                ),
                fds: transform_data.struct_fds@,
                added: string_views(order.templates@).to_set(),
            },
        ),
        generic_head(
            transform_data.struct_fds@,
            crate::build::function_usages::decl_texts(transform_data.generic_invoker_templates@),
            crate::build::structs::defs_view(transform_data.struct_defs@),
            order_views(order),
            string_views(usage_fds@),
            crate::build::function_usages::decl_texts(function_usages.forward_decls@),
        ) matches Outcome::Done(h) ==> !(gen_defs_upto(
            gen_inputs(funcs@, transform_data.def_src_map@, source_names@, required_adj_thunks@, function_usages),
            string_views(sources@),
            sources@.len(),
            h,
            GenWritten { inl: Set::empty(), proxies: Set::empty() },
        ) is Panic),
    ensures
        match generic_head(
            transform_data.struct_fds@,
            crate::build::function_usages::decl_texts(transform_data.generic_invoker_templates@),
            crate::build::structs::defs_view(transform_data.struct_defs@),
            order_views(order),
            string_views(usage_fds@),
            crate::build::function_usages::decl_texts(function_usages.forward_decls@),
        ) {
            Outcome::Done(h) => match gen_defs_upto(
                gen_inputs(funcs@, transform_data.def_src_map@, source_names@, required_adj_thunks@, function_usages),
                string_views(sources@),
                sources@.len(),
                h,
                GenWritten { inl: Set::empty(), proxies: Set::empty() },
            ) {
                Outcome::Done((text, _)) => r matches Ok(s) && s@ == text,
                _ => false,
            },
            Outcome::Fail(f) => r matches Err(e) && e@ == f,
            Outcome::Panic => false,
        },
{
    let ghost decls = crate::build::function_usages::decl_texts(function_usages.forward_decls@);
    let ghost templates = crate::build::function_usages::decl_texts(transform_data.generic_invoker_templates@);
    let ghost ov = order_views(order);
    let mut out = String::new();
    out.append("#include \"codegen/il2cpp-codegen.h\"\n");
    out.append("#include \"merge/codegen.h\"\n");
    out.append("\n");
    proof {
        assert(out@ =~= generic_header());
        assert(ov.0.take(0) =~= Seq::<Seq<char>>::empty());
    }
    let mut i: usize = 0;
    while i < order.struct_fds.len()
        invariant
            0 <= i <= order.struct_fds@.len(),
            ov == order_views(order),
            out@ == generic_header() + fd_lines(ov.0.take(i as int)),
        decreases order.struct_fds@.len() - i,
    {
        let fd = &order.struct_fds[i];
        out.append("struct ");
        out.append(fd.as_str());
        out.append(";\n");
        proof {
            assert(ov.0.take(i + 1).drop_last() =~= ov.0.take(i as int));
            assert(ov.0.take(i + 1).last() == fd@);
            assert(out@ =~= generic_header() + fd_lines(ov.0.take(i + 1)));
        }
        i = i + 1;
    }
    proof {
        assert(ov.0.take(i as int) =~= ov.0);
    }
    let ghost after_fds = out@;
    let mut added_structs = StringHashSet::new();
    let mut i: usize = 0;
    proof {
        assert(ov.1.take(0) =~= Seq::<Seq<char>>::empty());
        assert(added_structs@ =~= ov.1.take(0).to_set());
    }
    while i < order.templates.len()
        invariant
            0 <= i <= order.templates@.len(),
            ov == order_views(order),
            ov.1.to_set() == transform_data.generic_invoker_templates@.dom(),
            templates == crate::build::function_usages::decl_texts(transform_data.generic_invoker_templates@),
            out@ == after_fds + template_texts(ov.1.take(i as int), templates),
            added_structs@ == ov.1.take(i as int).to_set(),
        decreases order.templates@.len() - i,
    {
        let name = &order.templates[i];
        proof {
            assert(ov.1[i as int] == name@);
            assert(ov.1.to_set().contains(name@));
        }
        let body = match transform_data.generic_invoker_templates.get(name.as_str()) {
            Some(b) => b,
            None => {
                proof {
                    assert(false);
                }
                return Ok(out);
            },
        };
        added_structs.insert(name.clone());
        out.append(body.as_str());
        out.append("\n");
        proof {
            assert(ov.1.take(i + 1).drop_last() =~= ov.1.take(i as int));
            assert(ov.1.take(i + 1).last() == name@);
            assert(templates[name@] == body@);
            assert(out@ =~= after_fds + template_texts(ov.1.take(i + 1), templates));
            assert(added_structs@ =~= ov.1.take(i + 1).to_set());
        }
        i = i + 1;
    }
    proof {
        assert(ov.1.take(i as int) =~= ov.1);
    }
    assert(out@ == generic_header() + fd_lines(ov.0) + template_texts(ov.1, templates));
    assert(added_structs@ == ov.1.to_set());
    let ghost fds0 = transform_data.struct_fds@;
    let ghost defs0 = crate::build::structs::defs_view(transform_data.struct_defs@);
    let ghost gh = generic_head(
        transform_data.struct_fds@,
        templates,
        crate::build::structs::defs_view(transform_data.struct_defs@),
        ov,
        string_views(usage_fds@),
        decls,
    );
    let GenericTransformData { mut struct_fds, struct_defs, generic_invoker_templates: _, def_src_map, visited: _ } = transform_data;
    let ghost defs = crate::build::structs::defs_view(struct_defs@);
    let ghost start = crate::build::structs::cpp_types(&out, &struct_fds, &added_structs);
    assert(struct_fds@ == fds0);
    assert(defs == defs0);
    assert(start == crate::build::structs::CppTypes {
        out: generic_header() + fd_lines(ov.0) + template_texts(ov.1, templates),
        fds: fds0,
        added: ov.1.to_set(),
    });
    assert(gh == match cpp_all(defs, ov.2, start) {
        Outcome::Done(c) => Outcome::Done(
            c.out + prefixed_lines("IL2CPP_EXTERN_C "@, string_views(usage_fds@)) + known_decl_lines(ov.3, decls) + "\n"@
                + known_decl_lines(ov.4, decls),
        ),
        Outcome::Fail(f) => Outcome::Fail(f),
        Outcome::Panic => Outcome::<Seq<char>>::Panic,
    });
    let mut i: usize = 0;
    proof {
        assert(ov.2.take(0) =~= Seq::<Seq<char>>::empty());
    }
    while i < order.struct_defs.len()
        invariant
            0 <= i <= order.struct_defs@.len(),
            ov == order_views(order),
            defs == crate::build::structs::defs_view(struct_defs@),
            cpp_all_ends(defs, ov.2, start),
            gh == generic_head(
                transform_data.struct_fds@,
                crate::build::function_usages::decl_texts(transform_data.generic_invoker_templates@),
                crate::build::structs::defs_view(transform_data.struct_defs@),
                order_views(order),
                string_views(usage_fds@),
                crate::build::function_usages::decl_texts(function_usages.forward_decls@),
            ),
            gh == match cpp_all(defs, ov.2, start) {
                Outcome::Done(c) => Outcome::Done(
            c.out + prefixed_lines("IL2CPP_EXTERN_C "@, string_views(usage_fds@)) + known_decl_lines(ov.3, decls) + "\n"@
                + known_decl_lines(ov.4, decls),
        ),
                Outcome::Fail(f) => Outcome::Fail(f),
                Outcome::Panic => Outcome::<Seq<char>>::Panic,
            },
            cpp_all(defs, ov.2.take(i as int), start) == Outcome::Done(
                crate::build::structs::cpp_types(&out, &struct_fds, &added_structs),
            ),
        decreases order.struct_defs@.len() - i,
    {
        let name = &order.struct_defs[i];
        proof {
            lemma_cpp_all_prefix(defs, ov.2, start, i + 1);
            assert(ov.2.take(i + 1).drop_last() =~= ov.2.take(i as int));
            assert(ov.2.take(i + 1).last() == name@);
        }
        let res = crate::build::structs::add_cpp_ty(&mut out, name.as_str(), &struct_defs, &mut struct_fds, &mut added_structs);
        match res {
            Ok(()) => {},
            Err(e) => {
                proof {
                    lemma_cpp_all_fail(defs, ov.2, start, i + 1);
                }
                return Err(e);
            },
        }
        i = i + 1;
    }
    proof {
        assert(ov.2.take(i as int) =~= ov.2);
    }
    let ghost after_cpp = out@;
    let mut i: usize = 0;
    proof {
        assert(string_views(usage_fds@).take(0) =~= Seq::<Seq<char>>::empty());
    }
    while i < usage_fds.len()
        invariant
            0 <= i <= usage_fds@.len(),
            out@ == after_cpp + prefixed_lines("IL2CPP_EXTERN_C "@, string_views(usage_fds@).take(i as int)),
        decreases usage_fds@.len() - i,
    {
        out.append("IL2CPP_EXTERN_C ");
        out.append(usage_fds[i].as_str());
        out.append("\n");
        proof {
            let u = string_views(usage_fds@);
            assert(u.take(i + 1).drop_last() =~= u.take(i as int));
            assert(u.take(i + 1).last() == usage_fds@[i as int]@);
            assert(out@ =~= after_cpp + prefixed_lines("IL2CPP_EXTERN_C "@, u.take(i + 1)));
        }
        i = i + 1;
    }
    proof {
        assert(string_views(usage_fds@).take(i as int) =~= string_views(usage_fds@));
    }
    let ghost after_usages = out@;
    let mut i: usize = 0;
    proof {
        assert(ov.3.take(0) =~= Seq::<Seq<char>>::empty());
    }
    while i < order.generic_using_fns.len()
        invariant
            0 <= i <= order.generic_using_fns@.len(),
            ov == order_views(order),
            ov.3.to_set() == function_usages.generic_using_fns@,
            forall|n: Seq<char>|
                #[trigger] function_usages.generic_using_fns@.contains(n) ==> function_usages.forward_decls@.contains_key(n),
            decls == crate::build::function_usages::decl_texts(function_usages.forward_decls@),
            out@ == after_usages + known_decl_lines(ov.3.take(i as int), decls),
        decreases order.generic_using_fns@.len() - i,
    {
        let usage = &order.generic_using_fns[i];
        proof {
            assert(ov.3[i as int] == usage@);
            assert(ov.3.to_set().contains(usage@));
            assert(ov.3.take(i + 1).drop_last() =~= ov.3.take(i as int));
            assert(ov.3.take(i + 1).last() == usage@);
        }
        match function_usages.forward_decls.get(usage.as_str()) {
            Some(fd) => {
                out.append(fd.as_str());
                out.append(";\n");
                proof {
                    assert(decls[usage@] == fd@);
                    assert(out@ =~= after_usages + known_decl_lines(ov.3.take(i + 1), decls));
                }
            },
            None => {
                proof {
                    assert(false);
                }
            },
        }
        i = i + 1;
    }
    proof {
        assert(ov.3.take(i as int) =~= ov.3);
    }
    out.append("\n");
    let ghost after_using = out@;
    let mut i: usize = 0;
    proof {
        assert(ov.4.take(0) =~= Seq::<Seq<char>>::empty());
    }
    while i < order.funcs.len()
        invariant
            0 <= i <= order.funcs@.len(),
            ov == order_views(order),
            decls == crate::build::function_usages::decl_texts(function_usages.forward_decls@),
            out@ == after_using + known_decl_lines(ov.4.take(i as int), decls),
        decreases order.funcs@.len() - i,
    {
        let func = &order.funcs[i];
        proof {
            assert(ov.4[i as int] == func@);
            assert(ov.4.take(i + 1).drop_last() =~= ov.4.take(i as int));
            assert(ov.4.take(i + 1).last() == func@);
        }
        match function_usages.forward_decls.get(func.as_str()) {
            Some(fd) => {
                out.append(fd.as_str());
                out.append(";\n");
                proof {
                    assert(decls[func@] == fd@);
                }
            },
            None => {},
        }
        proof {
            assert(out@ =~= after_using + known_decl_lines(ov.4.take(i + 1), decls));
        }
        i = i + 1;
    }
    proof {
        assert(ov.4.take(i as int) =~= ov.4);
    }
    let ghost head = out@;
    let ghost g = gen_inputs(funcs@, def_src_map@, source_names@, required_adj_thunks@, function_usages);
    let ghost sv = string_views(sources@);
    let mut written_inline = StringHashSet::new();
    let mut written_proxies = StringHashSet::new();
    let mut k: usize = 0;
    proof {
        assert(written_inline@ =~= Set::<Seq<char>>::empty());
        assert(written_proxies@ =~= Set::<Seq<char>>::empty());
    }
    while k < sources.len()
        invariant
            0 <= k <= sources@.len(),
            sv == string_views(sources@),
            g == gen_inputs(funcs@, def_src_map@, source_names@, required_adj_thunks@, function_usages),
            !(gen_defs_upto(g, sv, sources@.len() as nat, head, GenWritten { inl: Set::empty(), proxies: Set::empty() })
                is Panic),
            gen_defs_upto(g, sv, k as nat, head, GenWritten { inl: Set::empty(), proxies: Set::empty() }) == Outcome::Done(
                (out@, gen_written(&written_inline, &written_proxies)),
            ),
        decreases sources@.len() - k,
    {
        proof {
            lemma_gen_defs_upto_stops(g, sv, (k + 1) as nat, head, GenWritten { inl: Set::empty(), proxies: Set::empty() });
            assert(sv[k as int] == sources@[k as int]@);
        }
        write_defs_of(
            &mut out,
            sources[k].as_str(),
            funcs,
            &def_src_map,
            source_names,
            required_adj_thunks,
            function_usages,
            &mut written_inline,
            &mut written_proxies,
        );
        k = k + 1;
    }
    Ok(out)
}

pub proof fn lemma_cpp_all_fail(
    defs: Map<Seq<char>, (Seq<char>, Option<Seq<char>>)>,
    srcs: Seq<Seq<char>>,
    s: crate::build::structs::CppTypes,
    k: int,
)
    requires
        0 <= k <= srcs.len(),
        cpp_all(defs, srcs.take(k), s) is Fail,
    ensures
        cpp_all(defs, srcs, s) == cpp_all(defs, srcs.take(k), s),
    decreases srcs.len() - k,
{
    if k < srcs.len() {
        assert(srcs.take(k + 1).drop_last() =~= srcs.take(k));
        lemma_cpp_all_fail(defs, srcs, s, k + 1);
    } else {
        assert(srcs.take(k) =~= srcs);
    }
}

} // verus!
