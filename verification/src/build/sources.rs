//! Passes over the mod's own generated sources: the functions a body calls,
//! the declarations, definitions and gshared proxies a source holds, and the
//! rewrite of the codegen initialisation calls to the mod's own.
use crate::build::function_usages::{
    decl_texts, insert_decls, proxy_decl_ok, proxy_name, proxy_target, ModFunctionUsages,
};
use crate::build::parser::{has_prefix, has_suffix, parse_call, parse_decl, FnDecl, LineCursor};
use crate::text::{
    ends_with, find, find_str, lines, lines_of, starts_with, str_eq, trim, trim_end_char, trim_end_matches,
    trim_end_matches_char, trim_end_str, trim_start_char, trim_start_matches_char, trim_ws, views,
};
use vstd::hash_set::StringHashSet;
use vstd::prelude::*;

verus! {

/// The position of the first line from `i` on that is `}` (the number of
/// lines where none is).
pub open spec fn close_from(ls: Seq<Seq<char>>, i: int) -> int
    decreases ls.len() - i,
{
    if i < 0 || i >= ls.len() {
        ls.len() as int
    } else if ls[i] == "}"@ {
        i
    } else {
        close_from(ls, i + 1)
    }
}

pub proof fn lemma_close_from(ls: Seq<Seq<char>>, i: int)
    requires
        0 <= i <= ls.len(),
    ensures
        i <= close_from(ls, i) <= ls.len(),
        close_from(ls, i) < ls.len() ==> ls[close_from(ls, i)] == "}"@,
    decreases ls.len() - i,
{
    if i < ls.len() && ls[i] != "}"@ {
        lemma_close_from(ls, i + 1);
    }
}

/// The functions (other than inline ones) that the lines `ls[i..j)` call,
/// in order, once per call.
pub open spec fn calls_seq(ls: Seq<Seq<char>>, i: int, j: int) -> Seq<Seq<char>>
    decreases j - i,
{
    if j <= i {
        Seq::empty()
    } else {
        calls_seq(ls, i, j - 1) + match parse_call(ls[j - 1], false) {
            Some(n) => seq![n],
            None => Seq::empty(),
        }
    }
}

/// The texts of a list of strings.
pub open spec fn strings(v: Seq<String>) -> Seq<Seq<char>> {
    v.map_values(|s: String| s@)
}

/// Reads the lines of a function body up to its closing `}` and appends the
/// functions they call (not inline ones) to `usages`, in order; the cursor
/// ends after the `}`.
pub fn get_function_usages(usages: &mut Vec<String>, lines: &mut LineCursor)
    requires
        close_from(views(old(lines).lines@), old(lines).pos as int) < old(lines).lines@.len(),
    ensures
        final(lines).lines@ == old(lines).lines@,
        final(lines).pos == close_from(views(old(lines).lines@), old(lines).pos as int) + 1,
        strings(final(usages)@) == strings(old(usages)@) + calls_seq(
            views(old(lines).lines@),
            old(lines).pos as int,
            close_from(views(old(lines).lines@), old(lines).pos as int),
        ),
{
    let ghost ls = views(lines.lines@);
    let ghost start = lines.pos as int;
    let ghost end = close_from(ls, start);
    proof {
        reveal_strlit("}");
        lemma_close_from(ls, start);
        assert(strings(usages@) + Seq::<Seq<char>>::empty() =~= strings(usages@));
    }
    loop
        invariant
            ls == views(lines.lines@),
            lines.lines@ == old(lines).lines@,
            start == old(lines).pos as int,
            start <= lines.pos <= end,
            end < lines.lines@.len(),
            end == close_from(ls, start),
            close_from(ls, lines.pos as int) == end,
            strings(usages@) == strings(old(usages)@) + calls_seq(ls, start, lines.pos as int),
        ensures
            lines.lines@ == old(lines).lines@,
            lines.pos == end + 1,
            strings(usages@) == strings(old(usages)@) + calls_seq(ls, start, end),
        decreases end - lines.pos,
    {
        let ghost p = lines.pos as int;
        let line = match lines.next() {
            Some(l) => l,
            None => {
                return;
            },
        };
        proof {
            assert(ls[p] == line@);
        }
        if str_eq(line, "}") {
            proof {
                assert(close_from(ls, p) == p);
            }
            return;
        }
        proof {
            lemma_close_from(ls, p);
            assert(p < end);
            assert(close_from(ls, p + 1) == close_from(ls, p));
        }
        let ghost before = usages@;
        if let Some(name) = crate::build::parser::try_parse_call(line, false) {
            usages.push(name.to_string());
            proof {
                assert(strings(usages@) =~= strings(before).push(name@));
            }
        }
        proof {
            assert(strings(usages@) =~= strings(old(usages)@) + calls_seq(ls, start, p + 1));
        }
    }
}

/// `s` with every occurrence of `p` (non-empty), from the left and not
/// overlapping, replaced by `r` (`str::replace`).
pub open spec fn replace_all(s: Seq<char>, p: Seq<char>, r: Seq<char>) -> Seq<char>
    decreases s.len(),
{
    if p.len() == 0 {
        s
    } else {
        match find(s, p) {
            None => s,
            Some(i) => if 0 <= i && i + p.len() <= s.len() {
                s.take(i) + r + replace_all(s.skip(i + p.len()), p, r)
            } else {
                s
            },
        }
    }
}

} // verus!

verus! {

pub open spec fn init_method_name() -> Seq<char> {
    "il2cpp_codegen_initialize_method"@
}

pub open spec fn merge_init_method_name() -> Seq<char> {
    "merge_codegen_initialize_method"@
}

/// A codegen initialisation call rewritten to the mod's own: the function
/// renamed, and the mod's id passed first.
pub open spec fn init_call_line(line: Seq<char>, mod_id: Seq<char>) -> Seq<char> {
    let l2 = replace_all(line, init_method_name(), merge_init_method_name());
    let p = find(l2, seq!['(']).unwrap();
    l2.take(p + 1) + "\""@ + mod_id + "\", "@ + l2.skip(p + 1)
}

/// A line that calls the codegen initialisation.
pub open spec fn is_init_line(line: Seq<char>) -> bool {
    has_prefix(trim(line), init_method_name())
}

/// An initialisation line has an opening parenthesis to put the id after.
pub open spec fn init_lines_ok(ls: Seq<Seq<char>>) -> bool {
    forall|i: int|
        0 <= i < ls.len() && is_init_line(#[trigger] ls[i]) ==> find(
            replace_all(ls[i], init_method_name(), merge_init_method_name()),
            seq!['('],
        ) is Some
}

pub open spec fn converted_line(line: Seq<char>, mod_id: Seq<char>) -> Seq<char> {
    if is_init_line(line) {
        init_call_line(line, mod_id)
    } else {
        trim_start_char(line, '\u{FEFF}')
    }
}

/// The converted lines, each followed by a line break.
pub open spec fn converted_lines(ls: Seq<Seq<char>>, mod_id: Seq<char>) -> Seq<char>
    decreases ls.len(),
{
    if ls.len() == 0 {
        Seq::empty()
    } else {
        converted_lines(ls.drop_last(), mod_id) + converted_line(ls.last(), mod_id) + "\n"@
    }
}

/// A mod source with its codegen initialisation calls made the mod's own
/// and byte order marks dropped; with the merge codegen header included
/// first where `write_header`.
pub open spec fn converted_source(src: Seq<char>, mod_id: Seq<char>, write_header: bool) -> Seq<char> {
    (if write_header {
        "#include \"merge/codegen.h\"\n"@
    } else {
        Seq::empty()
    }) + converted_lines(lines(src), mod_id)
}

/// `s.replace(p, r)`.
pub fn replace_str(s: &str, p: &str, r: &str) -> (out: String)
    requires
        p@.len() > 0,
    ensures
        out@ == replace_all(s@, p@, r@),
    decreases s@.len(),
{
    match find_str(s, p) {
        None => s.to_string(),
        Some(i) => {
            let len = s.unicode_len();
            let plen = p.unicode_len();
            let mut out = s.substring_char(0, i).to_string();
            out.append(r);
            let rest = replace_str(s.substring_char(i + plen, len), p, r);
            out.append(rest.as_str());
            proof {
                assert(s@.skip(i + p@.len()) =~= s@.subrange(i + plen, len as int));
            }
            out
        },
    }
}

/// The line with the codegen initialisation call rewritten (see
/// `init_call_line`).
fn init_call_str(line: &str, mod_id: &str) -> (r: String)
    requires
        find(replace_all(line@, init_method_name(), merge_init_method_name()), seq!['(']) is Some,
    ensures
        r@ == init_call_line(line@, mod_id@),
{
    proof {
        reveal_strlit("il2cpp_codegen_initialize_method");
        reveal_strlit("(");
        assert("("@ =~= seq!['(']);
    }
    let l2 = replace_str(line, "il2cpp_codegen_initialize_method", "merge_codegen_initialize_method");
    let s2 = l2.as_str();
    let p = match find_str(s2, "(") {
        Some(p) => p,
        None => {
            return l2;
        },
    };
    let len = s2.unicode_len();
    let mut out = s2.substring_char(0, p + 1).to_string();
    out.append("\"");
    out.append(mod_id);
    out.append("\", ");
    out.append(s2.substring_char(p + 1, len));
    proof {
        assert(out@ =~= init_call_line(line@, mod_id@));
    }
    out
}

/// Rewrites a mod source (see `converted_source`).
pub fn convert_codegen_init_method(source: &str, mod_id: &str, write_header: bool) -> (r: String)
    requires
        init_lines_ok(lines(source@)),
    ensures
        r@ == converted_source(source@, mod_id@, write_header),
{
    let ls = lines_of(source);
    let ghost all = views(ls@);
    let mut out = String::new();
    if write_header {
        out.append("#include \"merge/codegen.h\"\n");
    }
    let ghost head = out@;
    proof {
        reveal_strlit("il2cpp_codegen_initialize_method");
        assert(all.take(0) =~= Seq::<Seq<char>>::empty());
        assert(head + Seq::<char>::empty() =~= head);
    }
    let mut i: usize = 0;
    while i < ls.len()
        invariant
            0 <= i <= ls@.len(),
            all == views(ls@),
            all == lines(source@),
            init_lines_ok(all),
            head == (if write_header {
                "#include \"merge/codegen.h\"\n"@
            } else {
                Seq::<char>::empty()
            }),
            out@ == head + converted_lines(all.take(i as int), mod_id@),
        decreases ls@.len() - i,
    {
        let line = ls[i];
        proof {
            assert(all[i as int] == line@);
            assert(all.take(i + 1).drop_last() =~= all.take(i as int));
            assert(all.take(i + 1).last() == line@);
        }
        let ghost before = out@;
        if starts_with(trim_ws(line), "il2cpp_codegen_initialize_method") {
            let l = init_call_str(line, mod_id);
            out.append(l.as_str());
        } else {
            out.append(trim_start_matches_char(line, '\u{FEFF}'));
        }
        out.append("\n");
        proof {
            assert(out@ =~= head + converted_lines(all.take(i + 1), mod_id@));
        }
        i = i + 1;
    }
    proof {
        assert(all.take(ls@.len() as int) =~= all);
    }
    out
}

} // verus!

verus! {

/// Whether every codegen initialisation line has an opening parenthesis to
/// put the mod's id after (see `init_lines_ok`).
pub fn init_lines_valid(source: &str) -> (b: bool)
    ensures
        b == init_lines_ok(lines(source@)),
{
    let ls = lines_of(source);
    let ghost all = views(ls@);
    proof {
        reveal_strlit("(");
        reveal_strlit("il2cpp_codegen_initialize_method");
        assert("("@ =~= seq!['(']);
    }
    let mut i: usize = 0;
    while i < ls.len()
        invariant
            0 <= i <= ls@.len(),
            all == views(ls@),
            all == lines(source@),
            "("@ == seq!['('],
            "il2cpp_codegen_initialize_method"@.len() > 0,
            forall|j: int|
                0 <= j < i && is_init_line(#[trigger] all[j]) ==> find(
                    replace_all(all[j], init_method_name(), merge_init_method_name()),
                    seq!['('],
                ) is Some,
        decreases ls@.len() - i,
    {
        let line = ls[i];
        proof {
            assert(all[i as int] == line@);
        }
        if starts_with(trim_ws(line), "il2cpp_codegen_initialize_method") {
            let l2 = replace_str(line, "il2cpp_codegen_initialize_method", "merge_codegen_initialize_method");
            if find_str(l2.as_str(), "(").is_none() {
                return false;
            }
        }
        i = i + 1;
    }
    true
}

} // verus!

verus! {

/// What reading one of the mod's sources finds.
pub ghost struct ModScan {
    /// Forward declarations (name, declaration without `;`), in order.
    pub decls: Seq<(Seq<char>, Seq<char>)>,
    /// The names of the functions defined, under which their metadata
    /// usages are kept.
    pub md_names: Seq<Seq<char>>,
    /// The functions that the bodies call, in order.
    pub usages: Seq<Seq<char>>,
    /// Gshared proxies (proxy, gshared function), in order.
    pub proxies: Seq<(Seq<char>, Seq<char>)>,
}

pub open spec fn empty_scan() -> ModScan {
    ModScan { decls: Seq::empty(), md_names: Seq::empty(), usages: Seq::empty(), proxies: Seq::empty() }
}

/// The name under which a defined function's metadata usages are kept: an
/// inline function's is its name without `_inline`, then the source's name.
pub open spec fn md_usage_key(name: Seq<char>, inline: bool, src_name: Seq<char>) -> Seq<char> {
    if inline {
        trim_end_str(name, "_inline"@) + src_name
    } else {
        name
    }
}

/// A gshared proxy at line `p` can be read: its name, and the call two
/// lines on.
pub open spec fn proxy_readable(ls: Seq<Seq<char>>, p: int) -> bool {
    &&& proxy_decl_ok(ls[p])
    &&& p + 2 < ls.len()
    &&& find(trim(ls[p + 2]), "))"@) is Some
}

/// Reads a mod source from line `p` on: a forward declaration is recorded;
/// a definition (not an adjustor thunk) skips its opening line, records its
/// name and the calls of its body; an `inline` line that declares no
/// function starts a gshared proxy. `None` where a definition or a proxy
/// runs past the end.
pub open spec fn scan_from(ls: Seq<Seq<char>>, p: int, src_name: Seq<char>) -> Option<ModScan>
    decreases ls.len() - p,
{
    if p < 0 || p >= ls.len() {
        Some(empty_scan())
    } else {
        let line = ls[p];
        match parse_decl(line) {
            Some((_, name, _, inline)) => if has_suffix(line, seq![';']) {
                match scan_from(ls, p + 1, src_name) {
                    None => None,
                    Some(r) => Some(ModScan { decls: seq![(name, trim_end_char(line, ';'))] + r.decls, ..r }),
                }
            } else if !has_suffix(name, "_AdjustorThunk"@) {
                if p + 1 >= ls.len() || close_from(ls, p + 2) >= ls.len() {
                    None
                } else {
                    let c = close_from(ls, p + 2);
                    proof {
                        lemma_close_from(ls, p + 2);
                    }
                    match scan_from(ls, c + 1, src_name) {
                        None => None,
                        Some(r) => Some(
                            ModScan {
                                md_names: seq![md_usage_key(name, inline, src_name)] + r.md_names,
                                usages: calls_seq(ls, p + 2, c) + r.usages,
                                ..r
                            },
                        ),
                    }
                }
            } else {
                scan_from(ls, p + 1, src_name)
            },
            None => if has_prefix(line, "inline"@) {
                if proxy_readable(ls, p) {
                    match scan_from(ls, p + 3, src_name) {
                        None => None,
                        Some(r) => Some(
                            ModScan { proxies: seq![(proxy_name(line), proxy_target(ls[p + 2]))] + r.proxies, ..r },
                        ),
                    }
                } else {
                    None
                }
            } else {
                scan_from(ls, p + 1, src_name)
            },
        }
    }
}

/// The functions that a source defines (a declaration not ended by `;`).
pub open spec fn defined_fns(ls: Seq<Seq<char>>) -> Set<Seq<char>> {
    Set::new(
        |n: Seq<char>|
            exists|i: int|
                0 <= i < ls.len() && !has_suffix(ls[i], seq![';']) && (#[trigger] parse_decl(ls[i]) matches Some(
                    (_, m, _, _),
                ) && m == n),
    )
}

} // verus!

verus! {

/// Reads one of the mod's sources (see `scan_from`): records its forward
/// declarations and gshared proxies in `function_usages`, the names of its
/// definitions in `metadata_usage_names`, and appends the calls of their
/// bodies to `mod_usages`.
pub fn scan_mod_source(
    src_name: &str,
    src: &str,
    function_usages: &mut ModFunctionUsages,
    metadata_usage_names: &mut StringHashSet,
    mod_usages: &mut Vec<String>,
)
    requires
        scan_from(lines(src@), 0, src_name@) is Some,
    ensures
        ({
            let t = scan_from(lines(src@), 0, src_name@).unwrap();
            &&& decl_texts(final(function_usages).forward_decls@) == insert_decls(
                decl_texts(old(function_usages).forward_decls@),
                t.decls,
            )
            &&& decl_texts(final(function_usages).generic_proxies@) == insert_decls(
                decl_texts(old(function_usages).generic_proxies@),
                t.proxies,
            )
            &&& final(metadata_usage_names)@ == old(metadata_usage_names)@.union(t.md_names.to_set())
            &&& strings(final(mod_usages)@) == strings(old(mod_usages)@) + t.usages
        }),
        final(function_usages).wf() == old(function_usages).wf(),
        final(function_usages).external_methods@ == old(function_usages).external_methods@,
        final(function_usages).mod_functions@ == old(function_usages).mod_functions@,
        final(function_usages).using_gshared@ == old(function_usages).using_gshared@,
        final(function_usages).using_external@ == old(function_usages).using_external@,
        final(function_usages).generic_using_fns@ == old(function_usages).generic_using_fns@,
        final(function_usages).required_invokers@ == old(function_usages).required_invokers@,
        final(function_usages).invokers_map@ == old(function_usages).invokers_map@,
        final(function_usages).required_generic_funcs@ == old(function_usages).required_generic_funcs@,
        final(function_usages).generic_func_map@ == old(function_usages).generic_func_map@,
        final(function_usages).required_generic_adj_thunks@ == old(function_usages).required_generic_adj_thunks@,
        final(function_usages).generic_adj_thunk_map@ == old(function_usages).generic_adj_thunk_map@,
{
    let mut cur = LineCursor::new(src);
    let ghost ls = views(cur.lines@);
    let ghost sn = src_name@;
    let ghost total = scan_from(ls, 0, sn).unwrap();
    let ghost mut done = empty_scan();
    let ghost s0 = *old(function_usages);
    proof {
        reveal_strlit(";");
        assert(";"@ =~= seq![';']);
        assert(done.decls + total.decls =~= total.decls);
        assert(done.md_names + total.md_names =~= total.md_names);
        assert(done.usages + total.usages =~= total.usages);
        assert(done.proxies + total.proxies =~= total.proxies);
        assert(metadata_usage_names@ =~= old(metadata_usage_names)@.union(done.md_names.to_set()));
        assert(strings(mod_usages@) =~= strings(old(mod_usages)@) + done.usages);
    }
    while cur.pos < cur.lines.len()
        invariant
            ls == views(cur.lines@),
            ls == lines(src@),
            sn == src_name@,
            0 <= cur.pos <= ls.len(),
            ";"@ == seq![';'],
            s0 == *old(function_usages),
            scan_from(ls, cur.pos as int, sn) is Some,
            total.decls == done.decls + scan_from(ls, cur.pos as int, sn).unwrap().decls,
            total.md_names == done.md_names + scan_from(ls, cur.pos as int, sn).unwrap().md_names,
            total.usages == done.usages + scan_from(ls, cur.pos as int, sn).unwrap().usages,
            total.proxies == done.proxies + scan_from(ls, cur.pos as int, sn).unwrap().proxies,
            total == scan_from(lines(src@), 0, src_name@).unwrap(),
            decl_texts(function_usages.forward_decls@) == insert_decls(decl_texts(s0.forward_decls@), done.decls),
            decl_texts(function_usages.generic_proxies@) == insert_decls(
                decl_texts(s0.generic_proxies@),
                done.proxies,
            ),
            metadata_usage_names@ == old(metadata_usage_names)@.union(done.md_names.to_set()),
            strings(mod_usages@) == strings(old(mod_usages)@) + done.usages,
            function_usages.wf() == s0.wf(),
            function_usages.external_methods@ == s0.external_methods@,
            function_usages.mod_functions@ == s0.mod_functions@,
            function_usages.using_gshared@ == s0.using_gshared@,
            function_usages.using_external@ == s0.using_external@,
            function_usages.generic_using_fns@ == s0.generic_using_fns@,
            function_usages.required_invokers@ == s0.required_invokers@,
            function_usages.invokers_map@ == s0.invokers_map@,
            function_usages.required_generic_funcs@ == s0.required_generic_funcs@,
            function_usages.generic_func_map@ == s0.generic_func_map@,
            function_usages.required_generic_adj_thunks@ == s0.required_generic_adj_thunks@,
            function_usages.generic_adj_thunk_map@ == s0.generic_adj_thunk_map@,
        decreases ls.len() - cur.pos,
    {
        let ghost p = cur.pos as int;
        let ghost rest = scan_from(ls, p, sn).unwrap();
        let line = cur.lines[cur.pos];
        cur.pos = cur.pos + 1;
        proof {
            assert(ls[p] == line@);
        }
        match FnDecl::try_parse(line) {
            Some(d) => {
                if ends_with(line, ";") {
                    let key = d.name.to_string();
                    let text = trim_end_matches_char(line, ';').to_string();
                    let ghost fd0 = function_usages.forward_decls@;
                    function_usages.forward_decls.insert(key, text);
                    proof {
                        let r2 = scan_from(ls, p + 1, sn).unwrap();
                        assert(rest.decls == seq![(key@, text@)] + r2.decls);
                        assert(total.decls =~= done.decls.push((key@, text@)) + r2.decls);
                        assert(total.md_names =~= done.md_names + r2.md_names);
                        assert(total.usages =~= done.usages + r2.usages);
                        assert(total.proxies =~= done.proxies + r2.proxies);
                        assert(done.decls.push((key@, text@)).drop_last() =~= done.decls);
                        assert(decl_texts(function_usages.forward_decls@) =~= decl_texts(fd0).insert(key@, text@));
                        done = ModScan { decls: done.decls.push((key@, text@)), ..done };
                    }
                } else if !ends_with(d.name, "_AdjustorThunk") {
                    cur.pos = cur.pos + 1;
                    let key = if d.inline {
                        let mut k = trim_end_matches(d.name, "_inline").to_string();
                        k.append(src_name);
                        k
                    } else {
                        d.name.to_string()
                    };
                    let ghost c = close_from(ls, p + 2);
                    proof {
                        lemma_close_from(ls, p + 2);
                        assert(key@ == md_usage_key(d.name@, d.inline, sn));
                    }
                    let ghost mu0 = metadata_usage_names@;
                    metadata_usage_names.insert(key);
                    let ghost us0 = mod_usages@;
                    get_function_usages(mod_usages, &mut cur);
                    proof {
                        let r2 = scan_from(ls, c + 1, sn).unwrap();
                        let k = md_usage_key(d.name@, d.inline, sn);
                        assert(rest.md_names == seq![k] + r2.md_names);
                        assert(rest.usages == calls_seq(ls, p + 2, c) + r2.usages);
                        assert(total.decls =~= done.decls + r2.decls);
                        assert(total.md_names =~= done.md_names.push(k) + r2.md_names);
                        assert(total.usages =~= (done.usages + calls_seq(ls, p + 2, c)) + r2.usages);
                        assert(total.proxies =~= done.proxies + r2.proxies);
                        assert forall|x: Seq<char>| done.md_names.push(k).contains(x) <==> (done.md_names.contains(x) || x == k) by {
                            if done.md_names.contains(x) {
                                let q = choose|q: int| 0 <= q < done.md_names.len() && done.md_names[q] == x;
                                assert(done.md_names.push(k)[q] == x);
                            }
                            if done.md_names.push(k).contains(x) && x != k {
                                let q = choose|q: int| 0 <= q < done.md_names.push(k).len() && done.md_names.push(k)[q] == x;
                                assert(done.md_names[q] == x);
                            }
                            assert(done.md_names.push(k)[done.md_names.len() as int] == k);
                        }
                        assert(metadata_usage_names@ =~= old(metadata_usage_names)@.union(done.md_names.push(k).to_set()));
                        assert(strings(mod_usages@) =~= strings(old(mod_usages)@) + (done.usages + calls_seq(ls, p + 2, c)));
                        done = ModScan {
                            md_names: done.md_names.push(k),
                            usages: done.usages + calls_seq(ls, p + 2, c),
                            ..done
                        };
                    }
                } else {
                    proof {
                        let r2 = scan_from(ls, p + 1, sn).unwrap();
                        assert(rest == r2);
                    }
                }
            },
            None => {
                if starts_with(line, "inline") {
                    let ghost gp0 = function_usages.generic_proxies@;
                    function_usages.add_gshared_proxy(line, &mut cur);
                    proof {
                        let r2 = scan_from(ls, p + 3, sn).unwrap();
                        let e = (proxy_name(line@), proxy_target(ls[p + 2]));
                        assert(rest.proxies == seq![e] + r2.proxies);
                        assert(total.decls =~= done.decls + r2.decls);
                        assert(total.md_names =~= done.md_names + r2.md_names);
                        assert(total.usages =~= done.usages + r2.usages);
                        assert(total.proxies =~= done.proxies.push(e) + r2.proxies);
                        assert(done.proxies.push(e).drop_last() =~= done.proxies);
                        assert(decl_texts(function_usages.generic_proxies@) =~= decl_texts(gp0).insert(e.0, e.1));
                        done = ModScan { proxies: done.proxies.push(e), ..done };
                    }
                } else {
                    proof {
                        let r2 = scan_from(ls, p + 1, sn).unwrap();
                        assert(rest == r2);
                    }
                }
            },
        }
    }
    proof {
        let r = scan_from(ls, cur.pos as int, sn).unwrap();
        assert(r == empty_scan());
        assert(total.decls =~= done.decls);
        assert(total.md_names =~= done.md_names);
        assert(total.usages =~= done.usages);
        assert(total.proxies =~= done.proxies);
    }
}

} // verus!

verus! {

/// Adds the functions that `src` defines to the mod's own.
pub fn add_mod_functions(function_usages: &mut ModFunctionUsages, src: &str)
    ensures
        final(function_usages).mod_functions@ == old(function_usages).mod_functions@.union(
            defined_fns(lines(src@)),
        ),
        final(function_usages).wf() == old(function_usages).wf(),
        final(function_usages).external_methods@ == old(function_usages).external_methods@,
        final(function_usages).forward_decls@ == old(function_usages).forward_decls@,
        final(function_usages).generic_proxies@ == old(function_usages).generic_proxies@,
        final(function_usages).using_gshared@ == old(function_usages).using_gshared@,
        final(function_usages).using_external@ == old(function_usages).using_external@,
        final(function_usages).generic_using_fns@ == old(function_usages).generic_using_fns@,
        final(function_usages).required_invokers@ == old(function_usages).required_invokers@,
        final(function_usages).invokers_map@ == old(function_usages).invokers_map@,
        final(function_usages).required_generic_funcs@ == old(function_usages).required_generic_funcs@,
        final(function_usages).generic_func_map@ == old(function_usages).generic_func_map@,
        final(function_usages).required_generic_adj_thunks@ == old(function_usages).required_generic_adj_thunks@,
        final(function_usages).generic_adj_thunk_map@ == old(function_usages).generic_adj_thunk_map@,
{
    let ls = lines_of(src);
    let ghost all = views(ls@);
    let ghost s0 = *old(function_usages);
    proof {
        reveal_strlit(";");
        assert(";"@ =~= seq![';']);
        assert(defined_fns(all.take(0)) =~= Set::empty());
        assert(function_usages.mod_functions@ =~= s0.mod_functions@.union(Set::empty()));
    }
    let mut i: usize = 0;
    while i < ls.len()
        invariant
            0 <= i <= ls@.len(),
            all == views(ls@),
            all == lines(src@),
            ";"@ == seq![';'],
            s0 == *old(function_usages),
            function_usages.mod_functions@ == s0.mod_functions@.union(defined_fns(all.take(i as int))),
            function_usages.wf() == s0.wf(),
            function_usages.external_methods@ == s0.external_methods@,
            function_usages.forward_decls@ == s0.forward_decls@,
            function_usages.generic_proxies@ == s0.generic_proxies@,
            function_usages.using_gshared@ == s0.using_gshared@,
            function_usages.using_external@ == s0.using_external@,
            function_usages.generic_using_fns@ == s0.generic_using_fns@,
            function_usages.required_invokers@ == s0.required_invokers@,
            function_usages.invokers_map@ == s0.invokers_map@,
            function_usages.required_generic_funcs@ == s0.required_generic_funcs@,
            function_usages.generic_func_map@ == s0.generic_func_map@,
            function_usages.required_generic_adj_thunks@ == s0.required_generic_adj_thunks@,
            function_usages.generic_adj_thunk_map@ == s0.generic_adj_thunk_map@,
        decreases ls@.len() - i,
    {
        let line = ls[i];
        let ghost t0 = all.take(i as int);
        let ghost t1 = all.take(i + 1);
        proof {
            assert(all[i as int] == line@);
            assert(t1[i as int] == line@);
        }
        if let Some(d) = FnDecl::try_parse(line) {
            if !ends_with(line, ";") {
                function_usages.mod_functions.insert(d.name.to_string());
            }
        }
        proof {
            assert(defined_fns(t1) =~= defined_fns(t0).union(
                match parse_decl(line@) {
                    Some((_, m, _, _)) => if !has_suffix(line@, seq![';']) {
                        set![m]
                    } else {
                        Set::empty()
                    },
                    None => Set::empty(),
                },
            )) by {
                assert forall|n: Seq<char>| defined_fns(t1).contains(n) implies defined_fns(t0).contains(n) || (
                parse_decl(line@) matches Some((_, m, _, _)) && m == n && !has_suffix(line@, seq![';'])) by {
                    let j = choose|j: int|
                        0 <= j < t1.len() && !has_suffix(t1[j], seq![';']) && (#[trigger] parse_decl(t1[j]) matches Some(
                            (_, m, _, _),
                        ) && m == n);
                    if j < i {
                        assert(t0[j] == t1[j]);
                    }
                }
                assert forall|n: Seq<char>| defined_fns(t0).contains(n) implies defined_fns(t1).contains(n) by {
                    let j = choose|j: int|
                        0 <= j < t0.len() && !has_suffix(t0[j], seq![';']) && (#[trigger] parse_decl(t0[j]) matches Some(
                            (_, m, _, _),
                        ) && m == n);
                    assert(t1[j] == t0[j]);
                }
            }
            assert(function_usages.mod_functions@ =~= s0.mod_functions@.union(defined_fns(t1)));
        }
        i = i + 1;
    }
    proof {
        assert(all.take(ls@.len() as int) =~= all);
    }
}

/// The position of the first `}` line from `i` on (see `close_from`).
fn close_index(ls: &Vec<&str>, i: usize) -> (r: usize)
    requires
        i <= ls@.len(),
    ensures
        r == close_from(views(ls@), i as int),
{
    let ghost all = views(ls@);
    proof {
        reveal_strlit("}");
    }
    let mut j: usize = i;
    while j < ls.len() && !str_eq(ls[j], "}")
        invariant
            i <= j <= ls@.len(),
            all == views(ls@),
            close_from(all, j as int) == close_from(all, i as int),
        decreases ls@.len() - j,
    {
        proof {
            assert(all[j as int] == ls@[j as int]@);
        }
        j = j + 1;
    }
    proof {
        if j < ls@.len() {
            assert(all[j as int] == ls@[j as int]@);
        }
    }
    j
}

/// Whether a gshared proxy's name can be read from `line` (see
/// `proxy_decl_ok`).
fn proxy_decl_readable(line: &str) -> (b: bool)
    ensures
        b == proxy_decl_ok(line@),
{
    let w = crate::text::split_whitespace(line);
    let ghost wv = views(w@);
    proof {
        assert(wv.len() == w@.len());
        reveal_strlit("(");
        assert("("@ =~= seq!['(']);
    }
    let mut i: usize = 0;
    while i < w.len() && !starts_with(w[i], "(")
        invariant
            0 <= i <= w@.len(),
            wv == views(w@),
            wv == crate::text::words(line@),
            "("@ == seq!['('],
            forall|j: int| 0 <= j < i ==> !crate::build::function_usages::opens_paren(#[trigger] wv[j]),
        decreases w@.len() - i,
    {
        proof {
            assert(wv[i as int] == w@[i as int]@);
            if crate::build::function_usages::opens_paren(wv[i as int]) {
                assert(wv[i as int].take(1) =~= seq!['(']);
            }
        }
        i = i + 1;
    }
    proof {
        if i < w@.len() {
            assert(wv[i as int] == w@[i as int]@);
            assert(wv[i as int].take(1)[0] == wv[i as int][0]);
        }
        crate::build::function_usages::lemma_first_opening(wv, i as int);
    }
    1 <= i && i < w.len()
}

/// Whether `scan_mod_source` can read the whole of `src`: no definition and
/// no gshared proxy runs past its end.
pub fn mod_source_readable(src_name: &str, src: &str) -> (b: bool)
    ensures
        b == scan_from(lines(src@), 0, src_name@) is Some,
{
    let ls = lines_of(src);
    let ghost all = views(ls@);
    let ghost sn = src_name@;
    proof {
        reveal_strlit(";");
        reveal_strlit("))");
        assert(";"@ =~= seq![';']);
    }
    let mut p: usize = 0;
    while p < ls.len()
        invariant
            0 <= p <= ls@.len(),
            all == views(ls@),
            all == lines(src@),
            sn == src_name@,
            ";"@ == seq![';'],
            (scan_from(all, 0, sn) is Some) == (scan_from(all, p as int, sn) is Some),
        decreases ls@.len() - p,
    {
        let line = ls[p];
        proof {
            assert(all[p as int] == line@);
        }
        match FnDecl::try_parse(line) {
            Some(d) => {
                if ends_with(line, ";") {
                    p = p + 1;
                } else if !ends_with(d.name, "_AdjustorThunk") {
                    if ls.len() - p <= 1 {
                        return false;
                    }
                    let c = close_index(&ls, p + 2);
                    if c >= ls.len() {
                        return false;
                    }
                    proof {
                        lemma_close_from(all, p + 2);
                    }
                    p = c + 1;
                } else {
                    p = p + 1;
                }
            },
            None => {
                if starts_with(line, "inline") {
                    if !proxy_decl_readable(line) || ls.len() - p <= 2 {
                        return false;
                    }
                    proof {
                        assert(all[p + 2] == ls@[p + 2]@);
                    }
                    if find_str(trim_ws(ls[p + 2]), "))").is_none() {
                        return false;
                    }
                    p = p + 3;
                } else {
                    p = p + 1;
                }
            },
        }
    }
    true
}

} // verus!
