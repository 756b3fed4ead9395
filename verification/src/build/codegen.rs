//! The `_CodeGen.c` of the mod itself: its method pointers, and its
//! rewrite with the invokers and runtime generic contexts renumbered for the
//! mod.
use crate::build::function_usages::ModFunctionUsages;
use crate::build::parser::has_prefix;
use crate::error::{Error, Fault};
use crate::modules::{method_slots, read_method_slots, slot_views};
use crate::text::{
    decimal, lines, lines_of, parse_hex, parse_hex_u32, parse_i32, parse_i32_spec, parse_u32, parse_unsigned,
    parse_usize, push_decimal, split_whitespace, starts_with, str_eq, strip_prefix, trim, trim_end_char,
    trim_end_matches, trim_end_matches_char, trim_end_str, trim_start_matches, trim_start_str, trim_ws, views,
    words,
};
use vstd::prelude::*;

verus! {

/// The method pointer table of the mod's `_CodeGen.c`, whose rows start on
/// the second line after its declaration.
pub fn get_methods<'src>(src: &'src str) -> (r: Result<Vec<Option<&'src str>>, Error>)
    ensures
        r is Ok,
        r matches Ok(m) && slot_views(m@) == method_slots(src@, 2),
{
    Ok(read_method_slots(src, 2))
}

} // verus!

verus! {

/// The three tables of `_CodeGen.c` that are rewritten.
#[derive(Clone, Copy, Debug, PartialEq, Eq, Structural)]
pub enum CodegenTable {
    InvokerIndices,
    RgctxIndices,
    RgctxValues,
}

/// Where a reading of `_CodeGen.c` stands: outside the tables, at a table's
/// opening brace, or among its rows.
#[derive(Clone, Copy, Debug, PartialEq, Eq, Structural)]
pub enum CodegenMode {
    Normal,
    Opening(CodegenTable),
    Rows(CodegenTable),
}

pub open spec fn invoker_indices_header() -> Seq<char> {
    "static const int32_t s_InvokerIndices["@
}

pub open spec fn rgctx_indices_header() -> Seq<char> {
    "static const Il2CppTokenRangePair s_rgctxIndices"@
}

pub open spec fn rgctx_values_header() -> Seq<char> {
    "static const Il2CppRGCTXDefinition s_rgctxValues"@
}

/// How a line moves the reading between the tables.
pub open spec fn mode_step(mode: CodegenMode, line: Seq<char>) -> CodegenMode {
    match mode {
        CodegenMode::Normal => if has_prefix(line, invoker_indices_header()) {
            CodegenMode::Opening(CodegenTable::InvokerIndices)
        } else if has_prefix(line, rgctx_indices_header()) {
            CodegenMode::Opening(CodegenTable::RgctxIndices)
        } else if has_prefix(line, rgctx_values_header()) {
            CodegenMode::Opening(CodegenTable::RgctxValues)
        } else {
            CodegenMode::Normal
        },
        CodegenMode::Opening(t) => CodegenMode::Rows(t),
        CodegenMode::Rows(t) => if line == "};"@ {
            CodegenMode::Normal
        } else {
            CodegenMode::Rows(t)
        },
    }
}

/// The mode after the lines `ls`, and how many rows of runtime generic
/// context values they hold.
pub open spec fn mode_run(ls: Seq<Seq<char>>) -> (CodegenMode, nat)
    decreases ls.len(),
{
    if ls.len() == 0 {
        (CodegenMode::Normal, 0)
    } else {
        let (m, n) = mode_run(ls.drop_last());
        let row = m == CodegenMode::Rows(CodegenTable::RgctxValues) && ls.last() != "};"@;
        (mode_step(m, ls.last()), if row {
            n + 1
        } else {
            n
        })
    }
}

/// The position an invoker gets in the mod's numbering (see `add_numbered`),
/// and the numbering after.
pub open spec fn numbered(map: Map<usize, usize>, req: Seq<usize>, idx: usize) -> (int, Map<usize, usize>, Seq<usize>) {
    if map.contains_key(idx) {
        (map[idx] as int, map, req)
    } else {
        (req.len() as int, map.insert(idx, req.len() as usize), req.push(idx))
    }
}

/// The reading of `_CodeGen.c` after some lines.
pub ghost struct CodegenScan {
    pub out: Seq<char>,
    pub mode: CodegenMode,
    pub map: Map<usize, usize>,
    pub req: Seq<usize>,
    /// The runtime generic context values read: (data type, index).
    pub requests: Seq<(i32, u32)>,
    /// The rows of runtime generic context values read.
    pub rows: nat,
    /// The error the reading stopped at.
    pub failed: Option<Fault>,
    /// The reading stopped at a panic.
    pub panicked: bool,
}

/// A rewritten invoker row: `-1` stays, any other index is renumbered.
pub open spec fn invoker_row(st: CodegenScan, line: Seq<char>) -> CodegenScan {
    let num = trim_end_char(trim(line), ',');
    if num == "-1"@ {
        CodegenScan { out: st.out + line + "\n"@, ..st }
    } else {
        match parse_unsigned(num, usize::MAX as nat) {
            None => CodegenScan { failed: Some(Fault::InvalidNumber(num)), ..st },
            Some(n) => {
                let (pos, map, req) = numbered(st.map, st.req, n as usize);
                CodegenScan { out: st.out + "    "@ + decimal(pos as nat) + ",\n"@, map, req, ..st }
            },
        }
    }
}

/// A row of the token ranges of runtime generic contexts, checked: its
/// length, start and token must parse.
pub open spec fn rgctx_index_row(st: CodegenScan, line: Seq<char>) -> CodegenScan {
    let w = words(line);
    if w.len() < 5 {
        CodegenScan { failed: Some(Fault::WrongWordCount), ..st }
    } else if parse_unsigned(w[4], usize::MAX as nat) is None {
        CodegenScan { failed: Some(Fault::InvalidNumber(w[4])), ..st }
    } else if parse_unsigned(trim_end_char(w[3], ','), usize::MAX as nat) is None {
        CodegenScan { failed: Some(Fault::InvalidNumber(trim_end_char(w[3], ','))), ..st }
    } else if parse_hex_u32(trim_start_str(trim_end_char(w[1], ','), "0x"@)) is None {
        CodegenScan { failed: Some(Fault::InvalidNumber(trim_start_str(trim_end_char(w[1], ','), "0x"@))), ..st }
    } else {
        st
    }
}

/// A row of runtime generic context values: the `rows`-th gets the index
/// `news[rows]` that the mod's data gives it.
pub open spec fn rgctx_value_row(st: CodegenScan, line: Seq<char>, news: Seq<usize>) -> CodegenScan {
    let w = words(line);
    if w.len() < 3 {
        CodegenScan { failed: Some(Fault::WrongWordCount), ..st }
    } else {
        match parse_unsigned(w[2], u32::MAX as nat) {
            None => CodegenScan { failed: Some(Fault::InvalidNumber(w[2])), ..st },
            Some(idx) => {
                let ts = trim_end_char(trim_start_str(w[1], "(Il2CppRGCTXDataType)"@), ',');
                match parse_i32_spec(ts) {
                    None => CodegenScan { failed: Some(Fault::InvalidNumber(ts)), ..st },
                    Some(dt) => if dt < 1 || dt > 3 {
                        CodegenScan { failed: Some(Fault::UnsupportedRgctxType(dt as i32)), ..st }
                    } else {
                        CodegenScan {
                            out: st.out + "    { (Il2CppRGCTXDataType)"@ + decimal(dt as nat) + ", "@ + decimal(
                                news[st.rows as int] as nat,
                            ) + " },\n"@,
                            requests: st.requests.push((dt as i32, idx as u32)),
                            rows: st.rows + 1,
                            ..st
                        }
                    },
                }
            },
        }
    }
}

/// One line of `_CodeGen.c` read (nothing once the reading has stopped):
/// the invoker table is declared mutable with its rows renumbered; the rows
/// of the runtime generic context ranges are checked; those of the values
/// get the mod's indices; every other line is kept.
pub open spec fn codegen_step(st: CodegenScan, line: Seq<char>, news: Seq<usize>) -> CodegenScan {
    if st.failed is Some || st.panicked {
        st
    } else {
        let m = mode_step(st.mode, line);
        match st.mode {
            CodegenMode::Normal => if has_prefix(line, invoker_indices_header()) {
                let len = trim_end_str(line.skip(invoker_indices_header().len() as int), "] = "@);
                match parse_unsigned(len, usize::MAX as nat) {
                    None => CodegenScan { panicked: true, ..st },
                    Some(n) => CodegenScan {
                        out: st.out + "static int32_t s_InvokerIndices["@ + decimal(n) + "] = \n"@,
                        mode: m,
                        ..st
                    },
                }
            } else {
                CodegenScan { out: st.out + line + "\n"@, mode: m, ..st }
            },
            CodegenMode::Opening(_) => CodegenScan { out: st.out + "{\n"@, mode: m, ..st },
            CodegenMode::Rows(t) => if line == "};"@ {
                CodegenScan { out: st.out + "};\n"@, mode: m, ..st }
            } else {
                let st2 = CodegenScan { mode: m, ..st };
                match t {
                    CodegenTable::InvokerIndices => invoker_row(st2, line),
                    CodegenTable::RgctxIndices => rgctx_index_row(
                        CodegenScan { out: st2.out + line + "\n"@, ..st2 },
                        line,
                    ),
                    CodegenTable::RgctxValues => rgctx_value_row(st2, line, news),
                }
            },
        }
    }
}

/// The reading before any line, with the mod's invoker numbering so far.
pub open spec fn codegen_start(map: Map<usize, usize>, req: Seq<usize>) -> CodegenScan {
    CodegenScan {
        out: Seq::empty(),
        mode: CodegenMode::Normal,
        map,
        req,
        requests: Seq::empty(),
        rows: 0,
        failed: None,
        panicked: false,
    }
}

/// The reading after the lines `ls`.
pub open spec fn codegen_run(ls: Seq<Seq<char>>, map: Map<usize, usize>, req: Seq<usize>, news: Seq<usize>) -> CodegenScan
    decreases ls.len(),
{
    if ls.len() == 0 {
        codegen_start(map, req)
    } else {
        codegen_step(codegen_run(ls.drop_last(), map, req, news), ls.last(), news)
    }
}

pub open spec fn table_name(t: CodegenTable) -> Seq<char> {
    match t {
        CodegenTable::InvokerIndices => "s_InvokerIndices"@,
        CodegenTable::RgctxIndices => "s_rgctxIndices"@,
        CodegenTable::RgctxValues => "s_rgctxValues"@,
    }
}

/// The whole reading: a file that ends inside a table is an error.
pub open spec fn codegen_result(ls: Seq<Seq<char>>, map: Map<usize, usize>, req: Seq<usize>, news: Seq<usize>) -> CodegenScan {
    let st = codegen_run(ls, map, req, news);
    if st.failed is None && !st.panicked {
        match st.mode {
            CodegenMode::Normal => st,
            CodegenMode::Opening(t) => CodegenScan {
                failed: Some(Fault::FileEnded(table_name(t) + " (skip '{')"@)),
                ..st
            },
            CodegenMode::Rows(t) => CodegenScan { failed: Some(Fault::FileEnded(table_name(t))), ..st },
        }
    } else {
        st
    }
}

/// While the reading goes on, its mode and count of value rows are those
/// of the tables alone.
proof fn lemma_codegen_mode(ls: Seq<Seq<char>>, map: Map<usize, usize>, req: Seq<usize>, news: Seq<usize>)
    ensures
        ({
            let st = codegen_run(ls, map, req, news);
            st.failed is None && !st.panicked ==> (st.mode, st.rows) == mode_run(ls)
        }),
    decreases ls.len(),
{
    if ls.len() > 0 {
        lemma_codegen_mode(ls.drop_last(), map, req, news);
    }
}

/// The count of value rows only grows.
proof fn lemma_rows_grow(ls: Seq<Seq<char>>, k: int)
    requires
        0 <= k <= ls.len(),
    ensures
        mode_run(ls.take(k)).1 <= mode_run(ls).1,
    decreases ls.len() - k,
{
    if k < ls.len() {
        assert(ls.take(k + 1).drop_last() =~= ls.take(k));
        lemma_rows_grow(ls, k + 1);
    } else {
        assert(ls.take(k) =~= ls);
    }
}

/// A stopped reading stays as it is.
proof fn lemma_codegen_stopped(ls: Seq<Seq<char>>, k: int, map: Map<usize, usize>, req: Seq<usize>, news: Seq<usize>)
    requires
        0 <= k <= ls.len(),
        codegen_run(ls.take(k), map, req, news).failed is Some || codegen_run(ls.take(k), map, req, news).panicked,
    ensures
        codegen_run(ls, map, req, news) == codegen_run(ls.take(k), map, req, news),
    decreases ls.len() - k,
{
    if k < ls.len() {
        assert(ls.take(k + 1).drop_last() =~= ls.take(k));
        lemma_codegen_stopped(ls, k + 1, map, req, news);
    } else {
        assert(ls.take(k) =~= ls);
    }
}

} // verus!

verus! {

fn table_name_string(t: CodegenTable) -> (r: String)
    ensures
        r@ == table_name(t),
{
    match t {
        CodegenTable::InvokerIndices => "s_InvokerIndices".to_string(),
        CodegenTable::RgctxIndices => "s_rgctxIndices".to_string(),
        CodegenTable::RgctxValues => "s_rgctxValues".to_string(),
    }
}

/// How many rows of runtime generic context values `src` holds: the mod's
/// data must give each an index (see `transform`).
pub fn rgctx_value_rows(src: &str) -> (r: usize)
    ensures
        r == mode_run(lines(src@)).1,
{
    let ls = lines_of(src);
    let ghost all = views(ls@);
    let mut mode = CodegenMode::Normal;
    let mut rows: usize = 0;
    let mut i: usize = 0;
    proof {
        reveal_strlit("};");
        assert(all.take(0) =~= Seq::<Seq<char>>::empty());
    }
    while i < ls.len()
        invariant
            0 <= i <= ls@.len(),
            all == views(ls@),
            all == lines(src@),
            (mode, rows as nat) == mode_run(all.take(i as int)),
            rows <= i,
        decreases ls@.len() - i,
    {
        let line = ls[i];
        proof {
            assert(all[i as int] == line@);
            assert(all.take(i + 1).drop_last() =~= all.take(i as int));
            assert(all.take(i + 1).last() == line@);
        }
        let close = str_eq(line, "};");
        if mode == CodegenMode::Rows(CodegenTable::RgctxValues) && !close {
            rows = rows + 1;
        }
        mode = match mode {
            CodegenMode::Normal => if starts_with(line, "static const int32_t s_InvokerIndices[") {
                CodegenMode::Opening(CodegenTable::InvokerIndices)
            } else if starts_with(line, "static const Il2CppTokenRangePair s_rgctxIndices") {
                CodegenMode::Opening(CodegenTable::RgctxIndices)
            } else if starts_with(line, "static const Il2CppRGCTXDefinition s_rgctxValues") {
                CodegenMode::Opening(CodegenTable::RgctxValues)
            } else {
                CodegenMode::Normal
            },
            CodegenMode::Opening(t) => CodegenMode::Rows(t),
            CodegenMode::Rows(t) => if close {
                CodegenMode::Normal
            } else {
                CodegenMode::Rows(t)
            },
        };
        i = i + 1;
    }
    proof {
        assert(all.take(ls@.len() as int) =~= all);
    }
    rows
}

/// Rewrites the mod's `_CodeGen.c` (see `codegen_result`): the invokers are
/// numbered in `function_usages`, and the `k`-th runtime generic context
/// value gets the index `rgctx_new[k]` that the mod's data gave it. Gives
/// the new source and the context values read, as (data type, index).
pub fn transform(src: &str, function_usages: &mut ModFunctionUsages, rgctx_new: &Vec<usize>) -> (r: Result<
    (String, Vec<(i32, u32)>),
    Error,
>)
    requires
        old(function_usages).wf(),
        mode_run(lines(src@)).1 <= rgctx_new@.len(),
        !codegen_result(
            lines(src@),
            old(function_usages).invokers_map@,
            old(function_usages).required_invokers@,
            rgctx_new@,
        ).panicked,
    ensures
        final(function_usages).wf(),
        final(function_usages).same_but_invokers(old(function_usages)),
        ({
            let st = codegen_result(
                lines(src@),
                old(function_usages).invokers_map@,
                old(function_usages).required_invokers@,
                rgctx_new@,
            );
            &&& final(function_usages).invokers_map@ == st.map
            &&& final(function_usages).required_invokers@ == st.req
            &&& match st.failed {
                Some(f) => r matches Err(e) && e@ == f,
                None => r matches Ok((s, q)) && s@ == st.out && q@ == st.requests,
            }
        }),
{
    let ls = lines_of(src);
    let ghost all = views(ls@);
    let ghost news = rgctx_new@;
    let ghost map0 = function_usages.invokers_map@;
    let ghost req0 = function_usages.required_invokers@;
    let ghost s0 = *old(function_usages);
    let mut out = String::new();
    let mut mode = CodegenMode::Normal;
    let mut rows: usize = 0;
    let mut requests: Vec<(i32, u32)> = Vec::new();
    let mut i: usize = 0;
    proof {
        reveal_strlit("};");
        reveal_strlit("-1");
        assert(all.take(0) =~= Seq::<Seq<char>>::empty());
    }
    while i < ls.len()
        invariant
            0 <= i <= ls@.len(),
            all == views(ls@),
            all == lines(src@),
            news == rgctx_new@,
            mode_run(all).1 <= news.len(),
            s0 == *old(function_usages),
            map0 == s0.invokers_map@,
            req0 == s0.required_invokers@,
            !codegen_result(all, map0, req0, news).panicked,
            function_usages.wf(),
            function_usages.same_but_invokers(&s0),
            ({
                let st = codegen_run(all.take(i as int), map0, req0, news);
                &&& st.failed is None && !st.panicked
                &&& out@ == st.out
                &&& mode == st.mode
                &&& rows == st.rows
                &&& requests@ == st.requests
                &&& function_usages.invokers_map@ == st.map
                &&& function_usages.required_invokers@ == st.req
            }),
        decreases ls@.len() - i,
    {
        let line = ls[i];
        let ghost st = codegen_run(all.take(i as int), map0, req0, news);
        let ghost st1 = codegen_run(all.take(i + 1), map0, req0, news);
        proof {
            assert(all[i as int] == line@);
            assert(all.take(i + 1).drop_last() =~= all.take(i as int));
            assert(all.take(i + 1).last() == line@);
            assert(st1 == codegen_step(st, line@, news));
            lemma_codegen_mode(all.take(i as int), map0, req0, news);
            lemma_codegen_mode(all.take(i + 1), map0, req0, news);
            lemma_rows_grow(all, i + 1);
        }
        match mode {
            CodegenMode::Normal => {
                if let Some(rest) = strip_prefix(line, "static const int32_t s_InvokerIndices[") {
                    let len = match parse_usize(trim_end_matches(rest, "] = ")) {
                        Some(n) => n,
                        None => {
                            proof {
                                lemma_codegen_stopped(all, i + 1, map0, req0, news);
                                assert(all.take(ls@.len() as int) =~= all);
                                assert(false);
                            }
                            return Err(Error::WrongWordCount);
                        },
                    };
                    out.append("static int32_t s_InvokerIndices[");
                    push_decimal(&mut out, len);
                    out.append("] = \n");
                    mode = CodegenMode::Opening(CodegenTable::InvokerIndices);
                } else {
                    out.append(line);
                    out.append("\n");
                    if starts_with(line, "static const Il2CppTokenRangePair s_rgctxIndices") {
                        mode = CodegenMode::Opening(CodegenTable::RgctxIndices);
                    } else if starts_with(line, "static const Il2CppRGCTXDefinition s_rgctxValues") {
                        mode = CodegenMode::Opening(CodegenTable::RgctxValues);
                    }
                }
            },
            CodegenMode::Opening(t) => {
                out.append("{\n");
                mode = CodegenMode::Rows(t);
            },
            CodegenMode::Rows(t) => {
                if str_eq(line, "};") {
                    out.append("};\n");
                    mode = CodegenMode::Normal;
                } else {
                    match t {
                        CodegenTable::InvokerIndices => {
                            let num = trim_end_matches_char(trim_ws(line), ',');
                            if str_eq(num, "-1") {
                                out.append(line);
                                out.append("\n");
                            } else {
                                match parse_usize(num) {
                                    Some(n) => {
                                        let pos = function_usages.add_invoker(n);
                                        out.append("    ");
                                        push_decimal(&mut out, pos);
                                        out.append(",\n");
                                    },
                                    None => {
                                        proof {
                                            lemma_codegen_stopped(all, i + 1, map0, req0, news);
                                            assert(all.take(ls@.len() as int) =~= all);
                                        }
                                        return Err(Error::InvalidNumber(num.to_string()));
                                    },
                                }
                            }
                        },
                        CodegenTable::RgctxIndices => {
                            out.append(line);
                            out.append("\n");
                            let w = split_whitespace(line);
                            proof {
                                assert(views(w@).len() == w@.len());
                            }
                            let bad: Option<Error> = if w.len() < 5 {
                                Some(Error::WrongWordCount)
                            } else {
                                proof {
                                    assert(views(w@)[4] == w@[4]@);
                                    assert(views(w@)[3] == w@[3]@);
                                    assert(views(w@)[1] == w@[1]@);
                                }
                                let start = trim_end_matches_char(w[3], ',');
                                let token = trim_start_matches(trim_end_matches_char(w[1], ','), "0x");
                                if parse_usize(w[4]).is_none() {
                                    Some(Error::InvalidNumber(w[4].to_string()))
                                } else if parse_usize(start).is_none() {
                                    Some(Error::InvalidNumber(start.to_string()))
                                } else if parse_hex(token).is_none() {
                                    Some(Error::InvalidNumber(token.to_string()))
                                } else {
                                    None
                                }
                            };
                            if let Some(e) = bad {
                                proof {
                                    lemma_codegen_stopped(all, i + 1, map0, req0, news);
                                    assert(all.take(ls@.len() as int) =~= all);
                                }
                                return Err(e);
                            }
                        },
                        CodegenTable::RgctxValues => {
                            let w = split_whitespace(line);
                            proof {
                                assert(views(w@).len() == w@.len());
                            }
                            if w.len() < 3 {
                                proof {
                                    lemma_codegen_stopped(all, i + 1, map0, req0, news);
                                    assert(all.take(ls@.len() as int) =~= all);
                                }
                                return Err(Error::WrongWordCount);
                            }
                            proof {
                                assert(views(w@)[2] == w@[2]@);
                                assert(views(w@)[1] == w@[1]@);
                            }
                            let idx = match parse_u32(w[2]) {
                                Some(v) => v,
                                None => {
                                    proof {
                                        lemma_codegen_stopped(all, i + 1, map0, req0, news);
                                        assert(all.take(ls@.len() as int) =~= all);
                                    }
                                    return Err(Error::InvalidNumber(w[2].to_string()));
                                },
                            };
                            let ts = trim_end_matches_char(trim_start_matches(w[1], "(Il2CppRGCTXDataType)"), ',');
                            let dt = match parse_i32(ts) {
                                Some(v) => v,
                                None => {
                                    proof {
                                        lemma_codegen_stopped(all, i + 1, map0, req0, news);
                                        assert(all.take(ls@.len() as int) =~= all);
                                    }
                                    return Err(Error::InvalidNumber(ts.to_string()));
                                },
                            };
                            if dt < 1 || dt > 3 {
                                proof {
                                    lemma_codegen_stopped(all, i + 1, map0, req0, news);
                                    assert(all.take(ls@.len() as int) =~= all);
                                }
                                return Err(Error::UnsupportedRgctxType(dt));
                            }
                            let nn = rgctx_new.len();
                            let new_idx = rgctx_new[rows];
                            out.append("    { (Il2CppRGCTXDataType)");
                            push_decimal(&mut out, dt as usize);
                            out.append(", ");
                            push_decimal(&mut out, new_idx);
                            out.append(" },\n");
                            requests.push((dt, idx));
                            rows = rows + 1;
                        },
                    }
                }
            },
        }
        proof {
            assert(st1.failed is None);
            assert(!st1.panicked);
            assert(out@ =~= st1.out);
            assert(mode == st1.mode);
            assert(rows == st1.rows);
            assert(requests@ =~= st1.requests);
            assert(function_usages.invokers_map@ == st1.map);
            assert(function_usages.required_invokers@ == st1.req);
        }
        i = i + 1;
    }
    proof {
        assert(all.take(ls@.len() as int) =~= all);
    }
    match mode {
        CodegenMode::Normal => Ok((out, requests)),
        CodegenMode::Opening(t) => {
            let mut name = table_name_string(t);
            name.append(" (skip '{')");
            Err(Error::FileEnded(name))
        },
        CodegenMode::Rows(t) => Err(Error::FileEnded(table_name_string(t))),
    }
}

} // verus!

verus! {

/// The length of an invoker table, read from its declaration.
pub open spec fn invoker_table_len(line: Seq<char>) -> Seq<char> {
    trim_end_str(line.skip(invoker_indices_header().len() as int), "] = "@)
}

/// Every invoker table that the reading meets declares a length that
/// parses.
pub open spec fn invoker_lengths_parse(ls: Seq<Seq<char>>) -> bool {
    forall|i: int|
        0 <= i < ls.len() && mode_run(#[trigger] ls.take(i)).0 == CodegenMode::Normal && has_prefix(
            ls[i],
            invoker_indices_header(),
        ) ==> parse_unsigned(invoker_table_len(ls[i]), usize::MAX as nat) is Some
}

proof fn lemma_no_panic(ls: Seq<Seq<char>>, map: Map<usize, usize>, req: Seq<usize>, news: Seq<usize>)
    requires
        invoker_lengths_parse(ls),
    ensures
        !codegen_run(ls, map, req, news).panicked,
    decreases ls.len(),
{
    if ls.len() > 0 {
        let p = ls.drop_last();
        assert(invoker_lengths_parse(p)) by {
            assert forall|i: int|
                0 <= i < p.len() && mode_run(#[trigger] p.take(i)).0 == CodegenMode::Normal && has_prefix(
                    p[i],
                    invoker_indices_header(),
                ) implies parse_unsigned(invoker_table_len(p[i]), usize::MAX as nat) is Some by {
                assert(p.take(i) =~= ls.take(i));
                assert(p[i] == ls[i]);
            }
        }
        lemma_no_panic(p, map, req, news);
        lemma_codegen_mode(p, map, req, news);
        let k = (ls.len() - 1) as int;
        assert(ls.take(k) =~= p);
        assert(ls[k] == ls.last());
    }
}

/// Whether every invoker table's declared length parses, so that
/// `transform` can read `src` whatever the numbering and the indices.
pub fn invoker_lengths_valid(src: &str) -> (b: bool)
    ensures
        b == invoker_lengths_parse(lines(src@)),
        b ==> forall|map: Map<usize, usize>, req: Seq<usize>, news: Seq<usize>|
            !(#[trigger] codegen_result(lines(src@), map, req, news)).panicked,
{
    let ls = lines_of(src);
    let ghost all = views(ls@);
    let mut mode = CodegenMode::Normal;
    let mut rows: usize = 0;
    let mut i: usize = 0;
    proof {
        reveal_strlit("};");
        assert(all.take(0) =~= Seq::<Seq<char>>::empty());
    }
    while i < ls.len()
        invariant
            0 <= i <= ls@.len(),
            all == views(ls@),
            all == lines(src@),
            (mode, rows as nat) == mode_run(all.take(i as int)),
            rows <= i,
            forall|j: int|
                0 <= j < i && mode_run(#[trigger] all.take(j)).0 == CodegenMode::Normal && has_prefix(
                    all[j],
                    invoker_indices_header(),
                ) ==> parse_unsigned(invoker_table_len(all[j]), usize::MAX as nat) is Some,
        decreases ls@.len() - i,
    {
        let line = ls[i];
        proof {
            assert(all[i as int] == line@);
            assert(all.take(i + 1).drop_last() =~= all.take(i as int));
            assert(all.take(i + 1).last() == line@);
        }
        if mode == CodegenMode::Normal {
            if let Some(rest) = strip_prefix(line, "static const int32_t s_InvokerIndices[") {
                if parse_usize(trim_end_matches(rest, "] = ")).is_none() {
                    return false;
                }
            }
        }
        let close = str_eq(line, "};");
        if mode == CodegenMode::Rows(CodegenTable::RgctxValues) && !close {
            rows = rows + 1;
        }
        mode = match mode {
            CodegenMode::Normal => if starts_with(line, "static const int32_t s_InvokerIndices[") {
                CodegenMode::Opening(CodegenTable::InvokerIndices)
            } else if starts_with(line, "static const Il2CppTokenRangePair s_rgctxIndices") {
                CodegenMode::Opening(CodegenTable::RgctxIndices)
            } else if starts_with(line, "static const Il2CppRGCTXDefinition s_rgctxValues") {
                CodegenMode::Opening(CodegenTable::RgctxValues)
            } else {
                CodegenMode::Normal
            },
            CodegenMode::Opening(t) => CodegenMode::Rows(t),
            CodegenMode::Rows(t) => if close {
                CodegenMode::Normal
            } else {
                CodegenMode::Rows(t)
            },
        };
        i = i + 1;
    }
    proof {
        assert(all.take(ls@.len() as int) =~= all);
        assert forall|map: Map<usize, usize>, req: Seq<usize>, news: Seq<usize>|
            !(#[trigger] codegen_result(all, map, req, news)).panicked by {
            lemma_no_panic(all, map, req, news);
        }
    }
    true
}

} // verus!
