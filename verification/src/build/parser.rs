//! Recognising the declarations, calls and arrays of generated C++ source,
//! one line at a time.
use crate::error::Error;
use crate::text::{
    before_char, before_char_str, chars_vec, ends_with, find, find_str, find_vec, is_ws_char, lemma_trail_len,
    lines, lines_of, non_ws_pred, tail_from, occurs_at, starts_with, str_eq, strip_prefix, trail_count, trail_len,
    trim, trim_end_char, trim_end_matches, trim_end_matches_char, trim_end_str, trim_ws, views,
};
use vstd::prelude::*;
use vstd::string::StrSliceExecFns;

verus! {

/// The C++ types that the il2cpp codegen headers already define.
pub open spec fn included_ty(name: Seq<char>) -> bool {
    ||| name == "void"@
    ||| name == "bool"@
    ||| name == "float"@
    ||| name == "double"@
    ||| name == "int8_t"@
    ||| name == "uint8_t"@
    ||| name == "Il2CppChar"@
    ||| name == "int16_t"@
    ||| name == "uint16_t"@
    ||| name == "int32_t"@
    ||| name == "uint32_t"@
    ||| name == "int64_t"@
    ||| name == "uint64_t"@
    ||| name == "intptr_t"@
    ||| name == "uintptr_t"@
    ||| name == "char"@
    ||| name == "wchar_t"@
    ||| name == "RuntimeObject"@
    ||| name == "RuntimeMethod"@
    ||| name == "RuntimeArray"@
    ||| name == "Il2CppMethodPointer"@
    ||| name == "Il2CppComObject"@
}

pub fn is_included_ty(name: &str) -> (b: bool)
    ensures
        b == included_ty(name@),
{
    str_eq(name, "void") || str_eq(name, "bool") || str_eq(name, "float") || str_eq(name, "double")
        || str_eq(name, "int8_t") || str_eq(name, "uint8_t") || str_eq(name, "Il2CppChar")
        || str_eq(name, "int16_t") || str_eq(name, "uint16_t") || str_eq(name, "int32_t")
        || str_eq(name, "uint32_t") || str_eq(name, "int64_t") || str_eq(name, "uint64_t")
        || str_eq(name, "intptr_t") || str_eq(name, "uintptr_t") || str_eq(name, "char")
        || str_eq(name, "wchar_t") || str_eq(name, "RuntimeObject") || str_eq(
        name,
        "RuntimeMethod",
    ) || str_eq(name, "RuntimeArray") || str_eq(name, "Il2CppMethodPointer") || str_eq(
        name,
        "Il2CppComObject",
    )
}

/// `p` is a prefix of `s`.
pub open spec fn has_prefix(s: Seq<char>, p: Seq<char>) -> bool {
    p.len() <= s.len() && s.take(p.len() as int) == p
}

/// `p` is a suffix of `s`.
pub open spec fn has_suffix(s: Seq<char>, p: Seq<char>) -> bool {
    p.len() <= s.len() && s.skip(s.len() - p.len()) == p
}

/// The declaration prefixes, tried in order: the rest of the line after the
/// first that matches, and whether the function is inline.
pub open spec fn strip_decl_prefix(line: Seq<char>) -> Option<(Seq<char>, bool)> {
    if has_prefix(line, "IL2CPP_EXTERN_C IL2CPP_METHOD_ATTR"@) {
        Some((line.skip("IL2CPP_EXTERN_C IL2CPP_METHOD_ATTR"@.len() as int), false))
    } else if has_prefix(line, "IL2CPP_EXTERN_C inline IL2CPP_METHOD_ATTR"@) {
        Some((line.skip("IL2CPP_EXTERN_C inline IL2CPP_METHOD_ATTR"@.len() as int), true))
    } else if has_prefix(line, "IL2CPP_EXTERN_C inline  IL2CPP_METHOD_ATTR"@) {
        Some((line.skip("IL2CPP_EXTERN_C inline  IL2CPP_METHOD_ATTR"@.len() as int), true))
    } else if has_prefix(line, "IL2CPP_EXTERN_C"@) {
        Some((line.skip("IL2CPP_EXTERN_C"@.len() as int), false))
    } else {
        None
    }
}

/// The last whitespace-separated word of a string that does not end in
/// whitespace.
pub open spec fn last_word(s: Seq<char>) -> Seq<char> {
    s.skip(s.len() - trail_len(s, non_ws_pred()))
}

/// A parsed function declaration: return type, name, parameter list (from
/// the opening parenthesis on) and whether it is inline.
pub open spec fn parse_decl(line: Seq<char>) -> Option<(Seq<char>, Seq<char>, Seq<char>, bool)> {
    match strip_decl_prefix(line) {
        None => None,
        Some((l, inline)) => match find(l, seq!['(']) {
            None => None,
            Some(param_start) => {
                let params = l.skip(param_start);
                let rest = trim(l.take(param_start));
                if rest.len() == 0 {
                    None
                } else {
                    let name = last_word(rest);
                    let return_ty = trim(rest.take(rest.len() - name.len()));
                    Some((return_ty, name, params, inline))
                }
            },
        },
    }
}

pub struct FnDecl<'a> {
    pub return_ty: &'a str,
    pub name: &'a str,
    pub params: &'a str,
    pub inline: bool,
}

fn strip_decl_prefix_exec<'a>(line: &'a str) -> (r: Option<(&'a str, bool)>)
    ensures
        match r {
            Some((l, inline)) => strip_decl_prefix(line@) == Some((l@, inline)),
            None => strip_decl_prefix(line@) is None,
        },
{
    if let Some(l) = strip_prefix(line, "IL2CPP_EXTERN_C IL2CPP_METHOD_ATTR") {
        Some((l, false))
    } else if let Some(l) = strip_prefix(line, "IL2CPP_EXTERN_C inline IL2CPP_METHOD_ATTR") {
        Some((l, true))
    } else if let Some(l) = strip_prefix(line, "IL2CPP_EXTERN_C inline  IL2CPP_METHOD_ATTR") {
        Some((l, true))
    } else if let Some(l) = strip_prefix(line, "IL2CPP_EXTERN_C") {
        Some((l, false))
    } else {
        None
    }
}

impl<'a> FnDecl<'a> {
    /// Parses a line that declares or defines a function:
    /// `IL2CPP_EXTERN_C [inline] IL2CPP_METHOD_ATTR <return type> <name>(<params>)`.
    pub fn try_parse(line: &'a str) -> (r: Option<Self>)
        ensures
            match r {
                Some(d) => parse_decl(line@) == Some((d.return_ty@, d.name@, d.params@, d.inline)),
                None => parse_decl(line@) is None,
            },
    {
        let (line, inline) = match strip_decl_prefix_exec(line) {
            Some(p) => p,
            None => {
                return None;
            },
        };
        let lv = chars_vec(line);
        let open = chars_vec("(");
        proof {
            reveal_strlit("(");
            assert(open@ =~= seq!['(']);
        }
        let param_start = match find_vec(&lv, &open, 0) {
            Some(p) => p,
            None => {
                return None;
            },
        };
        let len = line.unicode_len();
        let params = line.substring_char(param_start, len);
        let rest = trim_ws(line.substring_char(0, param_start));
        let rlen = rest.unicode_len();
        if rlen == 0 {
            return None;
        }
        let mut i: usize = 0;
        while i < rlen && !is_ws_char(rest.get_char(rlen - i - 1))
            invariant
                rlen == rest@.len(),
                0 <= i <= rlen,
                forall|j: int| rlen - i <= j < rlen ==> #[trigger] non_ws_pred()(rest@[j]),
            decreases rlen - i,
        {
            i = i + 1;
        }
        proof {
            lemma_trail_len(rest@, non_ws_pred());
            lemma_trail_unique(rest@, non_ws_pred(), i as int, trail_len(rest@, non_ws_pred()) as int);
        }
        let name = rest.substring_char(rlen - i, rlen);
        let return_ty = trim_ws(rest.substring_char(0, rlen - i));
        Some(FnDecl { return_ty, name, params, inline })
    }
}

proof fn lemma_trail_unique(s: Seq<char>, f: spec_fn(char) -> bool, i: int, k: int)
    requires
        trail_count(s, f, i),
        trail_count(s, f, k),
    ensures
        i == k,
{
    if i < k {
        assert(f(s[s.len() - i - 1]));
    }
    if k < i {
        assert(f(s[s.len() - k - 1]));
    }
}

/// A method name ends in `_m` and a 40-character id of capital letters and digits.
pub open spec fn method_id_tail(s: Seq<char>) -> bool {
    &&& s.len() > 42
    &&& s[s.len() - 42] == '_'
    &&& s[s.len() - 41] == 'm'
    &&& forall|i: int|
        s.len() - 40 <= i < s.len() ==> ('A' <= #[trigger] s[i] <= 'Z' || '0' <= s[i] <= '9')
}

/// The name of a call on a line: after the first `= `, or else the whole
/// trimmed line, up to the first `(`.
pub open spec fn call_candidate(line: Seq<char>) -> Seq<char> {
    let possible = match find(line, "= "@) {
        Some(pos) => line.skip(pos + 2),
        None => trim(line),
    };
    before_char(possible, '(')
}

/// The function a line calls, if it calls an il2cpp method: its name, with a
/// trailing `_inline` only where `include_inline` allows inline calls.
pub open spec fn parse_call(line: Seq<char>, include_inline: bool) -> Option<Seq<char>> {
    let name = call_candidate(line);
    if has_suffix(name, "_inline"@) && !include_inline {
        None
    } else if method_id_tail(trim_end_str(name, "_inline"@)) {
        Some(name)
    } else {
        None
    }
}

fn method_id_tail_exec(s: &str) -> (b: bool)
    ensures
        b == method_id_tail(s@),
{
    let len = s.unicode_len();
    if len <= 42 {
        return false;
    }
    if s.get_char(len - 42) != '_' || s.get_char(len - 41) != 'm' {
        return false;
    }
    let mut i: usize = len - 40;
    while i < len
        invariant
            len == s@.len(),
            len > 42,
            len - 40 <= i <= len,
            forall|j: int| len - 40 <= j < i ==> ('A' <= #[trigger] s@[j] <= 'Z' || '0' <= s@[j] <= '9'),
        decreases len - i,
    {
        let c = s.get_char(i);
        if !(('A' <= c && c <= 'Z') || ('0' <= c && c <= '9')) {
            return false;
        }
        i = i + 1;
    }
    true
}

/// The il2cpp method that `line` calls, if any (see `parse_call`).
pub fn try_parse_call(line: &str, include_inline: bool) -> (r: Option<&str>)
    ensures
        match r {
            Some(n) => parse_call(line@, include_inline) == Some(n@),
            None => parse_call(line@, include_inline) is None,
        },
{
    proof {
        reveal_strlit("= ");
    }
    let possible_name = match find_str(line, "= ") {
        Some(pos) => {
            let len = line.unicode_len();
            assert("= "@.len() == 2);
            line.substring_char(pos + 2, len)
        },
        None => trim_ws(line),
    };
    let possible_name = before_char_str(possible_name, '(');
    if ends_with(possible_name, "_inline") && !include_inline {
        // Inlined functions will be defined in the same file anyways
        return None;
    }
    let test_name = trim_end_matches(possible_name, "_inline");
    if method_id_tail_exec(test_name) {
        Some(possible_name)
    } else {
        None
    }
}

/// The number of leading lines that do not start with `}`.
pub open spec fn rows_before_close(ls: Seq<Seq<char>>) -> nat
    decreases ls.len(),
{
    if ls.len() > 0 && !has_prefix(ls[0], seq!['}']) {
        1 + rows_before_close(ls.drop_first())
    } else {
        0
    }
}

/// An array element line, trimmed and without its trailing commas.
pub open spec fn element(line: Seq<char>) -> Seq<char> {
    trim_end_char(trim(line), ',')
}

pub struct SourceArrIterator<'src> {
    pub lines: Vec<&'src str>,
    pub pos: usize,
}

impl<'src> SourceArrIterator<'src> {
    /// The next line: `None` at the end, and for a line that starts with `}`
    /// (which is passed over); else the line trimmed and without trailing
    /// commas.
    pub fn next(&mut self) -> (r: Option<&'src str>)
        ensures
            final(self).lines@ == old(self).lines@,
            old(self).pos < old(self).lines@.len() ==> final(self).pos == old(self).pos + 1,
            old(self).pos >= old(self).lines@.len() ==> final(self).pos == old(self).pos && r is None,
            old(self).pos < old(self).lines@.len() ==> {
                let line = old(self).lines@[old(self).pos as int]@;
                match r {
                    None => has_prefix(line, seq!['}']),
                    Some(e) => !has_prefix(line, seq!['}']) && e@ == element(line),
                }
            },
    {
        if self.pos >= self.lines.len() {
            return None;
        }
        let line = self.lines[self.pos];
        self.pos = self.pos + 1;
        proof {
            reveal_strlit("}");
            assert("}"@ =~= seq!['}']);
        }
        if starts_with(line, "}") {
            None
        } else {
            Some(trim_end_matches_char(trim_ws(line), ','))
        }
    }
}

pub struct SourceParser<'src> {
    pub src: &'src str,
}

/// The lines after the line that starts with `<ty> <name>` and the line after
/// it; `None` where no line starts so.
pub open spec fn array_lines(src: Seq<char>, ty: Seq<char>, name: Seq<char>) -> Option<Seq<Seq<char>>> {
    let ls = lines(src);
    let header = ty + seq![' '] + name;
    if exists|i: int| 0 <= i < ls.len() && #[trigger] has_prefix(ls[i], header) {
        let i = choose|i: int|
            0 <= i < ls.len() && #[trigger] has_prefix(ls[i], header) && forall|j: int|
                0 <= j < i ==> !has_prefix(ls[j], header);
        Some(
            if i + 2 <= ls.len() {
                ls.skip(i + 2)
            } else {
                Seq::empty()
            },
        )
    } else {
        None
    }
}

proof fn lemma_first_prefixed(ls: Seq<Seq<char>>, header: Seq<char>, i: int)
    requires
        0 <= i < ls.len(),
        has_prefix(ls[i], header),
        forall|j: int| 0 <= j < i ==> !has_prefix(#[trigger] ls[j], header),
    ensures
        (choose|k: int|
            0 <= k < ls.len() && #[trigger] has_prefix(ls[k], header) && forall|j: int|
                0 <= j < k ==> !has_prefix(ls[j], header)) == i,
{
    let k = choose|k: int|
        0 <= k < ls.len() && #[trigger] has_prefix(ls[k], header) && forall|j: int|
            0 <= j < k ==> !has_prefix(ls[j], header);
    assert(has_prefix(ls[i], header));
    if k < i {
        assert(!has_prefix(ls[k], header));
    }
    if i < k {
        assert(!has_prefix(ls[i], header));
    }
}

proof fn lemma_views_skip<'a>(v: Seq<&'a str>, start: int)
    requires
        0 <= start,
    ensures
        start <= v.len() ==> views(v.skip(start)) == views(v).skip(start),
{
    if start <= v.len() {
        assert(views(v.skip(start)) =~= views(v).skip(start));
    }
}

impl<'src> SourceParser<'src> {
    pub fn new(src: &'src str) -> (p: Self)
        ensures
            p.src == src,
    {
        Self { src }
    }

    /// The lines of the array `<ty> <name>`: those after its header line and
    /// the opening bracket.
    pub fn parse_array(&self, ty: &str, name: &str) -> (r: Result<SourceArrIterator<'src>, Error>)
        ensures
            match r {
                Ok(it) => it.pos == 0 && array_lines(self.src@, ty@, name@) == Some(views(it.lines@)),
                Err(e) => array_lines(self.src@, ty@, name@) is None && e == Error::ArrayNotFound(
                    e->ArrayNotFound_0,
                ) && e->ArrayNotFound_0@ == name@,
            },
    {
        let src_lines = lines_of(self.src);
        let mut header = String::from_str(ty);
        header.append(" ");
        header.append(name);
        proof {
            reveal_strlit(" ");
        }
        let header = header.as_str();
        let ghost ls = views(src_lines@);
        let mut i: usize = 0;
        while i < src_lines.len()
            invariant
                ls == views(src_lines@),
                ls == lines(self.src@),
                header@ == ty@ + seq![' '] + name@,
                0 <= i <= src_lines@.len(),
                forall|j: int| 0 <= j < i ==> !has_prefix(#[trigger] ls[j], header@),
            decreases src_lines@.len() - i,
        {
            if starts_with(src_lines[i], header) {
                proof {
                    assert(ls[i as int] == src_lines@[i as int]@);
                    assert(has_prefix(ls[i as int], ty@ + seq![' '] + name@));
                    lemma_first_prefixed(ls, header@, i as int);
                }
                let rest = if src_lines.len() - i >= 2 {
                    tail_from(&src_lines, i + 2)
                } else {
                    Vec::new()
                };
                proof {
                    lemma_views_skip(src_lines@, i + 2);
                    if i + 2 > src_lines@.len() {
                        assert(views(rest@) =~= Seq::<Seq<char>>::empty());
                    }
                }
                return Ok(SourceArrIterator { lines: rest, pos: 0 });
            }
            i = i + 1;
        }
        Err(Error::ArrayNotFound(name.to_string()))
    }
}

} // verus!

verus! {

/// The lines from the `k`-th on, up to the first that starts with `}`.
pub open spec fn rows_after(ls: Seq<Seq<char>>, k: int) -> Seq<Seq<char>> {
    let t = if 0 <= k <= ls.len() {
        ls.skip(k)
    } else {
        Seq::empty()
    };
    t.take(rows_before_close(t) as int)
}

/// The rows of a C array whose declaration holds `header`: from the first
/// place `header` stands in `src`, the lines of the rest of `src` after the
/// first `skip`, up to the closing brace; `None` where `header` stands
/// nowhere.
pub open spec fn table_rows(src: Seq<char>, header: Seq<char>, skip: nat) -> Option<Seq<Seq<char>>> {
    match find(src, header) {
        None => None,
        Some(p) => Some(rows_after(lines(src.skip(p)), skip as int)),
    }
}

pub(crate) proof fn lemma_rows_before_close(t: Seq<Seq<char>>, i: int)
    requires
        0 <= i <= t.len(),
        forall|j: int| 0 <= j < i ==> !has_prefix(#[trigger] t[j], seq!['}']),
        i < t.len() ==> has_prefix(t[i], seq!['}']),
    ensures
        rows_before_close(t) == i,
    decreases i,
{
    if i > 0 {
        assert(!has_prefix(t[0], seq!['}']));
        let u = t.drop_first();
        assert forall|j: int| 0 <= j < i - 1 implies !has_prefix(#[trigger] u[j], seq!['}']) by {
            assert(u[j] == t[j + 1]);
        }
        if i - 1 < u.len() {
            assert(u[i - 1] == t[i]);
        }
        lemma_rows_before_close(u, i - 1);
    }
}

/// The rows of the array whose declaration holds `header` (see `table_rows`).
pub fn table_lines<'a>(src: &'a str, header: &str, skip: usize) -> (r: Option<Vec<&'a str>>)
    ensures
        match r {
            Some(v) => table_rows(src@, header@, skip as nat) == Some(views(v@)),
            None => table_rows(src@, header@, skip as nat) is None,
        },
{
    let start = match find_str(src, header) {
        Some(p) => p,
        None => {
            return None;
        },
    };
    let len = src.unicode_len();
    let rest = src.substring_char(start, len);
    assert(rest@ =~= src@.skip(start as int));
    let ls = lines_of(rest);
    let ghost all = views(ls@);
    let ghost t = if skip <= all.len() {
        all.skip(skip as int)
    } else {
        Seq::<Seq<char>>::empty()
    };
    let mut out: Vec<&'a str> = Vec::new();
    if ls.len() < skip {
        proof {
            lemma_rows_before_close(t, 0);
            assert(views(out@) =~= t.take(0));
        }
        return Some(out);
    }
    proof {
        reveal_strlit("}");
        assert("}"@ =~= seq!['}']);
    }
    let mut i: usize = skip;
    while i < ls.len() && !starts_with(ls[i], "}")
        invariant
            skip <= i <= ls@.len(),
            all == views(ls@),
            t == all.skip(skip as int),
            "}"@ == seq!['}'],
            views(out@) == t.take(i - skip),
            forall|j: int| 0 <= j < i - skip ==> !has_prefix(#[trigger] t[j], seq!['}']),
        decreases ls@.len() - i,
    {
        let ghost prev = out@;
        out.push(ls[i]);
        proof {
            assert(t[i - skip] == ls@[i as int]@);
            assert(views(prev).len() == prev.len());
            assert(prev.len() == i - skip);
            assert(out@ == prev.push(ls@[i as int]));
            assert forall|j: int| 0 <= j < i - skip + 1 implies #[trigger] views(out@)[j] == t.take(i - skip + 1)[j] by {
                if j < i - skip {
                    assert(views(prev)[j] == t.take(i - skip)[j]);
                    assert(out@[j] == prev[j]);
                }
            }
            assert(views(out@) =~= t.take(i - skip + 1));
        }
        i = i + 1;
    }
    proof {
        if i < ls@.len() {
            assert(t[i - skip] == ls@[i as int]@);
        }
        lemma_rows_before_close(t, i - skip);
    }
    Some(out)
}

} // verus!

verus! {

/// The lines of a source, read one at a time.
pub struct LineCursor<'src> {
    pub lines: Vec<&'src str>,
    pub pos: usize,
}

impl<'src> LineCursor<'src> {
    /// A cursor on the first line of `src`.
    pub fn new(src: &'src str) -> (c: Self)
        ensures
            views(c.lines@) == lines(src@),
            c.pos == 0,
    {
        LineCursor { lines: lines_of(src), pos: 0 }
    }

    /// The next line, `None` at the end.
    pub fn next(&mut self) -> (r: Option<&'src str>)
        ensures
            final(self).lines@ == old(self).lines@,
            old(self).pos < old(self).lines@.len() ==> final(self).pos == old(self).pos + 1 && r
                == Some(old(self).lines@[old(self).pos as int]),
            old(self).pos >= old(self).lines@.len() ==> final(self).pos == old(self).pos && r
                is None,
    {
        if self.pos < self.lines.len() {
            let l = self.lines[self.pos];
            self.pos = self.pos + 1;
            Some(l)
        } else {
            None
        }
    }
}

} // verus!

verus! {

/// From the first place `header` stands in `src`, the lines `skip` to
/// `skip + count` of the rest of `src` (as many as there are).
pub open spec fn table_slice(src: Seq<char>, header: Seq<char>, skip: nat, count: nat) -> Option<Seq<Seq<char>>> {
    match find(src, header) {
        None => None,
        Some(p) => {
            let ls = lines(src.skip(p));
            let a = if skip <= ls.len() {
                skip as int
            } else {
                ls.len() as int
            };
            let b = if skip + count <= ls.len() {
                (skip + count) as int
            } else {
                ls.len() as int
            };
            Some(ls.subrange(a, b))
        },
    }
}

/// The lines of `table_slice(src, header, skip, count)`.
pub fn table_slice_lines<'a>(src: &'a str, header: &str, skip: u64, count: u64) -> (r: Option<Vec<&'a str>>)
    ensures
        match r {
            Some(v) => table_slice(src@, header@, skip as nat, count as nat) == Some(views(v@)),
            None => table_slice(src@, header@, skip as nat, count as nat) is None,
        },
{
    let start = match find_str(src, header) {
        Some(p) => p,
        None => {
            return None;
        },
    };
    let len = src.unicode_len();
    let rest = src.substring_char(start, len);
    assert(rest@ =~= src@.skip(start as int));
    let ls = lines_of(rest);
    let n = ls.len();
    let a: usize = if skip <= n as u64 {
        skip as usize
    } else {
        n
    };
    let b: usize = if count <= (n - a) as u64 {
        a + count as usize
    } else {
        n
    };
    let ghost all = views(ls@);
    let mut out: Vec<&'a str> = Vec::new();
    let mut j: usize = a;
    while j < b
        invariant
            a <= j <= b <= ls@.len(),
            all == views(ls@),
            out@ == ls@.subrange(a as int, j as int),
        decreases b - j,
    {
        out.push(ls[j]);
        assert(out@ =~= ls@.subrange(a as int, j + 1));
        j = j + 1;
    }
    proof {
        assert(views(out@) =~= all.subrange(a as int, b as int));
    }
    Some(out)
}

} // verus!
