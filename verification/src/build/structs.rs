//! The C++ structs that generated sources declare and define.
use crate::build::function_usages::lines_text;
use crate::build::parser::{has_prefix, has_suffix};
use crate::build::type_sizes::{lemma_next_close, next_close};
use crate::text::{
    before_char, before_char_str, find, find_str, lines, lines_of, starts_with, str_eq, strip_prefix, strip_suffix,
    trim, trim_end, trim_end_str_ws, trim_start_matches, trim_start_str, trim_ws, views,
};
use crate::error::{Error, Fault, Outcome};
use vstd::hash_map::StringHashMap;
use vstd::hash_set::StringHashSet;
use vstd::prelude::*;

verus! {

/// A struct's definition: its body (the lines between its braces) and the
/// struct it derives from.
pub struct StructDef<'src> {
    pub body: String,
    pub parent: Option<&'src str>,
}

pub open spec fn def_view(d: StructDef) -> (Seq<char>, Option<Seq<char>>) {
    (
        d.body@,
        match d.parent {
            Some(p) => Some(p@),
            None => None,
        },
    )
}

pub open spec fn defs_view(m: Map<Seq<char>, StructDef>) -> Map<Seq<char>, (Seq<char>, Option<Seq<char>>)> {
    m.map_values(|d: StructDef| def_view(d))
}

/// The declarations and definitions found so far: the names of the
/// structs declared, and each defined struct's body and parent.
pub type StructsSeen = (Set<Seq<char>>, Map<Seq<char>, (Seq<char>, Option<Seq<char>>)>);

/// The invoker templates, which are not struct definitions of their own.
pub open spec fn is_invoker_template(name: Seq<char>) -> bool {
    let w = trim_start_str(trim_start_str(trim_start_str(name, "Generic"@), "Virt"@), "Interface"@);
    has_prefix(w, "FuncInvoker"@) || has_prefix(w, "ActionInvoker"@)
}

/// Reads a source from line `p` on: `struct X;` declares `X`; `struct X`
/// (or `struct X : public P`) defines `X`, the first time only, with the
/// lines after its opening brace up to `};` as its body. `None` where the
/// reading would panic: a `:` too near the end of the name to hold a
/// parent, or a first definition on the last line.
pub open spec fn struct_scan(ls: Seq<Seq<char>>, p: int, seen: StructsSeen) -> Option<StructsSeen>
    decreases ls.len() - p,
{
    if p < 0 || p >= ls.len() {
        Some(seen)
    } else {
        let line = trim_end(ls[p]);
        if !has_prefix(line, "struct "@) {
            struct_scan(ls, p + 1, seen)
        } else {
            let name = line.skip(7);
            if has_suffix(name, seq![';']) {
                struct_scan(ls, p + 1, (seen.0.insert(name.drop_last()), seen.1))
            } else if is_invoker_template(name) {
                struct_scan(ls, p + 1, seen)
            } else {
                let colon = find(name, seq![':']);
                if colon matches Some(pos) && pos + 9 > name.len() {
                    None
                } else {
                    let parent = match colon {
                        Some(pos) => Some(name.skip(pos + 9)),
                        None => None,
                    };
                    let key = trim(before_char(name, ':'));
                    if seen.1.contains_key(key) {
                        struct_scan(ls, p + 1, seen)
                    } else if p + 1 >= ls.len() {
                        None
                    } else {
                        let e = next_close(ls, p + 2);
                        proof {
                            lemma_next_close(ls, p + 2);
                        }
                        let body = lines_text(ls.subrange(p + 2, e));
                        let next = if e < ls.len() {
                            e + 1
                        } else {
                            e
                        };
                        struct_scan(ls, next, (seen.0, seen.1.insert(key, (body, parent))))
                    }
                }
            }
        }
    }
}

/// The structs of the sources `srcs`, read in order.
pub open spec fn structs_of(srcs: Seq<Seq<char>>) -> Option<StructsSeen>
    decreases srcs.len(),
{
    if srcs.len() == 0 {
        Some((Set::empty(), Map::empty()))
    } else {
        match structs_of(srcs.drop_last()) {
            None => None,
            Some(seen) => struct_scan(lines(srcs.last()), 0, seen),
        }
    }
}

pub open spec fn source_views(v: Seq<String>) -> Seq<Seq<char>> {
    v.map_values(|s: String| s@)
}

} // verus!

verus! {

fn is_invoker_template_exec(name: &str) -> (b: bool)
    ensures
        b == is_invoker_template(name@),
{
    let w = trim_start_matches(trim_start_matches(trim_start_matches(name, "Generic"), "Virt"), "Interface");
    starts_with(w, "FuncInvoker") || starts_with(w, "ActionInvoker")
}

/// The position of the first `};` line from `i` on (see `next_close`).
fn close_line_index(ls: &Vec<&str>, i: usize) -> (r: usize)
    requires
        i <= ls@.len(),
    ensures
        r == next_close(views(ls@), i as int),
{
    let ghost all = views(ls@);
    proof {
        reveal_strlit("};");
    }
    let mut j: usize = i;
    while j < ls.len() && !str_eq(ls[j], "};")
        invariant
            i <= j <= ls@.len(),
            all == views(ls@),
            next_close(all, j as int) == next_close(all, i as int),
        decreases ls@.len() - j,
    {
        proof {
            assert(all[j as int] == ls@[j as int]@);
        }
        j = j + 1;
    }
    proof {
        if j < ls@.len() {
            assert(all[j as int] == ls@[j as int]@);
        }
    }
    j
}

/// Reads the structs of one source into `fds` and `defs` (see
/// `struct_scan`).
pub fn scan_structs<'a>(src: &'a str, fds: &mut StringHashSet, defs: &mut StringHashMap<StructDef<'a>>)
    requires
        struct_scan(lines(src@), 0, (old(fds)@, defs_view(old(defs)@))) is Some,
    ensures
        struct_scan(lines(src@), 0, (old(fds)@, defs_view(old(defs)@))) == Some(
            (final(fds)@, defs_view(final(defs)@)),
        ),
{
    let ls = lines_of(src);
    let ghost all = views(ls@);
    let ghost total = struct_scan(all, 0, (fds@, defs_view(defs@)));
    proof {
        reveal_strlit(";");
        reveal_strlit(":");
        assert(";"@ =~= seq![';']);
        assert(":"@ =~= seq![':']);
        assert("struct "@.len() == 7) by {
            reveal_strlit("struct ");
        }
    }
    let mut p: usize = 0;
    while p < ls.len()
        invariant
            0 <= p <= ls@.len(),
            all == views(ls@),
            all == lines(src@),
            ";"@ == seq![';'],
            ":"@ == seq![':'],
            "struct "@.len() == 7,
            total == struct_scan(all, 0, (old(fds)@, defs_view(old(defs)@))),
            total == struct_scan(all, p as int, (fds@, defs_view(defs@))),
            total is Some,
        decreases ls@.len() - p,
    {
        let line = trim_end_str_ws(ls[p]);
        proof {
            assert(all[p as int] == ls@[p as int]@);
        }
        match strip_prefix(line, "struct ") {
            None => {
                p = p + 1;
            },
            Some(name) => {
                match strip_suffix(name, ";") {
                    Some(n) => {
                        fds.insert(n.to_string());
                        proof {
                            assert(n@ == name@.drop_last());
                        }
                        p = p + 1;
                    },
                    None => {
                        if is_invoker_template_exec(name) {
                            p = p + 1;
                        } else {
                            let nlen = name.unicode_len();
                            let parent = match find_str(name, ":") {
                                Some(pos) => {
                                    if pos > nlen || nlen - pos < 9 {
                                        proof {
                                            assert(false);
                                        }
                                        None
                                    } else {
                                        Some(name.substring_char(pos + 9, nlen))
                                    }
                                },
                                None => None,
                            };
                            let key = trim_ws(before_char_str(name, ':'));
                            if defs.contains_key(key) {
                                proof {
                                    assert(defs_view(defs@).contains_key(key@));
                                }
                                p = p + 1;
                            } else {
                                if ls.len() - p <= 1 {
                                    proof {
                                        assert(false);
                                    }
                                    return;
                                }
                                let e = close_line_index(&ls, p + 2);
                                proof {
                                    lemma_next_close(all, p + 2);
                                }
                                let mut body = String::new();
                                let mut j: usize = p + 2;
                                proof {
                                    assert(all.subrange(p + 2, p + 2) =~= Seq::<Seq<char>>::empty());
                                }
                                while j < e
                                    invariant
                                        p + 2 <= j <= e <= ls@.len(),
                                        all == views(ls@),
                                        body@ == lines_text(all.subrange(p + 2, j as int)),
                                    decreases e - j,
                                {
                                    body.append(ls[j]);
                                    body.append("\n");
                                    proof {
                                        assert(all[j as int] == ls@[j as int]@);
                                        assert(all.subrange(p + 2, j + 1).drop_last() =~= all.subrange(p + 2, j as int));
                                    }
                                    j = j + 1;
                                }
                                let ghost d0 = defs@;
                                let d = StructDef { body, parent };
                                defs.insert(key.to_string(), d);
                                proof {
                                    assert(defs_view(defs@) =~= defs_view(d0).insert(key@, def_view(d)));
                                }
                                p = if e < ls.len() {
                                    e + 1
                                } else {
                                    e
                                };
                            }
                        }
                    },
                }
            },
        }
    }
}

/// The structs that the sources declare and define (see `structs_of`).
pub fn find_struct_defs<'a>(sources: &'a Vec<String>) -> (r: (StringHashSet, StringHashMap<StructDef<'a>>))
    requires
        structs_of(source_views(sources@)) is Some,
    ensures
        structs_of(source_views(sources@)) == Some((r.0@, defs_view(r.1@))),
{
    let ghost sv = source_views(sources@);
    let mut fds = StringHashSet::new();
    let mut defs: StringHashMap<StructDef<'a>> = StringHashMap::new();
    let mut k: usize = 0;
    proof {
        assert(sv.take(0) =~= Seq::<Seq<char>>::empty());
        assert(defs_view(defs@) =~= Map::<Seq<char>, (Seq<char>, Option<Seq<char>>)>::empty());
    }
    while k < sources.len()
        invariant
            0 <= k <= sources@.len(),
            sv == source_views(sources@),
            structs_of(sv) is Some,
            structs_of(sv.take(k as int)) == Some((fds@, defs_view(defs@))),
        decreases sources@.len() - k,
    {
        proof {
            assert(sv.take(k + 1).drop_last() =~= sv.take(k as int));
            assert(sv.take(k + 1).last() == sources@[k as int]@);
            lemma_structs_prefix(sv, k + 1);
        }
        scan_structs(sources[k].as_str(), &mut fds, &mut defs);
        k = k + 1;
    }
    proof {
        assert(sv.take(sources@.len() as int) =~= sv);
    }
    (fds, defs)
}

/// A reading that panics on some sources panics on more.
proof fn lemma_structs_prefix(srcs: Seq<Seq<char>>, k: int)
    requires
        0 <= k <= srcs.len(),
        structs_of(srcs) is Some,
    ensures
        structs_of(srcs.take(k)) is Some,
    decreases srcs.len() - k,
{
    if k < srcs.len() {
        lemma_structs_prefix(srcs, k + 1);
        assert(srcs.take(k + 1).drop_last() =~= srcs.take(k));
    } else {
        assert(srcs.take(k) =~= srcs);
    }
}

} // verus!

verus! {

/// What writing C++ types has produced: the text written, the structs
/// declared ahead, and the structs defined.
pub ghost struct CppTypes {
    pub out: Seq<char>,
    pub fds: Set<Seq<char>>,
    pub added: Set<Seq<char>>,
}

/// The type that a declaration (a field, a parameter, a return type) names:
/// its first word, without a `const ` before it or `*`s after it.
pub open spec fn decl_type(src: Seq<char>) -> Option<Seq<char>> {
    let w = crate::text::words(trim_start_str(src, "const "@));
    if w.len() == 0 {
        None
    } else {
        Some(crate::text::trim_end_char(w[0], '*'))
    }
}

/// The definition written for the struct `ty`.
pub open spec fn struct_text(ty: Seq<char>, parent: Option<Seq<char>>, body: Seq<char>) -> Seq<char> {
    match parent {
        Some(p) => "struct "@ + ty + " : "@ + p + "\n{\n"@ + body + "};\n"@,
        None => "struct "@ + ty + "\n{\n"@ + body + "};\n"@,
    }
}

/// A line of a struct's body that declares no field.
pub open spec fn skipped_field_line(line: Seq<char>) -> bool {
    ||| has_prefix(line, "union"@)
    ||| has_prefix(line, "struct"@)
    ||| has_prefix(line, "public:"@)
    ||| has_prefix(line, "//"@)
    ||| has_prefix(line, "#"@)
    ||| has_prefix(line, "}"@)
    ||| has_prefix(line, "{"@)
}

/// The declaration of a field line: what follows `ALIGN_FIELD (n) ` where
/// the line starts so. Cutting it panics where no character, or one of more
/// than a byte, follows the `)`.
pub open spec fn field_decl(line: Seq<char>) -> Outcome<Seq<char>> {
    if has_prefix(line, "ALIGN_FIELD"@) {
        match find(line, ")"@) {
            None => Outcome::Fail(Fault::AlignFieldEnd(line)),
            Some(end) => if end + 1 < line.len() && (line[end + 1] as u32) < 0x80 {
                Outcome::Done(line.skip(end + 2))
            } else {
                Outcome::Panic
            },
        }
    } else {
        Outcome::Done(line)
    }
}

/// Writes what the declaration `src` needs of C++ types, in at most `fuel`
/// nested steps (`None` where that is not enough): nothing for a built-in
/// or already defined type; a forward declaration for a pointer to a struct
/// not declared yet; else the struct's parent, the types of its fields, and
/// then its definition.
pub open spec fn cpp_ty(defs: Map<Seq<char>, (Seq<char>, Option<Seq<char>>)>, src: Seq<char>, s: CppTypes, fuel: nat) -> Option<
    Outcome<CppTypes>,
>
    decreases fuel, 0int,
{
    if fuel == 0 {
        None
    } else {
        match decl_type(src) {
            None => Some(Outcome::Panic),
            Some(ty) => if ty == "typedef"@ {
                Some(Outcome::Panic)
            } else if crate::build::parser::included_ty(ty) || s.added.contains(ty) {
                Some(Outcome::Done(s))
            } else if src.contains('*') {
                if s.fds.contains(ty) {
                    Some(Outcome::Done(s))
                } else {
                    Some(Outcome::Done(CppTypes { out: s.out + "struct "@ + ty + ";\n"@, fds: s.fds.insert(ty), ..s }))
                }
            } else if !defs.contains_key(ty) {
                Some(Outcome::Fail(Fault::CppTypeNotFound(ty)))
            } else {
                let body = defs[ty].0;
                let parent = defs[ty].1;
                let after_parent = match parent {
                    Some(p) => cpp_ty(defs, p, s, (fuel - 1) as nat),
                    None => Some(Outcome::Done(s)),
                };
                match after_parent {
                    Some(Outcome::Done(s1)) => match cpp_fields(defs, lines(body), 0, s1, (fuel - 1) as nat) {
                        Some(Outcome::Done(s2)) => Some(
                            Outcome::Done(
                                CppTypes { out: s2.out + struct_text(ty, parent, body), added: s2.added.insert(ty), ..s2 },
                            ),
                        ),
                        other => other,
                    },
                    other => other,
                }
            },
        }
    }
}

/// The types of the fields of a struct's body, from line `i` on: lines that
/// declare no field are passed over, and an empty line ends the fields.
pub open spec fn cpp_fields(
    defs: Map<Seq<char>, (Seq<char>, Option<Seq<char>>)>,
    ls: Seq<Seq<char>>,
    i: int,
    s: CppTypes,
    fuel: nat,
) -> Option<Outcome<CppTypes>>
    decreases fuel, ls.len() - i + 1,
{
    if i < 0 || i >= ls.len() {
        Some(Outcome::Done(s))
    } else {
        let line = trim(ls[i]);
        if skipped_field_line(line) {
            cpp_fields(defs, ls, i + 1, s, fuel)
        } else if line.len() == 0 {
            Some(Outcome::Done(s))
        } else {
            match field_decl(line) {
                Outcome::Panic => Some(Outcome::Panic),
                Outcome::Fail(f) => Some(Outcome::Fail(f)),
                Outcome::Done(fd) => match cpp_ty(defs, fd, s, fuel) {
                    Some(Outcome::Done(s2)) => cpp_fields(defs, ls, i + 1, s2, fuel),
                    other => other,
                },
            }
        }
    }
}

/// Writing the types of `src` ends within `fuel` nested steps, and does
/// not panic.
pub open spec fn cpp_ty_ends(
    defs: Map<Seq<char>, (Seq<char>, Option<Seq<char>>)>,
    src: Seq<char>,
    s: CppTypes,
    fuel: nat,
) -> bool {
    cpp_ty(defs, src, s, fuel) matches Some(o) && !(o is Panic)
}

/// What writing the types of `src` comes to, where it ends.
pub open spec fn cpp_ty_result(defs: Map<Seq<char>, (Seq<char>, Option<Seq<char>>)>, src: Seq<char>, s: CppTypes) -> Outcome<
    CppTypes,
> {
    cpp_ty(defs, src, s, choose|fuel: nat| #[trigger] cpp_ty_ends(defs, src, s, fuel))->0
}

pub open spec fn cpp_types(out: &String, fds: &StringHashSet, added: &StringHashSet) -> CppTypes {
    CppTypes { out: out@, fds: fds@, added: added@ }
}

fn add_cpp_ty_within<'a>(
    writer: &mut String,
    src: &str,
    struct_defs: &'a StringHashMap<StructDef<'a>>,
    fd_structs: &mut StringHashSet,
    added_structs: &mut StringHashSet,
    Ghost(fuel): Ghost<nat>,
) -> (r: Result<(), Error>)
    requires
        cpp_ty_ends(defs_view(struct_defs@), src@, cpp_types(old(writer), old(fd_structs), old(added_structs)), fuel),
    ensures
        match cpp_ty(defs_view(struct_defs@), src@, cpp_types(old(writer), old(fd_structs), old(added_structs)), fuel) {
            Some(Outcome::Done(t)) => r is Ok && t == cpp_types(final(writer), final(fd_structs), final(added_structs)),
            Some(Outcome::Fail(f)) => r matches Err(e) && e@ == f,
            _ => false,
        },
    decreases fuel,
{
    let ghost defs = defs_view(struct_defs@);
    let ghost s0 = cpp_types(writer, fd_structs, added_structs);
    proof {
        reveal_strlit("const ");
        reveal_strlit("typedef");
        reveal_strlit("struct ");
        reveal_strlit(";\n");
    }
    let ws = crate::text::split_whitespace(trim_start_matches(src, "const "));
    if ws.len() == 0 {
        proof {
            assert(false);
        }
        return Ok(());
    }
    let ty = crate::text::trim_end_matches_char(ws[0], '*');
    if str_eq(ty, "typedef") {
        proof {
            assert(false);
        }
        return Ok(());
    }
    if crate::build::parser::is_included_ty(ty) || added_structs.contains(ty) {
        return Ok(());
    }
    if crate::text::contains_char(src, '*') {
        if fd_structs.contains(ty) {
            return Ok(());
        }
        writer.append("struct ");
        writer.append(ty);
        writer.append(";\n");
        fd_structs.insert(ty.to_string());
        return Ok(());
    }
    let def = match struct_defs.get(ty) {
        Some(d) => d,
        None => {
            return Err(Error::CppTypeNotFound(ty.to_string()));
        },
    };
    let ghost body = defs[ty@].0;
    let ghost parent = defs[ty@].1;
    proof {
        assert(def.body@ == body);
    }
    match def.parent {
        Some(p) => {
            add_cpp_ty_within(writer, p, struct_defs, fd_structs, added_structs, Ghost((fuel - 1) as nat))?;
        },
        None => {},
    }
    let ghost s1 = cpp_types(writer, fd_structs, added_structs);
    let ghost total = cpp_fields(defs, lines(body), 0, s1, (fuel - 1) as nat);
    let ghost top = cpp_ty(defs, src@, s0, fuel);
    let ghost tyv = ty@;
    assert(top == match total {
        Some(Outcome::Done(s2)) => Some(
            Outcome::Done(CppTypes { out: s2.out + struct_text(tyv, parent, body), added: s2.added.insert(tyv), ..s2 }),
        ),
        other => other,
    });
    let ls = lines_of(def.body.as_str());
    let mut i: usize = 0;
    let mut ended = false;
    while i < ls.len() && !ended
        invariant
            0 <= i <= ls@.len(),
            views(ls@) == lines(body),
            defs == defs_view(struct_defs@),
            fuel > 0,
            total matches Some(o) && !(o is Panic),
            s0 == cpp_types(old(writer), old(fd_structs), old(added_structs)),
            top == cpp_ty(defs, src@, s0, fuel),
            top == match total {
                Some(Outcome::Done(s2)) => Some(
                    Outcome::Done(CppTypes { out: s2.out + struct_text(tyv, parent, body), added: s2.added.insert(tyv), ..s2 }),
                ),
                other => other,
            },
            ended ==> total == Some(Outcome::Done(cpp_types(writer, fd_structs, added_structs))),
            !ended ==> total == cpp_fields(
                defs,
                lines(body),
                i as int,
                cpp_types(writer, fd_structs, added_structs),
                (fuel - 1) as nat,
            ),
        decreases ls@.len() - i, (if ended { 0int } else { 1int }),
    {
        let line = trim_ws(ls[i]);
        proof {
            assert(views(ls@)[i as int] == ls@[i as int]@);
            reveal_strlit("union");
            reveal_strlit("struct");
            reveal_strlit("public:");
            reveal_strlit("//");
            reveal_strlit("#");
            reveal_strlit("}");
            reveal_strlit("{");
            reveal_strlit("ALIGN_FIELD");
            reveal_strlit(")");
        }
        if starts_with(line, "union") || starts_with(line, "struct") || starts_with(line, "public:") || starts_with(
            line,
            "//",
        ) || starts_with(line, "#") || starts_with(line, "}") || starts_with(line, "{") {
            i = i + 1;
        } else if line.unicode_len() == 0 {
            ended = true;
        } else {
            let field = if starts_with(line, "ALIGN_FIELD") {
                match find_str(line, ")") {
                    None => {
                        return Err(Error::AlignFieldEnd(line.to_string()));
                    },
                    Some(end) => {
                        let n = line.unicode_len();
                        if end + 1 >= n || (line.get_char(end + 1) as u32) >= 0x80 {
                            proof {
                                assert(false);
                            }
                            return Ok(());
                        }
                        line.substring_char(end + 2, n)
                    },
                }
            } else {
                line
            };
            add_cpp_ty_within(writer, field, struct_defs, fd_structs, added_structs, Ghost((fuel - 1) as nat))?;
            i = i + 1;
        }
    }
    proof {
        if !ended {
            assert(views(ls@).len() == ls@.len());
        }
    }
    let ghost s2 = cpp_types(writer, fd_structs, added_structs);
    assert(total == Some(Outcome::Done(s2)));
    match def.parent {
        Some(p) => {
            writer.append("struct ");
            writer.append(ty);
            writer.append(" : ");
            writer.append(p);
            writer.append("\n{\n");
            writer.append(def.body.as_str());
            writer.append("};\n");
        },
        None => {
            writer.append("struct ");
            writer.append(ty);
            writer.append("\n{\n");
            writer.append(def.body.as_str());
            writer.append("};\n");
        },
    }
    assert(writer@ =~= s2.out + struct_text(tyv, parent, body));
    added_structs.insert(ty.to_string());
    Ok(())
}

/// Writes to `writer` what the declaration `src` needs of the C++ types in
/// `struct_defs` (see `cpp_ty`), recording the structs declared ahead and
/// those defined. A struct that contains itself, by a field or a parent,
/// is no input.
pub fn add_cpp_ty<'a>(
    writer: &mut String,
    src: &str,
    struct_defs: &'a StringHashMap<StructDef<'a>>,
    fd_structs: &mut StringHashSet,
    added_structs: &mut StringHashSet,
) -> (r: Result<(), Error>)
    requires
        exists|fuel: nat|
            #[trigger] cpp_ty_ends(
                defs_view(struct_defs@),
                src@,
                cpp_types(old(writer), old(fd_structs), old(added_structs)),
                fuel,
            ),
    ensures
        match cpp_ty_result(defs_view(struct_defs@), src@, cpp_types(old(writer), old(fd_structs), old(added_structs))) {
            Outcome::Done(t) => r is Ok && t == cpp_types(final(writer), final(fd_structs), final(added_structs)),
            Outcome::Fail(f) => r matches Err(e) && e@ == f,
            Outcome::Panic => false,
        },
{
    let ghost fuel = choose|fuel: nat|
        #[trigger] cpp_ty_ends(defs_view(struct_defs@), src@, cpp_types(writer, fd_structs, added_structs), fuel);
    add_cpp_ty_within(writer, src, struct_defs, fd_structs, added_structs, Ghost(fuel))
}

} // verus!
