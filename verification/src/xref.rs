//! Cross references into libil2cpp: each wanted symbol is found by a trace
//! of branches and address computations from a known start, either an
//! il2cpp method (its code or its invoker) or an exported symbol.
use crate::applier::{read_metadata_str, str_at, ImageDefinition, Metadata, MethodDefinition, TypeDefinition};
use crate::build::parser::has_prefix;
use crate::error::{Error, Fault, Outcome};
use crate::text::{parse_unsigned, parse_usize, split_by, split_str, starts_with, str_eq, views, chars_vec};
use vstd::prelude::*;

verus! {

pub struct SymbolTrace {
    pub symbol: String,
    pub start: String,
    pub trace: String,
}

pub struct XRefData {
    pub traces: Vec<SymbolTrace>,
}

/// A start that names an il2cpp method: `il2cpp:` or `invoker:` then the
/// namespace, class and method name, separated by `:`.
pub open spec fn is_root_start(start: Seq<char>) -> bool {
    has_prefix(start, "il2cpp:"@) || has_prefix(start, "invoker:"@)
}

/// The namespace, class and method that a root start names.
pub open spec fn root_key(start: Seq<char>) -> (Seq<char>, Seq<char>, Seq<char>) {
    let p = split_by(start, false, ':');
    (p[1], p[2], p[3])
}

/// Every root start of `data` has the three names after its kind.
pub open spec fn roots_complete(traces: Seq<SymbolTrace>) -> bool {
    forall|i: int|
        0 <= i < traces.len() && is_root_start(#[trigger] traces[i].start@) ==> split_by(
            traces[i].start@,
            false,
            ':',
        ).len() >= 4
}

/// The methods that the traces start from.
pub open spec fn required_root_set(traces: Seq<SymbolTrace>) -> Set<(Seq<char>, Seq<char>, Seq<char>)> {
    Set::new(
        |k: (Seq<char>, Seq<char>, Seq<char>)|
            exists|i: int|
                0 <= i < traces.len() && is_root_start(#[trigger] traces[i].start@) && root_key(
                    traces[i].start@,
                ) == k,
    )
}

pub open spec fn key_views<'a>(v: Seq<(&'a str, &'a str, &'a str)>) -> Seq<(Seq<char>, Seq<char>, Seq<char>)> {
    v.map_values(|k: (&'a str, &'a str, &'a str)| (k.0@, k.1@, k.2@))
}

fn start_key<'a>(start: &'a str) -> (r: Option<(&'a str, &'a str, &'a str)>)
    requires
        is_root_start(start@) ==> split_by(start@, false, ':').len() >= 4,
    ensures
        match r {
            Some(k) => is_root_start(start@) && (k.0@, k.1@, k.2@) == root_key(start@),
            None => !is_root_start(start@),
        },
{
    proof {
        reveal_strlit("il2cpp:");
        reveal_strlit("invoker:");
    }
    if starts_with(start, "il2cpp:") || starts_with(start, "invoker:") {
        let parts = split_str(start, false, ':');
        proof {
            assert(views(parts@).len() == parts@.len());
            assert(views(parts@)[1] == parts@[1]@);
            assert(views(parts@)[2] == parts@[2]@);
            assert(views(parts@)[3] == parts@[3]@);
        }
        Some((parts[1], parts[2], parts[3]))
    } else {
        None
    }
}

fn key_eq(a: (&str, &str, &str), b: (&str, &str, &str)) -> (r: bool)
    ensures
        r == ((a.0@, a.1@, a.2@) == (b.0@, b.1@, b.2@)),
{
    str_eq(a.0, b.0) && str_eq(a.1, b.1) && str_eq(a.2, b.2)
}

/// The methods that the traces of `data` start from, each once.
pub fn required_roots<'a>(data: &'a XRefData) -> (r: Vec<(&'a str, &'a str, &'a str)>)
    requires
        roots_complete(data.traces@),
    ensures
        key_views(r@).no_duplicates(),
        key_views(r@).to_set() == required_root_set(data.traces@),
{
    let mut r: Vec<(&'a str, &'a str, &'a str)> = Vec::new();
    let mut i: usize = 0;
    let ghost ts = data.traces@;
    proof {
        assert(key_views(r@).to_set() =~= Set::<(Seq<char>, Seq<char>, Seq<char>)>::empty());
    }
    while i < data.traces.len()
        invariant
            0 <= i <= ts.len(),
            ts == data.traces@,
            roots_complete(ts),
            key_views(r@).no_duplicates(),
            key_views(r@).to_set() == required_root_set(ts.take(i as int)),
        decreases ts.len() - i,
    {
        let t = &data.traces[i];
        let ghost kv = key_views(r@);
        let ghost prefix = ts.take(i as int);
        let ghost next = ts.take(i + 1);
        proof {
            assert(next[i as int] == ts[i as int]);
            assert(is_root_start(ts[i as int].start@) ==> split_by(ts[i as int].start@, false, ':').len() >= 4);
        }
        match start_key(t.start.as_str()) {
            Some(k) => {
                let mut seen = false;
                let mut j: usize = 0;
                while j < r.len()
                    invariant
                        0 <= j <= r@.len(),
                        kv == key_views(r@),
                        seen <==> exists|q: int| 0 <= q < j && kv[q] == (k.0@, k.1@, k.2@),
                    decreases r@.len() - j,
                {
                    proof {
                        assert(kv[j as int] == (r@[j as int].0@, r@[j as int].1@, r@[j as int].2@));
                    }
                    if key_eq(r[j], k) {
                        seen = true;
                    }
                    j = j + 1;
                }
                let ghost kk = (k.0@, k.1@, k.2@);
                proof {
                    assert(required_root_set(next) =~= required_root_set(prefix).insert(kk)) by {
                        assert forall|x: (Seq<char>, Seq<char>, Seq<char>)| required_root_set(next).contains(x) <==> required_root_set(prefix).insert(kk).contains(x) by {
                            if required_root_set(next).contains(x) {
                                let q = choose|q: int| 0 <= q < next.len() && is_root_start(#[trigger] next[q].start@) && root_key(next[q].start@) == x;
                                if q < i {
                                    assert(prefix[q] == next[q]);
                                }
                            }
                            if required_root_set(prefix).contains(x) {
                                let q = choose|q: int| 0 <= q < prefix.len() && is_root_start(#[trigger] prefix[q].start@) && root_key(prefix[q].start@) == x;
                                assert(next[q] == prefix[q]);
                            }
                            if x == kk {
                                assert(is_root_start(next[i as int].start@));
                            }
                        }
                    }
                }
                if !seen {
                    r.push(k);
                    proof {
                        assert(key_views(r@) =~= kv.push(kk));
                        kv.lemma_push_to_set_commute(kk);
                        assert(!kv.contains(kk));
                        let nk = key_views(r@);
                        assert forall|a: int, b: int| 0 <= a < nk.len() && 0 <= b < nk.len() && a != b implies nk[a] != nk[b] by {
                            if a < kv.len() && b < kv.len() {
                                assert(nk[a] == kv[a] && nk[b] == kv[b]);
                            } else if a == kv.len() {
                                assert(nk[b] == kv[b]);
                                assert(kv.contains(kv[b]));
                            } else {
                                assert(nk[a] == kv[a]);
                                assert(kv.contains(kv[a]));
                            }
                        }
                    }
                } else {
                    proof {
                        let q = choose|q: int| 0 <= q < r@.len() && kv[q] == kk;
                        assert(kv.to_set().contains(kk));
                        assert(kv.to_set().insert(kk) =~= kv.to_set());
                    }
                }
            },
            None => {
                proof {
                    assert(required_root_set(next) =~= required_root_set(prefix)) by {
                        assert forall|x: (Seq<char>, Seq<char>, Seq<char>)| required_root_set(next).contains(x) <==> required_root_set(prefix).contains(x) by {
                            if required_root_set(next).contains(x) {
                                let q = choose|q: int| 0 <= q < next.len() && is_root_start(#[trigger] next[q].start@) && root_key(next[q].start@) == x;
                                if q < i {
                                    assert(prefix[q] == next[q]);
                                }
                            }
                            if required_root_set(prefix).contains(x) {
                                let q = choose|q: int| 0 <= q < prefix.len() && is_root_start(#[trigger] prefix[q].start@) && root_key(prefix[q].start@) == x;
                                assert(next[q] == prefix[q]);
                            }
                        }
                    }
                }
            },
        }
        i = i + 1;
    }
    proof {
        assert(ts.take(ts.len() as int) =~= ts);
    }
    r
}

} // verus!

verus! {

/// Whether a character is alphabetic (`char::is_alphabetic`, the Unicode
/// `Alphabetic` property).
pub uninterp spec fn alphabetic(c: char) -> bool;

/// `char::is_alphabetic`. Its table is Unicode's; stated here are only the
/// ASCII cases that its documentation shows: letters are alphabetic,
/// digits are not.
#[verifier::external_body]
fn char_is_alphabetic(c: char) -> (b: bool)
    ensures
        b == alphabetic(c),
        ('a' <= c <= 'z' || 'A' <= c <= 'Z') ==> b,
        ('0' <= c <= '9') ==> !b,
{
    c.is_alphabetic()
}

/// The alphabetic characters of `s`, in order.
pub open spec fn ops_of(s: Seq<char>) -> Seq<char>
    decreases s.len(),
{
    if s.len() == 0 {
        Seq::empty()
    } else if alphabetic(s.last()) {
        ops_of(s.drop_last()).push(s.last())
    } else {
        ops_of(s.drop_last())
    }
}

/// The pieces of `ps` that are not empty, each parsed as a `usize`.
pub open spec fn nums_of(ps: Seq<Seq<char>>) -> Seq<Option<usize>>
    decreases ps.len(),
{
    if ps.len() == 0 {
        Seq::empty()
    } else if ps.last().len() == 0 {
        nums_of(ps.drop_last())
    } else {
        nums_of(ps.drop_last()).push(
            match parse_unsigned(ps.last(), usize::MAX as nat) {
                Some(v) => Some(v as usize),
                None => None,
            },
        )
    }
}

/// The steps of a trace such as `L2B0P1`: each operation letter paired with
/// the count that follows it (split at the capital letters), as far as
/// both go; `None` where a count does not parse.
pub open spec fn trace_steps_of(trace: Seq<char>) -> Seq<(char, Option<usize>)> {
    let ops = ops_of(trace);
    let nums = nums_of(split_by(trace, true, 'A'));
    let n = if ops.len() <= nums.len() {
        ops.len()
    } else {
        nums.len()
    };
    Seq::new(n, |i: int| (ops[i], nums[i]))
}

/// The steps of a trace (see `trace_steps_of`).
pub fn trace_steps(trace: &str) -> (r: Vec<(char, Option<usize>)>)
    ensures
        r@ == trace_steps_of(trace@),
{
    let cs = chars_vec(trace);
    let mut ops: Vec<char> = Vec::new();
    let mut i: usize = 0;
    proof {
        assert(trace@.take(0) =~= Seq::<char>::empty());
    }
    while i < cs.len()
        invariant
            0 <= i <= cs@.len(),
            cs@ == trace@,
            ops@ == ops_of(trace@.take(i as int)),
        decreases cs@.len() - i,
    {
        proof {
            assert(trace@.take(i + 1).drop_last() =~= trace@.take(i as int));
            assert(trace@.take(i + 1).last() == cs@[i as int]);
        }
        if char_is_alphabetic(cs[i]) {
            ops.push(cs[i]);
        }
        i = i + 1;
    }
    proof {
        assert(trace@.take(cs@.len() as int) =~= trace@);
    }
    let pieces = split_str(trace, true, 'A');
    let ghost pv = views(pieces@);
    let mut nums: Vec<Option<usize>> = Vec::new();
    let mut j: usize = 0;
    proof {
        assert(pv.take(0) =~= Seq::<Seq<char>>::empty());
    }
    while j < pieces.len()
        invariant
            0 <= j <= pieces@.len(),
            pv == views(pieces@),
            nums@ == nums_of(pv.take(j as int)),
        decreases pieces@.len() - j,
    {
        let p = pieces[j];
        proof {
            assert(pv[j as int] == p@);
            assert(pv.take(j + 1).drop_last() =~= pv.take(j as int));
            assert(pv.take(j + 1).last() == p@);
        }
        if p.unicode_len() > 0 {
            nums.push(parse_usize(p));
        }
        j = j + 1;
    }
    proof {
        assert(pv.take(pieces@.len() as int) =~= pv);
    }
    let n = if ops.len() <= nums.len() {
        ops.len()
    } else {
        nums.len()
    };
    let mut r: Vec<(char, Option<usize>)> = Vec::new();
    let mut k: usize = 0;
    while k < n
        invariant
            0 <= k <= n,
            n <= ops@.len(),
            n <= nums@.len(),
            r@ == Seq::new(k as nat, |q: int| (ops@[q], nums@[q])),
        decreases n - k,
    {
        r.push((ops[k], nums[k]));
        proof {
            assert(r@ =~= Seq::new((k + 1) as nat, |q: int| (ops@[q], nums@[q])));
        }
        k = k + 1;
    }
    proof {
        assert(r@ =~= trace_steps_of(trace@));
    }
    r
}

/// Where a trace starts.
pub enum TraceStart<'a> {
    /// The code of an il2cpp method.
    MethodPointer(&'a str, &'a str, &'a str),
    /// The invoker of an il2cpp method.
    Invoker(&'a str, &'a str, &'a str),
    /// An exported symbol of libil2cpp.
    Symbol(&'a str),
}

/// Where the trace with start `start` starts.
pub fn trace_start<'a>(start: &'a str) -> (r: TraceStart<'a>)
    requires
        is_root_start(start@) ==> split_by(start@, false, ':').len() >= 4,
    ensures
        match r {
            TraceStart::MethodPointer(a, b, c) => has_prefix(start@, "il2cpp:"@) && (a@, b@, c@)
                == root_key(start@),
            TraceStart::Invoker(a, b, c) => !has_prefix(start@, "il2cpp:"@) && has_prefix(
                start@,
                "invoker:"@,
            ) && (a@, b@, c@) == root_key(start@),
            TraceStart::Symbol(s) => !is_root_start(start@) && s@ == start@,
        },
{
    proof {
        reveal_strlit("il2cpp:");
    }
    match start_key(start) {
        Some((a, b, c)) => if starts_with(start, "il2cpp:") {
            TraceStart::MethodPointer(a, b, c)
        } else {
            TraceStart::Invoker(a, b, c)
        },
        None => TraceStart::Symbol(start),
    }
}

/// The addresses of an il2cpp method: its code and its invoker, where it
/// has them.
#[derive(Clone, Copy, Debug)]
pub struct Il2CppRoot {
    pub method_pointer: Option<u64>,
    pub invoker: Option<u64>,
}

/// The roots found for the traces, by namespace, class and method name.
pub struct RootTable {
    pub entries: Vec<(String, String, String, Il2CppRoot)>,
}

pub open spec fn root_entry_key(e: (String, String, String, Il2CppRoot)) -> (Seq<char>, Seq<char>, Seq<char>) {
    (e.0@, e.1@, e.2@)
}

/// The position of the first entry for `key` from `i` on (the number of
/// entries where none is for it).
pub open spec fn first_root(entries: Seq<(String, String, String, Il2CppRoot)>, key: (Seq<char>, Seq<char>, Seq<char>), i: int) -> int
    decreases entries.len() - i,
{
    if i < 0 || i >= entries.len() {
        entries.len() as int
    } else if root_entry_key(entries[i]) == key {
        i
    } else {
        first_root(entries, key, i + 1)
    }
}

/// The root of `namespace.class::method_name`: an error where the roots
/// were not found yet, or none is that method.
pub fn get_root<'t>(roots: Option<&'t RootTable>, namespace: &str, class: &str, method_name: &str) -> (r: Result<
    &'t Il2CppRoot,
    Error,
>)
    ensures
        match roots {
            None => r == Err::<&Il2CppRoot, Error>(Error::RootsNotInitialized),
            Some(t) => {
                let k = first_root(t.entries@, (namespace@, class@, method_name@), 0);
                match r {
                    Ok(root) => k < t.entries@.len() && *root == t.entries@[k].3,
                    Err(e) => e == Error::RootNotFound && k == t.entries@.len(),
                }
            },
        },
{
    let t = match roots {
        Some(t) => t,
        None => {
            return Err(Error::RootsNotInitialized);
        },
    };
    let ghost key = (namespace@, class@, method_name@);
    let mut i: usize = 0;
    while i < t.entries.len()
        invariant
            0 <= i <= t.entries@.len(),
            roots == Some(t),
            key == (namespace@, class@, method_name@),
            first_root(t.entries@, key, 0) == first_root(t.entries@, key, i as int),
        decreases t.entries@.len() - i,
    {
        let e = &t.entries[i];
        if str_eq(e.0.as_str(), namespace) && str_eq(e.1.as_str(), class) && str_eq(e.2.as_str(), method_name) {
            return Ok(&e.3);
        }
        i = i + 1;
    }
    Err(Error::RootNotFound)
}

} // verus!

verus! {

/// Where a trace starts, found in the roots: the address of the method's
/// code or of its invoker; `None` for a start that names an exported symbol
/// of libil2cpp, which only the library loaded in the game can resolve.
pub fn trace_root_address(roots: Option<&RootTable>, start: &str) -> (r: Result<Option<u64>, Error>)
    requires
        is_root_start(start@) ==> split_by(start@, false, ':').len() >= 4,
    ensures
        !is_root_start(start@) ==> r == Ok::<Option<u64>, Error>(None),
        is_root_start(start@) ==> match roots {
            None => r == Err::<Option<u64>, Error>(Error::RootsNotInitialized),
            Some(t) => {
                let k = first_root(t.entries@, root_key(start@), 0);
                if k == t.entries@.len() {
                    r == Err::<Option<u64>, Error>(Error::RootNotFound)
                } else {
                    let root = t.entries@[k].3;
                    let method = has_prefix(start@, "il2cpp:"@);
                    let ptr = if method {
                        root.method_pointer
                    } else {
                        root.invoker
                    };
                    match ptr {
                        Some(a) => r == Ok::<Option<u64>, Error>(Some(a)),
                        None => r matches Err(e) && e@ == crate::error::Fault::MissingRootPointer(
                            if method {
                                "method"@
                            } else {
                                "invoker"@
                            },
                        ),
                    }
                }
            },
        },
{
    match trace_start(start) {
        TraceStart::MethodPointer(a, b, c) => {
            let root = get_root(roots, a, b, c)?;
            match root.method_pointer {
                Some(p) => Ok(Some(p)),
                None => Err(Error::MissingRootPointer("method".to_string())),
            }
        },
        TraceStart::Invoker(a, b, c) => {
            let root = get_root(roots, a, b, c)?;
            match root.invoker {
                Some(p) => Ok(Some(p)),
                None => Err(Error::MissingRootPointer("invoker".to_string())),
            }
        },
        TraceStart::Symbol(_) => Ok(None),
    }
}

/// One AArch64 instruction, as far as a trace looks at it.
#[derive(Clone, Copy, Debug)]
pub enum Insn {
    /// `bl` with its target; `None` where its operand is not an unsigned label.
    Bl(Option<u64>),
    /// `b` with its target; `None` where its operand is not an unsigned label.
    B(Option<u64>),
    /// `adrp` with its register and page; `None` where its operands are not
    /// a register and an unsigned label.
    Adrp(Option<(u32, u64)>),
    /// `ldr` from a register plus a signed offset (the base register, the
    /// offset).
    LdrOffset(u32, i64),
    /// `add` of an unsigned immediate to a register (the source register,
    /// the immediate).
    AddImm(u32, u64),
    /// Any other instruction.
    Other,
}

/// What a walk along a trace asks for next.
#[derive(Clone, Copy, Debug, PartialEq, Eq, Structural)]
pub enum WalkAction {
    /// The instruction at this address.
    Read(u64),
    /// The trace ends here: the symbol's address.
    Found(u64),
}

/// Where a walk along a trace stands: at step `step`, having passed `count`
/// of the instructions that the step looks for, reading at `addr`.
pub struct TraceWalk {
    pub steps: Vec<(char, Option<usize>)>,
    pub step: usize,
    pub count: usize,
    pub addr: u64,
    /// After the `adrp` that a `P` step looks for: its register and page.
    pub page: Option<(u32, u64)>,
}

/// How one instruction moves a walk.
pub ghost enum Advance {
    Fail(crate::error::Fault),
    Move { step: int, count: int, addr: int, page: Option<(u32, u64)> },
}

/// What comes after a walk is at `step` and `addr`: the symbol where the
/// steps are done, an error where the step's count did not parse, else the
/// next instruction.
pub open spec fn after_step(steps: Seq<(char, Option<usize>)>, step: int, addr: u64, r: Result<WalkAction, Error>) -> bool {
    if step >= steps.len() {
        r == Ok::<WalkAction, Error>(WalkAction::Found(addr))
    } else if steps[step].1 is None {
        r == Err::<WalkAction, Error>(Error::InvalidTraceCount)
    } else {
        r == Ok::<WalkAction, Error>(WalkAction::Read(addr))
    }
}

/// One instruction read at `addr`: in an `adrp`'s wake, the `ldr` or `add`
/// on its register ends the step at the page plus the offset; else the
/// instruction that the step looks for (`L`: `bl`, `B`: `b`, `P`: `adrp`)
/// is counted, and the one numbered by the step is followed; anything else
/// is passed over.
pub open spec fn advance_spec(
    steps: Seq<(char, Option<usize>)>,
    step: int,
    count: int,
    addr: u64,
    page: Option<(u32, u64)>,
    insn: Insn,
) -> Advance {
    let pass = Advance::Move { step, count, addr: addr + 4, page };
    match page {
        Some((reg, base)) => match insn {
            Insn::LdrOffset(a, off) => if a == reg {
                Advance::Move { step: step + 1, count: 0, addr: ((base as i64) + off) as u64 as int, page: None }
            } else {
                pass
            },
            Insn::AddImm(a, imm) => if a == reg {
                Advance::Move { step: step + 1, count: 0, addr: base + imm, page: None }
            } else {
                pass
            },
            _ => pass,
        },
        None => {
            let op = steps[step].0;
            let num = steps[step].1.unwrap();
            let counted = Advance::Move { step, count: count + 1, addr: addr + 4, page: None };
            match insn {
                Insn::Bl(t) => if op != 'L' {
                    pass
                } else if count != num {
                    counted
                } else {
                    match t {
                        None => Advance::Fail(crate::error::Fault::WrongOperands("bl"@)),
                        Some(to) => Advance::Move { step: step + 1, count: 0, addr: to as int, page: None },
                    }
                },
                Insn::B(t) => if op != 'B' {
                    pass
                } else if count != num {
                    counted
                } else {
                    match t {
                        None => Advance::Fail(crate::error::Fault::WrongOperands("b"@)),
                        Some(to) => Advance::Move { step: step + 1, count: 0, addr: to as int, page: None },
                    }
                },
                Insn::Adrp(x) => if op != 'P' {
                    pass
                } else if count != num {
                    counted
                } else {
                    match x {
                        None => Advance::Fail(crate::error::Fault::WrongOperands("adrp"@)),
                        Some(p) => Advance::Move { step, count, addr: addr + 4, page: Some(p) },
                    }
                },
                _ => pass,
            }
        },
    }
}

/// While a walk holds the page of an `adrp` into register `reg`, only an
/// `ldr` or an `add` based on `reg` ends the step: the next step starts at
/// the page plus the offset, with its count at zero and no page held. Every
/// other instruction, an `ldr` or `add` based on another register among
/// them, leaves the step, the count and the page as they are and moves the
/// read address on by one instruction.
pub proof fn lemma_page_ends_only_on_its_register(
    steps: Seq<(char, Option<usize>)>,
    step: int,
    count: int,
    addr: u64,
    reg: u32,
    base: u64,
    insn: Insn,
)
    ensures
        ({
            let r = advance_spec(steps, step, count, addr, Some((reg, base)), insn);
            match insn {
                Insn::LdrOffset(a, off) if a == reg => r == Advance::Move {
                    step: step + 1,
                    count: 0,
                    addr: ((base as i64) + off) as u64 as int,
                    page: None,
                },
                Insn::AddImm(a, imm) if a == reg => r == Advance::Move {
                    step: step + 1,
                    count: 0,
                    addr: base + imm,
                    page: None,
                },
                _ => r == Advance::Move { step, count, addr: addr + 4, page: Some((reg, base)) },
            }
        }),
{
}

impl TraceWalk {
    /// The walk reads an instruction of a step whose count parsed, and has
    /// not counted past it.
    pub open spec fn wf(&self) -> bool {
        &&& self.step < self.steps@.len()
        &&& self.steps@[self.step as int].1 matches Some(n) && self.count <= n
    }

    /// A walk of `trace` from `addr`, and what it asks for first.
    pub fn start(trace: &str, addr: u64) -> (r: Result<(TraceWalk, WalkAction), Error>)
        ensures
            match r {
                Ok((w, a)) => {
                    &&& w.steps@ == trace_steps_of(trace@)
                    &&& w.step == 0 && w.count == 0 && w.addr == addr && w.page is None
                    &&& after_step(w.steps@, 0, addr, Ok(a))
                    &&& a is Read ==> w.wf()
                },
                Err(e) => after_step(trace_steps_of(trace@), 0, addr, Err(e)),
            },
    {
        let steps = trace_steps(trace);
        let a = if steps.len() == 0 {
            WalkAction::Found(addr)
        } else if steps[0].1.is_none() {
            return Err(Error::InvalidTraceCount);
        } else {
            WalkAction::Read(addr)
        };
        Ok((TraceWalk { steps, step: 0, count: 0, addr, page: None }, a))
    }

    /// Takes the instruction at `addr` (see `advance_spec`) and says what
    /// comes next (see `after_step`).
    pub fn advance(&mut self, insn: Insn) -> (r: Result<WalkAction, Error>)
        requires
            old(self).wf(),
            old(self).addr + 4 <= u64::MAX,
            match (old(self).page, insn) {
                (Some((reg, base)), Insn::AddImm(a, imm)) => a == reg ==> base + imm <= u64::MAX,
                (Some((reg, base)), Insn::LdrOffset(a, off)) => a == reg ==> i64::MIN <= (base as i64) + off
                    <= i64::MAX,
                _ => true,
            },
        ensures
            final(self).steps@ == old(self).steps@,
            match advance_spec(
                old(self).steps@,
                old(self).step as int,
                old(self).count as int,
                old(self).addr,
                old(self).page,
                insn,
            ) {
                Advance::Fail(f) => r matches Err(e) && e@ == f,
                Advance::Move { step, count, addr, page } => {
                    &&& final(self).step == step
                    &&& final(self).count == count
                    &&& final(self).addr == addr
                    &&& final(self).page == page
                    &&& after_step(final(self).steps@, step, final(self).addr, r)
                    &&& r matches Ok(WalkAction::Read(_)) ==> final(self).wf()
                },
            },
    {
        match self.page {
            Some((reg, base)) => {
                match insn {
                    Insn::LdrOffset(a, off) => {
                        if a == reg {
                            let signed: i64 = base as i64;
                            self.addr = (signed + off) as u64;
                            return self.finish_step();
                        }
                    },
                    Insn::AddImm(a, imm) => {
                        if a == reg {
                            self.addr = base + imm;
                            return self.finish_step();
                        }
                    },
                    _ => {},
                }
                self.addr = self.addr + 4;
                Ok(WalkAction::Read(self.addr))
            },
            None => {
                let op = self.steps[self.step].0;
                let num = match self.steps[self.step].1 {
                    Some(n) => n,
                    None => {
                        return Err(Error::InvalidTraceCount);
                    },
                };
                let looked_for = match insn {
                    Insn::Bl(_) => op == 'L',
                    Insn::B(_) => op == 'B',
                    Insn::Adrp(_) => op == 'P',
                    _ => false,
                };
                if !looked_for {
                    self.addr = self.addr + 4;
                    return Ok(WalkAction::Read(self.addr));
                }
                if self.count != num {
                    self.count = self.count + 1;
                    self.addr = self.addr + 4;
                    return Ok(WalkAction::Read(self.addr));
                }
                match insn {
                    Insn::Bl(t) => match t {
                        Some(to) => {
                            self.addr = to;
                            self.finish_step()
                        },
                        None => Err(Error::WrongOperands("bl".to_string())),
                    },
                    Insn::B(t) => match t {
                        Some(to) => {
                            self.addr = to;
                            self.finish_step()
                        },
                        None => Err(Error::WrongOperands("b".to_string())),
                    },
                    Insn::Adrp(x) => match x {
                        Some(p) => {
                            self.page = Some(p);
                            self.addr = self.addr + 4;
                            Ok(WalkAction::Read(self.addr))
                        },
                        None => Err(Error::WrongOperands("adrp".to_string())),
                    },
                    _ => Ok(WalkAction::Read(self.addr)),
                }
            },
        }
    }

    /// Ends the current step at `addr` and says what comes next.
    fn finish_step(&mut self) -> (r: Result<WalkAction, Error>)
        requires
            old(self).step < old(self).steps@.len(),
        ensures
            final(self).steps@ == old(self).steps@,
            final(self).step == old(self).step + 1,
            final(self).count == 0,
            final(self).addr == old(self).addr,
            final(self).page is None,
            after_step(final(self).steps@, final(self).step as int, final(self).addr, r),
            r matches Ok(WalkAction::Read(_)) ==> final(self).wf(),
    {
        let n = self.steps.len();
        self.step = self.step + 1;
        self.count = 0;
        self.page = None;
        if self.step == n {
            Ok(WalkAction::Found(self.addr))
        } else if self.steps[self.step].1.is_none() {
            Err(Error::InvalidTraceCount)
        } else {
            Ok(WalkAction::Read(self.addr))
        }
    }
}

} // verus!

verus! {

/// A method by its namespace, class and name.
pub type RootKey = (Seq<char>, Seq<char>, Seq<char>);

/// Where the search for the roots' methods stands: the keys not found yet,
/// and each found (its key, its token and its image's name), in order.
pub ghost struct RootWalk {
    pub remaining: Set<RootKey>,
    pub found: Seq<(RootKey, u32, Seq<char>)>,
}

/// The range of a table that starts at `offset` and holds `count` entries
/// (see `offset_len`), where slicing a table of `len` entries with it does
/// not panic.
pub open spec fn table_range(offset: i32, count: i32, len: nat) -> Option<(int, int)> {
    if offset < 0 {
        Some((0, 0))
    } else if offset as usize as int + count as usize as int > usize::MAX {
        None
    } else {
        let hi = offset as usize as int + count as usize as int;
        if hi > len {
            None
        } else {
            Some((offset as int, hi))
        }
    }
}

/// The methods `j..hi` of a type: each whose key is still wanted is found.
pub open spec fn walk_methods(
    string: Seq<u8>,
    methods: Seq<MethodDefinition>,
    ns: Seq<char>,
    cls: Seq<char>,
    img: Seq<char>,
    j: int,
    hi: int,
    st: RootWalk,
) -> Outcome<RootWalk>
    decreases hi - j,
{
    if j >= hi || j < 0 || j >= methods.len() {
        Outcome::Done(st)
    } else {
        match str_at(string, methods[j].name_index) {
            Outcome::Panic => Outcome::Panic,
            Outcome::Fail(f) => Outcome::Fail(f),
            Outcome::Done(m) => {
                let key = (ns, cls, m);
                let st2 = if st.remaining.contains(key) {
                    RootWalk { remaining: st.remaining.remove(key), found: st.found.push((key, methods[j].token, img)) }
                } else {
                    st
                };
                walk_methods(string, methods, ns, cls, img, j + 1, hi, st2)
            },
        }
    }
}

/// The type definitions `k..hi` of an image and their methods.
pub open spec fn walk_types(
    md: (Seq<u8>, Seq<TypeDefinition>, Seq<MethodDefinition>),
    img: Seq<char>,
    k: int,
    hi: int,
    st: RootWalk,
) -> Outcome<RootWalk>
    decreases hi - k,
{
    let (string, tds, methods) = md;
    if k >= hi || k < 0 || k >= tds.len() {
        Outcome::Done(st)
    } else {
        let td = tds[k];
        match str_at(string, td.namespace_index) {
            Outcome::Panic => Outcome::Panic,
            Outcome::Fail(f) => Outcome::Fail(f),
            Outcome::Done(ns) => match str_at(string, td.name_index) {
                Outcome::Panic => Outcome::Panic,
                Outcome::Fail(f) => Outcome::Fail(f),
                Outcome::Done(cls) => match table_range(td.method_start, td.method_count as i32, methods.len()) {
                    None => Outcome::Panic,
                    Some((mlo, mhi)) => match walk_methods(string, methods, ns, cls, img, mlo, mhi, st) {
                        Outcome::Done(st2) => walk_types(md, img, k + 1, hi, st2),
                        other => other,
                    },
                },
            },
        }
    }
}

/// The images from the `i`-th on, their type definitions and methods: the
/// search `initialize_roots` makes for the methods that traces start from.
pub open spec fn walk_images(
    md: (Seq<u8>, Seq<ImageDefinition>, Seq<TypeDefinition>, Seq<MethodDefinition>),
    i: int,
    st: RootWalk,
) -> Outcome<RootWalk>
    decreases md.1.len() - i,
{
    let (string, images, tds, methods) = md;
    if i < 0 || i >= images.len() {
        Outcome::Done(st)
    } else {
        match str_at(string, images[i].name_index) {
            Outcome::Panic => Outcome::Panic,
            Outcome::Fail(f) => Outcome::Fail(f),
            Outcome::Done(img) => match table_range(images[i].type_start, images[i].type_count as i32, tds.len()) {
                None => Outcome::Panic,
                Some((lo, hi)) => match walk_types((string, tds, methods), img, lo, hi, st) {
                    Outcome::Done(st2) => walk_images(md, i + 1, st2),
                    other => other,
                },
            },
        }
    }
}

/// The tables of `md` that the search reads.
pub open spec fn md_view(md: &Metadata) -> (Seq<u8>, Seq<ImageDefinition>, Seq<TypeDefinition>, Seq<MethodDefinition>) {
    (md.string@, md.images@, md.type_definitions@, md.methods@)
}

/// The keys of `keys` not taken yet.
pub open spec fn untaken(keys: Seq<RootKey>, taken: Seq<bool>) -> Set<RootKey> {
    Set::new(|k: RootKey| exists|q: int| 0 <= q < keys.len() && q < taken.len() && !taken[q] && keys[q] == k)
}

/// What the search found, as keys, tokens and image names.
pub open spec fn found_views(v: Seq<(String, String, String, u32, String)>) -> Seq<(RootKey, u32, Seq<char>)> {
    v.map_values(|e: (String, String, String, u32, String)| ((e.0@, e.1@, e.2@), e.3, e.4@))
}

/// The search's state: the keys not taken yet and what was found.
pub open spec fn walk_state(keys: Seq<RootKey>, taken: Seq<bool>, found: Seq<(String, String, String, u32, String)>) -> RootWalk {
    RootWalk { remaining: untaken(keys, taken), found: found_views(found) }
}

/// The range of a table (see `table_range`), or nothing where slicing with
/// it would panic.
pub(crate) fn table_bounds(offset: i32, count: i32, len: usize) -> (r: Option<(usize, usize)>)
    ensures
        match table_range(offset, count, len as nat) {
            None => r is None,
            Some((lo, hi)) => r == Some((lo as usize, hi as usize)),
        },
{
    if offset < 0 {
        return Some((0, 0));
    }
    let start = offset as usize;
    let n = count as usize;
    if start > usize::MAX - n {
        return None;
    }
    let end = start + n;
    if end > len {
        return None;
    }
    Some((start, end))
}

fn walk_methods_exec(
    md: &Metadata,
    ns: &str,
    cls: &str,
    img: &str,
    lo: usize,
    hi: usize,
    keys: &Vec<(&str, &str, &str)>,
    taken: &mut Vec<bool>,
    found: &mut Vec<(String, String, String, u32, String)>,
) -> (r: Result<(), Error>)
    requires
        lo <= hi <= md.methods@.len(),
        key_views(keys@).no_duplicates(),
        old(taken)@.len() == keys@.len(),
        !(walk_methods(md.string@, md.methods@, ns@, cls@, img@, lo as int, hi as int, walk_state(key_views(keys@), old(taken)@, old(found)@)) is Panic),
    ensures
        final(taken)@.len() == keys@.len(),
        match walk_methods(md.string@, md.methods@, ns@, cls@, img@, lo as int, hi as int, walk_state(key_views(keys@), old(taken)@, old(found)@)) {
            Outcome::Done(st) => r is Ok && st == walk_state(key_views(keys@), final(taken)@, final(found)@),
            Outcome::Fail(f) => r matches Err(e) && e@ == f,
            Outcome::Panic => false,
        },
{
    let ghost kv = key_views(keys@);
    let ghost total = walk_methods(md.string@, md.methods@, ns@, cls@, img@, lo as int, hi as int, walk_state(kv, taken@, found@));
    let mut j: usize = lo;
    while j < hi
        invariant
            lo <= j <= hi <= md.methods@.len(),
            kv == key_views(keys@),
            kv.no_duplicates(),
            taken@.len() == keys@.len(),
            !(total is Panic),
            total == walk_methods(md.string@, md.methods@, ns@, cls@, img@, lo as int, hi as int, walk_state(kv, old(taken)@, old(found)@)),
            total == walk_methods(md.string@, md.methods@, ns@, cls@, img@, j as int, hi as int, walk_state(kv, taken@, found@)),
        decreases hi - j,
    {
        let m = match read_metadata_str(&md.string, md.methods[j].name_index) {
            Ok(v) => v,
            Err(e) => {
                proof {
                    assert(str_at(md.string@, md.methods@[j as int].name_index) == Outcome::<Seq<char>>::Fail(e@));
                    assert(walk_methods(md.string@, md.methods@, ns@, cls@, img@, j as int, hi as int, walk_state(kv, taken@, found@)) == Outcome::<RootWalk>::Fail(e@));
                }
                return Err(e);
            },
        };
        let mut q: usize = 0;
        let mut hit: Option<usize> = None;
        while q < keys.len()
            invariant
                0 <= q <= keys@.len(),
                kv == key_views(keys@),
                taken@.len() == keys@.len(),
                hit matches Some(h) ==> h < keys@.len() && !taken@[h as int] && kv[h as int] == (ns@, cls@, m@),
                hit is None ==> forall|z: int| 0 <= z < q ==> !(!taken@[z] && #[trigger] kv[z] == (ns@, cls@, m@)),
            decreases keys@.len() - q,
        {
            if hit.is_none() && !taken[q] && key_eq(keys[q], (ns, cls, m)) {
                hit = Some(q);
            }
            proof {
                assert(kv[q as int] == (keys@[q as int].0@, keys@[q as int].1@, keys@[q as int].2@));
            }
            q = q + 1;
        }
        let ghost st = walk_state(kv, taken@, found@);
        let ghost key = (ns@, cls@, m@);
        let ghost f0 = found@;
        let ghost t0 = taken@;
        match hit {
            Some(h) => {
                taken.set(h, true);
                found.push((ns.to_string(), cls.to_string(), m.to_string(), md.methods[j].token, img.to_string()));
                proof {
                    assert(st.remaining.contains(key));
                    assert(found_views(found@) =~= found_views(f0).push((key, md.methods[j as int].token, img@)));
                    assert forall|k: RootKey| #[trigger] untaken(kv, taken@).contains(k) == st.remaining.remove(key).contains(k) by {
                        if untaken(kv, taken@).contains(k) {
                            let z = choose|z: int| 0 <= z < kv.len() && z < taken@.len() && !taken@[z] && kv[z] == k;
                            assert(z != h);
                            assert(!t0[z]);
                            assert(kv[z] != kv[h as int]);
                        }
                        if st.remaining.remove(key).contains(k) {
                            let z = choose|z: int| 0 <= z < kv.len() && z < t0.len() && !t0[z] && kv[z] == k;
                            assert(z != h);
                            assert(taken@[z] == t0[z]);
                        }
                    }
                    assert(untaken(kv, taken@) =~= st.remaining.remove(key));
                }
            },
            None => {
                proof {
                    assert(!st.remaining.contains(key));
                }
            },
        }
        j = j + 1;
    }
    Ok(())
}

fn walk_types_exec(
    md: &Metadata,
    img: &str,
    lo: usize,
    hi: usize,
    keys: &Vec<(&str, &str, &str)>,
    taken: &mut Vec<bool>,
    found: &mut Vec<(String, String, String, u32, String)>,
) -> (r: Result<(), Error>)
    requires
        lo <= hi <= md.type_definitions@.len(),
        key_views(keys@).no_duplicates(),
        old(taken)@.len() == keys@.len(),
        !(walk_types((md.string@, md.type_definitions@, md.methods@), img@, lo as int, hi as int, walk_state(key_views(keys@), old(taken)@, old(found)@)) is Panic),
    ensures
        final(taken)@.len() == keys@.len(),
        match walk_types((md.string@, md.type_definitions@, md.methods@), img@, lo as int, hi as int, walk_state(key_views(keys@), old(taken)@, old(found)@)) {
            Outcome::Done(st) => r is Ok && st == walk_state(key_views(keys@), final(taken)@, final(found)@),
            Outcome::Fail(f) => r matches Err(e) && e@ == f,
            Outcome::Panic => false,
        },
{
    let ghost kv = key_views(keys@);
    let ghost mdv = (md.string@, md.type_definitions@, md.methods@);
    let ghost total = walk_types(mdv, img@, lo as int, hi as int, walk_state(kv, taken@, found@));
    let mut k: usize = lo;
    while k < hi
        invariant
            lo <= k <= hi <= md.type_definitions@.len(),
            kv == key_views(keys@),
            kv.no_duplicates(),
            mdv == (md.string@, md.type_definitions@, md.methods@),
            taken@.len() == keys@.len(),
            !(total is Panic),
            total == walk_types(mdv, img@, lo as int, hi as int, walk_state(kv, old(taken)@, old(found)@)),
            total == walk_types(mdv, img@, k as int, hi as int, walk_state(kv, taken@, found@)),
        decreases hi - k,
    {
        let td = md.type_definitions[k];
        let ghost st = walk_state(kv, taken@, found@);
        assert(total == walk_types(mdv, img@, k as int, hi as int, st));
        let ns = match read_metadata_str(&md.string, td.namespace_index) {
            Ok(v) => v,
            Err(e) => {
                assert(walk_types(mdv, img@, k as int, hi as int, st) == Outcome::<RootWalk>::Fail(e@));
                return Err(e);
            },
        };
        let cls = match read_metadata_str(&md.string, td.name_index) {
            Ok(v) => v,
            Err(e) => {
                assert(walk_types(mdv, img@, k as int, hi as int, st) == Outcome::<RootWalk>::Fail(e@));
                return Err(e);
            },
        };
        let (mlo, mhi) = match table_bounds(td.method_start, td.method_count as i32, md.methods.len()) {
            Some(b) => b,
            None => {
                proof {
                    assert(false);
                }
                return Ok(());
            },
        };
        assert(!(walk_methods(md.string@, md.methods@, ns@, cls@, img@, mlo as int, mhi as int, st) is Panic));
        match walk_methods_exec(md, ns, cls, img, mlo, mhi, keys, taken, found) {
            Ok(()) => {},
            Err(e) => {
                return Err(e);
            },
        }
        k = k + 1;
    }
    Ok(())
}

/// The methods that the traces start from, found in the metadata (see
/// `walk_images`): for each, its namespace, class and name, its token and
/// its image's name, in the order the search meets them. `required` lists
/// the methods wanted, each once (see `required_roots`).
pub fn find_root_methods(md: &Metadata, required: &Vec<(&str, &str, &str)>) -> (r: Result<
    Vec<(String, String, String, u32, String)>,
    Error,
>)
    requires
        key_views(required@).no_duplicates(),
        !(walk_images(md_view(md), 0, RootWalk { remaining: key_views(required@).to_set(), found: Seq::empty() }) is Panic),
    ensures
        match walk_images(md_view(md), 0, RootWalk { remaining: key_views(required@).to_set(), found: Seq::empty() }) {
            Outcome::Done(st) => r matches Ok(v) && found_views(v@) == st.found,
            Outcome::Fail(f) => r matches Err(e) && e@ == f,
            Outcome::Panic => false,
        },
{
    let ghost kv = key_views(required@);
    let mut taken: Vec<bool> = Vec::new();
    let mut q: usize = 0;
    while q < required.len()
        invariant
            0 <= q <= required@.len(),
            taken@.len() == q,
            forall|z: int| 0 <= z < q ==> !taken@[z],
        decreases required@.len() - q,
    {
        taken.push(false);
        q = q + 1;
    }
    let mut found: Vec<(String, String, String, u32, String)> = Vec::new();
    proof {
        assert(untaken(kv, taken@) =~= kv.to_set()) by {
            assert forall|k: RootKey| #[trigger] untaken(kv, taken@).contains(k) == kv.to_set().contains(k) by {
                if kv.to_set().contains(k) {
                    let z = choose|z: int| 0 <= z < kv.len() && kv[z] == k;
                    assert(!taken@[z]);
                }
            }
        }
        assert(found_views(found@) =~= Seq::<(RootKey, u32, Seq<char>)>::empty());
    }
    let ghost mdv = md_view(md);
    let ghost total = walk_images(mdv, 0, walk_state(kv, taken@, found@));
    let mut i: usize = 0;
    while i < md.images.len()
        invariant
            0 <= i <= md.images@.len(),
            kv == key_views(required@),
            kv.no_duplicates(),
            mdv == md_view(md),
            taken@.len() == required@.len(),
            total == walk_images(mdv, 0, RootWalk { remaining: kv.to_set(), found: Seq::empty() }),
            !(total is Panic),
            total == walk_images(mdv, i as int, walk_state(kv, taken@, found@)),
        decreases md.images@.len() - i,
    {
        let image = md.images[i];
        let img = match read_metadata_str(&md.string, image.name_index) {
            Ok(v) => v,
            Err(e) => {
                return Err(e);
            },
        };
        let (lo, hi) = match table_bounds(image.type_start, image.type_count as i32, md.type_definitions.len()) {
            Some(b) => b,
            None => {
                proof {
                    assert(false);
                }
                return Ok(found);
            },
        };
        match walk_types_exec(md, img, lo, hi, required, &mut taken, &mut found) {
            Ok(()) => {},
            Err(e) => {
                return Err(e);
            },
        }
        i = i + 1;
    }
    Ok(found)
}


/// The metadata's part of setting up the roots: the methods that the traces
/// of `data` start from, found by a walk of the images, their type
/// definitions and methods (see `walk_images`), each with its token and its
/// image's name, in the order the walk meets them. The code and invoker
/// pointers of each are then read out of the game's code registration.
pub fn initialize_roots(md: &Metadata, data: &XRefData) -> (r: Result<
    Vec<(String, String, String, u32, String)>,
    Error,
>)
    requires
        roots_complete(data.traces@),
        !(walk_images(md_view(md), 0, RootWalk { remaining: required_root_set(data.traces@), found: Seq::empty() }) is Panic),
    ensures
        match walk_images(md_view(md), 0, RootWalk { remaining: required_root_set(data.traces@), found: Seq::empty() }) {
            Outcome::Done(st) => r matches Ok(v) && found_views(v@) == st.found,
            Outcome::Fail(f) => r matches Err(e) && e@ == f,
            Outcome::Panic => false,
        },
{
    let required = required_roots(data);
    find_root_methods(md, &required)
}

} // verus!
