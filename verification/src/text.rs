//! Character-level text primitives used by the source parsers.
//!
//! Every function here works on the characters of a `str` (its view is a
//! `Seq<char>`) and returns sub-slices of its input. Positions are counted in
//! characters.
use vstd::prelude::*;
use vstd::string::StrSliceExecFns;

verus! {

/// Unicode `White_Space`, as `char::is_whitespace` defines it.
pub open spec fn is_ws(c: char) -> bool {
    let u = c as u32;
    ||| 9 <= u <= 13
    ||| u == 32
    ||| u == 0x85
    ||| u == 0xA0
    ||| u == 0x1680
    ||| 0x2000 <= u <= 0x200A
    ||| u == 0x2028
    ||| u == 0x2029
    ||| u == 0x202F
    ||| u == 0x205F
    ||| u == 0x3000
}

pub fn is_ws_char(c: char) -> (b: bool)
    ensures
        b == is_ws(c),
{
    let u = c as u32;
    (9 <= u && u <= 13) || u == 32 || u == 0x85 || u == 0xA0 || u == 0x1680 || (0x2000 <= u
        && u <= 0x200A) || u == 0x2028 || u == 0x2029 || u == 0x202F || u == 0x205F || u == 0x3000
}

/// `p` stands in `s` at position `i`.
pub open spec fn occurs_at(s: Seq<char>, p: Seq<char>, i: int) -> bool {
    0 <= i && i + p.len() <= s.len() && s.subrange(i, i + p.len()) == p
}

/// The first position at or after `i` at which `p` stands in `s`.
pub open spec fn find_from(s: Seq<char>, p: Seq<char>, i: int) -> Option<int>
    decreases s.len() + 1 - i,
{
    if i < 0 || i + p.len() > s.len() {
        None
    } else if occurs_at(s, p, i) {
        Some(i)
    } else {
        find_from(s, p, i + 1)
    }
}

/// The first position at which `p` stands in `s` (`str::find`).
pub open spec fn find(s: Seq<char>, p: Seq<char>) -> Option<int> {
    find_from(s, p, 0)
}

/// The number of leading characters of `s` that satisfy `f`.
pub open spec fn lead_count(s: Seq<char>, f: spec_fn(char) -> bool, i: int) -> bool {
    &&& 0 <= i <= s.len()
    &&& forall|j: int| 0 <= j < i ==> #[trigger] f(s[j])
    &&& i < s.len() ==> !f(s[i])
}

/// The number of trailing characters of `s` that satisfy `f`.
pub open spec fn trail_count(s: Seq<char>, f: spec_fn(char) -> bool, i: int) -> bool {
    &&& 0 <= i <= s.len()
    &&& forall|j: int| s.len() - i <= j < s.len() ==> #[trigger] f(s[j])
    &&& i < s.len() ==> !f(s[s.len() - i - 1])
}

/// The length of the longest prefix of `s` whose characters all satisfy `f`.
pub open spec fn lead_len(s: Seq<char>, f: spec_fn(char) -> bool) -> nat
    decreases s.len(),
{
    if s.len() > 0 && f(s[0]) {
        1 + lead_len(s.drop_first(), f)
    } else {
        0
    }
}

/// The length of the longest suffix of `s` whose characters all satisfy `f`.
pub open spec fn trail_len(s: Seq<char>, f: spec_fn(char) -> bool) -> nat
    decreases s.len(),
{
    if s.len() > 0 && f(s.last()) {
        1 + trail_len(s.drop_last(), f)
    } else {
        0
    }
}

pub open spec fn skip_lead(s: Seq<char>, f: spec_fn(char) -> bool) -> Seq<char> {
    s.skip(lead_len(s, f) as int)
}

pub open spec fn drop_trail(s: Seq<char>, f: spec_fn(char) -> bool) -> Seq<char> {
    s.take(s.len() - trail_len(s, f))
}

pub open spec fn ws_pred() -> spec_fn(char) -> bool {
    |c: char| is_ws(c)
}

pub open spec fn eq_pred(c: char) -> spec_fn(char) -> bool {
    |d: char| d == c
}

pub open spec fn ne_pred(c: char) -> spec_fn(char) -> bool {
    |d: char| d != c
}

pub open spec fn non_ws_pred() -> spec_fn(char) -> bool {
    |c: char| !is_ws(c)
}

/// `str::trim_start`.
pub open spec fn trim_start(s: Seq<char>) -> Seq<char> {
    skip_lead(s, ws_pred())
}

/// `str::trim_end`.
pub open spec fn trim_end(s: Seq<char>) -> Seq<char> {
    drop_trail(s, ws_pred())
}

/// `str::trim`.
pub open spec fn trim(s: Seq<char>) -> Seq<char> {
    trim_end(trim_start(s))
}

/// `str::trim_start_matches` with a `char` pattern.
pub open spec fn trim_start_char(s: Seq<char>, c: char) -> Seq<char> {
    skip_lead(s, eq_pred(c))
}

/// `str::trim_end_matches` with a `char` pattern.
pub open spec fn trim_end_char(s: Seq<char>, c: char) -> Seq<char> {
    drop_trail(s, eq_pred(c))
}

/// `str::trim_start_matches` with a `&str` pattern.
pub open spec fn trim_start_str(s: Seq<char>, p: Seq<char>) -> Seq<char>
    decreases s.len(),
{
    if p.len() > 0 && p.len() <= s.len() && s.take(p.len() as int) == p {
        trim_start_str(s.skip(p.len() as int), p)
    } else {
        s
    }
}

/// `str::trim_end_matches` with a `&str` pattern.
pub open spec fn trim_end_str(s: Seq<char>, p: Seq<char>) -> Seq<char>
    decreases s.len(),
{
    if p.len() > 0 && p.len() <= s.len() && s.skip(s.len() - p.len()) == p {
        trim_end_str(s.take(s.len() - p.len()), p)
    } else {
        s
    }
}

/// The part of `s` before the first `c` (`s.split(c).next()`).
pub open spec fn before_char(s: Seq<char>, c: char) -> Seq<char> {
    s.take(lead_len(s, ne_pred(c)) as int)
}

/// The whitespace-separated words of `s` (`str::split_whitespace`).
pub open spec fn words(s: Seq<char>) -> Seq<Seq<char>>
    decreases s.len(),
{
    let t = trim_start(s);
    if t.len() == 0 {
        Seq::empty()
    } else {
        let n = lead_len(t, non_ws_pred());
        proof {
            lemma_lead_len(s, ws_pred());
            lemma_lead_len(t, non_ws_pred());
            assert(non_ws_pred()(t[0]));
        }
        seq![t.take(n as int)].add(words(t.skip(n as int)))
    }
}

/// `lead_len` is the leading count of `f`.
pub proof fn lemma_lead_len(s: Seq<char>, f: spec_fn(char) -> bool)
    ensures
        lead_count(s, f, lead_len(s, f) as int),
    decreases s.len(),
{
    if s.len() > 0 && f(s[0]) {
        lemma_lead_len(s.drop_first(), f);
        let n = lead_len(s, f) as int;
        assert forall|j: int| 0 <= j < n implies #[trigger] f(s[j]) by {
            if j > 0 {
                assert(s[j] == s.drop_first()[j - 1]);
            }
        }
        if n < s.len() {
            assert(s[n] == s.drop_first()[n - 1]);
        }
    }
}

/// `trail_len` is the trailing count of `f`.
pub proof fn lemma_trail_len(s: Seq<char>, f: spec_fn(char) -> bool)
    ensures
        trail_count(s, f, trail_len(s, f) as int),
    decreases s.len(),
{
    if s.len() > 0 && f(s.last()) {
        lemma_trail_len(s.drop_last(), f);
        let n = trail_len(s, f) as int;
        assert forall|j: int| s.len() - n <= j < s.len() implies #[trigger] f(s[j]) by {
            if j < s.len() - 1 {
                assert(s[j] == s.drop_last()[j]);
            }
        }
        if n < s.len() {
            assert(s[s.len() - n - 1] == s.drop_last()[s.len() - n - 1]);
        }
    }
}

proof fn lemma_lead_count_unique(s: Seq<char>, f: spec_fn(char) -> bool, i: int, k: int)
    requires
        lead_count(s, f, i),
        lead_count(s, f, k),
    ensures
        i == k,
{
    if i < k {
        assert(f(s[i]));
    }
    if k < i {
        assert(f(s[k]));
    }
}

proof fn lemma_trail_count_unique(s: Seq<char>, f: spec_fn(char) -> bool, i: int, k: int)
    requires
        trail_count(s, f, i),
        trail_count(s, f, k),
    ensures
        i == k,
{
    if i < k {
        assert(f(s[s.len() - i - 1]));
    }
    if k < i {
        assert(f(s[s.len() - k - 1]));
    }
}

/// The leading run of characters that satisfy `f`, counted on a string.
fn count_lead_ws(s: &str, len: usize) -> (n: usize)
    requires
        len == s@.len(),
    ensures
        lead_count(s@, ws_pred(), n as int),
{
    let mut i: usize = 0;
    while i < len && is_ws_char(s.get_char(i))
        invariant
            len == s@.len(),
            0 <= i <= len,
            forall|j: int| 0 <= j < i ==> #[trigger] ws_pred()(s@[j]),
        decreases len - i,
    {
        i = i + 1;
    }
    i
}

fn count_trail_ws(s: &str, len: usize) -> (n: usize)
    requires
        len == s@.len(),
    ensures
        trail_count(s@, ws_pred(), n as int),
{
    let mut i: usize = 0;
    while i < len && is_ws_char(s.get_char(len - i - 1))
        invariant
            len == s@.len(),
            0 <= i <= len,
            forall|j: int| len - i <= j < len ==> #[trigger] ws_pred()(s@[j]),
        decreases len - i,
    {
        i = i + 1;
    }
    i
}

fn count_lead_char(s: &str, len: usize, c: char) -> (n: usize)
    requires
        len == s@.len(),
    ensures
        lead_count(s@, eq_pred(c), n as int),
{
    let mut i: usize = 0;
    while i < len && s.get_char(i) == c
        invariant
            len == s@.len(),
            0 <= i <= len,
            forall|j: int| 0 <= j < i ==> #[trigger] eq_pred(c)(s@[j]),
        decreases len - i,
    {
        i = i + 1;
    }
    i
}

fn count_trail_char(s: &str, len: usize, c: char) -> (n: usize)
    requires
        len == s@.len(),
    ensures
        trail_count(s@, eq_pred(c), n as int),
{
    let mut i: usize = 0;
    while i < len && s.get_char(len - i - 1) == c
        invariant
            len == s@.len(),
            0 <= i <= len,
            forall|j: int| len - i <= j < len ==> #[trigger] eq_pred(c)(s@[j]),
        decreases len - i,
    {
        i = i + 1;
    }
    i
}

/// `s.trim_start()`.
pub fn trim_start_str_ws<'a>(s: &'a str) -> (r: &'a str)
    ensures
        r@ == trim_start(s@),
{
    let len = s.unicode_len();
    let n = count_lead_ws(s, len);
    proof {
        lemma_lead_len(s@, ws_pred());
        lemma_lead_count_unique(s@, ws_pred(), n as int, lead_len(s@, ws_pred()) as int);
    }
    s.substring_char(n, len)
}

/// `s.trim_end()`.
pub fn trim_end_str_ws<'a>(s: &'a str) -> (r: &'a str)
    ensures
        r@ == trim_end(s@),
{
    let len = s.unicode_len();
    let n = count_trail_ws(s, len);
    proof {
        lemma_trail_len(s@, ws_pred());
        lemma_trail_count_unique(s@, ws_pred(), n as int, trail_len(s@, ws_pred()) as int);
    }
    s.substring_char(0, len - n)
}

/// `s.trim()`.
pub fn trim_ws<'a>(s: &'a str) -> (r: &'a str)
    ensures
        r@ == trim(s@),
{
    trim_end_str_ws(trim_start_str_ws(s))
}

/// `s.trim_start_matches(c)`.
pub fn trim_start_matches_char<'a>(s: &'a str, c: char) -> (r: &'a str)
    ensures
        r@ == trim_start_char(s@, c),
{
    let len = s.unicode_len();
    let n = count_lead_char(s, len, c);
    proof {
        lemma_lead_len(s@, eq_pred(c));
        lemma_lead_count_unique(s@, eq_pred(c), n as int, lead_len(s@, eq_pred(c)) as int);
    }
    s.substring_char(n, len)
}

/// `s.trim_end_matches(c)`.
pub fn trim_end_matches_char<'a>(s: &'a str, c: char) -> (r: &'a str)
    ensures
        r@ == trim_end_char(s@, c),
{
    let len = s.unicode_len();
    let n = count_trail_char(s, len, c);
    proof {
        lemma_trail_len(s@, eq_pred(c));
        lemma_trail_count_unique(s@, eq_pred(c), n as int, trail_len(s@, eq_pred(c)) as int);
    }
    s.substring_char(0, len - n)
}

/// The lines of `s`, as `str::lines` yields them: split after each `\n`,
/// a `\r` right before that `\n` dropped, and no empty last line after a
/// final line ending.
pub open spec fn lines(s: Seq<char>) -> Seq<Seq<char>>
    decreases s.len(),
{
    if s.len() == 0 {
        Seq::empty()
    } else {
        let n = lead_len(s, ne_pred('\n')) as int;
        proof {
            lemma_lead_len(s, ne_pred('\n'));
        }
        if n < s.len() {
            let line = if n > 0 && s[n - 1] == '\r' {
                s.take(n - 1)
            } else {
                s.take(n)
            };
            seq![line].add(lines(s.skip(n + 1)))
        } else {
            seq![s]
        }
    }
}

pub open spec fn views<'a>(v: Seq<&'a str>) -> Seq<Seq<char>> {
    v.map_values(|x: &'a str| x@)
}

/// The lines of `s` (`str::lines`).
#[verifier::external_body]
pub fn lines_of<'a>(s: &'a str) -> (r: Vec<&'a str>)
    ensures
        views(r@) == lines(s@),
{
    s.lines().collect()
}

/// The characters of `s`, collected into a vector.
pub fn chars_vec(s: &str) -> (v: Vec<char>)
    ensures
        v@ == s@,
{
    let mut v: Vec<char> = Vec::new();
    for c in it: s.chars()
        invariant
            v@ == it.history(),
    {
        v.push(c);
    }
    v
}

/// `p` stands in `s` at char position `i`.
fn occurs_at_vec(s: &Vec<char>, p: &Vec<char>, i: usize) -> (b: bool)
    requires
        i + p@.len() <= s@.len(),
    ensures
        b == occurs_at(s@, p@, i as int),
{
    let sl = s.len();
    let mut j: usize = 0;
    while j < p.len()
        invariant
            sl == s@.len(),
            i + p@.len() <= s@.len(),
            0 <= j <= p@.len(),
            forall|k: int| 0 <= k < j ==> s@[i + k] == p@[k],
        decreases p@.len() - j,
    {
        if s[i + j] != p[j] {
            assert(s@.subrange(i as int, i + p@.len())[j as int] != p@[j as int]);
            return false;
        }
        j = j + 1;
    }
    assert(s@.subrange(i as int, i + p@.len()) =~= p@);
    true
}

proof fn lemma_find_from_skip(s: Seq<char>, p: Seq<char>, i: int, k: int)
    requires
        0 <= i <= k,
        forall|j: int| i <= j < k ==> !#[trigger] occurs_at(s, p, j),
        k + p.len() <= s.len(),
    ensures
        find_from(s, p, i) == find_from(s, p, k),
    decreases k - i,
{
    if i < k {
        assert(!occurs_at(s, p, i));
        lemma_find_from_skip(s, p, i + 1, k);
    }
}

/// The first char position at or after `from` where `p` stands in `s`.
pub fn find_vec(s: &Vec<char>, p: &Vec<char>, from: usize) -> (r: Option<usize>)
    ensures
        match r {
            Some(i) => find_from(s@, p@, from as int) == Some(i as int) && occurs_at(s@, p@, i as int),
            None => find_from(s@, p@, from as int) is None,
        },
{
    if p.len() > s.len() {
        return None;
    }
    let last = s.len() - p.len();
    if from > last {
        return None;
    }
    let mut i = from;
    loop
        invariant
            last == s@.len() - p@.len(),
            from <= i <= last,
            forall|j: int| from <= j < i ==> !#[trigger] occurs_at(s@, p@, j),
        decreases last - i,
    {
        if occurs_at_vec(s, p, i) {
            proof {
                lemma_find_from_skip(s@, p@, from as int, i as int);
            }
            return Some(i);
        }
        if i == last {
            proof {
                lemma_find_from_skip(s@, p@, from as int, last as int);
                assert(find_from(s@, p@, last + 1) is None);
            }
            return None;
        }
        i = i + 1;
    }
}

/// The first char position where `p` stands in `s` (`s.find(p)`).
pub fn find_str(s: &str, p: &str) -> (r: Option<usize>)
    ensures
        match r {
            Some(i) => find(s@, p@) == Some(i as int) && occurs_at(s@, p@, i as int),
            None => find(s@, p@) is None,
        },
{
    let sv = chars_vec(s);
    let pv = chars_vec(p);
    find_vec(&sv, &pv, 0)
}

/// `s.starts_with(p)`.
pub fn starts_with(s: &str, p: &str) -> (b: bool)
    ensures
        b == (p@.len() <= s@.len() && s@.take(p@.len() as int) == p@),
{
    let sl = s.unicode_len();
    let pl = p.unicode_len();
    if pl > sl {
        return false;
    }
    let mut j: usize = 0;
    while j < pl
        invariant
            pl == p@.len(),
            sl == s@.len(),
            pl <= sl,
            0 <= j <= pl,
            forall|k: int| 0 <= k < j ==> s@[k] == p@[k],
        decreases pl - j,
    {
        if s.get_char(j) != p.get_char(j) {
            assert(s@.take(pl as int)[j as int] != p@[j as int]);
            return false;
        }
        j = j + 1;
    }
    assert(s@.take(pl as int) =~= p@);
    true
}

/// `s.ends_with(p)`.
pub fn ends_with(s: &str, p: &str) -> (b: bool)
    ensures
        b == (p@.len() <= s@.len() && s@.skip(s@.len() - p@.len()) == p@),
{
    let sl = s.unicode_len();
    let pl = p.unicode_len();
    if pl > sl {
        return false;
    }
    let off = sl - pl;
    let mut j: usize = 0;
    while j < pl
        invariant
            pl == p@.len(),
            sl == s@.len(),
            off == sl - pl,
            0 <= j <= pl,
            forall|k: int| 0 <= k < j ==> s@[off + k] == p@[k],
        decreases pl - j,
    {
        if s.get_char(off + j) != p.get_char(j) {
            assert(s@.skip(off as int)[j as int] != p@[j as int]);
            return false;
        }
        j = j + 1;
    }
    assert(s@.skip(off as int) =~= p@);
    true
}

/// `s.strip_prefix(p)`.
pub fn strip_prefix<'a>(s: &'a str, p: &str) -> (r: Option<&'a str>)
    ensures
        match r {
            Some(t) => p@.len() <= s@.len() && s@.take(p@.len() as int) == p@ && t@ == s@.skip(
                p@.len() as int,
            ),
            None => !(p@.len() <= s@.len() && s@.take(p@.len() as int) == p@),
        },
{
    if starts_with(s, p) {
        Some(s.substring_char(p.unicode_len(), s.unicode_len()))
    } else {
        None
    }
}

/// `s.strip_suffix(p)`.
pub fn strip_suffix<'a>(s: &'a str, p: &str) -> (r: Option<&'a str>)
    ensures
        match r {
            Some(t) => p@.len() <= s@.len() && s@.skip(s@.len() - p@.len()) == p@ && t@ == s@.take(
                s@.len() - p@.len(),
            ),
            None => !(p@.len() <= s@.len() && s@.skip(s@.len() - p@.len()) == p@),
        },
{
    if ends_with(s, p) {
        Some(s.substring_char(0, s.unicode_len() - p.unicode_len()))
    } else {
        None
    }
}

/// `s.trim_start_matches(p)` for a string pattern.
pub fn trim_start_matches<'a>(s: &'a str, p: &str) -> (r: &'a str)
    ensures
        r@ == trim_start_str(s@, p@),
    decreases s@.len(),
{
    if p.unicode_len() > 0 {
        if let Some(rest) = strip_prefix(s, p) {
            return trim_start_matches(rest, p);
        }
    }
    s
}

/// `s.trim_end_matches(p)` for a string pattern.
pub fn trim_end_matches<'a>(s: &'a str, p: &str) -> (r: &'a str)
    ensures
        r@ == trim_end_str(s@, p@),
    decreases s@.len(),
{
    if p.unicode_len() > 0 {
        if let Some(rest) = strip_suffix(s, p) {
            return trim_end_matches(rest, p);
        }
    }
    s
}

/// `s.split(c).next().unwrap()`: the part of `s` before the first `c`.
pub fn before_char_str<'a>(s: &'a str, c: char) -> (r: &'a str)
    ensures
        r@ == before_char(s@, c),
{
    let len = s.unicode_len();
    let mut i: usize = 0;
    while i < len && s.get_char(i) != c
        invariant
            len == s@.len(),
            0 <= i <= len,
            forall|j: int| 0 <= j < i ==> #[trigger] ne_pred(c)(s@[j]),
        decreases len - i,
    {
        i = i + 1;
    }
    proof {
        lemma_lead_len(s@, ne_pred(c));
        lemma_lead_count_unique(s@, ne_pred(c), i as int, lead_len(s@, ne_pred(c)) as int);
    }
    s.substring_char(0, i)
}

/// The number of characters of `s` from `from` on that are whitespace (`ws`)
/// or not whitespace (`!ws`), counted up to the first that is not.
fn count_class_from(s: &str, len: usize, from: usize, ws: bool) -> (n: usize)
    requires
        len == s@.len(),
        from <= len,
    ensures
        lead_count(s@.skip(from as int), if ws { ws_pred() } else { non_ws_pred() }, n as int),
        from + n <= len,
{
    let ghost f = if ws { ws_pred() } else { non_ws_pred() };
    let ghost t = s@.skip(from as int);
    let mut i: usize = from;
    while i < len && is_ws_char(s.get_char(i)) == ws
        invariant
            len == s@.len(),
            from <= i <= len,
            t == s@.skip(from as int),
            f == (if ws { ws_pred() } else { non_ws_pred() }),
            forall|j: int| 0 <= j < i - from ==> #[trigger] f(t[j]),
        decreases len - i,
    {
        assert(t[i - from] == s@[i as int]);
        i = i + 1;
    }
    if i < len {
        assert(t[i - from] == s@[i as int]);
    }
    i - from
}

proof fn lemma_words_step(s: Seq<char>, pos: int, a: int, b: int)
    requires
        0 <= pos <= a <= b <= s.len(),
        lead_count(s.skip(pos), ws_pred(), a - pos),
        a < s.len(),
        lead_count(s.skip(a), non_ws_pred(), b - a),
    ensures
        words(s.skip(pos)) == seq![s.subrange(a, b)].add(words(s.skip(b))),
{
    let t0 = s.skip(pos);
    lemma_lead_len(t0, ws_pred());
    lemma_lead_count_unique(t0, ws_pred(), a - pos, lead_len(t0, ws_pred()) as int);
    assert(trim_start(t0) =~= s.skip(a));
    let t = s.skip(a);
    lemma_lead_len(t, non_ws_pred());
    lemma_lead_count_unique(t, non_ws_pred(), b - a, lead_len(t, non_ws_pred()) as int);
    assert(t.take(b - a) =~= s.subrange(a, b));
    assert(t.skip(b - a) =~= s.skip(b));
}

proof fn lemma_words_end(s: Seq<char>, pos: int, a: int)
    requires
        0 <= pos <= a == s.len(),
        lead_count(s.skip(pos), ws_pred(), a - pos),
    ensures
        words(s.skip(pos)) == Seq::<Seq<char>>::empty(),
{
    let t0 = s.skip(pos);
    lemma_lead_len(t0, ws_pred());
    lemma_lead_count_unique(t0, ws_pred(), a - pos, lead_len(t0, ws_pred()) as int);
}

/// `s.split_whitespace().collect()`.
pub fn split_whitespace<'a>(s: &'a str) -> (r: Vec<&'a str>)
    ensures
        views(r@) == words(s@),
{
    let len = s.unicode_len();
    let mut r: Vec<&'a str> = Vec::new();
    let mut pos: usize = 0;
    assert(s@.skip(0) =~= s@);
    loop
        invariant
            len == s@.len(),
            pos <= len,
            words(s@) == views(r@).add(words(s@.skip(pos as int))),
        decreases len - pos,
    {
        let n = count_class_from(s, len, pos, true);
        let a = pos + n;
        if a == len {
            proof {
                lemma_words_end(s@, pos as int, a as int);
                assert(views(r@).add(Seq::<Seq<char>>::empty()) =~= views(r@));
            }
            return r;
        }
        let m = count_class_from(s, len, a, false);
        let b = a + m;
        proof {
            lemma_words_step(s@, pos as int, a as int, b as int);
            lemma_lead_len(s@.skip(a as int), non_ws_pred());
            assert(!ws_pred()(s@.skip(pos as int)[n as int]));
            assert(s@.skip(pos as int)[n as int] == s@.skip(a as int)[0]);
            assert(non_ws_pred()(s@.skip(a as int)[0]));
        }
        let w = s.substring_char(a, b);
        let ghost old_r = r@;
        r.push(w);
        proof {
            assert(views(r@) =~= views(old_r).push(w@));
            assert(views(r@).add(words(s@.skip(b as int))) =~= views(old_r).add(
                seq![s@.subrange(a as int, b as int)].add(words(s@.skip(b as int))),
            ));
        }
        pos = b;
    }
}

pub open spec fn is_digit(c: char) -> bool {
    '0' <= c <= '9'
}

pub open spec fn all_digits(s: Seq<char>) -> bool {
    forall|i: int| 0 <= i < s.len() ==> #[trigger] is_digit(s[i])
}

/// The value of a string of decimal digits.
pub open spec fn decimal_value(s: Seq<char>) -> nat
    decreases s.len(),
{
    if s.len() == 0 {
        0
    } else {
        decimal_value(s.drop_last()) * 10 + ((s.last() as u32 - '0' as u32) as nat)
    }
}

/// What `str::parse` gives for an unsigned integer type whose largest value
/// is `max`: an optional `+`, then at least one decimal digit, and a value
/// that fits.
pub open spec fn parse_unsigned(s: Seq<char>, max: nat) -> Option<nat> {
    let d = if s.len() > 0 && s[0] == '+' {
        s.drop_first()
    } else {
        s
    };
    if d.len() > 0 && all_digits(d) && decimal_value(d) <= max {
        Some(decimal_value(d))
    } else {
        None
    }
}

proof fn lemma_decimal_prefix(s: Seq<char>, i: int)
    requires
        0 <= i <= s.len(),
        all_digits(s),
    ensures
        decimal_value(s.take(i)) <= decimal_value(s),
    decreases s.len(),
{
    if i < s.len() {
        let t = s.drop_last();
        assert(all_digits(t)) by {
            assert forall|j: int| 0 <= j < t.len() implies #[trigger] is_digit(t[j]) by {
                assert(t[j] == s[j]);
            }
        }
        lemma_decimal_prefix(t, i);
        assert(t.take(i) =~= s.take(i));
    } else {
        assert(s.take(i) =~= s);
    }
}

fn parse_unsigned_str(s: &str, max: u64) -> (r: Option<u64>)
    ensures
        match r {
            Some(v) => parse_unsigned(s@, max as nat) == Some(v as nat),
            None => parse_unsigned(s@, max as nat) is None,
        },
{
    let len = s.unicode_len();
    let mut i: usize = 0;
    if len > 0 && s.get_char(0) == '+' {
        i = 1;
    }
    let ghost d = if s@.len() > 0 && s@[0] == '+' {
        s@.drop_first()
    } else {
        s@
    };
    let start = i;
    assert(d =~= s@.skip(start as int));
    if start == len {
        return None;
    }
    let mut acc: u64 = 0;
    while i < len
        invariant
            len == s@.len(),
            start <= i <= len,
            d == s@.skip(start as int),
            d == (if s@.len() > 0 && s@[0] == '+' {
                s@.drop_first()
            } else {
                s@
            }),
            d.len() > 0,
            acc as nat == decimal_value(d.take(i - start)),
            acc <= max,
            all_digits(d.take(i - start)),
        decreases len - i,
    {
        let c = s.get_char(i);
        let ghost k = (i - start) as int;
        assert(d[k] == c);
        assert(d.take(k + 1).drop_last() =~= d.take(k));
        if !('0' <= c && c <= '9') {
            assert(!is_digit(d[k]));
            assert(!all_digits(d));
            return None;
        }
        let digit = (c as u32 - '0' as u32) as u64;
        assert(all_digits(d.take(k + 1))) by {
            assert forall|j: int| 0 <= j < k + 1 implies #[trigger] is_digit(d.take(k + 1)[j]) by {
                if j < k {
                    assert(d.take(k + 1)[j] == d.take(k)[j]);
                }
            }
        }
        if digit > max || acc > (max - digit) / 10 {
            proof {
                assert(decimal_value(d.take(k + 1)) == acc * 10 + digit);
                if digit <= max {
                    assert(acc * 10 + digit > max) by (nonlinear_arith)
                        requires
                            acc > (max - digit) / 10,
                            digit <= max,
                    ;
                }
                assert(decimal_value(d.take(k + 1)) > max);
                if all_digits(d) {
                    lemma_decimal_prefix(d, k + 1);
                }
            }
            return None;
        }
        assert(acc * 10 + digit <= max) by (nonlinear_arith)
            requires
                acc <= (max - digit) / 10,
                digit <= max,
        ;
        acc = acc * 10 + digit;
        i = i + 1;
    }
    assert(d.take(len - start) =~= d);
    Some(acc)
}

/// `s.parse::<u8>()`, as an `Option`.
pub fn parse_u8(s: &str) -> (r: Option<u8>)
    ensures
        match r {
            Some(v) => parse_unsigned(s@, u8::MAX as nat) == Some(v as nat),
            None => parse_unsigned(s@, u8::MAX as nat) is None,
        },
{
    match parse_unsigned_str(s, u8::MAX as u64) {
        Some(v) => Some(v as u8),
        None => None,
    }
}

/// `s.parse::<u16>()`, as an `Option`.
pub fn parse_u16(s: &str) -> (r: Option<u16>)
    ensures
        match r {
            Some(v) => parse_unsigned(s@, u16::MAX as nat) == Some(v as nat),
            None => parse_unsigned(s@, u16::MAX as nat) is None,
        },
{
    match parse_unsigned_str(s, u16::MAX as u64) {
        Some(v) => Some(v as u16),
        None => None,
    }
}

/// `s.parse::<u32>()`, as an `Option`.
pub fn parse_u32(s: &str) -> (r: Option<u32>)
    ensures
        match r {
            Some(v) => parse_unsigned(s@, u32::MAX as nat) == Some(v as nat),
            None => parse_unsigned(s@, u32::MAX as nat) is None,
        },
{
    match parse_unsigned_str(s, u32::MAX as u64) {
        Some(v) => Some(v as u32),
        None => None,
    }
}

/// `s.parse::<usize>()`, as an `Option`.
pub fn parse_usize(s: &str) -> (r: Option<usize>)
    ensures
        match r {
            Some(v) => parse_unsigned(s@, usize::MAX as nat) == Some(v as nat),
            None => parse_unsigned(s@, usize::MAX as nat) is None,
        },
{
    match parse_unsigned_str(s, usize::MAX as u64) {
        Some(v) => Some(v as usize),
        None => None,
    }
}

/// A match that `find_from` gives stands at or after where it starts.
pub proof fn lemma_find_from_found(s: Seq<char>, p: Seq<char>, i: int)
    ensures
        find_from(s, p, i) matches Some(j) ==> i <= j && occurs_at(s, p, j),
    decreases s.len() + 1 - i,
{
    if !(i < 0 || i + p.len() > s.len()) && !occurs_at(s, p, i) {
        lemma_find_from_found(s, p, i + 1);
    }
}

/// The pieces of `s` between the occurrences of the non-empty pattern `p`
/// (`str::split` with a `&str` pattern).
pub open spec fn split_on(s: Seq<char>, p: Seq<char>) -> Seq<Seq<char>>
    decreases s.len(),
{
    if p.len() == 0 {
        seq![s]
    } else {
        match find(s, p) {
            None => seq![s],
            Some(i) => {
                proof {
                    lemma_find_from_found(s, p, 0);
                }
                seq![s.take(i)] + split_on(s.skip(i + p.len()), p)
            },
        }
    }
}

/// `s.split(p).collect()`, for a non-empty `p`.
pub fn split_on_str<'a>(s: &'a str, p: &str) -> (r: Vec<&'a str>)
    requires
        p@.len() > 0,
    ensures
        views(r@) == split_on(s@, p@),
{
    let mut r: Vec<&'a str> = Vec::new();
    let mut rest = s;
    let pl = p.unicode_len();
    proof {
        assert(views(r@) + split_on(rest@, p@) =~= split_on(s@, p@));
    }
    loop
        invariant
            pl == p@.len(),
            pl > 0,
            views(r@) + split_on(rest@, p@) == split_on(s@, p@),
        decreases rest@.len(),
    {
        match find_str(rest, p) {
            None => {
                let ghost before = views(r@);
                r.push(rest);
                proof {
                    assert(views(r@) =~= before.push(rest@));
                    assert(split_on(rest@, p@) == seq![rest@]);
                    assert(views(r@) =~= split_on(s@, p@));
                }
                return r;
            },
            Some(i) => {
                proof {
                    lemma_find_from_found(rest@, p@, 0);
                }
                let n = rest.unicode_len();
                let piece = rest.substring_char(0, i);
                let tail = rest.substring_char(i + pl, n);
                let ghost before = views(r@);
                proof {
                    assert(piece@ =~= rest@.take(i as int));
                    assert(tail@ =~= rest@.skip(i + p@.len()));
                    assert(split_on(rest@, p@) == seq![piece@] + split_on(tail@, p@));
                }
                r.push(piece);
                proof {
                    assert(views(r@) =~= before.push(piece@));
                    assert(views(r@) + split_on(tail@, p@) =~= before + (seq![piece@] + split_on(tail@, p@)));
                }
                rest = tail;
            },
        }
    }
}

/// `s.contains(c)`.
pub fn contains_char(s: &str, c: char) -> (b: bool)
    ensures
        b == s@.contains(c),
{
    let n = s.unicode_len();
    let mut i: usize = 0;
    while i < n
        invariant
            n == s@.len(),
            0 <= i <= n,
            forall|j: int| 0 <= j < i ==> s@[j] != c,
        decreases n - i,
    {
        if s.get_char(i) == c {
            return true;
        }
        i = i + 1;
    }
    false
}

/// `a == b`.
pub fn str_eq(a: &str, b: &str) -> (r: bool)
    ensures
        r == (a@ == b@),
{
    let n = a.unicode_len();
    if n != b.unicode_len() {
        return false;
    }
    let mut i: usize = 0;
    while i < n
        invariant
            n == a@.len(),
            n == b@.len(),
            0 <= i <= n,
            forall|j: int| 0 <= j < i ==> a@[j] == b@[j],
        decreases n - i,
    {
        if a.get_char(i) != b.get_char(i) {
            return false;
        }
        i = i + 1;
    }
    assert(a@ =~= b@);
    true
}

/// The elements of `v` from `start` on.
pub fn tail_from<'a>(v: &Vec<&'a str>, start: usize) -> (r: Vec<&'a str>)
    requires
        start <= v@.len(),
    ensures
        r@ == v@.skip(start as int),
{
    let mut r: Vec<&'a str> = Vec::new();
    let mut j: usize = start;
    while j < v.len()
        invariant
            start <= j <= v@.len(),
            r@ == v@.subrange(start as int, j as int),
        decreases v@.len() - j,
    {
        r.push(v[j]);
        assert(r@ =~= v@.subrange(start as int, j + 1));
        j = j + 1;
    }
    assert(r@ =~= v@.skip(start as int));
    r
}

} // verus!

verus! {

/// The decimal digit `d` as a character.
pub open spec fn digit_char(d: nat) -> char {
    if d == 0 {
        '0'
    } else if d == 1 {
        '1'
    } else if d == 2 {
        '2'
    } else if d == 3 {
        '3'
    } else if d == 4 {
        '4'
    } else if d == 5 {
        '5'
    } else if d == 6 {
        '6'
    } else if d == 7 {
        '7'
    } else if d == 8 {
        '8'
    } else {
        '9'
    }
}

/// `n` written in decimal (`format!("{}", n)`).
pub open spec fn decimal(n: nat) -> Seq<char>
    decreases n,
{
    if n < 10 {
        seq![digit_char(n)]
    } else {
        decimal(n / 10) + seq![digit_char(n % 10)]
    }
}

/// Appends `n` in decimal to `s`.
pub fn push_decimal(s: &mut String, n: usize)
    ensures
        final(s)@ == old(s)@ + decimal(n as nat),
    decreases n,
{
    if n >= 10 {
        push_decimal(s, n / 10);
    }
    let d = n % 10;
    proof {
        reveal_strlit("0");
        reveal_strlit("1");
        reveal_strlit("2");
        reveal_strlit("3");
        reveal_strlit("4");
        reveal_strlit("5");
        reveal_strlit("6");
        reveal_strlit("7");
        reveal_strlit("8");
        reveal_strlit("9");
    }
    let t = if d == 0 {
        "0"
    } else if d == 1 {
        "1"
    } else if d == 2 {
        "2"
    } else if d == 3 {
        "3"
    } else if d == 4 {
        "4"
    } else if d == 5 {
        "5"
    } else if d == 6 {
        "6"
    } else if d == 7 {
        "7"
    } else if d == 8 {
        "8"
    } else {
        "9"
    };
    assert(t@ =~= seq![digit_char(d as nat)]);
    s.append(t);
    proof {
        if n >= 10 {
            assert(old(s)@ + decimal((n / 10) as nat) + seq![digit_char(d as nat)] =~= old(s)@ + decimal(
                n as nat,
            ));
        } else {
            assert(old(s)@ + seq![digit_char(d as nat)] =~= old(s)@ + decimal(n as nat));
        }
    }
}

/// `n` written in decimal.
pub fn usize_text(n: usize) -> (r: String)
    ensures
        r@ == decimal(n as nat),
{
    let mut s = String::new();
    push_decimal(&mut s, n);
    assert(Seq::<char>::empty() + decimal(n as nat) =~= decimal(n as nat));
    s
}

} // verus!

verus! {

/// The separators of a split: the character `c`, or (where `upper`) the
/// capital letters `A` to `Z`.
pub open spec fn sep_pred(upper: bool, c: char) -> spec_fn(char) -> bool {
    |x: char| if upper { 'A' <= x <= 'Z' } else { x == c }
}

pub open spec fn non_sep_pred(upper: bool, c: char) -> spec_fn(char) -> bool {
    |x: char| !sep_pred(upper, c)(x)
}

/// The pieces of `s` between separators (`str::split`): empty pieces kept,
/// and one piece at least.
pub open spec fn split_by(s: Seq<char>, upper: bool, c: char) -> Seq<Seq<char>>
    decreases s.len(),
{
    let n = lead_len(s, non_sep_pred(upper, c));
    proof {
        lemma_lead_len(s, non_sep_pred(upper, c));
    }
    if n >= s.len() {
        seq![s]
    } else {
        seq![s.take(n as int)] + split_by(s.skip(n + 1 as int), upper, c)
    }
}

fn is_sep(x: char, upper: bool, c: char) -> (b: bool)
    ensures
        b == sep_pred(upper, c)(x),
{
    if upper {
        'A' <= x && x <= 'Z'
    } else {
        x == c
    }
}

/// `s.split(c)` (or, where `upper`, `s.split(|x| ('A'..='Z').contains(&x))`), collected.
pub fn split_str<'a>(s: &'a str, upper: bool, c: char) -> (r: Vec<&'a str>)
    ensures
        views(r@) == split_by(s@, upper, c),
{
    let len = s.unicode_len();
    let mut r: Vec<&'a str> = Vec::new();
    let mut pos: usize = 0;
    assert(s@.skip(0) =~= s@);
    loop
        invariant
            len == s@.len(),
            pos <= len,
            views(r@) + split_by(s@.skip(pos as int), upper, c) == split_by(s@, upper, c),
        decreases len - pos,
    {
        let ghost t = s@.skip(pos as int);
        let mut i: usize = pos;
        while i < len && !is_sep(s.get_char(i), upper, c)
            invariant
                len == s@.len(),
                pos <= i <= len,
                t == s@.skip(pos as int),
                forall|j: int| 0 <= j < i - pos ==> #[trigger] non_sep_pred(upper, c)(t[j]),
            decreases len - i,
        {
            assert(t[i - pos] == s@[i as int]);
            i = i + 1;
        }
        proof {
            lemma_lead_len(t, non_sep_pred(upper, c));
            if i < len {
                assert(t[i - pos] == s@[i as int]);
            }
            lemma_lead_count_unique(t, non_sep_pred(upper, c), i - pos, lead_len(t, non_sep_pred(upper, c)) as int);
        }
        let piece = s.substring_char(pos, i);
        let ghost prev = r@;
        r.push(piece);
        proof {
            assert(piece@ =~= t.take(i - pos));
            assert(views(r@) =~= views(prev).push(piece@));
        }
        if i >= len {
            proof {
                assert(split_by(t, upper, c) == seq![t]);
                assert(t.take(i - pos) =~= t);
                assert(views(r@) =~= views(prev) + split_by(t, upper, c));
            }
            return r;
        }
        proof {
            assert(t.skip(i - pos + 1) =~= s@.skip(i + 1));
            assert(views(r@) + split_by(s@.skip(i + 1), upper, c) =~= views(prev) + split_by(t, upper, c));
        }
        pos = i + 1;
    }
}

} // verus!

verus! {

/// The value of a hexadecimal digit (either case).
pub open spec fn hex_digit(c: char) -> Option<nat> {
    if '0' <= c <= '9' {
        Some((c as u32 - '0' as u32) as nat)
    } else if 'a' <= c <= 'f' {
        Some((c as u32 - 'a' as u32 + 10) as nat)
    } else if 'A' <= c <= 'F' {
        Some((c as u32 - 'A' as u32 + 10) as nat)
    } else {
        None
    }
}

pub open spec fn all_hex_digits(s: Seq<char>) -> bool {
    forall|i: int| 0 <= i < s.len() ==> #[trigger] hex_digit(s[i]) is Some
}

/// The value of a string of hexadecimal digits.
pub open spec fn hex_value(s: Seq<char>) -> nat
    decreases s.len(),
{
    if s.len() == 0 {
        0
    } else {
        hex_value(s.drop_last()) * 16 + hex_digit(s.last()).unwrap()
    }
}

/// What `u32::from_str_radix(s, 16)` gives: an optional `+`, then at least
/// one hexadecimal digit, and a value that fits.
pub open spec fn parse_hex_u32(s: Seq<char>) -> Option<nat> {
    let d = if s.len() > 0 && s[0] == '+' {
        s.drop_first()
    } else {
        s
    };
    if d.len() > 0 && all_hex_digits(d) && hex_value(d) <= u32::MAX {
        Some(hex_value(d))
    } else {
        None
    }
}

proof fn lemma_hex_prefix(s: Seq<char>, i: int)
    requires
        0 <= i <= s.len(),
        all_hex_digits(s),
    ensures
        hex_value(s.take(i)) <= hex_value(s),
    decreases s.len(),
{
    if i < s.len() {
        let t = s.drop_last();
        assert(all_hex_digits(t)) by {
            assert forall|j: int| 0 <= j < t.len() implies #[trigger] hex_digit(t[j]) is Some by {
                assert(t[j] == s[j]);
            }
        }
        lemma_hex_prefix(t, i);
        assert(t.take(i) =~= s.take(i));
    } else {
        assert(s.take(i) =~= s);
    }
}

/// `u32::from_str_radix(s, 16)`, as an `Option`.
pub fn parse_hex(s: &str) -> (r: Option<u32>)
    ensures
        match r {
            Some(v) => parse_hex_u32(s@) == Some(v as nat),
            None => parse_hex_u32(s@) is None,
        },
{
    let len = s.unicode_len();
    let mut i: usize = 0;
    if len > 0 && s.get_char(0) == '+' {
        i = 1;
    }
    let ghost d = if s@.len() > 0 && s@[0] == '+' {
        s@.drop_first()
    } else {
        s@
    };
    let start = i;
    assert(d =~= s@.skip(start as int));
    if start == len {
        return None;
    }
    let mut acc: u64 = 0;
    while i < len
        invariant
            len == s@.len(),
            start <= i <= len,
            d == s@.skip(start as int),
            d == (if s@.len() > 0 && s@[0] == '+' {
                s@.drop_first()
            } else {
                s@
            }),
            d.len() > 0,
            acc as nat == hex_value(d.take(i - start)),
            acc <= u32::MAX,
            all_hex_digits(d.take(i - start)),
        decreases len - i,
    {
        let c = s.get_char(i);
        let ghost k = (i - start) as int;
        assert(d[k] == c);
        assert(d.take(k + 1).drop_last() =~= d.take(k));
        let digit: u64 = if '0' <= c && c <= '9' {
            (c as u32 - '0' as u32) as u64
        } else if 'a' <= c && c <= 'f' {
            (c as u32 - 'a' as u32 + 10) as u64
        } else if 'A' <= c && c <= 'F' {
            (c as u32 - 'A' as u32 + 10) as u64
        } else {
            assert(hex_digit(d[k]) is None);
            assert(!all_hex_digits(d));
            return None;
        };
        assert(hex_digit(c) == Some(digit as nat));
        assert(all_hex_digits(d.take(k + 1))) by {
            assert forall|j: int| 0 <= j < k + 1 implies #[trigger] hex_digit(d.take(k + 1)[j]) is Some by {
                if j < k {
                    assert(d.take(k + 1)[j] == d.take(k)[j]);
                }
            }
        }
        assert(hex_value(d.take(k + 1)) == acc * 16 + digit);
        if acc * 16 + digit > 0xffff_ffff {
            proof {
                if all_hex_digits(d) {
                    lemma_hex_prefix(d, k + 1);
                }
            }
            return None;
        }
        acc = acc * 16 + digit;
        i = i + 1;
    }
    assert(d.take(len - start) =~= d);
    Some(acc as u32)
}

/// What `str::parse::<i32>` gives: an optional sign, then at least one
/// decimal digit, and a value that fits.
pub open spec fn parse_i32_spec(s: Seq<char>) -> Option<int> {
    if s.len() > 0 && s[0] == '-' {
        let d = s.drop_first();
        if d.len() > 0 && all_digits(d) && decimal_value(d) <= 0x8000_0000 {
            Some(-(decimal_value(d) as int))
        } else {
            None
        }
    } else {
        match parse_unsigned(s, 0x7fff_ffff) {
            Some(v) => Some(v as int),
            None => None,
        }
    }
}

/// `s.parse::<i32>()`, as an `Option`.
pub fn parse_i32(s: &str) -> (r: Option<i32>)
    ensures
        match r {
            Some(v) => parse_i32_spec(s@) == Some(v as int),
            None => parse_i32_spec(s@) is None,
        },
{
    let len = s.unicode_len();
    if len > 0 && s.get_char(0) == '-' {
        let rest = s.substring_char(1, len);
        assert(rest@ =~= s@.drop_first());
        if len > 1 && rest.get_char(0) == '+' {
            assert(!is_digit(rest@[0]));
            return None;
        }
        match parse_unsigned_str(rest, 0x8000_0000) {
            Some(v) => {
                let neg: i64 = -(v as i64);
                Some(neg as i32)
            },
            None => None,
        }
    } else {
        match parse_unsigned_str(s, 0x7fff_ffff) {
            Some(v) => Some(v as i32),
            None => None,
        }
    }
}

} // verus!
