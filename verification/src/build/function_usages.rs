//! Which functions a mod's sources call: those of the game (external), the
//! mod's own, and generic ones reached through proxies; and the tables of
//! invokers, generic functions and adjustor thunks that a mod needs, each
//! entry numbered in the order it was first asked for.
use crate::build::parser::{has_prefix, table_lines, table_rows, LineCursor};
use crate::error::{Error, Fault, Outcome};
use crate::text::{
    before_char, before_char_str, decimal, find, find_str, lines, lines_of, push_decimal,
    split_whitespace, starts_with, trim, trim_end_char, trim_end_matches_char, trim_ws, views,
    words,
};
use std::collections::HashMap;
use vstd::hash_map::StringHashMap;
use vstd::hash_set::StringHashSet;
use vstd::prelude::*;

verus! {

broadcast use vstd::std_specs::hash::group_hash_axioms;

/// A numbering of indices: `required` lists them in the order they were
/// first added, and `map` gives each its position there.
pub open spec fn numbering_wf(map: Map<usize, usize>, required: Seq<usize>) -> bool {
    &&& forall|k: usize| #[trigger]
        map.contains_key(k) ==> map[k] < required.len() && required[map[k] as int] == k
    &&& forall|i: int| 0 <= i < required.len() ==> #[trigger] map.contains_key(required[i])
        && map[required[i]] == i
}

/// The position of `idx` in the numbering, adding it at the end where it is
/// not numbered yet.
pub fn add_numbered(map: &mut HashMap<usize, usize>, required: &mut Vec<usize>, idx: usize) -> (r:
    usize)
    requires
        numbering_wf(old(map)@, old(required)@),
    ensures
        numbering_wf(final(map)@, final(required)@),
        old(map)@.contains_key(idx) ==> r == old(map)@[idx] && final(map)@ == old(map)@
            && final(required)@ == old(required)@,
        !old(map)@.contains_key(idx) ==> r == old(required)@.len() && final(required)@ == old(
            required,
        )@.push(idx) && final(map)@ == old(map)@.insert(idx, r),
        r < final(required)@.len(),
        final(required)@[r as int] == idx,
{
    match map.get(&idx) {
        Some(v) => *v,
        None => {
            let new_idx = required.len();
            required.push(idx);
            map.insert(idx, new_idx);
            proof {
                let m = map@;
                let q = required@;
                assert forall|k: usize| #[trigger] m.contains_key(k) implies m[k] < q.len()
                    && q[m[k] as int] == k by {
                    if k != idx {
                        assert(old(map)@.contains_key(k));
                    }
                }
                assert forall|i: int| 0 <= i < q.len() implies #[trigger] m.contains_key(q[i])
                    && m[q[i]] == i by {
                    if i < q.len() - 1 {
                        assert(q[i] == old(required)@[i]);
                        assert(old(map)@.contains_key(q[i]));
                        assert(q[i] != idx);
                    }
                }
            }
            new_idx
        },
    }
}

/// Numbering the same index twice gives the same position and changes
/// nothing the second time; two indices that differ get positions that
/// differ.
pub proof fn lemma_numbering_stable(
    map: Map<usize, usize>,
    required: Seq<usize>,
    a: usize,
    b: usize,
)
    requires
        numbering_wf(map, required),
        map.contains_key(a),
        map.contains_key(b),
    ensures
        a != b ==> map[a] != map[b],
        required[map[a] as int] == a,
{
}

/// A forward declaration map, by its texts.
pub open spec fn decl_texts(m: Map<Seq<char>, String>) -> Map<Seq<char>, Seq<char>> {
    m.map_values(|v: String| v@)
}

/// `m` with the declarations `ds` inserted in order.
pub open spec fn insert_decls(m: Map<Seq<char>, Seq<char>>, ds: Seq<(Seq<char>, Seq<char>)>) -> Map<Seq<char>, Seq<char>>
    decreases ds.len(),
{
    if ds.len() == 0 {
        m
    } else {
        insert_decls(m, ds.drop_last()).insert(ds.last().0, ds.last().1)
    }
}

pub struct ModFunctionUsages {
    /// Mapping from name to method def metadata idx
    pub external_methods: StringHashMap<usize>,
    pub mod_functions: StringHashSet,
    pub forward_decls: StringHashMap<String>,
    pub generic_proxies: StringHashMap<String>,
    /// Usages of the module sources, not from generic sources
    pub using_gshared: StringHashSet,
    /// from generic and module sources
    pub using_external: StringHashSet,
    /// These are from generic sources only and require fd
    pub generic_using_fns: StringHashSet,
    pub required_invokers: Vec<usize>,
    pub invokers_map: HashMap<usize, usize>,
    pub required_generic_funcs: Vec<usize>,
    pub generic_func_map: HashMap<usize, usize>,
    pub required_generic_adj_thunks: Vec<usize>,
    pub generic_adj_thunk_map: HashMap<usize, usize>,
}

impl ModFunctionUsages {
    /// The three numberings agree with their lists.
    pub open spec fn wf(&self) -> bool {
        &&& numbering_wf(self.invokers_map@, self.required_invokers@)
        &&& numbering_wf(self.generic_func_map@, self.required_generic_funcs@)
        &&& numbering_wf(self.generic_adj_thunk_map@, self.required_generic_adj_thunks@)
    }

    /// Everything but the three numberings is the same in `self` and `other`.
    pub open spec fn same_names(&self, other: &Self) -> bool {
        &&& self.external_methods@ == other.external_methods@
        &&& self.mod_functions@ == other.mod_functions@
        &&& self.forward_decls@ == other.forward_decls@
        &&& self.generic_proxies@ == other.generic_proxies@
        &&& self.using_gshared@ == other.using_gshared@
        &&& self.using_external@ == other.using_external@
        &&& self.generic_using_fns@ == other.generic_using_fns@
    }

    /// Everything but the named numbering is the same in `self` and `other`.
    pub open spec fn same_but_invokers(&self, other: &Self) -> bool {
        &&& self.same_names(other)
        &&& self.required_generic_funcs@ == other.required_generic_funcs@
        &&& self.generic_func_map@ == other.generic_func_map@
        &&& self.required_generic_adj_thunks@ == other.required_generic_adj_thunks@
        &&& self.generic_adj_thunk_map@ == other.generic_adj_thunk_map@
    }

    pub open spec fn same_but_generic_funcs(&self, other: &Self) -> bool {
        &&& self.same_names(other)
        &&& self.required_invokers@ == other.required_invokers@
        &&& self.invokers_map@ == other.invokers_map@
        &&& self.required_generic_adj_thunks@ == other.required_generic_adj_thunks@
        &&& self.generic_adj_thunk_map@ == other.generic_adj_thunk_map@
    }

    pub open spec fn same_but_adj_thunks(&self, other: &Self) -> bool {
        &&& self.same_names(other)
        &&& self.required_invokers@ == other.required_invokers@
        &&& self.invokers_map@ == other.invokers_map@
        &&& self.required_generic_funcs@ == other.required_generic_funcs@
        &&& self.generic_func_map@ == other.generic_func_map@
    }

    /// An empty set of usages.
    pub fn new() -> (r: Self)
        ensures
            r.wf(),
            r.external_methods@ == Map::<Seq<char>, usize>::empty(),
            r.mod_functions@ == Set::<Seq<char>>::empty(),
            r.forward_decls@ == Map::<Seq<char>, String>::empty(),
            r.generic_proxies@ == Map::<Seq<char>, String>::empty(),
            r.using_gshared@ == Set::<Seq<char>>::empty(),
            r.using_external@ == Set::<Seq<char>>::empty(),
            r.generic_using_fns@ == Set::<Seq<char>>::empty(),
            r.required_invokers@ == Seq::<usize>::empty(),
            r.required_generic_funcs@ == Seq::<usize>::empty(),
            r.required_generic_adj_thunks@ == Seq::<usize>::empty(),
    {
        let r = ModFunctionUsages {
            external_methods: StringHashMap::new(),
            mod_functions: StringHashSet::new(),
            forward_decls: StringHashMap::new(),
            generic_proxies: StringHashMap::new(),
            using_gshared: StringHashSet::new(),
            using_external: StringHashSet::new(),
            generic_using_fns: StringHashSet::new(),
            required_invokers: Vec::new(),
            invokers_map: HashMap::new(),
            required_generic_funcs: Vec::new(),
            generic_func_map: HashMap::new(),
            required_generic_adj_thunks: Vec::new(),
            generic_adj_thunk_map: HashMap::new(),
        };
        r
    }

    /// The position of invoker `idx` in the mod's invoker table, added at
    /// the end where it is not there yet.
    pub fn add_invoker(&mut self, idx: usize) -> (r: usize)
        requires
            old(self).wf(),
        ensures
            final(self).wf(),
            final(self).same_but_invokers(old(self)),
            old(self).invokers_map@.contains_key(idx) ==> r == old(self).invokers_map@[idx]
                && final(self).required_invokers@ == old(self).required_invokers@,
            !old(self).invokers_map@.contains_key(idx) ==> r == old(self).required_invokers@.len()
                && final(self).required_invokers@ == old(self).required_invokers@.push(idx),
            final(self).invokers_map@ == (if old(self).invokers_map@.contains_key(idx) {
                old(self).invokers_map@
            } else {
                old(self).invokers_map@.insert(idx, r)
            }),
            final(self).required_invokers@[r as int] == idx,
            r < final(self).required_invokers@.len(),
    {
        add_numbered(&mut self.invokers_map, &mut self.required_invokers, idx)
    }

    /// The position of generic function `idx` in the mod's generic method
    /// pointer table, added at the end where it is not there yet.
    pub fn add_generic_func(&mut self, idx: usize) -> (r: usize)
        requires
            old(self).wf(),
        ensures
            final(self).wf(),
            final(self).same_but_generic_funcs(old(self)),
            old(self).generic_func_map@.contains_key(idx) ==> r == old(self).generic_func_map@[idx]
                && final(self).required_generic_funcs@ == old(self).required_generic_funcs@,
            !old(self).generic_func_map@.contains_key(idx) ==> r == old(
                self,
            ).required_generic_funcs@.len() && final(self).required_generic_funcs@ == old(
                self,
            ).required_generic_funcs@.push(idx),
            final(self).required_generic_funcs@[r as int] == idx,
            r < final(self).required_generic_funcs@.len(),
    {
        add_numbered(&mut self.generic_func_map, &mut self.required_generic_funcs, idx)
    }

    /// The position of adjustor thunk `idx` in the mod's adjustor thunk
    /// table, added at the end where it is not there yet.
    pub fn add_generic_adj_thunk(&mut self, idx: usize) -> (r: usize)
        requires
            old(self).wf(),
        ensures
            final(self).wf(),
            final(self).same_but_adj_thunks(old(self)),
            old(self).generic_adj_thunk_map@.contains_key(idx) ==> r == old(
                self,
            ).generic_adj_thunk_map@[idx] && final(self).required_generic_adj_thunks@ == old(
                self,
            ).required_generic_adj_thunks@,
            !old(self).generic_adj_thunk_map@.contains_key(idx) ==> r == old(
                self,
            ).required_generic_adj_thunks@.len() && final(self).required_generic_adj_thunks@
                == old(self).required_generic_adj_thunks@.push(idx),
            final(self).required_generic_adj_thunks@[r as int] == idx,
            r < final(self).required_generic_adj_thunks@.len(),
    {
        add_numbered(&mut self.generic_adj_thunk_map, &mut self.required_generic_adj_thunks, idx)
    }
}

} // verus!

verus! {

/// A word that opens a parameter list.
pub open spec fn opens_paren(word: Seq<char>) -> bool {
    word.len() > 0 && word[0] == '('
}

/// The position of the first word that opens a parameter list (the number
/// of words where none does).
pub open spec fn first_opening(w: Seq<Seq<char>>) -> int
    decreases w.len(),
{
    if w.len() == 0 || opens_paren(w[0]) {
        0
    } else {
        1 + first_opening(w.drop_first())
    }
}

/// The name a gshared proxy declaration declares: the word before the first
/// that opens a parameter list.
pub open spec fn proxy_name(line: Seq<char>) -> Seq<char> {
    words(line)[first_opening(words(line)) - 1]
}

/// A line that a proxy declaration's name can be read from.
pub open spec fn proxy_decl_ok(line: Seq<char>) -> bool {
    1 <= first_opening(words(line)) < words(line).len()
}

/// The gshared function that a proxy's body calls: in the trimmed line,
/// after the first `))`, up to the next `)`.
pub open spec fn proxy_target(body: Seq<char>) -> Seq<char> {
    let t = trim(body);
    before_char(t.skip(find(t, "))"@).unwrap() + 2), ')')
}

pub(crate) proof fn lemma_first_opening(w: Seq<Seq<char>>, i: int)
    requires
        0 <= i <= w.len(),
        forall|j: int| 0 <= j < i ==> !opens_paren(#[trigger] w[j]),
        i < w.len() ==> opens_paren(w[i]),
    ensures
        first_opening(w) == i,
    decreases i,
{
    if i > 0 {
        let u = w.drop_first();
        assert(!opens_paren(w[0]));
        assert forall|j: int| 0 <= j < i - 1 implies !opens_paren(#[trigger] u[j]) by {
            assert(u[j] == w[j + 1]);
        }
        if i - 1 < u.len() {
            assert(u[i - 1] == w[i]);
        }
        lemma_first_opening(u, i - 1);
    }
}

impl ModFunctionUsages {
    /// Whether a usage can be handled: it names an external method, a
    /// generic proxy or a function of the mod.
    pub open spec fn handles(&self, usage: Seq<char>) -> bool {
        ||| self.external_methods@.contains_key(usage)
        ||| self.generic_proxies@.contains_key(usage)
        ||| self.mod_functions@.contains(usage)
    }

    /// The name a gshared proxy declaration declares.
    pub fn parse_gshared_proxy_decl<'a>(&self, line: &'a str) -> (r: &'a str)
        requires
            proxy_decl_ok(line@),
        ensures
            r@ == proxy_name(line@),
    {
        let w = split_whitespace(line);
        let ghost wv = views(w@);
        proof {
            assert(wv.len() == w@.len());
            reveal_strlit("(");
            assert("("@ =~= seq!['(']);
        }
        let mut i: usize = 0;
        while i < w.len() && !starts_with(w[i], "(")
            invariant
                0 <= i <= w@.len(),
                wv == views(w@),
                wv == words(line@),
                "("@ == seq!['('],
                forall|j: int| 0 <= j < i ==> !opens_paren(#[trigger] wv[j]),
            decreases w@.len() - i,
        {
            proof {
                assert(wv[i as int] == w@[i as int]@);
                if opens_paren(wv[i as int]) {
                    assert(wv[i as int].take(1) =~= seq!['(']);
                }
            }
            i = i + 1;
        }
        proof {
            if i < w@.len() {
                assert(wv[i as int] == w@[i as int]@);
                assert(wv[i as int].take(1)[0] == wv[i as int][0]);
            }
            lemma_first_opening(wv, i as int);
            assert(wv[i - 1] == w@[i - 1]@);
        }
        w[i - 1]
    }

    /// Reads a gshared proxy: its declaration line, then (after one more
    /// line) the line that calls the gshared function; records the proxy.
    pub fn add_gshared_proxy<'a>(&mut self, line: &'a str, lines: &mut LineCursor<'a>)
        requires
            proxy_decl_ok(line@),
            old(lines).pos + 2 <= old(lines).lines@.len(),
            find(trim(old(lines).lines@[old(lines).pos + 1]@), "))"@) is Some,
        ensures
            final(lines).lines@ == old(lines).lines@,
            final(lines).pos == old(lines).pos + 2,
            final(self).generic_proxies@ == old(self).generic_proxies@.insert(
                proxy_name(line@),
                final(self).generic_proxies@[proxy_name(line@)],
            ),
            final(self).generic_proxies@[proxy_name(line@)]@ == proxy_target(
                old(lines).lines@[old(lines).pos + 1]@,
            ),
            final(self).wf() == old(self).wf(),
            final(self).external_methods@ == old(self).external_methods@,
            final(self).mod_functions@ == old(self).mod_functions@,
            final(self).forward_decls@ == old(self).forward_decls@,
            final(self).using_gshared@ == old(self).using_gshared@,
            final(self).using_external@ == old(self).using_external@,
            final(self).generic_using_fns@ == old(self).generic_using_fns@,
            final(self).required_invokers@ == old(self).required_invokers@,
            final(self).invokers_map@ == old(self).invokers_map@,
            final(self).required_generic_funcs@ == old(self).required_generic_funcs@,
            final(self).generic_func_map@ == old(self).generic_func_map@,
            final(self).required_generic_adj_thunks@ == old(self).required_generic_adj_thunks@,
            final(self).generic_adj_thunk_map@ == old(self).generic_adj_thunk_map@,
    {
        let proxy_name = self.parse_gshared_proxy_decl(line);
        let _ = lines.next();
        let body = match lines.next() {
            Some(l) => trim_ws(l),
            None => {
                return;
            },
        };
        proof {
            reveal_strlit("))");
        }
        let pos = match find_str(body, "))") {
            Some(p) => p,
            None => {
                return;
            },
        };
        let len = body.unicode_len();
        assert("))"@.len() == 2);
        let name = before_char_str(body.substring_char(pos + 2, len), ')');
        self.generic_proxies.insert(proxy_name.to_string(), name.to_string());
    }

    /// Records one function that a mod source calls: an external method goes
    /// to `using_external`, a generic proxy's function to `using_gshared`;
    /// a call of none of these, nor of the mod's own, is an error.
    pub fn process_function_usage(&mut self, usage: &str) -> (r: Result<(), Error>)
        ensures
            r is Ok <==> old(self).handles(usage@),
            r matches Err(e) ==> e@ == crate::error::Fault::UnhandledFunctionUsage(usage@),
            final(self).using_external@ == (if old(self).external_methods@.contains_key(usage@) {
                old(self).using_external@.insert(usage@)
            } else {
                old(self).using_external@
            }),
            final(self).using_gshared@ == (if !old(self).external_methods@.contains_key(usage@)
                && old(self).generic_proxies@.contains_key(usage@) {
                old(self).using_gshared@.insert(old(self).generic_proxies@[usage@]@)
            } else {
                old(self).using_gshared@
            }),
            final(self).external_methods@ == old(self).external_methods@,
            final(self).mod_functions@ == old(self).mod_functions@,
            final(self).forward_decls@ == old(self).forward_decls@,
            final(self).generic_proxies@ == old(self).generic_proxies@,
            final(self).generic_using_fns@ == old(self).generic_using_fns@,
            final(self).required_invokers@ == old(self).required_invokers@,
            final(self).invokers_map@ == old(self).invokers_map@,
            final(self).required_generic_funcs@ == old(self).required_generic_funcs@,
            final(self).generic_func_map@ == old(self).generic_func_map@,
            final(self).required_generic_adj_thunks@ == old(self).required_generic_adj_thunks@,
            final(self).generic_adj_thunk_map@ == old(self).generic_adj_thunk_map@,
    {
        if self.external_methods.contains_key(usage) {
            self.using_external.insert(usage.to_string());
        } else if let Some(gshared) = self.generic_proxies.get(usage) {
            if !self.using_gshared.contains(gshared.as_str()) {
                let g = gshared.clone();
                self.using_gshared.insert(g);
            }
        } else if !self.mod_functions.contains(usage) {
            return Err(Error::UnhandledFunctionUsage(usage.to_string()));
        }
        Ok(())
    }
}

} // verus!

verus! {

impl ModFunctionUsages {
    /// The position of the first usage in `us` that cannot be handled (the
    /// length of `us` where all can).
    pub open spec fn first_unhandled(&self, us: Seq<Seq<char>>) -> int
        decreases us.len(),
    {
        if us.len() == 0 || !self.handles(us[0]) {
            0
        } else {
            1 + self.first_unhandled(us.drop_first())
        }
    }

    /// The external methods among `us`.
    pub open spec fn externals_in(&self, us: Seq<Seq<char>>) -> Set<Seq<char>> {
        Set::new(|u: Seq<char>| us.contains(u) && self.external_methods@.contains_key(u))
    }

    /// The gshared functions that the generic proxies among `us` call.
    pub open spec fn gshared_in(&self, us: Seq<Seq<char>>) -> Set<Seq<char>> {
        Set::new(
            |g: Seq<char>|
                exists|i: int|
                    0 <= i < us.len() && !self.external_methods@.contains_key(#[trigger] us[i])
                        && self.generic_proxies@.contains_key(us[i])
                        && self.generic_proxies@[us[i]]@ == g,
        )
    }

    /// Records the usages in order (see `process_function_usage`), stopping
    /// at the first that cannot be handled.
    pub fn process_function_usages(&mut self, usages: &Vec<&str>) -> (r: Result<(), Error>)
        ensures
            ({
                let us = views(usages@);
                let k = old(self).first_unhandled(us);
                &&& 0 <= k <= us.len()
                &&& r is Ok <==> k == us.len()
                &&& r matches Err(e) ==> e@ == crate::error::Fault::UnhandledFunctionUsage(us[k])
                &&& final(self).using_external@ == old(self).using_external@.union(
                    old(self).externals_in(us.take(k)),
                )
                &&& final(self).using_gshared@ == old(self).using_gshared@.union(
                    old(self).gshared_in(us.take(k)),
                )
            }),
            final(self).external_methods@ == old(self).external_methods@,
            final(self).mod_functions@ == old(self).mod_functions@,
            final(self).forward_decls@ == old(self).forward_decls@,
            final(self).generic_proxies@ == old(self).generic_proxies@,
            final(self).generic_using_fns@ == old(self).generic_using_fns@,
            final(self).required_invokers@ == old(self).required_invokers@,
            final(self).invokers_map@ == old(self).invokers_map@,
            final(self).required_generic_funcs@ == old(self).required_generic_funcs@,
            final(self).generic_func_map@ == old(self).generic_func_map@,
            final(self).required_generic_adj_thunks@ == old(self).required_generic_adj_thunks@,
            final(self).generic_adj_thunk_map@ == old(self).generic_adj_thunk_map@,
    {
        let ghost us = views(usages@);
        let ghost s0 = *old(self);
        let mut i: usize = 0;
        proof {
            assert(us.take(0) =~= Seq::<Seq<char>>::empty());
            assert(s0.externals_in(us.take(0)) =~= Set::empty());
            assert(s0.gshared_in(us.take(0)) =~= Set::empty());
            assert(self.using_external@.union(Set::empty()) =~= self.using_external@);
            assert(self.using_gshared@.union(Set::empty()) =~= self.using_gshared@);
        }
        while i < usages.len()
            invariant
                0 <= i <= usages@.len(),
                us == views(usages@),
                s0 == *old(self),
                forall|j: int| 0 <= j < i ==> s0.handles(#[trigger] us[j]),
                self.using_external@ == s0.using_external@.union(s0.externals_in(us.take(i as int))),
                self.using_gshared@ == s0.using_gshared@.union(s0.gshared_in(us.take(i as int))),
                self.external_methods@ == s0.external_methods@,
                self.mod_functions@ == s0.mod_functions@,
                self.forward_decls@ == s0.forward_decls@,
                self.generic_proxies@ == s0.generic_proxies@,
                self.generic_using_fns@ == s0.generic_using_fns@,
                self.required_invokers@ == s0.required_invokers@,
                self.invokers_map@ == s0.invokers_map@,
                self.required_generic_funcs@ == s0.required_generic_funcs@,
                self.generic_func_map@ == s0.generic_func_map@,
                self.required_generic_adj_thunks@ == s0.required_generic_adj_thunks@,
                self.generic_adj_thunk_map@ == s0.generic_adj_thunk_map@,
            decreases usages@.len() - i,
        {
            let u = usages[i];
            proof {
                assert(us[i as int] == u@);
            }
            let res = self.process_function_usage(u);
            proof {
                assert(us.take(i + 1) =~= us.take(i as int).push(u@));
                lemma_usages_push(s0, us.take(i as int), u@);
            }
            match res {
                Ok(()) => {},
                Err(e) => {
                    proof {
                        lemma_first_unhandled(s0, us, i as int);
                        assert(self.using_external@ =~= s0.using_external@.union(
                            s0.externals_in(us.take(i as int)),
                        ));
                        assert(self.using_gshared@ =~= s0.using_gshared@.union(
                            s0.gshared_in(us.take(i as int)),
                        ));
                    }
                    return Err(e);
                },
            }
            proof {
                assert(self.using_external@ =~= s0.using_external@.union(s0.externals_in(us.take(i + 1))));
                assert(self.using_gshared@ =~= s0.using_gshared@.union(s0.gshared_in(us.take(i + 1))));
            }
            i = i + 1;
        }
        proof {
            lemma_first_unhandled(s0, us, i as int);
            assert(us.take(i as int) =~= us);
        }
        Ok(())
    }
}

/// What one more usage adds to the external methods and gshared functions
/// that a list of usages names.
pub(crate) proof fn lemma_usages_push(s0: ModFunctionUsages, t0: Seq<Seq<char>>, u: Seq<char>)
    ensures
        s0.externals_in(t0.push(u)) == s0.externals_in(t0).union(
            if s0.external_methods@.contains_key(u) { set![u] } else { Set::empty() },
        ),
        s0.gshared_in(t0.push(u)) == s0.gshared_in(t0).union(
            if !s0.external_methods@.contains_key(u) && s0.generic_proxies@.contains_key(u) {
                set![s0.generic_proxies@[u]@]
            } else {
                Set::empty()
            },
        ),
{
    let t1 = t0.push(u);
    let i = t0.len() as int;
    assert(s0.externals_in(t1) =~= s0.externals_in(t0).union(
        if s0.external_methods@.contains_key(u) { set![u] } else { Set::empty() },
    )) by {
        assert forall|x: Seq<char>| s0.externals_in(t1).contains(x) <==> (s0.externals_in(t0).union(
            if s0.external_methods@.contains_key(u) { set![u] } else { Set::empty() },
        )).contains(x) by {
            if t1.contains(x) && x != u {
                let j = choose|j: int| 0 <= j < t1.len() && t1[j] == x;
                assert(t0[j] == x);
            }
            if t0.contains(x) {
                let j = choose|j: int| 0 <= j < t0.len() && t0[j] == x;
                assert(t1[j] == x);
            }
            assert(t1[i] == u);
        }
    }
    let gnew = if !s0.external_methods@.contains_key(u) && s0.generic_proxies@.contains_key(u) {
        set![s0.generic_proxies@[u]@]
    } else {
        Set::empty()
    };
    assert(s0.gshared_in(t1) =~= s0.gshared_in(t0).union(gnew)) by {
        assert forall|g: Seq<char>| s0.gshared_in(t1).contains(g) <==> s0.gshared_in(t0).union(gnew).contains(g) by {
            if s0.gshared_in(t1).contains(g) {
                let j = choose|j: int|
                    0 <= j < t1.len() && !s0.external_methods@.contains_key(#[trigger] t1[j])
                        && s0.generic_proxies@.contains_key(t1[j])
                        && s0.generic_proxies@[t1[j]]@ == g;
                if j < i {
                    assert(t0[j] == t1[j]);
                }
            }
            if s0.gshared_in(t0).contains(g) {
                let j = choose|j: int|
                    0 <= j < t0.len() && !s0.external_methods@.contains_key(#[trigger] t0[j])
                        && s0.generic_proxies@.contains_key(t0[j])
                        && s0.generic_proxies@[t0[j]]@ == g;
                assert(t1[j] == t0[j]);
            }
            if gnew.contains(g) {
                assert(t1[i] == u);
            }
        }
    }
}

pub(crate) proof fn lemma_first_unhandled(s: ModFunctionUsages, us: Seq<Seq<char>>, i: int)
    requires
        0 <= i <= us.len(),
        forall|j: int| 0 <= j < i ==> s.handles(#[trigger] us[j]),
        i < us.len() ==> !s.handles(us[i]),
    ensures
        s.first_unhandled(us) == i,
    decreases i,
{
    if i > 0 {
        let u = us.drop_first();
        assert(s.handles(us[0]));
        assert forall|j: int| 0 <= j < i - 1 implies s.handles(#[trigger] u[j]) by {
            assert(u[j] == us[j + 1]);
        }
        if i - 1 < u.len() {
            assert(u[i - 1] == us[i]);
        }
        lemma_first_unhandled(s, u, i - 1);
    }
}

} // verus!

verus! {

/// One line per index of `ks`: `pre`, the name at that index, `post`.
pub open spec fn lines_for(ks: Seq<usize>, names: Seq<Seq<char>>, pre: Seq<char>, post: Seq<char>) -> Seq<
    char,
>
    decreases ks.len(),
{
    if ks.len() == 0 {
        Seq::empty()
    } else {
        lines_for(ks.drop_last(), names, pre, post) + pre + names[ks.last() as int] + post
    }
}

/// Appends one line per index of `ks` (see `lines_for`).
pub fn push_lines_for(s: &mut String, ks: &Vec<usize>, names: &Vec<&str>, pre: &str, post: &str)
    requires
        forall|k: int| 0 <= k < ks@.len() ==> ks@[k] < names@.len(),
    ensures
        final(s)@ == old(s)@ + lines_for(ks@, views(names@), pre@, post@),
{
    let mut i: usize = 0;
    proof {
        assert(ks@.take(0) =~= Seq::<usize>::empty());
        assert(old(s)@ + Seq::<char>::empty() =~= old(s)@);
    }
    while i < ks.len()
        invariant
            0 <= i <= ks@.len(),
            forall|k: int| 0 <= k < ks@.len() ==> ks@[k] < names@.len(),
            s@ == old(s)@ + lines_for(ks@.take(i as int), views(names@), pre@, post@),
        decreases ks@.len() - i,
    {
        let k = ks[i];
        let ghost before = s@;
        s.append(pre);
        s.append(names[k]);
        s.append(post);
        proof {
            let t1 = ks@.take(i + 1);
            assert(t1.drop_last() =~= ks@.take(i as int));
            assert(t1.last() == k);
            assert(views(names@)[k as int] == names@[k as int]@);
            assert(s@ =~= old(s)@ + lines_for(t1, views(names@), pre@, post@));
        }
        i = i + 1;
    }
    proof {
        assert(ks@.take(ks@.len() as int) =~= ks@);
    }
}

/// The lines that open each generated source.
pub open spec fn codegen_header() -> Seq<char> {
    "#include \"codegen/il2cpp-codegen.h\"\n#include \"merge/codegen.h\"\n\n"@
}

/// The mod's generic method pointer table: a declaration of each required
/// function, then the table of their addresses.
pub open spec fn generic_func_table_text(required: Seq<usize>, funcs: Seq<Seq<char>>) -> Seq<char> {
    codegen_header() + lines_for(required, funcs, "IL2CPP_EXTERN_C void "@, " ();\n"@)
        + "extern const Il2CppMethodPointer g_Il2CppGenericMethodPointers[];\n"@
        + "const Il2CppMethodPointer g_Il2CppGenericMethodPointers["@ + decimal(required.len())
        + "] = \n{\n"@ + lines_for(required, funcs, "    (Il2CppMethodPointer)&"@, ",\n"@)
        + "};\n"@
}

/// The mod's generic adjustor thunk table: a declaration of each required
/// thunk, then the table of them.
pub open spec fn adj_thunk_table_text(required: Seq<usize>, methods: Seq<Seq<char>>) -> Seq<char> {
    codegen_header() + lines_for(required, methods, "IL2CPP_EXTERN_C void "@, " ();\n"@)
        + "extern const Il2CppMethodPointer g_Il2CppGenericAdjustorThunks[];\n"@
        + "const Il2CppMethodPointer g_Il2CppGenericAdjustorThunks["@ + decimal(required.len())
        + "] = \n{\n"@ + lines_for(required, methods, "    "@, ",\n"@) + "};\n\n"@
}

/// The adjustor thunks of `g_Il2CppGenericAdjustorThunks` in `src`; none
/// where `src` declares no such table.
pub open spec fn adj_thunks_in(src: Seq<char>) -> Seq<Seq<char>> {
    match table_rows(src, "const Il2CppMethodPointer g_Il2CppGenericAdjustorThunks"@, 3) {
        None => Seq::empty(),
        Some(rows) => rows.map_values(|r: Seq<char>| trim_end_char(trim(r), ',')),
    }
}

/// The entries of a table's rows: each trimmed, without trailing commas.
fn row_entries<'a>(rows: &Vec<&'a str>) -> (r: Vec<&'a str>)
    ensures
        views(r@) == views(rows@).map_values(|x: Seq<char>| trim_end_char(trim(x), ',')),
{
    let ghost rv = views(rows@);
    let mut out: Vec<&'a str> = Vec::new();
    let mut i: usize = 0;
    while i < rows.len()
        invariant
            0 <= i <= rows@.len(),
            rv == views(rows@),
            views(out@) == rv.take(i as int).map_values(|x: Seq<char>| trim_end_char(trim(x), ',')),
        decreases rows@.len() - i,
    {
        let ghost prev = out@;
        out.push(trim_end_matches_char(trim_ws(rows[i]), ','));
        proof {
            assert(rv[i as int] == rows@[i as int]@);
            assert(views(out@) =~= views(prev).push(trim_end_char(trim(rv[i as int]), ',')));
            assert(rv.take(i + 1).map_values(|x: Seq<char>| trim_end_char(trim(x), ',')) =~= rv.take(
                i as int,
            ).map_values(|x: Seq<char>| trim_end_char(trim(x), ',')).push(
                trim_end_char(trim(rv[i as int]), ','),
            ));
        }
        i = i + 1;
    }
    assert(rv.take(rows@.len() as int) =~= rv);
    out
}

/// Reads the adjustor thunks of `Il2CppGenericAdjustorThunkTable.cpp`.
pub fn read_adj_thunks<'a>(src: &'a str) -> (r: Vec<&'a str>)
    ensures
        views(r@) == adj_thunks_in(src@),
{
    proof {
        reveal_strlit("const Il2CppMethodPointer g_Il2CppGenericAdjustorThunks");
    }
    match table_lines(src, "const Il2CppMethodPointer g_Il2CppGenericAdjustorThunks", 3) {
        Some(rows) => row_entries(&rows),
        None => {
            let v: Vec<&'a str> = Vec::new();
            assert(views(v@) =~= Seq::<Seq<char>>::empty());
            v
        },
    }
}

impl ModFunctionUsages {
    /// The source of the mod's generic method pointer table, `funcs` being
    /// the game's (see `generic_func_table_text`).
    pub fn generic_func_table_source(&self, funcs: &Vec<&str>) -> (r: String)
        requires
            forall|k: int|
                0 <= k < self.required_generic_funcs@.len() ==> self.required_generic_funcs@[k]
                    < funcs@.len(),
        ensures
            r@ == generic_func_table_text(self.required_generic_funcs@, views(funcs@)),
    {
        let mut s = String::new();
        s.append("#include \"codegen/il2cpp-codegen.h\"\n#include \"merge/codegen.h\"\n\n");
        push_lines_for(&mut s, &self.required_generic_funcs, funcs, "IL2CPP_EXTERN_C void ", " ();\n");
        s.append("extern const Il2CppMethodPointer g_Il2CppGenericMethodPointers[];\n");
        s.append("const Il2CppMethodPointer g_Il2CppGenericMethodPointers[");
        push_decimal(&mut s, self.required_generic_funcs.len());
        s.append("] = \n{\n");
        push_lines_for(&mut s, &self.required_generic_funcs, funcs, "    (Il2CppMethodPointer)&", ",\n");
        s.append("};\n");
        proof {
            assert(s@ =~= generic_func_table_text(self.required_generic_funcs@, views(funcs@)));
        }
        s
    }

    /// The source of the mod's generic adjustor thunk table, `methods` being
    /// the game's (see `adj_thunk_table_text`).
    pub fn adj_thunk_table_source(&self, methods: &Vec<&str>) -> (r: String)
        requires
            forall|k: int|
                0 <= k < self.required_generic_adj_thunks@.len()
                    ==> self.required_generic_adj_thunks@[k] < methods@.len(),
        ensures
            r@ == adj_thunk_table_text(self.required_generic_adj_thunks@, views(methods@)),
    {
        let mut s = String::new();
        s.append("#include \"codegen/il2cpp-codegen.h\"\n#include \"merge/codegen.h\"\n\n");
        push_lines_for(&mut s, &self.required_generic_adj_thunks, methods, "IL2CPP_EXTERN_C void ", " ();\n");
        s.append("extern const Il2CppMethodPointer g_Il2CppGenericAdjustorThunks[];\n");
        s.append("const Il2CppMethodPointer g_Il2CppGenericAdjustorThunks[");
        push_decimal(&mut s, self.required_generic_adj_thunks.len());
        s.append("] = \n{\n");
        push_lines_for(&mut s, &self.required_generic_adj_thunks, methods, "    ", ",\n");
        s.append("};\n\n");
        proof {
            assert(s@ =~= adj_thunk_table_text(self.required_generic_adj_thunks@, views(methods@)));
        }
        s
    }

    /// The names of the required adjustor thunks, in the order they were
    /// first asked for.
    pub fn required_adj_thunk_names(&self, methods: &Vec<&str>) -> (r: Vec<String>)
        requires
            forall|k: int|
                0 <= k < self.required_generic_adj_thunks@.len()
                    ==> self.required_generic_adj_thunks@[k] < methods@.len(),
        ensures
            r@.len() == self.required_generic_adj_thunks@.len(),
            forall|k: int|
                0 <= k < r@.len() ==> #[trigger] r@[k]@ == methods@[self.required_generic_adj_thunks@[k] as int]@,
    {
        let mut r: Vec<String> = Vec::new();
        let mut i: usize = 0;
        while i < self.required_generic_adj_thunks.len()
            invariant
                0 <= i <= self.required_generic_adj_thunks@.len(),
                forall|k: int|
                    0 <= k < self.required_generic_adj_thunks@.len()
                        ==> self.required_generic_adj_thunks@[k] < methods@.len(),
                r@.len() == i,
                forall|k: int|
                    0 <= k < i ==> #[trigger] r@[k]@ == methods@[self.required_generic_adj_thunks@[k] as int]@,
            decreases self.required_generic_adj_thunks@.len() - i,
        {
            let idx = self.required_generic_adj_thunks[i];
            r.push(methods[idx].to_string());
            i = i + 1;
        }
        r
    }
}

} // verus!

verus! {

/// Each line of `ls` followed by a line break.
pub open spec fn lines_text(ls: Seq<Seq<char>>) -> Seq<char>
    decreases ls.len(),
{
    if ls.len() == 0 {
        Seq::empty()
    } else {
        lines_text(ls.drop_last()) + ls.last() + "\n"@
    }
}

/// The position of the first empty line from `i` on (the number of lines
/// where none is).
pub open spec fn next_empty(ls: Seq<Seq<char>>, i: int) -> int
    decreases ls.len() - i,
{
    if i < 0 || i >= ls.len() {
        ls.len() as int
    } else if ls[i].len() == 0 {
        i
    } else {
        next_empty(ls, i + 1)
    }
}

pub open spec fn invoker_header() -> Seq<char> {
    "const InvokerMethod g_Il2CppInvokerPointers"@
}

/// The mod's invoker table: the required invokers, in order.
pub open spec fn invoker_table_text(required: Seq<usize>, invokers: Seq<Seq<char>>) -> Seq<char> {
    "const InvokerMethod g_Il2CppInvokerPointers["@ + decimal(required.len()) + "] =\n{\n"@
        + lines_for(required, invokers, "    "@, ",\n"@) + "};\n"@
}

/// The invoker source rewritten from line `i` on: an invoker definition
/// (`void* name(...)` up to the next empty line) is kept only where `keep`
/// holds its name; the invoker table is replaced by `table`, and the
/// source ends there; every other line is kept.
pub open spec fn rewrite_invokers(
    ls: Seq<Seq<char>>,
    i: int,
    keep: Set<Seq<char>>,
    table: Seq<char>,
) -> Result<Seq<char>, Fault>
    decreases ls.len() + 1 - i,
{
    if i < 0 || i >= ls.len() {
        Ok(Seq::empty())
    } else {
        let l = ls[i];
        if has_prefix(l, "void*"@) {
            let w = words(l);
            if w.len() < 2 {
                Err(Fault::WeirdFnDef(l))
            } else {
                let e = next_empty(ls, i + 1);
                proof {
                    lemma_next_empty(ls, i + 1);
                }
                let end = if e < ls.len() {
                    e + 1
                } else {
                    e
                };
                let written = if keep.contains(w[1]) {
                    lines_text(ls.subrange(i, end))
                } else {
                    Seq::empty()
                };
                match rewrite_invokers(ls, end, keep, table) {
                    Ok(r) => Ok(written + r),
                    Err(f) => Err(f),
                }
            }
        } else if has_prefix(l, invoker_header()) {
            Ok(table)
        } else {
            match rewrite_invokers(ls, i + 1, keep, table) {
                Ok(r) => Ok(l + "\n"@ + r),
                Err(f) => Err(f),
            }
        }
    }
}

/// The invokers that `required` picks out of `invokers`.
pub open spec fn kept_invokers(required: Seq<usize>, invokers: Seq<Seq<char>>) -> Set<Seq<char>> {
    Set::new(|n: Seq<char>| exists|k: int| 0 <= k < required.len() && invokers[required[k] as int] == n)
}

/// The invokers of `Il2CppInvokerTable.cpp`; an error where it has no
/// invoker table.
pub open spec fn invokers_in(src: Seq<char>) -> Option<Seq<Seq<char>>> {
    match table_rows(src, invoker_header(), 3) {
        None => None,
        Some(rows) => Some(rows.map_values(|r: Seq<char>| trim_end_char(trim(r), ','))),
    }
}

pub fn read_invokers<'a>(src: &'a str) -> (r: Result<Vec<&'a str>, Error>)
    ensures
        match r {
            Ok(v) => invokers_in(src@) == Some(views(v@)),
            Err(e) => invokers_in(src@) is None && e@ == crate::error::Fault::TableNotFound(
                "g_Il2CppInvokerPointers"@,
            ),
        },
{
    match table_lines(src, "const InvokerMethod g_Il2CppInvokerPointers", 3) {
        Some(rows) => Ok(row_entries(&rows)),
        None => Err(Error::TableNotFound("g_Il2CppInvokerPointers".to_string())),
    }
}

pub proof fn lemma_next_empty(ls: Seq<Seq<char>>, i: int)
    requires
        0 <= i,
    ensures
        next_empty(ls, i) <= ls.len() || (i > ls.len() && next_empty(ls, i) == ls.len()),
        i <= ls.len() ==> i <= next_empty(ls, i),
        next_empty(ls, i) < ls.len() ==> ls[next_empty(ls, i)].len() == 0,
        forall|j: int| i <= j < next_empty(ls, i) ==> ls[j].len() != 0,
    decreases ls.len() - i,
{
    if i < ls.len() && ls[i].len() != 0 {
        lemma_next_empty(ls, i + 1);
    }
}

pub open spec fn then_text(out: Seq<char>, r: Result<Seq<char>, Fault>) -> Result<Seq<char>, Fault> {
    match r {
        Ok(t) => Ok(out + t),
        Err(f) => Err(f),
    }
}

impl ModFunctionUsages {
    /// `Il2CppInvokerTable.cpp` rewritten for the mod (see
    /// `rewrite_invokers`): only the invokers it requires, in its own table.
    pub fn invoker_table_source(&self, src: &str, invokers: &Vec<&str>) -> (r: Result<String, Error>)
        requires
            forall|k: int|
                0 <= k < self.required_invokers@.len() ==> self.required_invokers@[k]
                    < invokers@.len(),
        ensures
            ({
                let keep = kept_invokers(self.required_invokers@, views(invokers@));
                let table = invoker_table_text(self.required_invokers@, views(invokers@));
                match r {
                    Ok(s) => rewrite_invokers(lines(src@), 0, keep, table) == Ok::<Seq<char>, Fault>(s@),
                    Err(e) => rewrite_invokers(lines(src@), 0, keep, table) == Err::<Seq<char>, Fault>(e@),
                }
            }),
    {
        let ghost iv = views(invokers@);
        let ghost req = self.required_invokers@;
        let ghost keep = kept_invokers(req, iv);
        let mut keep_set = StringHashSet::new();
        let mut k: usize = 0;
        while k < self.required_invokers.len()
            invariant
                0 <= k <= req.len(),
                req == self.required_invokers@,
                iv == views(invokers@),
                forall|j: int| 0 <= j < req.len() ==> req[j] < invokers@.len(),
                keep_set@ == Set::new(|n: Seq<char>| exists|j: int| 0 <= j < k && iv[req[j] as int] == n),
            decreases req.len() - k,
        {
            let idx = self.required_invokers[k];
            let ghost before = keep_set@;
            keep_set.insert(invokers[idx].to_string());
            proof {
                assert(iv[idx as int] == invokers@[idx as int]@);
                assert(keep_set@ =~= Set::new(|n: Seq<char>| exists|j: int| 0 <= j < k + 1 && iv[req[j] as int] == n)) by {
                    assert forall|n: Seq<char>| keep_set@.contains(n) <==> (exists|j: int| 0 <= j < k + 1 && iv[req[j] as int] == n) by {
                        if n == iv[idx as int] {
                            assert(iv[req[k as int] as int] == n);
                        }
                        if exists|j: int| 0 <= j < k + 1 && iv[req[j] as int] == n {
                            let j = choose|j: int| 0 <= j < k + 1 && iv[req[j] as int] == n;
                            if j < k {
                                assert(before.contains(n));
                            }
                        }
                    }
                }
            }
            k = k + 1;
        }
        proof {
            assert(keep_set@ =~= keep);
        }
        let mut table = String::new();
        table.append("const InvokerMethod g_Il2CppInvokerPointers[");
        push_decimal(&mut table, self.required_invokers.len());
        table.append("] =\n{\n");
        push_lines_for(&mut table, &self.required_invokers, invokers, "    ", ",\n");
        table.append("};\n");
        let ghost tt = invoker_table_text(req, iv);
        proof {
            assert(table@ =~= tt);
            reveal_strlit("void*");
            reveal_strlit("const InvokerMethod g_Il2CppInvokerPointers");
        }
        let ls = lines_of(src);
        let n = ls.len();
        let ghost all = views(ls@);
        let mut out = String::new();
        let mut i: usize = 0;
        proof {
            assert(then_text(out@, rewrite_invokers(all, 0, keep, tt)) == rewrite_invokers(all, 0, keep, tt)) by {
                match rewrite_invokers(all, 0, keep, tt) {
                    Ok(t) => assert(Seq::<char>::empty() + t =~= t),
                    Err(_) => {},
                }
            }
        }
        while i < n
            invariant
                0 <= i <= n,
                n == ls@.len(),
                all == views(ls@),
                all == lines(src@),
                keep_set@ == keep,
                tt == table@,
                keep == kept_invokers(self.required_invokers@, views(invokers@)),
                tt == invoker_table_text(self.required_invokers@, views(invokers@)),
                then_text(out@, rewrite_invokers(all, i as int, keep, tt)) == rewrite_invokers(all, 0, keep, tt),
            decreases n - i,
        {
            let line = ls[i];
            proof {
                assert(all[i as int] == line@);
            }
            if starts_with(line, "void*") {
                let w = split_whitespace(line);
                proof {
                    assert(views(w@).len() == w@.len());
                }
                if w.len() < 2 {
                    proof {
                        assert(rewrite_invokers(all, i as int, keep, tt) == Err::<Seq<char>, Fault>(
                            Fault::WeirdFnDef(line@),
                        ));
                    }
                    return Err(Error::WeirdFnDef(line.to_string()));
                }
                let keep_it = keep_set.contains(w[1]);
                proof {
                    assert(views(w@)[1] == w@[1]@);
                    lemma_next_empty(all, i + 1);
                }
                let ghost before = out@;
                let ghost e = next_empty(all, i + 1);
                let ghost end = if e < all.len() { e + 1 } else { e };
                if keep_it {
                    out.append(line);
                    out.append("\n");
                }
                let mut j: usize = i + 1;
                proof {
                    if keep_it {
                        assert(lines_text(all.subrange(i as int, i + 1)) =~= line@ + "\n"@) by {
                            assert(all.subrange(i as int, i + 1).drop_last() =~= Seq::<Seq<char>>::empty());
                            assert(all.subrange(i as int, i + 1).last() == line@);
                            assert(lines_text(Seq::<Seq<char>>::empty()) =~= Seq::<char>::empty());
                        }
                    }
                }
                let mut done = false;
                while j < n && !done
                    invariant
                        i + 1 <= j <= n,
                        n == ls@.len(),
                        all == views(ls@),
                        e == next_empty(all, i + 1),
                        end == (if e < all.len() { e + 1 } else { e }),
                        forall|q: int| i + 1 <= q < e ==> all[q].len() != 0,
                        e < all.len() ==> all[e].len() == 0,
                        i + 1 <= e <= all.len(),
                        !done ==> j <= e,
                        done ==> j == end && e < all.len(),
                        keep_it ==> out@ == before + lines_text(all.subrange(i as int, j as int)),
                        !keep_it ==> out@ == before,
                    decreases n - j,
                {
                    let l2 = ls[j];
                    proof {
                        assert(all[j as int] == l2@);
                    }
                    if keep_it {
                        out.append(l2);
                        out.append("\n");
                        proof {
                            assert(all.subrange(i as int, j + 1).drop_last() =~= all.subrange(i as int, j as int));
                        }
                    }
                    if l2.unicode_len() == 0 {
                        done = true;
                    }
                    j = j + 1;
                }
                proof {
                    assert(j == end);
                    let written = if keep.contains(views(w@)[1]) {
                        lines_text(all.subrange(i as int, end))
                    } else {
                        Seq::<char>::empty()
                    };
                    assert(out@ == before + written);
                    match rewrite_invokers(all, end, keep, tt) {
                        Ok(t) => assert(before + (written + t) =~= out@ + t),
                        Err(_) => {},
                    }
                }
                i = j;
            } else if starts_with(line, "const InvokerMethod g_Il2CppInvokerPointers") {
                out.append(table.as_str());
                proof {
                    assert(rewrite_invokers(all, i as int, keep, tt) == Ok::<Seq<char>, Fault>(tt));
                }
                return Ok(out);
            } else {
                let ghost before = out@;
                out.append(line);
                out.append("\n");
                proof {
                    match rewrite_invokers(all, i + 1, keep, tt) {
                        Ok(t) => assert(before + (line@ + "\n"@ + t) =~= out@ + t),
                        Err(_) => {},
                    }
                }
                i = i + 1;
            }
        }
        proof {
            assert(out@ + Seq::<char>::empty() =~= out@);
        }
        Ok(out)
    }
}

} // verus!

verus! {

/// The stub written for the `this_idx`-th external method, declared `decl`
/// (return type `ret`, parameters `params`): it calls through the
/// `this_idx`-th entry of the fixup table.
pub open spec fn fixup_stub_text(decl: Seq<char>, ret: Seq<char>, params: Seq<char>, this_idx: nat) -> Seq<char> {
    "__attribute__((noinline))\n"@ + decl + "\n__attribute__((disable_tail_calls))\n{\n"@ + "    return (("@ + ret
        + " (*)"@ + params + ")(g_MethodFixups["@ + decimal(this_idx) + "]))("@
        + crate::build::generics::joined(crate::build::generics::param_names(params)) + ");\n"@ + "}\n\n"@
}

/// The declarations whose C++ types a stub needs: the return type, then
/// each parameter (the parameter list split at `, `).
pub open spec fn stub_type_srcs(ret: Seq<char>, params: Seq<char>) -> Seq<Seq<char>> {
    seq![ret] + crate::text::split_on(trim_end_char(crate::text::trim_start_char(params, '('), ')'), ", "@)
}

/// The opening of the external source.
pub open spec fn external_header() -> Seq<char> {
    "#include \"codegen/il2cpp-codegen.h\"\n"@ + "#include \"merge/codegen.h\"\n"@ + "\n"@
        + "extern const size_t g_ExternFuncCount;\n"@ + "extern void* g_MethodFixups[];\n"@
        + "extern const func_lut_entry_t g_FuncLut[];\n"@ + "\n"@
}

/// The stubs of the first `k` externals of `exts`, each after the C++
/// types it needs (see `cpp_all`); its declaration must be known and parse.
pub open spec fn external_stubs(
    defs: Map<Seq<char>, (Seq<char>, Option<Seq<char>>)>,
    decls: Map<Seq<char>, Seq<char>>,
    exts: Seq<Seq<char>>,
    k: nat,
    s: crate::build::structs::CppTypes,
) -> Outcome<crate::build::structs::CppTypes>
    decreases k,
{
    if k == 0 || k > exts.len() {
        Outcome::Done(s)
    } else {
        match external_stubs(defs, decls, exts, (k - 1) as nat, s) {
            Outcome::Done(s1) => {
                let e = exts[k - 1];
                if !decls.contains_key(e) {
                    Outcome::Panic
                } else {
                    match crate::build::parser::parse_decl(decls[e]) {
                        None => Outcome::Panic,
                        Some((ret, _, params, _)) => match crate::build::generics::cpp_all(
                            defs,
                            stub_type_srcs(ret, params),
                            s1,
                        ) {
                            Outcome::Done(s2) => if !crate::build::generics::params_named(params) {
                                Outcome::Panic
                            } else {
                                Outcome::Done(
                                    crate::build::structs::CppTypes {
                                        out: s2.out + fixup_stub_text(decls[e], ret, params, (k - 1) as nat),
                                        ..s2
                                    },
                                )
                            },
                            other => other,
                        },
                    }
                }
            },
            other => other,
        }
    }
}

/// Each step of those ends, and none panics.
pub open spec fn external_stubs_end(
    defs: Map<Seq<char>, (Seq<char>, Option<Seq<char>>)>,
    decls: Map<Seq<char>, Seq<char>>,
    exts: Seq<Seq<char>>,
    k: nat,
    s: crate::build::structs::CppTypes,
) -> bool
    decreases k,
{
    k > 0 && k <= exts.len() ==> {
        &&& external_stubs_end(defs, decls, exts, (k - 1) as nat, s)
        &&& match external_stubs(defs, decls, exts, (k - 1) as nat, s) {
            Outcome::Done(s1) => {
                let e = exts[k - 1];
                &&& decls.contains_key(e)
                &&& crate::build::parser::parse_decl(decls[e]) matches Some((ret, _, params, _)) && {
                    &&& crate::build::generics::cpp_all_ends(defs, stub_type_srcs(ret, params), s1)
                    &&& (crate::build::generics::cpp_all(defs, stub_type_srcs(ret, params), s1) is Done
                        ==> crate::build::generics::params_named(params))
                }
            },
            _ => true,
        }
    }
}

/// The names of the externals' functions, as their declarations give them.
pub open spec fn stub_names(decls: Map<Seq<char>, Seq<char>>, exts: Seq<Seq<char>>) -> Seq<Seq<char>> {
    exts.map_values(|e: Seq<char>| crate::build::parser::parse_decl(decls[e])->Some_0.1)
}

/// The lookup table's entries: each stub with the index of its method.
pub open spec fn lut_entries(names: Seq<Seq<char>>, idxs: Seq<usize>) -> Seq<char>
    decreases names.len(),
{
    if names.len() == 0 {
        Seq::empty()
    } else {
        let k = names.len() - 1;
        lut_entries(names.drop_last(), idxs) + "    { (void*)&"@ + names[k] + ", "@ + decimal(idxs[k] as nat) + " },\n"@
    }
}

/// `n` copies of the fixup table's initial entry.
pub open spec fn prestub_entries(n: nat) -> Seq<char>
    decreases n,
{
    if n == 0 {
        Seq::empty()
    } else {
        prestub_entries((n - 1) as nat) + "    (void*)&merge_prestub,\n"@
    }
}

/// The fixup table and the lookup table of `n` stubs.
pub open spec fn fixup_tables(names: Seq<Seq<char>>, idxs: Seq<usize>) -> Seq<char> {
    let n = decimal(names.len());
    "const size_t g_ExternFuncCount = "@ + n + ";\n"@ + "void* g_MethodFixups["@ + n + "] =\n"@ + "{\n"@
        + prestub_entries(names.len()) + "};\n"@ + "\n"@ + "const func_lut_entry_t g_FuncLut["@ + n + "] =\n"@
        + "{\n"@ + lut_entries(names, idxs) + "};\n"@ + "\n"@
}

/// Writes the C++ types the stub of `fn_def` needs (see `stub_type_srcs`).
fn write_stub_types(
    out: &mut String,
    fn_def: &crate::build::parser::FnDecl,
    struct_defs: &StringHashMap<crate::build::structs::StructDef>,
    fd_structs: &mut StringHashSet,
    added_structs: &mut StringHashSet,
) -> (r: Result<(), Error>)
    requires
        crate::build::generics::cpp_all_ends(
            crate::build::structs::defs_view(struct_defs@),
            stub_type_srcs(fn_def.return_ty@, fn_def.params@),
            crate::build::structs::cpp_types(old(out), old(fd_structs), old(added_structs)),
        ),
    ensures
        match crate::build::generics::cpp_all(
            crate::build::structs::defs_view(struct_defs@),
            stub_type_srcs(fn_def.return_ty@, fn_def.params@),
            crate::build::structs::cpp_types(old(out), old(fd_structs), old(added_structs)),
        ) {
            Outcome::Done(t) => r is Ok && t == crate::build::structs::cpp_types(final(out), final(fd_structs), final(added_structs)),
            Outcome::Fail(f) => r matches Err(e) && e@ == f,
            Outcome::Panic => false,
        },
{
    let ghost defs = crate::build::structs::defs_view(struct_defs@);
    let ghost srcs = stub_type_srcs(fn_def.return_ty@, fn_def.params@);
    let ghost before = crate::build::structs::cpp_types(out, fd_structs, added_structs);
    proof {
        reveal_strlit(", ");
    }
    let inner = trim_end_matches_char(crate::text::trim_start_matches_char(fn_def.params, '('), ')');
    let pieces = crate::text::split_on_str(inner, ", ");
    proof {
        assert(srcs.take(0) =~= Seq::<Seq<char>>::empty());
        crate::build::generics::lemma_cpp_all_prefix(defs, srcs, before, 1);
        assert(srcs.take(1).drop_last() =~= srcs.take(0));
        assert(srcs.take(1).last() == fn_def.return_ty@);
        assert(views(pieces@) =~= srcs.skip(1));
    }
    assert(crate::build::generics::cpp_all(defs, srcs.take(0), before) == Outcome::Done(before));
    match crate::build::structs::add_cpp_ty(out, fn_def.return_ty, struct_defs, fd_structs, added_structs) {
        Ok(()) => {},
        Err(e) => {
            proof {
                assert(crate::build::generics::cpp_all(defs, srcs.take(1), before) == Outcome::<crate::build::structs::CppTypes>::Fail(e@));
                crate::build::generics::lemma_cpp_all_fail(defs, srcs, before, 1);
            }
            return Err(e);
        },
    }
    let mut j: usize = 0;
    while j < pieces.len()
        invariant
            0 <= j <= pieces@.len(),
            views(pieces@) == srcs.skip(1),
            srcs.len() == pieces@.len() + 1,
            defs == crate::build::structs::defs_view(struct_defs@),
            before == crate::build::structs::cpp_types(old(out), old(fd_structs), old(added_structs)),
            srcs == stub_type_srcs(fn_def.return_ty@, fn_def.params@),
            crate::build::generics::cpp_all_ends(defs, srcs, before),
            crate::build::generics::cpp_all(defs, srcs.take(j + 1), before) == Outcome::Done(
                crate::build::structs::cpp_types(out, fd_structs, added_structs),
            ),
        decreases pieces@.len() - j,
    {
        proof {
            crate::build::generics::lemma_cpp_all_prefix(defs, srcs, before, j + 2);
            assert(srcs.take(j + 2).drop_last() =~= srcs.take(j + 1));
            assert(views(pieces@)[j as int] == pieces@[j as int]@);
            assert(srcs.skip(1)[j as int] == srcs[j + 1]);
            assert(srcs.take(j + 2).last() == pieces@[j as int]@);
        }
        match crate::build::structs::add_cpp_ty(out, pieces[j], struct_defs, fd_structs, added_structs) {
            Ok(()) => {},
            Err(e) => {
                proof {
                    assert(crate::build::generics::cpp_all(defs, srcs.take(j + 2), before) == Outcome::<
                        crate::build::structs::CppTypes,
                    >::Fail(e@));
                    crate::build::generics::lemma_cpp_all_fail(defs, srcs, before, j + 2);
                }
                return Err(e);
            },
        }
        j = j + 1;
    }
    proof {
        assert(srcs.take(j + 1) =~= srcs);
    }
    Ok(())
}

/// Appends the stub of the `this_idx`-th external, declared `decl` (see
/// `fixup_stub_text`).
fn push_fixup_stub(out: &mut String, decl: &str, fn_def: &crate::build::parser::FnDecl, this_idx: usize)
    requires
        crate::build::generics::params_named(fn_def.params@),
    ensures
        final(out)@ == old(out)@ + fixup_stub_text(decl@, fn_def.return_ty@, fn_def.params@, this_idx as nat),
{
    let list = crate::build::generics::joined_param_names(fn_def.params);
    out.append("__attribute__((noinline))\n");
    out.append(decl);
    out.append("\n__attribute__((disable_tail_calls))\n{\n");
    out.append("    return ((");
    out.append(fn_def.return_ty);
    out.append(" (*)");
    out.append(fn_def.params);
    out.append(")(g_MethodFixups[");
    crate::text::push_decimal(out, this_idx);
    out.append("]))(");
    out.append(list.as_str());
    out.append(");\n");
    out.append("}\n\n");
    proof {
        assert(final(out)@ =~= old(out)@ + fixup_stub_text(decl@, fn_def.return_ty@, fn_def.params@, this_idx as nat));
    }
}

/// Appends the fixup table and the lookup table of the stubs `added_fns`
/// (see `fixup_tables`).
fn push_fixup_tables(out: &mut String, added_fns: &Vec<(&str, usize)>)
    ensures
        final(out)@ == old(out)@ + fixup_tables(
            added_fns@.map_values(|p: (&str, usize)| p.0@),
            added_fns@.map_values(|p: (&str, usize)| p.1),
        ),
{
    let ghost names = added_fns@.map_values(|p: (&str, usize)| p.0@);
    let ghost idxs = added_fns@.map_values(|p: (&str, usize)| p.1);
    let n = added_fns.len();
    out.append("const size_t g_ExternFuncCount = ");
    crate::text::push_decimal(out, n);
    out.append(";\n");
    out.append("void* g_MethodFixups[");
    crate::text::push_decimal(out, n);
    out.append("] =\n");
    out.append("{\n");
    let ghost t1 = out@;
    let mut k: usize = 0;
    while k < n
        invariant
            0 <= k <= n,
            out@ == t1 + prestub_entries(k as nat),
        decreases n - k,
    {
        out.append("    (void*)&merge_prestub,\n");
        k = k + 1;
    }
    out.append("};\n");
    out.append("\n");
    out.append("const func_lut_entry_t g_FuncLut[");
    crate::text::push_decimal(out, n);
    out.append("] =\n");
    out.append("{\n");
    let ghost t2 = out@;
    let mut k: usize = 0;
    proof {
        assert(names.take(0) =~= Seq::<Seq<char>>::empty());
    }
    while k < n
        invariant
            0 <= k <= n,
            n == added_fns@.len(),
            names == added_fns@.map_values(|p: (&str, usize)| p.0@),
            idxs == added_fns@.map_values(|p: (&str, usize)| p.1),
            out@ == t2 + lut_entries(names.take(k as int), idxs),
        decreases n - k,
    {
        let (fun, idx) = added_fns[k];
        out.append("    { (void*)&");
        out.append(fun);
        out.append(", ");
        crate::text::push_decimal(out, idx);
        out.append(" },\n");
        proof {
            assert(names.take(k + 1).drop_last() =~= names.take(k as int));
            assert(names.take(k + 1).last() == fun@);
            assert(idxs[k as int] == idx);
            assert(out@ =~= t2 + lut_entries(names.take(k + 1), idxs));
        }
        k = k + 1;
    }
    out.append("};\n");
    out.append("\n");
    proof {
        assert(names.take(k as int) =~= names);
        assert(final(out)@ =~= old(out)@ + fixup_tables(names, idxs));
    }
}

impl ModFunctionUsages {
    /// The text of the mod's external source (MergeExternal.cpp), which the
    /// caller saves and adds to the compile command: for each external
    /// method the mod uses, in the order `externals` gives (the order their
    /// set is walked in), the C++ types its declaration needs and a stub
    /// that calls through the fixup table; then the fixup table and the
    /// lookup table from each stub to `method_idxs`' index of its method,
    /// which the mod's data builder gave it. Fails where a type cannot be
    /// written.
    pub fn write_external(
        &self,
        externals: &Vec<String>,
        method_idxs: &Vec<usize>,
        struct_defs: &StringHashMap<crate::build::structs::StructDef>,
    ) -> (r: Result<String, Error>)
        requires
            externals@.len() == method_idxs@.len(),
            external_stubs_end(
                crate::build::structs::defs_view(struct_defs@),
                decl_texts(self.forward_decls@),
                externals@.map_values(|s: String| s@),
                externals@.len() as nat,
                crate::build::structs::CppTypes { out: external_header(), fds: Set::empty(), added: Set::empty() },
            ),
        ensures
            match external_stubs(
                crate::build::structs::defs_view(struct_defs@),
                decl_texts(self.forward_decls@),
                externals@.map_values(|s: String| s@),
                externals@.len() as nat,
                crate::build::structs::CppTypes { out: external_header(), fds: Set::empty(), added: Set::empty() },
            ) {
                Outcome::Done(c) => r matches Ok(text) && text@ == c.out + fixup_tables(
                    stub_names(decl_texts(self.forward_decls@), externals@.map_values(|s: String| s@)),
                    method_idxs@,
                ),
                Outcome::Fail(f) => r matches Err(e) && e@ == f,
                Outcome::Panic => false,
            },
    {
        let ghost defs = crate::build::structs::defs_view(struct_defs@);
        let ghost decls = decl_texts(self.forward_decls@);
        let ghost exts = externals@.map_values(|s: String| s@);
        let ghost names = stub_names(decls, exts);
        let ghost s0 = crate::build::structs::CppTypes { out: external_header(), fds: Set::empty(), added: Set::empty() };
        let mut out = String::new();
        out.append("#include \"codegen/il2cpp-codegen.h\"\n");
        out.append("#include \"merge/codegen.h\"\n");
        out.append("\n");
        out.append("extern const size_t g_ExternFuncCount;\n");
        out.append("extern void* g_MethodFixups[];\n");
        out.append("extern const func_lut_entry_t g_FuncLut[];\n");
        out.append("\n");
        let mut fd_structs = StringHashSet::new();
        let mut added_structs = StringHashSet::new();
        let mut added_fns: Vec<(&str, usize)> = Vec::new();
        proof {
            assert(out@ =~= external_header());
            assert(fd_structs@ =~= Set::<Seq<char>>::empty());
            assert(added_structs@ =~= Set::<Seq<char>>::empty());
        }
        let mut i: usize = 0;
        while i < externals.len()
            invariant
                0 <= i <= externals@.len(),
                externals@.len() == method_idxs@.len(),
                defs == crate::build::structs::defs_view(struct_defs@),
                decls == decl_texts(self.forward_decls@),
                exts == externals@.map_values(|s: String| s@),
                names == stub_names(decls, exts),
                s0 == (crate::build::structs::CppTypes { out: external_header(), fds: Set::empty(), added: Set::empty() }),
                external_stubs_end(defs, decls, exts, externals@.len() as nat, s0),
                external_stubs(defs, decls, exts, i as nat, s0) == Outcome::Done(
                    crate::build::structs::cpp_types(&out, &fd_structs, &added_structs),
                ),
                added_fns@.map_values(|p: (&str, usize)| p.0@) == names.take(i as int),
                added_fns@.map_values(|p: (&str, usize)| p.1) == method_idxs@.take(i as int),
            decreases externals@.len() - i,
        {
            proof {
                lemma_stubs_end_prefix(defs, decls, exts, (i + 1) as nat, externals@.len() as nat, s0);
                assert(exts[i as int] == externals@[i as int]@);
            }
            let external = &externals[i];
            let decl = match self.forward_decls.get(external.as_str()) {
                Some(d) => d,
                None => {
                    proof {
                        assert(false);
                    }
                    return Ok(out);
                },
            };
            let fn_def = match crate::build::parser::FnDecl::try_parse(decl.as_str()) {
                Some(d) => d,
                None => {
                    proof {
                        assert(false);
                    }
                    return Ok(out);
                },
            };
            proof {
                assert(decls[exts[i as int]] == decl@);
                assert(crate::build::parser::parse_decl(decl@) == Some(
                    (fn_def.return_ty@, fn_def.name@, fn_def.params@, fn_def.inline),
                ));
            }
            let ghost cur = crate::build::structs::cpp_types(&out, &fd_structs, &added_structs);
            match write_stub_types(&mut out, &fn_def, struct_defs, &mut fd_structs, &mut added_structs) {
                Ok(()) => {},
                Err(e) => {
                    proof {
                        assert(crate::build::generics::cpp_all(defs, stub_type_srcs(fn_def.return_ty@, fn_def.params@), cur)
                            == Outcome::<crate::build::structs::CppTypes>::Fail(e@));
                        assert(external_stubs(defs, decls, exts, (i + 1) as nat, s0) == Outcome::<
                            crate::build::structs::CppTypes,
                        >::Fail(e@));
                        lemma_stubs_fail(defs, decls, exts, (i + 1) as nat, externals@.len() as nat, s0);
                    }
                    return Err(e);
                },
            }
            push_fixup_stub(&mut out, decl.as_str(), &fn_def, i);
            let ghost prev = added_fns@;
            added_fns.push((fn_def.name, method_idxs[i]));
            proof {
                assert(names[i as int] == fn_def.name@);
                assert(added_fns@ == prev.push((fn_def.name, method_idxs@[i as int])));
                assert(prev.map_values(|p: (&str, usize)| p.0@).len() == i);
                assert(prev.len() == i);
                assert(names.len() == exts.len());
                let nv = added_fns@.map_values(|p: (&str, usize)| p.0@);
                let pv = prev.map_values(|p: (&str, usize)| p.0@);
                let iv = added_fns@.map_values(|p: (&str, usize)| p.1);
                let qv = prev.map_values(|p: (&str, usize)| p.1);
                assert forall|k: int| 0 <= k < i + 1 implies #[trigger] nv[k] == names.take(i + 1)[k] by {
                    if k < i {
                        assert(pv[k] == names.take(i as int)[k]);
                    }
                }
                assert(nv =~= names.take(i + 1));
                assert forall|k: int| 0 <= k < i + 1 implies #[trigger] iv[k] == method_idxs@.take(i + 1)[k] by {
                    if k < i {
                        assert(qv[k] == method_idxs@.take(i as int)[k]);
                    }
                }
                assert(added_fns@.map_values(|p: (&str, usize)| p.1) =~= method_idxs@.take(i + 1));
            }
            i = i + 1;
        }
        proof {
            assert(names.take(i as int) =~= names);
            assert(method_idxs@.take(i as int) =~= method_idxs@);
        }
        push_fixup_tables(&mut out, &added_fns);
        Ok(out)
    }
}

proof fn lemma_stubs_end_prefix(
    defs: Map<Seq<char>, (Seq<char>, Option<Seq<char>>)>,
    decls: Map<Seq<char>, Seq<char>>,
    exts: Seq<Seq<char>>,
    k: nat,
    n: nat,
    s: crate::build::structs::CppTypes,
)
    requires
        k <= n <= exts.len(),
        external_stubs_end(defs, decls, exts, n, s),
    ensures
        external_stubs_end(defs, decls, exts, k, s),
    decreases n - k,
{
    if k < n {
        lemma_stubs_end_prefix(defs, decls, exts, k + 1, n, s);
    }
}

proof fn lemma_stubs_fail(
    defs: Map<Seq<char>, (Seq<char>, Option<Seq<char>>)>,
    decls: Map<Seq<char>, Seq<char>>,
    exts: Seq<Seq<char>>,
    k: nat,
    n: nat,
    s: crate::build::structs::CppTypes,
)
    requires
        k <= n <= exts.len(),
        external_stubs(defs, decls, exts, k, s) is Fail,
    ensures
        external_stubs(defs, decls, exts, n, s) == external_stubs(defs, decls, exts, k, s),
    decreases n - k,
{
    if k < n {
        lemma_stubs_fail(defs, decls, exts, k, (n - 1) as nat, s);
    }
}

} // verus!
