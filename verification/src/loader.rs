//! The order in which the applier loads mods: each mod after those it
//! depends on or must load after, and before those it must load before.
use crate::build::type_definitions::index_map;
use crate::data::MergeModData;
use crate::text::views;
use topological_sort::TopologicalSort;
use vstd::hash_map::StringHashMap;
use vstd::prelude::*;

verus! {

#[verifier::external_type_specification]
#[verifier::external_body]
#[verifier::reject_recursive_types(T)]
pub struct ExTopologicalSort<T>(TopologicalSort<T>);

/// The elements a `TopologicalSort` holds (the keys of its map).
pub uninterp spec fn topo_nodes(s: TopologicalSort<usize>) -> Set<usize>;

/// The dependencies a `TopologicalSort` holds: `(prec, succ)` for each
/// `succ` in the successor set of each element `prec` it holds.
pub uninterp spec fn topo_edges(s: TopologicalSort<usize>) -> Set<(usize, usize)>;

/// `TopologicalSort::new`: a sort that holds nothing.
#[verifier::external_body]
fn topo_new() -> (s: TopologicalSort<usize>)
    ensures
        topo_nodes(s) == Set::<usize>::empty(),
        topo_edges(s) == Set::<(usize, usize)>::empty(),
{
    TopologicalSort::new()
}

/// `TopologicalSort::add_dependency`: both elements are held afterwards,
/// and `succ` is a successor of `prec` (a dependency already held is left
/// as it was).
#[verifier::external_body]
fn topo_add_dependency(s: &mut TopologicalSort<usize>, prec: usize, succ: usize)
    ensures
        topo_nodes(*final(s)) == topo_nodes(*old(s)).insert(prec).insert(succ),
        topo_edges(*final(s)) == topo_edges(*old(s)).insert((prec, succ)),
{
    s.add_dependency(prec, succ)
}

/// `TopologicalSort::pop`. Each element counts its predecessors still held
/// (`num_prec`, raised by `add_dependency` and lowered when a predecessor
/// is removed), so `peek` finds an element that no held element precedes.
/// `pop` removes and returns such an element, with its successor set;
/// which one, where several qualify, follows the order in which the inner
/// `HashMap` is walked and is left open here. `None` where every held
/// element has a held predecessor, the sort then unchanged.
#[verifier::external_body]
fn topo_pop(s: &mut TopologicalSort<usize>) -> (r: Option<usize>)
    ensures
        match r {
            Some(n) => {
                &&& topo_nodes(*old(s)).contains(n)
                &&& forall|p: usize| !topo_edges(*old(s)).contains((p, n))
                &&& topo_nodes(*final(s)) == topo_nodes(*old(s)).remove(n)
                &&& topo_edges(*final(s)) == topo_edges(*old(s)).filter(|e: (usize, usize)| e.0 != n)
            },
            None => {
                &&& forall|n: usize| #[trigger]
                    topo_nodes(*old(s)).contains(n) ==> exists|p: usize|
                        topo_edges(*old(s)).contains((p, n))
                &&& topo_nodes(*final(s)) == topo_nodes(*old(s))
                &&& topo_edges(*final(s)) == topo_edges(*old(s))
            },
        },
{
    s.pop()
}

/// `TopologicalSort::is_empty`: whether the sort holds no element.
#[verifier::external_body]
fn topo_is_empty(s: &TopologicalSort<usize>) -> (r: bool)
    ensures
        r == topo_nodes(*s).is_empty(),
{
    s.is_empty()
}

/// Where a mod's references into the game's tables resolved to.
pub struct ModRefs {
    pub type_def_refs: Vec<usize>,
    pub method_refs: Vec<usize>,
    pub usage_list_offset: usize,
}

/// What the load order of a mod reads of its data: its id and the ids it
/// names as dependencies and as mods to load before or after.
pub struct ModLoadInfo {
    pub id: String,
    pub dependencies: Vec<String>,
    pub load_before: Vec<String>,
    pub load_after: Vec<String>,
}

pub ghost struct ModLoadModel {
    pub id: Seq<char>,
    pub dependencies: Seq<Seq<char>>,
    pub load_before: Seq<Seq<char>>,
    pub load_after: Seq<Seq<char>>,
}

pub open spec fn string_views(v: Seq<String>) -> Seq<Seq<char>> {
    v.map_values(|s: String| s@)
}

impl ModLoadInfo {
    pub open spec fn model(&self) -> ModLoadModel {
        ModLoadModel {
            id: self.id@,
            dependencies: string_views(self.dependencies@),
            load_before: string_views(self.load_before@),
            load_after: string_views(self.load_after@),
        }
    }

    /// The load information of the mod `id` with data `mmd`.
    pub fn of(id: &str, mmd: &MergeModData) -> (r: Self)
        ensures
            r.id@ == id@,
            r.dependencies@ == mmd.dependencies@,
            r.load_before@ == mmd.load_before@,
            r.load_after@ == mmd.load_after@,
    {
        ModLoadInfo {
            id: id.to_string(),
            dependencies: clone_strings(&mmd.dependencies),
            load_before: clone_strings(&mmd.load_before),
            load_after: clone_strings(&mmd.load_after),
        }
    }
}

fn clone_strings(v: &Vec<String>) -> (r: Vec<String>)
    ensures
        r@ == v@,
{
    let mut r: Vec<String> = Vec::new();
    let mut i: usize = 0;
    while i < v.len()
        invariant
            0 <= i <= v@.len(),
            r@ == v@.take(i as int),
        decreases v@.len() - i,
    {
        let s = v[i].clone();
        r.push(s);
        proof {
            assert(r@ =~= v@.take(i + 1));
        }
        i = i + 1;
    }
    assert(v@.take(v@.len() as int) =~= v@);
    r
}

pub open spec fn models(mods: Seq<ModLoadInfo>) -> Seq<ModLoadModel> {
    mods.map_values(|m: ModLoadInfo| m.model())
}

/// Each mod id's position (the last, where an id repeats).
pub open spec fn id_map(mods: Seq<ModLoadModel>) -> Map<Seq<char>, usize> {
    index_map(mods.map_values(|m: ModLoadModel| m.id))
}

/// The dependencies that the ids `names` of mod `i` give: `(named, i)`
/// where `into`, `(i, named)` where not; ids that name no mod give none.
pub open spec fn list_edges(
    ids: Map<Seq<char>, usize>,
    names: Seq<Seq<char>>,
    i: usize,
    into: bool,
) -> Set<(usize, usize)>
    decreases names.len(),
{
    if names.len() == 0 {
        Set::empty()
    } else {
        let rest = list_edges(ids, names.drop_last(), i, into);
        if ids.contains_key(names.last()) {
            let d = ids[names.last()];
            rest.insert(if into { (d, i) } else { (i, d) })
        } else {
            rest
        }
    }
}

/// The dependencies of mod `i`: it comes after its dependencies and the
/// mods it loads after, and before the mods it loads before... as the
/// applier writes them: a mod listed in `load_before` of `i` precedes `i`,
/// and one listed in `load_after` follows it.
pub open spec fn mod_edges(ids: Map<Seq<char>, usize>, m: ModLoadModel, i: usize) -> Set<
    (usize, usize),
> {
    list_edges(ids, m.dependencies, i, true).union(list_edges(ids, m.load_before, i, true)).union(
        list_edges(ids, m.load_after, i, false),
    )
}

/// The dependencies of the first `k` mods.
pub open spec fn edges_upto(ids: Map<Seq<char>, usize>, mods: Seq<ModLoadModel>, k: int) -> Set<
    (usize, usize),
>
    decreases k,
{
    if k <= 0 {
        Set::empty()
    } else {
        edges_upto(ids, mods, k - 1).union(mod_edges(ids, mods[k - 1], (k - 1) as usize))
    }
}

/// All the dependencies between the mods.
pub open spec fn load_edges(mods: Seq<ModLoadModel>) -> Set<(usize, usize)> {
    edges_upto(id_map(mods), mods, mods.len() as int)
}

/// The mods that take part in some dependency.
pub open spec fn endpoints(e: Set<(usize, usize)>) -> Set<usize> {
    Set::new(|n: usize| exists|p: usize| e.contains((p, n)) || e.contains((n, p)))
}

/// The dependencies of mod `i` that name no mod: its index and the position
/// of the id in its dependencies, from the first `k`.
pub open spec fn unresolved_in(ids: Map<Seq<char>, usize>, names: Seq<Seq<char>>, i: usize, k: int) -> Seq<
    (usize, usize),
>
    decreases k,
{
    if k <= 0 {
        Seq::empty()
    } else {
        let rest = unresolved_in(ids, names, i, k - 1);
        if ids.contains_key(names[k - 1]) {
            rest
        } else {
            rest.push((i, (k - 1) as usize))
        }
    }
}

/// The unresolved dependencies of the first `k` mods, in order.
pub open spec fn unresolved_upto(ids: Map<Seq<char>, usize>, mods: Seq<ModLoadModel>, k: int) -> Seq<
    (usize, usize),
>
    decreases k,
{
    if k <= 0 {
        Seq::empty()
    } else {
        unresolved_upto(ids, mods, k - 1) + unresolved_in(
            ids,
            mods[k - 1].dependencies,
            (k - 1) as usize,
            mods[k - 1].dependencies.len() as int,
        )
    }
}

/// The load order and what stood in its way.
pub struct LoadOrdering {
    /// The mods to load, in order.
    pub order: Vec<usize>,
    /// Dependencies that name no mod: the mod and the position of the id in
    /// its dependencies ("Could not resolve dependency").
    pub unresolved: Vec<(usize, usize)>,
    /// Mods left out because of a dependency cycle.
    pub cyclic: Vec<usize>,
}

proof fn lemma_endpoints_insert(e: Set<(usize, usize)>, p: usize, s: usize)
    ensures
        endpoints(e.insert((p, s))) == endpoints(e).insert(p).insert(s),
{
    let a = endpoints(e.insert((p, s)));
    let b = endpoints(e).insert(p).insert(s);
    assert forall|n: usize| a.contains(n) implies b.contains(n) by {
        let q = choose|q: usize| e.insert((p, s)).contains((q, n)) || e.insert((p, s)).contains((n, q));
        if n != p && n != s {
            assert(e.contains((q, n)) || e.contains((n, q)));
        }
    }
    assert forall|n: usize| b.contains(n) implies a.contains(n) by {
        if n == p {
            assert(e.insert((p, s)).contains((p, s)));
        } else if n == s {
            assert(e.insert((p, s)).contains((p, s)));
        } else {
            let q = choose|q: usize| e.contains((q, n)) || e.contains((n, q));
            assert(e.insert((p, s)).contains((q, n)) || e.insert((p, s)).contains((n, q)));
        }
    }
    assert(a =~= b);
}

/// Adds the dependencies that the ids `names` of mod `i` give; records the
/// unresolved ones where `record`.
fn add_list_edges(
    sort: &mut TopologicalSort<usize>,
    ids: &StringHashMap<usize>,
    names: &Vec<String>,
    i: usize,
    into: bool,
    record: bool,
    unresolved: &mut Vec<(usize, usize)>,
)
    requires
        topo_nodes(*old(sort)) == endpoints(topo_edges(*old(sort))),
    ensures
        topo_edges(*final(sort)) == topo_edges(*old(sort)).union(
            list_edges(ids@, string_views(names@), i, into),
        ),
        topo_nodes(*final(sort)) == endpoints(topo_edges(*final(sort))),
        record ==> final(unresolved)@ == old(unresolved)@ + unresolved_in(
            ids@,
            string_views(names@),
            i,
            names@.len() as int,
        ),
        !record ==> final(unresolved)@ == old(unresolved)@,
{
    let ghost nv = string_views(names@);
    let mut j: usize = 0;
    proof {
        assert(nv.take(0) =~= Seq::<Seq<char>>::empty());
        assert(topo_edges(*sort).union(Set::empty()) =~= topo_edges(*sort));
        assert(old(unresolved)@ + Seq::<(usize, usize)>::empty() =~= old(unresolved)@);
    }
    while j < names.len()
        invariant
            0 <= j <= names@.len(),
            nv == string_views(names@),
            topo_edges(*sort) == topo_edges(*old(sort)).union(
                list_edges(ids@, nv.take(j as int), i, into),
            ),
            topo_nodes(*sort) == endpoints(topo_edges(*sort)),
            record ==> unresolved@ == old(unresolved)@ + unresolved_in(ids@, nv, i, j as int),
            !record ==> unresolved@ == old(unresolved)@,
        decreases names@.len() - j,
    {
        let name = names[j].as_str();
        let ghost t1 = nv.take(j + 1);
        proof {
            assert(nv[j as int] == name@);
            assert(t1.drop_last() =~= nv.take(j as int));
            assert(t1.last() == name@);
        }
        match ids.get(name) {
            Some(d) => {
                let d = *d;
                let ghost before = topo_edges(*sort);
                proof {
                    lemma_endpoints_insert(before, if into { d } else { i }, if into { i } else { d });
                }
                if into {
                    topo_add_dependency(sort, d, i);
                } else {
                    topo_add_dependency(sort, i, d);
                }
                proof {
                    let e = if into { (d, i) } else { (i, d) };
                    assert(list_edges(ids@, t1, i, into) == list_edges(ids@, nv.take(j as int), i, into).insert(e));
                    assert(topo_edges(*sort) =~= topo_edges(*old(sort)).union(list_edges(ids@, t1, i, into)));
                    assert(topo_nodes(*sort) =~= endpoints(topo_edges(*sort)));
                }
            },
            None => {
                if record {
                    unresolved.push((i, j));
                }
                proof {
                    assert(list_edges(ids@, t1, i, into) == list_edges(ids@, nv.take(j as int), i, into));
                }
            },
        }
        proof {
            if record {
                let a = old(unresolved)@;
                assert(unresolved_in(ids@, nv, i, j + 1) == (if ids@.contains_key(nv[j as int]) {
                    unresolved_in(ids@, nv, i, j as int)
                } else {
                    unresolved_in(ids@, nv, i, j as int).push((i, j))
                }));
                assert(unresolved@ =~= a + unresolved_in(ids@, nv, i, j + 1));
            }
        }
        j = j + 1;
    }
    proof {
        assert(nv.take(names@.len() as int) =~= nv);
    }
}

} // verus!

verus! {

/// In `order`, every mod that has a dependency comes after the mod it
/// depends on.
pub open spec fn respects(order: Seq<usize>, e: Set<(usize, usize)>) -> bool {
    forall|p: usize, k: int|
        0 <= k < order.len() && #[trigger] e.contains((p, order[k])) ==> exists|k2: int|
            0 <= k2 < k && order[k2] == p
}

/// Every mod of `nodes` left out of `order` depends on one that is left out
/// too.
pub open spec fn blocked(order: Seq<usize>, e: Set<(usize, usize)>, nodes: Set<usize>) -> bool {
    forall|n: usize| #[trigger]
        nodes.contains(n) && !order.contains(n) ==> exists|p: usize|
            e.contains((p, n)) && !order.contains(p)
}

/// The mods below `k` that `order` leaves out, in order.
pub open spec fn missing(order: Seq<usize>, k: int) -> Seq<usize>
    decreases k,
{
    if k <= 0 {
        Seq::empty()
    } else if order.contains((k - 1) as usize) {
        missing(order, k - 1)
    } else {
        missing(order, k - 1).push((k - 1) as usize)
    }
}

proof fn lemma_distinct_bound(s: Seq<usize>, n: int)
    requires
        0 <= n,
        s.no_duplicates(),
        forall|i: int| 0 <= i < s.len() ==> s[i] < n,
    ensures
        s.len() <= n,
{
    let si = s.map_values(|x: usize| x as int);
    assert(si.no_duplicates()) by {
        assert forall|i: int, j: int| 0 <= i < si.len() && 0 <= j < si.len() && i != j implies si[i]
            != si[j] by {
            assert(s[i] != s[j]);
        }
    }
    si.unique_seq_to_set();
    vstd::set_lib::lemma_int_range(0, n);
    assert(si.to_set().subset_of(vstd::set_lib::set_int_range(0, n))) by {
        assert forall|x: int| si.to_set().contains(x) implies vstd::set_lib::set_int_range(
            0,
            n,
        ).contains(x) by {
            let i = choose|i: int| 0 <= i < si.len() && si[i] == x;
            assert(s[i] < n);
        }
    }
    vstd::set_lib::lemma_len_subset(si.to_set(), vstd::set_lib::set_int_range(0, n));
}

proof fn lemma_index_map_bound(names: Seq<Seq<char>>)
    ensures
        forall|k: Seq<char>| #[trigger]
            index_map(names).contains_key(k) ==> index_map(names)[k] < names.len(),
    decreases names.len(),
{
    if names.len() > 0 {
        lemma_index_map_bound(names.drop_last());
        let m = index_map(names);
        assert forall|k: Seq<char>| #[trigger] m.contains_key(k) implies m[k] < names.len() by {
            if k != names.last() {
                assert(index_map(names.drop_last()).contains_key(k));
            }
        }
    }
}

proof fn lemma_list_edges_bound(ids: Map<Seq<char>, usize>, names: Seq<Seq<char>>, i: usize, into: bool, n: int)
    requires
        i < n,
        forall|k: Seq<char>| #[trigger] ids.contains_key(k) ==> ids[k] < n,
    ensures
        forall|e: (usize, usize)| #[trigger] list_edges(ids, names, i, into).contains(e) ==> e.0 < n && e.1 < n,
    decreases names.len(),
{
    if names.len() > 0 {
        lemma_list_edges_bound(ids, names.drop_last(), i, into, n);
        let l = list_edges(ids, names, i, into);
        assert forall|e: (usize, usize)| #[trigger] l.contains(e) implies e.0 < n && e.1 < n by {
            if !list_edges(ids, names.drop_last(), i, into).contains(e) {
                assert(ids.contains_key(names.last()));
            }
        }
    }
}

proof fn lemma_edges_bound(ids: Map<Seq<char>, usize>, mods: Seq<ModLoadModel>, k: int)
    requires
        0 <= k <= mods.len(),
        mods.len() <= usize::MAX,
        forall|x: Seq<char>| #[trigger] ids.contains_key(x) ==> ids[x] < mods.len(),
    ensures
        forall|e: (usize, usize)| #[trigger] edges_upto(ids, mods, k).contains(e) ==> e.0 < mods.len() && e.1 < mods.len(),
    decreases k,
{
    if k > 0 {
        lemma_edges_bound(ids, mods, k - 1);
        let m = mods[k - 1];
        lemma_list_edges_bound(ids, m.dependencies, (k - 1) as usize, true, mods.len() as int);
        lemma_list_edges_bound(ids, m.load_before, (k - 1) as usize, true, mods.len() as int);
        lemma_list_edges_bound(ids, m.load_after, (k - 1) as usize, false, mods.len() as int);
        let all = edges_upto(ids, mods, k);
        assert forall|e: (usize, usize)| #[trigger] all.contains(e) implies e.0 < mods.len() && e.1 < mods.len() by {
            if edges_upto(ids, mods, k - 1).contains(e) {
            } else if list_edges(ids, m.dependencies, (k - 1) as usize, true).contains(e) {
            } else if list_edges(ids, m.load_before, (k - 1) as usize, true).contains(e) {
            } else {
                assert(list_edges(ids, m.load_after, (k - 1) as usize, false).contains(e));
            }
        }
    }
}

fn contains_index(v: &Vec<usize>, x: usize) -> (b: bool)
    ensures
        b == v@.contains(x),
{
    let mut i: usize = 0;
    while i < v.len()
        invariant
            0 <= i <= v@.len(),
            forall|j: int| 0 <= j < i ==> v@[j] != x,
        decreases v@.len() - i,
    {
        if v[i] == x {
            return true;
        }
        i = i + 1;
    }
    false
}

/// The order in which to load `mods`: from the dependencies between them
/// (`load_edges`), repeatedly a mod that depends on no mod not yet taken.
/// Only mods that take part in some dependency are ordered. Where mods are
/// left over (a cycle, or behind one), `cyclic` lists every mod that the
/// order leaves out.
pub fn find_load_ordering(mods: &Vec<ModLoadInfo>) -> (r: LoadOrdering)
    ensures
        ({
            let ms = models(mods@);
            let e = load_edges(ms);
            let nodes = endpoints(e);
            let order = r.order@;
            &&& r.unresolved@ == unresolved_upto(id_map(ms), ms, ms.len() as int)
            &&& order.no_duplicates()
            &&& forall|k: int| 0 <= k < order.len() ==> #[trigger] nodes.contains(order[k])
            &&& respects(order, e)
            &&& blocked(order, e, nodes)
            &&& r.cyclic@ == (if nodes.subset_of(order.to_set()) {
                Seq::empty()
            } else {
                missing(order, mods@.len() as int)
            })
        }),
{
    let ghost ms = models(mods@);
    let ghost id_seq = ms.map_values(|m: ModLoadModel| m.id);
    let mut ids: StringHashMap<usize> = StringHashMap::new();
    let mut i: usize = 0;
    proof {
        assert(id_seq.take(0) =~= Seq::<Seq<char>>::empty());
    }
    while i < mods.len()
        invariant
            0 <= i <= mods@.len(),
            ms == models(mods@),
            id_seq == ms.map_values(|m: ModLoadModel| m.id),
            ids@ == index_map(id_seq.take(i as int)),
        decreases mods@.len() - i,
    {
        proof {
            assert(id_seq[i as int] == mods@[i as int].id@);
            assert(id_seq.take(i + 1).drop_last() =~= id_seq.take(i as int));
        }
        ids.insert(mods[i].id.clone(), i);
        i = i + 1;
    }
    proof {
        assert(id_seq.take(mods@.len() as int) =~= id_seq);
        lemma_index_map_bound(id_seq);
    }
    let ghost idm = ids@;
    let mut sort = topo_new();
    let mut unresolved: Vec<(usize, usize)> = Vec::new();
    proof {
        assert(topo_nodes(sort) =~= endpoints(topo_edges(sort)));
    }
    let mut idx: usize = 0;
    while idx < mods.len()
        invariant
            0 <= idx <= mods@.len(),
            ms == models(mods@),
            idm == id_map(ms),
            ids@ == idm,
            topo_edges(sort) == edges_upto(idm, ms, idx as int),
            topo_nodes(sort) == endpoints(topo_edges(sort)),
            unresolved@ == unresolved_upto(idm, ms, idx as int),
        decreases mods@.len() - idx,
    {
        let m = &mods[idx];
        proof {
            assert(ms[idx as int] == m.model());
        }
        add_list_edges(&mut sort, &ids, &m.dependencies, idx, true, true, &mut unresolved);
        add_list_edges(&mut sort, &ids, &m.load_before, idx, true, false, &mut unresolved);
        add_list_edges(&mut sort, &ids, &m.load_after, idx, false, false, &mut unresolved);
        proof {
            let mm = ms[idx as int];
            assert(topo_edges(sort) =~= edges_upto(idm, ms, idx + 1));
            assert(unresolved@ =~= unresolved_upto(idm, ms, idx + 1));
        }
        idx = idx + 1;
    }
    let ghost e = topo_edges(sort);
    let ghost nodes = topo_nodes(sort);
    proof {
        lemma_edges_bound(idm, ms, ms.len() as int);
        assert(forall|n: usize| #[trigger] nodes.contains(n) ==> n < mods@.len()) by {
            assert forall|n: usize| #[trigger] nodes.contains(n) implies n < mods@.len() by {
                let p = choose|p: usize| e.contains((p, n)) || e.contains((n, p));
                if e.contains((p, n)) {
                    assert(edges_upto(idm, ms, ms.len() as int).contains((p, n)));
                } else {
                    assert(edges_upto(idm, ms, ms.len() as int).contains((n, p)));
                }
            }
        }
    }
    let mut ordering: Vec<usize> = Vec::new();
    proof {
        assert(topo_edges(sort) =~= e.filter(|x: (usize, usize)| !ordering@.contains(x.0)));
        assert(topo_nodes(sort) =~= nodes.filter(|n: usize| !ordering@.contains(n)));
    }
    loop
        invariant
            forall|n: usize| #[trigger] nodes.contains(n) ==> n < mods@.len(),
            nodes == endpoints(e),
            topo_edges(sort) == e.filter(|x: (usize, usize)| !ordering@.contains(x.0)),
            topo_nodes(sort) == nodes.filter(|n: usize| !ordering@.contains(n)),
            ordering@.no_duplicates(),
            forall|k: int| 0 <= k < ordering@.len() ==> #[trigger] nodes.contains(ordering@[k]),
            respects(ordering@, e),
            ordering@.len() <= mods@.len(),
        ensures
            forall|n: usize| #[trigger] nodes.contains(n) ==> n < mods@.len(),
            topo_nodes(sort) == nodes.filter(|n: usize| !ordering@.contains(n)),
            ordering@.no_duplicates(),
            forall|k: int| 0 <= k < ordering@.len() ==> #[trigger] nodes.contains(ordering@[k]),
            respects(ordering@, e),
            blocked(ordering@, e, nodes),
        decreases mods@.len() - ordering@.len(),
    {
        let ghost o = ordering@;
        match topo_pop(&mut sort) {
            Some(next) => {
                ordering.push(next);
                proof {
                    let o2 = ordering@;
                    assert(o2 == o.push(next));
                    assert(!o.contains(next));
                    assert(o2.no_duplicates()) by {
                        assert forall|a: int, b: int| 0 <= a < o2.len() && 0 <= b < o2.len() && a != b implies o2[a] != o2[b] by {
                            if a < o.len() && b < o.len() {
                            } else if a == o.len() {
                                assert(o2[b] == o[b]);
                                assert(o.contains(o[b]));
                            } else {
                                assert(o2[a] == o[a]);
                                assert(o.contains(o[a]));
                            }
                        }
                    }
                    assert forall|k: int| 0 <= k < o2.len() implies #[trigger] nodes.contains(o2[k]) by {
                        if k < o.len() {
                            assert(o2[k] == o[k]);
                        }
                    }
                    assert forall|n: usize| #[trigger] o2.contains(n) <==> (o.contains(n) || n == next) by {
                        if o2.contains(n) {
                            let k = choose|k: int| 0 <= k < o2.len() && o2[k] == n;
                            if k < o.len() {
                                assert(o[k] == n);
                            }
                        }
                        if o.contains(n) {
                            let k = choose|k: int| 0 <= k < o.len() && o[k] == n;
                            assert(o2[k] == n);
                        }
                        if n == next {
                            assert(o2[o.len() as int] == n);
                        }
                    }
                    assert(topo_edges(sort) =~= e.filter(|x: (usize, usize)| !o2.contains(x.0)));
                    assert(topo_nodes(sort) =~= nodes.filter(|n: usize| !o2.contains(n)));
                    assert forall|p: usize, k: int| 0 <= k < o2.len() && #[trigger] e.contains((p, o2[k])) implies exists|k2: int|
                        0 <= k2 < k && o2[k2] == p by {
                        if k < o.len() {
                            assert(o2[k] == o[k]);
                            let k2 = choose|k2: int| 0 <= k2 < k && o[k2] == p;
                            assert(o2[k2] == p);
                        } else {
                            assert(o2[k] == next);
                            assert(!e.filter(|x: (usize, usize)| !o.contains(x.0)).contains((p, next)));
                            assert(o.contains(p));
                            let k2 = choose|k2: int| 0 <= k2 < o.len() && o[k2] == p;
                            assert(o2[k2] == p);
                        }
                    }
                    assert forall|k: int| 0 <= k < o2.len() implies o2[k] < mods@.len() by {
                        assert(nodes.contains(o2[k]));
                    }
                    lemma_distinct_bound(o2, mods@.len() as int);
                }
            },
            None => {
                proof {
                    assert forall|n: usize| #[trigger] nodes.contains(n) && !o.contains(n) implies exists|p: usize|
                        e.contains((p, n)) && !o.contains(p) by {
                        assert(topo_nodes(sort).contains(n));
                        let p = choose|p: usize| topo_edges(sort).contains((p, n));
                        assert(e.filter(|x: (usize, usize)| !o.contains(x.0)).contains((p, n)));
                    }
                }
                break;
            },
        }
    }
    let mut cyclic: Vec<usize> = Vec::new();
    let empty = topo_is_empty(&sort);
    proof {
        if topo_nodes(sort).is_empty() {
            assert forall|n: usize| nodes.contains(n) implies ordering@.to_set().contains(n) by {
                if !ordering@.contains(n) {
                    assert(topo_nodes(sort).contains(n));
                }
            }
        } else {
            let n = topo_nodes(sort).choose();
            assert(topo_nodes(sort).contains(n));
            assert(!ordering@.to_set().contains(n));
        }
    }
    if !empty {
        let mut i: usize = 0;
        while i < mods.len()
            invariant
                0 <= i <= mods@.len(),
                cyclic@ == missing(ordering@, i as int),
            decreases mods@.len() - i,
        {
            if !contains_index(&ordering, i) {
                cyclic.push(i);
            }
            i = i + 1;
        }
    }
    LoadOrdering { order: ordering, unresolved, cyclic }
}

} // verus!

verus! {

/// Where a mod's import helper leads: the mod (its place among the loaded
/// mods), the entry of its fixup table to patch, and the index of the
/// method reference that the entry imports.
#[derive(Clone, Copy, Debug)]
pub struct ImportLutEntry {
    pub mod_index: usize,
    pub fixup_index: usize,
    pub ref_index: usize,
}

/// The import helpers of all loaded mods, by address: `ptrs` sorted, and
/// `data[i]` the entry of the helper at `ptrs[i]`.
pub struct ImportLut {
    pub ptrs: Vec<usize>,
    pub data: Vec<ImportLutEntry>,
}

/// `slice::binary_search`: on a slice sorted in ascending order, `Ok` with
/// the index of an element equal to `x`, or, where none is, `Err` with the
/// index at which `x` could be inserted keeping the order.
#[verifier::external_body]
fn search_sorted(ptrs: &[usize], x: usize) -> (r: Result<usize, usize>)
    requires
        forall|i: int, j: int| 0 <= i < j < ptrs@.len() ==> ptrs@[i] < ptrs@[j],
    ensures
        match r {
            Ok(i) => i < ptrs@.len() && ptrs@[i as int] == x,
            Err(i) => i <= ptrs@.len() && (forall|j: int| 0 <= j < i ==> ptrs@[j] < x) && (forall|j: int|
                i <= j < ptrs@.len() ==> ptrs@[j] > x),
        },
{
    ptrs.binary_search(&x)
}

/// `i` parts `ptrs` into the addresses below `addr` and those from it on.
pub open spec fn splits_at(ptrs: Seq<usize>, addr: usize, i: int) -> bool {
    &&& 0 <= i <= ptrs.len()
    &&& forall|j: int| 0 <= j < i ==> ptrs[j] < addr
    &&& forall|j: int| i <= j < ptrs.len() ==> ptrs[j] >= addr
}

/// In a strictly ascending sequence an element's index is where it stands.
proof fn lemma_ascending_index_of(s: Seq<usize>, a: int)
    requires
        forall|i: int, j: int| 0 <= i < j < s.len() ==> s[i] < s[j],
        0 <= a < s.len(),
    ensures
        s.index_of(s[a]) == a,
{
    assert(s.contains(s[a]));
    let b = s.index_of(s[a]);
    assert(0 <= b < s.len() && s[b] == s[a]);
}

impl ImportLut {
    /// The table is sorted by address, each address once, one entry each.
    pub open spec fn wf(&self) -> bool {
        &&& self.ptrs@.len() == self.data@.len()
        &&& forall|i: int, j: int| 0 <= i < j < self.ptrs@.len() ==> self.ptrs@[i] < self.ptrs@[j]
    }

    /// The entries by the address of their helper.
    pub open spec fn view(&self) -> Map<usize, ImportLutEntry> {
        Map::new(
            |p: usize| self.ptrs@.contains(p),
            |p: usize| self.data@[self.ptrs@.index_of(p)],
        )
    }

    /// The index of the first helper at or after `addr`.
    pub open spec fn slot(&self, addr: usize) -> int {
        choose|i: int| #[trigger] splits_at(self.ptrs@, addr, i)
    }

    /// An empty table.
    pub fn new() -> (r: Self)
        ensures
            r.wf(),
            r.ptrs@.len() == 0,
    {
        ImportLut { ptrs: Vec::new(), data: Vec::new() }
    }

    /// Adds the helper at `ptr`, which the table does not hold yet, keeping
    /// the addresses sorted.
    pub fn insert(&mut self, ptr: usize, entry: ImportLutEntry)
        requires
            old(self).wf(),
            !old(self).ptrs@.contains(ptr),
        ensures
            final(self).wf(),
            final(self).ptrs@.to_set() == old(self).ptrs@.to_set().insert(ptr),
            final(self).ptrs@.len() == old(self).ptrs@.len() + 1,
            final(self).view() == old(self).view().insert(ptr, entry),
            exists|i: int|
                0 <= i <= old(self).ptrs@.len() && final(self).ptrs@ == old(self).ptrs@.insert(i, ptr)
                    && final(self).data@ == old(self).data@.insert(i, entry),
    {
        let i = match search_sorted(self.ptrs.as_slice(), ptr) {
            Ok(i) => {
                proof {
                    assert(old(self).ptrs@.contains(ptr));
                }
                i
            },
            Err(i) => i,
        };
        let ghost p0 = self.ptrs@;
        self.ptrs.insert(i, ptr);
        self.data.insert(i, entry);
        proof {
            assert forall|a: int, b: int| 0 <= a < b < self.ptrs@.len() implies self.ptrs@[a] < self.ptrs@[b] by {
                if b < i {
                } else if a < i && b == i {
                } else if a < i {
                    assert(self.ptrs@[b] == p0[b - 1]);
                } else if a == i {
                    assert(self.ptrs@[b] == p0[b - 1]);
                } else {
                    assert(self.ptrs@[a] == p0[a - 1]);
                    assert(self.ptrs@[b] == p0[b - 1]);
                }
            }
            assert(self.ptrs@.to_set() =~= p0.to_set().insert(ptr)) by {
                assert forall|x: usize| #[trigger] self.ptrs@.to_set().contains(x) == p0.to_set().insert(ptr).contains(x) by {
                    if self.ptrs@.contains(x) {
                        let k = choose|k: int| 0 <= k < self.ptrs@.len() && self.ptrs@[k] == x;
                        if k < i {
                            assert(p0[k] == x);
                        } else if k > i {
                            assert(p0[k - 1] == x);
                        }
                    }
                    if p0.contains(x) {
                        let k = choose|k: int| 0 <= k < p0.len() && p0[k] == x;
                        if k < i {
                            assert(self.ptrs@[k] == x);
                        } else {
                            assert(self.ptrs@[k + 1] == x);
                        }
                    }
                    if x == ptr {
                        assert(self.ptrs@[i as int] == ptr);
                    }
                }
            }
            let ghost d0 = old(self).data@;
            assert forall|x: usize| #[trigger] self.view().dom().contains(x) implies self.view()[x] == old(self).view().insert(ptr, entry)[x] by {
                assert(self.ptrs@.to_set().contains(x));
                let k = choose|k: int| 0 <= k < self.ptrs@.len() && self.ptrs@[k] == x;
                lemma_ascending_index_of(self.ptrs@, k);
                if k < i {
                    assert(p0[k] == x);
                    lemma_ascending_index_of(p0, k);
                    assert(x != ptr);
                } else if k > i {
                    assert(p0[k - 1] == x);
                    lemma_ascending_index_of(p0, k - 1);
                    assert(x != ptr);
                }
            }
            assert(self.view().dom() =~= old(self).view().insert(ptr, entry).dom()) by {
                assert forall|x: usize| self.view().dom().contains(x) == old(self).view().insert(ptr, entry).dom().contains(x) by {
                    assert(self.ptrs@.to_set().contains(x) == p0.to_set().insert(ptr).contains(x));
                }
            }
            assert(self.view() =~= old(self).view().insert(ptr, entry));
        }
    }

    /// The entry of the first helper at or after `addr`: the one at `addr`
    /// where the table holds it.
    pub fn find(&self, addr: usize) -> (r: ImportLutEntry)
        requires
            self.wf(),
            exists|j: int| 0 <= j < self.ptrs@.len() && self.ptrs@[j] >= addr,
        ensures
            0 <= self.slot(addr) < self.ptrs@.len(),
            r == self.data@[self.slot(addr)],
            self.view().contains_key(addr) ==> r == self.view()[addr],
    {
        let index = match search_sorted(self.ptrs.as_slice(), addr) {
            Ok(s) => s,
            Err(s) => s,
        };
        proof {
            assert(forall|j: int| 0 <= j < index ==> self.ptrs@[j] < addr);
            assert(forall|j: int| index <= j < self.ptrs@.len() ==> self.ptrs@[j] >= addr);
            assert(splits_at(self.ptrs@, addr, index as int));
            let s = self.slot(addr);
            assert(splits_at(self.ptrs@, addr, s));
            if s < index {
                assert(self.ptrs@[s] >= addr);
            }
            if index < s {
                assert(self.ptrs@[index as int] >= addr);
            }
            assert(s == index);
            if self.view().contains_key(addr) {
                let k = choose|k: int| 0 <= k < self.ptrs@.len() && self.ptrs@[k] == addr;
                lemma_ascending_index_of(self.ptrs@, k);
                if k < index {
                    assert(self.ptrs@[k] < addr);
                }
                if k > index {
                    assert(self.ptrs@[index as int] < self.ptrs@[k]);
                    assert(self.ptrs@[index as int] >= addr);
                }
            }
        }
        self.data[index]
    }
}


/// The entries of a mod's import helpers: the `i`-th helper `(address,
/// reference index)` of the mod `mod_index` leads to that mod, fixup entry
/// `i` and that reference.
pub open spec fn import_entries(mod_index: usize, helpers: Seq<(usize, usize)>) -> Map<usize, ImportLutEntry>
    decreases helpers.len(),
{
    if helpers.len() == 0 {
        Map::empty()
    } else {
        let i = helpers.len() - 1;
        import_entries(mod_index, helpers.drop_last()).insert(
            helpers[i].0,
            ImportLutEntry { mod_index, fixup_index: i as usize, ref_index: helpers[i].1 },
        )
    }
}

proof fn lemma_import_entries_dom(mod_index: usize, helpers: Seq<(usize, usize)>, p: usize)
    ensures
        import_entries(mod_index, helpers).dom().contains(p) <==> exists|k: int| 0 <= k < helpers.len() && helpers[k].0 == p,
    decreases helpers.len(),
{
    if helpers.len() > 0 {
        let h = helpers.drop_last();
        lemma_import_entries_dom(mod_index, h, p);
        if exists|k: int| 0 <= k < helpers.len() && helpers[k].0 == p {
            let k = choose|k: int| 0 <= k < helpers.len() && helpers[k].0 == p;
            if k < helpers.len() - 1 {
                assert(h[k].0 == p);
            }
        }
        if exists|k: int| 0 <= k < h.len() && h[k].0 == p {
            let k = choose|k: int| 0 <= k < h.len() && h[k].0 == p;
            assert(helpers[k].0 == p);
        }
    }
}

impl ImportLut {
    /// Adds the import helpers of the mod `mod_index`, each `(address,
    /// reference index)`; no address may be held already or come twice.
    pub fn add_imports(&mut self, mod_index: usize, helpers: &Vec<(usize, usize)>)
        requires
            old(self).wf(),
            forall|i: int, j: int| 0 <= i < j < helpers@.len() ==> helpers@[i].0 != helpers@[j].0,
            forall|i: int| 0 <= i < helpers@.len() ==> !old(self).ptrs@.contains(#[trigger] helpers@[i].0),
        ensures
            final(self).wf(),
            final(self).view() == old(self).view().union_prefer_right(import_entries(mod_index, helpers@)),
    {
        let mut i: usize = 0;
        proof {
            assert(helpers@.take(0) =~= Seq::<(usize, usize)>::empty());
            assert(self.view() =~= old(self).view().union_prefer_right(import_entries(mod_index, helpers@.take(0))));
        }
        while i < helpers.len()
            invariant
                0 <= i <= helpers@.len(),
                self.wf(),
                forall|a: int, b: int| 0 <= a < b < helpers@.len() ==> helpers@[a].0 != helpers@[b].0,
                forall|a: int| 0 <= a < helpers@.len() ==> !old(self).ptrs@.contains(#[trigger] helpers@[a].0),
                forall|x: usize| #[trigger] self.ptrs@.contains(x) <==> self.view().dom().contains(x),
                forall|x: usize| #[trigger] old(self).ptrs@.contains(x) <==> old(self).view().dom().contains(x),
                self.view() == old(self).view().union_prefer_right(import_entries(mod_index, helpers@.take(i as int))),
            decreases helpers@.len() - i,
        {
            let (addr, ref_index) = helpers[i];
            proof {
                lemma_import_entries_dom(mod_index, helpers@.take(i as int), addr);
                if exists|k: int| 0 <= k < i && helpers@.take(i as int)[k].0 == addr {
                    let k = choose|k: int| 0 <= k < i && helpers@.take(i as int)[k].0 == addr;
                    assert(helpers@[k].0 == helpers@[i as int].0);
                }
                assert(!old(self).ptrs@.contains(helpers@[i as int].0));
            }
            self.insert(addr, ImportLutEntry { mod_index, fixup_index: i, ref_index });
            proof {
                assert(helpers@.take(i + 1).drop_last() =~= helpers@.take(i as int));
                assert(self.view() =~= old(self).view().union_prefer_right(import_entries(mod_index, helpers@.take(i + 1))));
            }
            i = i + 1;
        }
        proof {
            assert(helpers@.take(i as int) =~= helpers@);
        }
    }
}

/// What `find` gives back of `insert`: the helper added is found with its
/// entry, and each helper held before keeps the entry it had.
pub proof fn lemma_find_after_insert(
    before: ImportLut,
    after: ImportLut,
    ptr: usize,
    entry: ImportLutEntry,
    q: usize,
)
    requires
        before.wf(),
        after.wf(),
        after.view() == before.view().insert(ptr, entry),
    ensures
        after.view().contains_key(ptr),
        after.view()[ptr] == entry,
        before.view().contains_key(q) && q != ptr ==> after.view().contains_key(q) && after.view()[q]
            == before.view()[q],
{
}

} // verus!
