//! The usages of a mod built against a single set of sources: which
//! functions it calls, and the invokers, generic functions and adjustor
//! thunks it needs, numbered in the order they are first asked for.
use crate::build::function_usages::{add_numbered, numbering_wf};
use std::collections::HashMap;
use vstd::hash_map::StringHashMap;
use vstd::hash_set::StringHashSet;
use vstd::prelude::*;

verus! {

broadcast use vstd::std_specs::hash::group_hash_axioms;

pub struct ModFunctionUsages {
    /// Mapping from name to method def metadata idx
    pub external_methods: StringHashMap<usize>,
    pub forward_decls: StringHashMap<String>,
    pub usages: StringHashSet,
    pub using_gshared: StringHashSet,
    pub generic_proxies: StringHashMap<String>,
    pub required_invokers: Vec<usize>,
    pub invokers_map: HashMap<usize, usize>,
    pub required_generic_funcs: Vec<usize>,
    pub generic_func_map: HashMap<usize, usize>,
    pub required_generic_adj_thunks: Vec<usize>,
    pub generic_adj_thunk_map: HashMap<usize, usize>,
}

impl ModFunctionUsages {
    /// The three numberings agree with their lists.
    pub open spec fn wf(&self) -> bool {
        &&& numbering_wf(self.invokers_map@, self.required_invokers@)
        &&& numbering_wf(self.generic_func_map@, self.required_generic_funcs@)
        &&& numbering_wf(self.generic_adj_thunk_map@, self.required_generic_adj_thunks@)
    }

    /// Everything but the three numberings is the same in `self` and `other`.
    pub open spec fn same_names(&self, other: &Self) -> bool {
        &&& self.external_methods@ == other.external_methods@
        &&& self.forward_decls@ == other.forward_decls@
        &&& self.usages@ == other.usages@
        &&& self.using_gshared@ == other.using_gshared@
        &&& self.generic_proxies@ == other.generic_proxies@
    }

    /// An empty set of usages.
    pub fn new() -> (r: Self)
        ensures
            r.wf(),
            r.external_methods@ == Map::<Seq<char>, usize>::empty(),
            r.forward_decls@ == Map::<Seq<char>, String>::empty(),
            r.usages@ == Set::<Seq<char>>::empty(),
            r.using_gshared@ == Set::<Seq<char>>::empty(),
            r.generic_proxies@ == Map::<Seq<char>, String>::empty(),
            r.required_invokers@ == Seq::<usize>::empty(),
            r.required_generic_funcs@ == Seq::<usize>::empty(),
            r.required_generic_adj_thunks@ == Seq::<usize>::empty(),
    {
        ModFunctionUsages {
            external_methods: StringHashMap::new(),
            forward_decls: StringHashMap::new(),
            usages: StringHashSet::new(),
            using_gshared: StringHashSet::new(),
            generic_proxies: StringHashMap::new(),
            required_invokers: Vec::new(),
            invokers_map: HashMap::new(),
            required_generic_funcs: Vec::new(),
            generic_func_map: HashMap::new(),
            required_generic_adj_thunks: Vec::new(),
            generic_adj_thunk_map: HashMap::new(),
        }
    }

    /// The position of invoker `idx` in the mod's invoker table, added at
    /// the end where it is not there yet.
    pub fn add_invoker(&mut self, idx: usize) -> (r: usize)
        requires
            old(self).wf(),
        ensures
            final(self).wf(),
            final(self).same_names(old(self)),
            final(self).generic_func_map@ == old(self).generic_func_map@,
            final(self).required_generic_funcs@ == old(self).required_generic_funcs@,
            final(self).generic_adj_thunk_map@ == old(self).generic_adj_thunk_map@,
            final(self).required_generic_adj_thunks@ == old(self).required_generic_adj_thunks@,
            old(self).invokers_map@.contains_key(idx) ==> r == old(self).invokers_map@[idx]
                && final(self).required_invokers@ == old(self).required_invokers@,
            !old(self).invokers_map@.contains_key(idx) ==> r == old(self).required_invokers@.len()
                && final(self).required_invokers@ == old(self).required_invokers@.push(idx),
            final(self).required_invokers@[r as int] == idx,
            r < final(self).required_invokers@.len(),
    {
        add_numbered(&mut self.invokers_map, &mut self.required_invokers, idx)
    }

    /// The position of generic function `idx` in the mod's generic method
    /// pointer table, added at the end where it is not there yet.
    pub fn add_generic_func(&mut self, idx: usize) -> (r: usize)
        requires
            old(self).wf(),
        ensures
            final(self).wf(),
            final(self).same_names(old(self)),
            final(self).invokers_map@ == old(self).invokers_map@,
            final(self).required_invokers@ == old(self).required_invokers@,
            final(self).generic_adj_thunk_map@ == old(self).generic_adj_thunk_map@,
            final(self).required_generic_adj_thunks@ == old(self).required_generic_adj_thunks@,
            old(self).generic_func_map@.contains_key(idx) ==> r == old(self).generic_func_map@[idx]
                && final(self).required_generic_funcs@ == old(self).required_generic_funcs@,
            !old(self).generic_func_map@.contains_key(idx) ==> r == old(
                self,
            ).required_generic_funcs@.len() && final(self).required_generic_funcs@ == old(
                self,
            ).required_generic_funcs@.push(idx),
            final(self).required_generic_funcs@[r as int] == idx,
            r < final(self).required_generic_funcs@.len(),
    {
        add_numbered(&mut self.generic_func_map, &mut self.required_generic_funcs, idx)
    }

    /// The position of adjustor thunk `idx` in the mod's adjustor thunk
    /// table, added at the end where it is not there yet.
    pub fn add_generic_adj_thunk(&mut self, idx: usize) -> (r: usize)
        requires
            old(self).wf(),
        ensures
            final(self).wf(),
            final(self).same_names(old(self)),
            final(self).invokers_map@ == old(self).invokers_map@,
            final(self).required_invokers@ == old(self).required_invokers@,
            final(self).generic_func_map@ == old(self).generic_func_map@,
            final(self).required_generic_funcs@ == old(self).required_generic_funcs@,
            old(self).generic_adj_thunk_map@.contains_key(idx) ==> r == old(
                self,
            ).generic_adj_thunk_map@[idx] && final(self).required_generic_adj_thunks@ == old(
                self,
            ).required_generic_adj_thunks@,
            !old(self).generic_adj_thunk_map@.contains_key(idx) ==> r == old(
                self,
            ).required_generic_adj_thunks@.len() && final(self).required_generic_adj_thunks@
                == old(self).required_generic_adj_thunks@.push(idx),
            final(self).required_generic_adj_thunks@[r as int] == idx,
            r < final(self).required_generic_adj_thunks@.len(),
    {
        add_numbered(&mut self.generic_adj_thunk_map, &mut self.required_generic_adj_thunks, idx)
    }
}

} // verus!

verus! {

/// The stub of an external method that the mod calls: its declaration,
/// then a body that resolves the method (the mod's `idx`-th) at run time
/// and calls it with the stub's parameters.
pub open spec fn external_stub_text(decl: Seq<char>, mod_id: Seq<char>, idx: nat) -> Seq<char> {
    let (ret, _, params, _) = crate::build::parser::parse_decl(decl).unwrap();
    decl + "\n{\n"@ + "    return (("@ + ret + " (*)"@ + params + ")(merge_codegen_resolve_method(\""@ + mod_id
        + "\", "@ + crate::text::decimal(idx) + ")))("@ + crate::build::generics::joined(
        crate::build::generics::param_names(params),
    ) + ");\n"@ + "}\n\n"@
}

/// Appends the stub of the external method declared by `decl` (see
/// `external_stub_text`).
pub fn push_external_stub(out: &mut String, decl: &str, mod_id: &str, idx: usize)
    requires
        crate::build::parser::parse_decl(decl@) matches Some((_, _, params, _))
            && crate::build::generics::params_named(params),
    ensures
        final(out)@ == old(out)@ + external_stub_text(decl@, mod_id@, idx as nat),
{
    let d = match crate::build::parser::FnDecl::try_parse(decl) {
        Some(d) => d,
        None => {
            return;
        },
    };
    let list = crate::build::generics::joined_param_names(d.params);
    out.append(decl);
    out.append("\n{\n");
    out.append("    return ((");
    out.append(d.return_ty);
    out.append(" (*)");
    out.append(d.params);
    out.append(")(merge_codegen_resolve_method(\"");
    out.append(mod_id);
    out.append("\", ");
    crate::text::push_decimal(out, idx);
    out.append(")))(");
    out.append(list.as_str());
    out.append(");\n");
    out.append("}\n\n");
    proof {
        assert(out@ =~= old(out)@ + external_stub_text(decl@, mod_id@, idx as nat));
    }
}

} // verus!
