//! What the applier keeps of each loaded mod.
pub use crate::utils::{get_str, offset_len};
use vstd::prelude::*;

verus! {

/// Where a mod's references into the game's tables resolved to.
pub struct ModRefs {
    pub type_def_refs: Vec<usize>,
    pub type_refs: Vec<usize>,
    pub method_refs: Vec<usize>,
    pub usage_list_offset: usize,
}

} // verus!
