//! Bump allocation of executable memory for hooks, one page at a time.
//!
//! The allocator keeps the bookkeeping: the page size (in instruction words),
//! how many pages are full, and how many words of the current page are used.
//! The pages themselves are made and handed out by the caller, which starts a
//! new page whenever an allocation says so.
use vstd::prelude::*;

verus! {

pub struct HookAllocator {
    /// The page size in instructions (bytes / 4).
    pub page_size: usize,
    /// The number of pages that are no longer allocated from.
    pub old_pages: usize,
    /// The number of words of the current page handed out.
    pub used: usize,
}

/// Where an allocation lies.
#[derive(Clone, Copy, Debug, PartialEq, Eq, Structural)]
pub struct HookAllocation {
    /// The allocation starts a new page (the current one is kept as an old page).
    pub new_page: bool,
    /// The word offset of the allocation in the current page.
    pub offset: usize,
}

/// The allocator's state after allocating `size` words when `used` words of a
/// page of `page_size` are in use, with `old_pages` full pages: the new state
/// and the allocation. `None` where the original indexing would go past the
/// page (an empty request on a full page) or the count would overflow.
pub open spec fn alloc_step(page_size: usize, old_pages: usize, used: usize, size: usize) -> Option<
    (usize, usize, HookAllocation),
> {
    if used + size > usize::MAX {
        None
    } else if used + size > page_size {
        if old_pages + 1 > usize::MAX || page_size == 0 {
            None
        } else {
            Some(((old_pages + 1) as usize, size, HookAllocation { new_page: true, offset: 0 }))
        }
    } else if used >= page_size {
        None
    } else {
        Some((old_pages, (used + size) as usize, HookAllocation { new_page: false, offset: used }))
    }
}

impl HookAllocator {
    /// An allocator with a fresh current page of `page_size` words.
    pub fn new(page_size: usize) -> (a: HookAllocator)
        ensures
            a.page_size == page_size,
            a.old_pages == 0,
            a.used == 0,
    {
        HookAllocator { page_size, old_pages: 0, used: 0 }
    }

    /// Allocates `size` words: after the words in use on the current page,
    /// or at the start of a new page where they do not fit. `None`, and no
    /// change, where `alloc_step` is not defined.
    pub fn allocate(&mut self, size: usize) -> (r: Option<HookAllocation>)
        ensures
            match alloc_step(old(self).page_size, old(self).old_pages, old(self).used, size) {
                None => r is None && *final(self) == *old(self),
                Some((old_pages, used, a)) => {
                    &&& r == Some(a)
                    &&& final(self).page_size == old(self).page_size
                    &&& final(self).old_pages == old_pages
                    &&& final(self).used == used
                },
            },
    {
        if self.used > usize::MAX - size {
            return None;
        }
        let mut new_page = false;
        if self.used + size > self.page_size {
            if self.old_pages == usize::MAX || self.page_size == 0 {
                return None;
            }
            self.old_pages = self.old_pages + 1;
            self.used = 0;
            new_page = true;
        } else if self.used >= self.page_size {
            return None;
        }
        let offset = self.used;
        self.used = self.used + size;
        Some(HookAllocation { new_page, offset })
    }
}

/// Allocations do not overlap: of two allocations one after the other, the
/// second starts a new page or starts where the first ends on the same page.
pub proof fn lemma_alloc_disjoint(page_size: usize, old_pages: usize, used: usize, s1: usize, s2: usize)
    requires
        alloc_step(page_size, old_pages, used, s1) is Some,
        ({
            let (p1, u1, _) = alloc_step(page_size, old_pages, used, s1).unwrap();
            alloc_step(page_size, p1, u1, s2) is Some
        }),
    ensures
        ({
            let (p1, u1, a1) = alloc_step(page_size, old_pages, used, s1).unwrap();
            let (p2, u2, a2) = alloc_step(page_size, p1, u1, s2).unwrap();
            &&& a2.new_page ==> p2 == p1 + 1 && a2.offset == 0
            &&& !a2.new_page ==> p2 == p1 && a2.offset == a1.offset + s1 && a2.offset + s2 <= page_size
        }),
{
}

} // verus!
