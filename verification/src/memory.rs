//! Page-granular memory services: first-fit page allocation, freeing by
//! exact range, and memory-map snapshots.
//!
//! The services keep a ledger of the regions allocated through them, as a
//! sequence of descriptors sorted by base address and pairwise disjoint.
//! Addresses are in units of whole pages over a space of `total` pages.

use vstd::prelude::*;

verus! {

broadcast use vstd::seq_lib::lemma_seq_contains_after_push;

/// Classification of a region of the memory map. `Conventional` is free,
/// usable memory; the loader records its own allocations under the other
/// types.
#[derive(Clone, Copy, PartialEq, Eq, Structural, Debug)]
pub enum MemoryType {
    /// Free memory, not allocated by this loader.
    Conventional,
    /// Pages holding loader code.
    LoaderCode,
    /// Pages holding loader data.
    LoaderData,
}

/// One region of the memory map: `pages` contiguous pages starting at page
/// number `base`, with the type of their contents.
#[derive(Clone, Copy, PartialEq, Eq, Structural, Debug)]
pub struct MemoryDescriptor {
    pub base: u64,
    pub pages: u64,
    pub mem_type: MemoryType,
}

/// Failures of the memory services, typed so the caller can retry, choose
/// another memory type, or propagate.
#[derive(Clone, Copy, PartialEq, Eq, Structural, Debug)]
pub enum MemoryError {
    /// No free run of the requested length exists.
    OutOfResources,
    /// The range handed to `free_pages` does not match any recorded
    /// allocation.
    NotAllocated,
}

/// The descriptor `d` claims no page of the run of `pages` pages at `base`.
pub open spec fn descriptor_disjoint(d: MemoryDescriptor, base: u64, pages: u64) -> bool {
    base + pages <= d.base || d.base + d.pages <= base
}

/// No recorded region claims any page of the run of `pages` pages at `base`.
pub open spec fn range_free(regions: Seq<MemoryDescriptor>, base: u64, pages: u64) -> bool {
    forall|i: int| 0 <= i < regions.len() ==> descriptor_disjoint(#[trigger] regions[i], base, pages)
}

/// The ledger is well formed: every region is nonempty, lies within the
/// first `total` pages, carries an allocated (non-free) type, and the
/// regions are sorted by base address and pairwise disjoint.
pub open spec fn wf_regions(regions: Seq<MemoryDescriptor>, total: u64) -> bool {
    &&& (forall|i: int| 0 <= i < regions.len() ==> (#[trigger] regions[i]).pages >= 1
        && regions[i].base + regions[i].pages <= total
        && regions[i].mem_type != MemoryType::Conventional)
    &&& (forall|i: int, j: int| #![trigger regions[i], regions[j]] 0 <= i < j < regions.len()
        ==> regions[i].base + regions[i].pages <= regions[j].base)
}

/// What a successful `allocate_pages` establishes: the run of `pages` pages
/// at `base`, typed `mem_type`, lay free and within bounds, starts at the
/// lowest address where such a run fits (first fit), and is spliced into
/// the ledger at its sorted position.
pub open spec fn allocate_ok(
    pre: Seq<MemoryDescriptor>,
    total: u64,
    pages: u64,
    mem_type: MemoryType,
    base: u64,
    post: Seq<MemoryDescriptor>,
) -> bool {
    &&& base + pages <= total
    &&& range_free(pre, base, pages)
    &&& (forall|a: u64| a + pages <= total && #[trigger] range_free(pre, a, pages) ==> base <= a)
    &&& (exists|i: int| 0 <= i <= pre.len()
        && post == #[trigger] pre.insert(i, (MemoryDescriptor { base, pages, mem_type })))
}

/// What a successful `free_pages` establishes: exactly one recorded region
/// matched the base and page count, and it alone was removed.
pub open spec fn free_ok(
    pre: Seq<MemoryDescriptor>,
    base: u64,
    pages: u64,
    post: Seq<MemoryDescriptor>,
) -> bool {
    exists|i: int| 0 <= i < pre.len()
        && (#[trigger] pre[i]).base == base && pre[i].pages == pages
        && post == pre.remove(i)
}

/// `m` is a faithful snapshot of the ledger `regions` over `total` pages:
/// nonempty descriptors, contiguous in address order from page 0 to
/// `total`, free gaps reported as `Conventional`, and every recorded
/// allocation reported with its type.
pub open spec fn map_of(regions: Seq<MemoryDescriptor>, total: u64, m: Seq<MemoryDescriptor>) -> bool {
    &&& (total == 0 ==> m.len() == 0)
    &&& (total > 0 ==> m.len() > 0 && m[0].base == 0
        && m[m.len() - 1].base + m[m.len() - 1].pages == total)
    &&& (forall|k: int| 0 <= k < m.len() ==> (#[trigger] m[k]).pages >= 1)
    &&& (forall|k: int| #![trigger m[k], m[k + 1]] 0 <= k < m.len() - 1
        ==> m[k].base + m[k].pages == m[k + 1].base)
    &&& (forall|k: int| 0 <= k < m.len() && (#[trigger] m[k]).mem_type == MemoryType::Conventional
        ==> range_free(regions, m[k].base, m[k].pages))
    &&& (forall|k: int| 0 <= k < m.len() && (#[trigger] m[k]).mem_type != MemoryType::Conventional
        ==> regions.contains(m[k]))
    &&& (forall|i: int| 0 <= i < regions.len() ==> m.contains(#[trigger] regions[i]))
}

/// A snapshot built left to right: descriptors contiguous from page 0 up
/// to page `covered`, free gaps free in the whole ledger's sense, and
/// allocated entries taken from the ledger.
pub open spec fn map_prefix(
    regions: Seq<MemoryDescriptor>,
    m: Seq<MemoryDescriptor>,
    covered: u64,
) -> bool {
    &&& (m.len() == 0 ==> covered == 0)
    &&& (m.len() > 0 ==> m[0].base == 0 && m[m.len() - 1].base + m[m.len() - 1].pages == covered)
    &&& (forall|k: int| 0 <= k < m.len() ==> (#[trigger] m[k]).pages >= 1)
    &&& (forall|k: int| #![trigger m[k], m[k + 1]] 0 <= k < m.len() - 1
        ==> m[k].base + m[k].pages == m[k + 1].base)
    &&& (forall|k: int| 0 <= k < m.len() && (#[trigger] m[k]).mem_type == MemoryType::Conventional
        ==> range_free(regions, m[k].base, m[k].pages))
    &&& (forall|k: int| 0 <= k < m.len() && (#[trigger] m[k]).mem_type != MemoryType::Conventional
        ==> regions.contains(m[k]))
}

/// Extending a snapshot with a descriptor that begins exactly where the
/// covered prefix ends yields a snapshot again.
#[verifier::rlimit(100)]
proof fn lemma_map_prefix_push(
    regions: Seq<MemoryDescriptor>,
    m: Seq<MemoryDescriptor>,
    covered: u64,
    x: MemoryDescriptor,
    new_covered: u64,
)
    requires
        map_prefix(regions, m, covered),
        x.base == covered,
        x.pages >= 1,
        new_covered == x.base + x.pages,
        x.mem_type == MemoryType::Conventional ==> range_free(regions, x.base, x.pages),
        x.mem_type != MemoryType::Conventional ==> regions.contains(x),
    ensures
        map_prefix(regions, m.push(x), new_covered),
{
    let m1 = m.push(x);
    assert forall|k: int| 0 <= k < m1.len() implies (#[trigger] m1[k]).pages >= 1 by {
        if k < m.len() {
            assert(m1[k] == m[k]);
        } else {
            assert(m1[k] == x);
        }
    }
    assert forall|k: int| #![trigger m1[k], m1[k + 1]] 0 <= k < m1.len() - 1
        implies m1[k].base + m1[k].pages == m1[k + 1].base by {
        if k + 1 < m.len() {
            assert(m1[k] == m[k]);
            assert(m1[k + 1] == m[k + 1]);
        } else {
            assert(m1[k] == m[m.len() - 1]);
            assert(m1[k + 1] == x);
        }
    }
    assert forall|k: int| 0 <= k < m1.len() && (#[trigger] m1[k]).mem_type
        == MemoryType::Conventional implies range_free(regions, m1[k].base, m1[k].pages) by {
        if k < m.len() {
            assert(m1[k] == m[k]);
        } else {
            assert(m1[k] == x);
        }
    }
    assert forall|k: int| 0 <= k < m1.len() && (#[trigger] m1[k]).mem_type
        != MemoryType::Conventional implies regions.contains(m1[k]) by {
        if k < m.len() {
            assert(m1[k] == m[k]);
        } else {
            assert(m1[k] == x);
        }
    }
}

/// A region inserted between its neighbours keeps the ledger well formed.
proof fn lemma_insert_region_wf(s: Seq<MemoryDescriptor>, total: u64, i: int, d: MemoryDescriptor)
    requires
        wf_regions(s, total),
        0 <= i <= s.len(),
        d.pages >= 1,
        d.base + d.pages <= total,
        d.mem_type != MemoryType::Conventional,
        forall|j: int| 0 <= j < i ==> (#[trigger] s[j]).base + s[j].pages <= d.base,
        forall|j: int| i <= j < s.len() ==> d.base + d.pages <= (#[trigger] s[j]).base,
    ensures
        wf_regions(s.insert(i, d), total),
{
    s.insert_ensures(i, d);
    let s1 = s.insert(i, d);
    assert forall|p: int| 0 <= p < s1.len() implies (#[trigger] s1[p]).pages >= 1
        && s1[p].base + s1[p].pages <= total
        && s1[p].mem_type != MemoryType::Conventional by {
        if p < i {
            assert(s1[p] == s[p]);
        } else if p == i {
            assert(s1[p] == d);
        } else {
            assert(s1[p] == s[p - 1]);
        }
    }
    assert forall|p: int, q: int| #![trigger s1[p], s1[q]] 0 <= p < q < s1.len()
        implies s1[p].base + s1[p].pages <= s1[q].base by {
        if p < i {
            assert(s1[p] == s[p]);
        } else if p == i {
            assert(s1[p] == d);
        } else {
            assert(s1[p] == s[p - 1]);
        }
        if q < i {
            assert(s1[q] == s[q]);
        } else if q == i {
            assert(s1[q] == d);
        } else {
            assert(s1[q] == s[q - 1]);
        }
    }
}

/// Removing a region keeps the ledger well formed.
proof fn lemma_remove_region_wf(s: Seq<MemoryDescriptor>, total: u64, i: int)
    requires
        wf_regions(s, total),
        0 <= i < s.len(),
    ensures
        wf_regions(s.remove(i), total),
{
    s.remove_ensures(i);
    let s1 = s.remove(i);
    assert forall|p: int| 0 <= p < s1.len() implies (#[trigger] s1[p]).pages >= 1
        && s1[p].base + s1[p].pages <= total
        && s1[p].mem_type != MemoryType::Conventional by {
        if p < i {
            assert(s1[p] == s[p]);
        } else {
            assert(s1[p] == s[p + 1]);
        }
    }
    assert forall|p: int, q: int| #![trigger s1[p], s1[q]] 0 <= p < q < s1.len()
        implies s1[p].base + s1[p].pages <= s1[q].base by {
        if p < i {
            assert(s1[p] == s[p]);
        } else {
            assert(s1[p] == s[p + 1]);
        }
        if q < i {
            assert(s1[q] == s[q]);
        } else {
            assert(s1[q] == s[q + 1]);
        }
    }
}

/// A gap of the sorted ledger is free: if every region before position `i`
/// ends at or before `base`, and the run ends at or before where the
/// regions from position `i` on begin, no region claims a page of it.
proof fn lemma_gap_is_free(s: Seq<MemoryDescriptor>, total: u64, i: int, base: u64, pages: u64)
    requires
        wf_regions(s, total),
        0 <= i <= s.len(),
        forall|j: int| 0 <= j < i ==> (#[trigger] s[j]).base + s[j].pages <= base,
        i < s.len() ==> base + pages <= s[i].base,
    ensures
        range_free(s, base, pages),
{
    assert forall|j: int| 0 <= j < s.len() implies descriptor_disjoint(#[trigger] s[j], base, pages) by {
        if j >= i {
            assert(s[i].base <= s[j].base);
        }
    }
}

/// Page-granular memory services over a space of `total` pages. The ledger
/// records every allocation made through them; the memory map reports the
/// ledger together with the free gaps between its regions.
pub struct MemoryServices {
    total_pages: u64,
    regions: Vec<MemoryDescriptor>,
}

impl MemoryServices {
    /// The recorded allocations, sorted by base address.
    pub closed spec fn regions(&self) -> Seq<MemoryDescriptor> {
        self.regions@
    }

    /// Size of the managed space, in pages.
    pub closed spec fn total(&self) -> u64 {
        self.total_pages
    }

    /// The ledger is well formed.
    pub open spec fn wf(&self) -> bool {
        wf_regions(self.regions(), self.total())
    }

    /// Fresh services over a space of `total_pages` pages, with nothing
    /// allocated yet.
    pub fn new(total_pages: u64) -> (s: MemoryServices)
        ensures
            s.wf(),
            s.total() == total_pages,
            s.regions().len() == 0,
    {
        MemoryServices { total_pages, regions: Vec::new() }
    }

    /// Allocate `pages` contiguous pages of the given (non-free) type.
    /// First fit: on success the run returned starts at the lowest address
    /// where a free run of that length fits. Fails with `OutOfResources` —
    /// leaving the ledger unchanged — exactly when no such run exists.
    pub fn allocate_pages(&mut self, pages: u64, mem_type: MemoryType) -> (r: Result<
        u64,
        MemoryError,
    >)
        requires
            old(self).wf(),
            pages >= 1,
            mem_type != MemoryType::Conventional,
        ensures
            final(self).wf(),
            final(self).total() == old(self).total(),
            match r {
                Ok(base) => allocate_ok(
                    old(self).regions(),
                    old(self).total(),
                    pages,
                    mem_type,
                    base,
                    final(self).regions(),
                ),
                Err(e) => {
                    &&& e == MemoryError::OutOfResources
                    &&& final(self).regions() == old(self).regions()
                    &&& forall|a: u64|
                        a + pages <= old(self).total()
                            ==> !(#[trigger] range_free(old(self).regions(), a, pages))
                },
            },
    {
        let ghost pre = self.regions@;
        let ghost total = self.total_pages;
        let mut i: usize = 0;
        let mut prev_end: u64 = 0;
        while i < self.regions.len()
            invariant
                pre == old(self).regions(),
                total == old(self).total(),
                self.regions@ == pre,
                self.total_pages == total,
                wf_regions(pre, total),
                pages >= 1,
                mem_type != MemoryType::Conventional,
                0 <= i <= pre.len(),
                i == 0 ==> prev_end == 0,
                i > 0 ==> prev_end == pre[i - 1].base + pre[i - 1].pages,
                prev_end <= total,
                forall|j: int| 0 <= j < i ==> (#[trigger] pre[j]).base + pre[j].pages <= prev_end,
                forall|a: u64|
                    a + pages <= total && #[trigger] range_free(pre, a, pages) ==> a >= prev_end,
            decreases pre.len() - i,
        {
            let d = self.regions[i];
            proof {
                if i > 0 {
                    assert(pre[i - 1].base + pre[i - 1].pages <= pre[i as int].base);
                }
            }
            if d.base - prev_end >= pages {
                let nd = MemoryDescriptor { base: prev_end, pages, mem_type };
                proof {
                    lemma_gap_is_free(pre, total, i as int, prev_end, pages);
                    lemma_insert_region_wf(pre, total, i as int, nd);
                }
                self.regions.insert(i, nd);
                return Ok(nd.base);
            }
            proof {
                let new_end = d.base + d.pages;
                assert forall|a: u64| a + pages <= total && #[trigger] range_free(pre, a, pages)
                    implies a >= new_end by {
                    assert(descriptor_disjoint(pre[i as int], a, pages));
                };
            }
            prev_end = d.base + d.pages;
            i += 1;
        }
        if self.total_pages - prev_end >= pages {
            let nd = MemoryDescriptor { base: prev_end, pages, mem_type };
            proof {
                lemma_gap_is_free(pre, total, pre.len() as int, prev_end, pages);
                lemma_insert_region_wf(pre, total, pre.len() as int, nd);
                assert(pre.push(nd) =~= pre.insert(pre.len() as int, nd));
            }
            self.regions.push(nd);
            return Ok(nd.base);
        }
        proof {
            assert forall|a: u64| a + pages <= total implies !(#[trigger] range_free(
                pre,
                a,
                pages,
            )) by {
                if range_free(pre, a, pages) {
                    assert(a >= prev_end);
                }
            };
        }
        Err(MemoryError::OutOfResources)
    }

    /// Free a previously allocated run: `pages` pages at `base`, which must
    /// match one recorded allocation exactly. Fails with `NotAllocated` —
    /// leaving the ledger unchanged — exactly when no recorded region
    /// matches.
    pub fn free_pages(&mut self, base: u64, pages: u64) -> (r: Result<(), MemoryError>)
        requires
            old(self).wf(),
        ensures
            final(self).wf(),
            final(self).total() == old(self).total(),
            match r {
                Ok(_) => free_ok(old(self).regions(), base, pages, final(self).regions()),
                Err(e) => {
                    &&& e == MemoryError::NotAllocated
                    &&& final(self).regions() == old(self).regions()
                    &&& forall|i: int|
                        0 <= i < old(self).regions().len()
                            ==> !((#[trigger] old(self).regions()[i]).base == base
                            && old(self).regions()[i].pages == pages)
                },
            },
    {
        let ghost pre = self.regions@;
        let ghost total = self.total_pages;
        let mut i: usize = 0;
        while i < self.regions.len()
            invariant
                pre == old(self).regions(),
                total == old(self).total(),
                self.regions@ == pre,
                self.total_pages == total,
                wf_regions(pre, total),
                0 <= i <= pre.len(),
                forall|j: int|
                    0 <= j < i ==> !((#[trigger] pre[j]).base == base && pre[j].pages == pages),
            decreases pre.len() - i,
        {
            let d = self.regions[i];
            if d.base == base && d.pages == pages {
                proof {
                    lemma_remove_region_wf(pre, total, i as int);
                }
                self.regions.remove(i);
                return Ok(());
            }
            i += 1;
        }
        Err(MemoryError::NotAllocated)
    }

    /// Snapshot of the memory map: contiguous descriptors covering the
    /// whole space in address order, free gaps as `Conventional`, and every
    /// recorded allocation with its type. The snapshot is not updated by
    /// later allocations; re-fetch it before any operation that needs an
    /// up-to-date view.
    #[verifier::rlimit(100)]
    pub fn memory_map(&self) -> (m: Vec<MemoryDescriptor>)
        requires
            self.wf(),
        ensures
            map_of(self.regions(), self.total(), m@),
    {
        let ghost pre = self.regions@;
        let ghost total = self.total_pages;
        let mut m: Vec<MemoryDescriptor> = Vec::new();
        let mut i: usize = 0;
        let mut prev_end: u64 = 0;
        while i < self.regions.len()
            invariant
                pre == self.regions(),
                total == self.total(),
                wf_regions(pre, total),
                0 <= i <= pre.len(),
                i == 0 ==> prev_end == 0,
                i > 0 ==> prev_end == pre[i - 1].base + pre[i - 1].pages,
                prev_end <= total,
                forall|j: int| 0 <= j < i ==> (#[trigger] pre[j]).base + pre[j].pages <= prev_end,
                map_prefix(pre, m@, prev_end),
                forall|j: int| 0 <= j < i ==> m@.contains(#[trigger] pre[j]),
            decreases pre.len() - i,
        {
            let ghost m_before = m@;
            let d = self.regions[i];
            proof {
                if i > 0 {
                    assert(pre[i - 1].base + pre[i - 1].pages <= pre[i as int].base);
                }
                assert(pre[i as int] == d);
                assert(d.base + d.pages <= total);
            }
            if d.base > prev_end {
                let gap = MemoryDescriptor {
                    base: prev_end,
                    pages: d.base - prev_end,
                    mem_type: MemoryType::Conventional,
                };
                proof {
                    lemma_gap_is_free(pre, total, i as int, prev_end, gap.pages);
                    lemma_map_prefix_push(pre, m@, prev_end, gap, d.base);
                }
                m.push(gap);
            }
            let ghost m_mid = m@;
            proof {
                assert(pre.contains(d));
                lemma_map_prefix_push(pre, m@, d.base, d, (d.base + d.pages) as u64);
            }
            m.push(d);
            proof {
                assert forall|j: int| 0 <= j < i + 1 implies m@.contains(#[trigger] pre[j]) by {
                    if j == i {
                        assert(m@.len() == m_mid.len() + 1);
                        assert(m@[m@.len() - 1] == pre[j]);
                    } else {
                        assert(m_before.contains(pre[j]));
                        assert(m_mid.contains(pre[j]));
                        assert(m@ == m_mid.push(d));
                    }
                }
            }
            prev_end = d.base + d.pages;
            i += 1;
        }
        let ghost m_scanned = m@;
        if prev_end < self.total_pages {
            let gap = MemoryDescriptor {
                base: prev_end,
                pages: self.total_pages - prev_end,
                mem_type: MemoryType::Conventional,
            };
            proof {
                lemma_gap_is_free(pre, total, pre.len() as int, prev_end, gap.pages);
                lemma_map_prefix_push(pre, m@, prev_end, gap, total);
            }
            m.push(gap);
        }
        proof {
            assert forall|j: int| 0 <= j < pre.len() implies m@.contains(#[trigger] pre[j]) by {
                assert(m_scanned.contains(pre[j]));
            }
            if total == 0 && pre.len() > 0 {
                assert(pre[0].pages >= 1 && pre[0].base + pre[0].pages <= total);
                assert(false);
            }
            if total == 0 && m@.len() > 0 {
                assert(m@[m@.len() - 1].pages >= 1);
                assert(false);
            }
            if total > 0 && m@.len() == 0 {
                assert(false);
            }
        }
        m
    }
}

/// Law: memory services round trip. Allocating a run of pages and then
/// freeing the same base and page count restores the ledger exactly, and a
/// memory-map snapshot taken afterwards reports no page of that run as
/// allocated by this loader: every descriptor that is not `Conventional`
/// lies entirely outside the run.
#[verifier::rlimit(100)]
pub proof fn lemma_allocate_free_round_trip(
    s0: Seq<MemoryDescriptor>,
    total: u64,
    pages: u64,
    mem_type: MemoryType,
    base: u64,
    s1: Seq<MemoryDescriptor>,
    s2: Seq<MemoryDescriptor>,
    m: Seq<MemoryDescriptor>,
)
    requires
        wf_regions(s0, total),
        wf_regions(s1, total),
        pages >= 1,
        mem_type != MemoryType::Conventional,
        allocate_ok(s0, total, pages, mem_type, base, s1),
        free_ok(s1, base, pages, s2),
        map_of(s2, total, m),
    ensures
        s2 == s0,
        forall|k: int| 0 <= k < m.len() && (#[trigger] m[k]).mem_type != MemoryType::Conventional
            ==> descriptor_disjoint(m[k], base, pages),
{
    let d = MemoryDescriptor { base, pages, mem_type };
    let i = choose|i: int| 0 <= i <= s0.len() && s1 == #[trigger] s0.insert(i, d);
    s0.insert_ensures(i, d);
    let j = choose|j: int| 0 <= j < s1.len() && (#[trigger] s1[j]).base == base
        && s1[j].pages == pages && s2 == s1.remove(j);
    s1.remove_ensures(j);
    assert(s1[i] == d);
    // bases of a well-formed ledger are strictly increasing, so the region
    // removed is the one inserted
    if j < i {
        assert(s1[j].base + s1[j].pages <= s1[i].base);
        assert(false);
    } else if j > i {
        assert(s1[i].base + s1[i].pages <= s1[j].base);
        assert(false);
    }
    assert(s2 =~= s0) by {
        assert forall|k: int| 0 <= k < s2.len() implies s2[k] == s0[k] by {
            if k < i {
                assert(s2[k] == s1[k]);
                assert(s1[k] == s0[k]);
            } else {
                assert(s2[k] == s1[k + 1]);
                assert(s1[k + 1] == s0[k]);
            }
        }
    };
    assert forall|k: int| 0 <= k < m.len() && (#[trigger] m[k]).mem_type != MemoryType::Conventional
        implies descriptor_disjoint(m[k], base, pages) by {
        assert(s2.contains(m[k]));
        let idx = choose|idx: int| 0 <= idx < s2.len() && s2[idx] == m[k];
        assert(descriptor_disjoint(s0[idx], base, pages));
    };
}

} // verus!
