//! Model of the virtual-to-physical mapping state that the memory
//! mapper maintains for one task.
//!
//! The page-table mechanics (frame allocation, table walking) belong to
//! an external collaborator; what the mapping syscalls depend on is
//! which virtual pages are mapped and with what permission, and that is
//! what this type records: a finite map from virtual page number to
//! permission bits. Installation fails on any overlap with an existing
//! mapping; removal fails when any page of the range is not mapped.

use vstd::prelude::*;

verus! {

/// One installed page: a virtual page number and its permission bits.
#[derive(Clone, Copy, Debug, PartialEq, Eq, Structural)]
pub struct MappedPage {
    /// Virtual page number.
    pub vpn: usize,
    /// Permission bits of the mapping, in the {Read, Write, Execute,
    /// User} bit-set representation.
    pub perm: u8,
}

/// The mapping state as a finite map: virtual page number to
/// permission bits.
pub open spec fn pages_map(s: Seq<MappedPage>) -> Map<int, u8>
    decreases s.len(),
{
    if s.len() == 0 {
        Map::empty()
    } else {
        pages_map(s.drop_last()).insert(s.last().vpn as int, s.last().perm)
    }
}

/// Every page of `[start, end)` is mapped.
pub open spec fn range_mapped(m: Map<int, u8>, start: int, end: int) -> bool {
    forall|v: int| start <= v < end ==> m.dom().contains(v)
}

/// No page of `[start, end)` is mapped.
pub open spec fn range_free(m: Map<int, u8>, start: int, end: int) -> bool {
    forall|v: int| start <= v < end ==> !m.dom().contains(v)
}

/// The mapping state after installing `[start, end)` with permission
/// `perm`: pages in the range carry `perm`, pages outside keep their
/// old binding.
pub open spec fn with_range(m: Map<int, u8>, start: int, end: int, perm: u8) -> Map<int, u8> {
    Map::new(
        |v: int| m.dom().contains(v) || (start <= v < end),
        |v: int|
            if start <= v < end {
                perm
            } else {
                m[v]
            },
    )
}

/// The mapping state after removing `[start, end)`: the bindings of
/// all pages in the range are gone, the rest keep theirs.
pub open spec fn without_range(m: Map<int, u8>, start: int, end: int) -> Map<int, u8> {
    m.remove_keys(Set::new(|v: int| start <= v < end))
}

/// The map of a sequence contains a page number exactly when some
/// entry carries it.
proof fn lemma_pages_map_dom(s: Seq<MappedPage>, v: int)
    ensures
        pages_map(s).dom().contains(v) <==> exists|i: int|
            0 <= i < s.len() && (#[trigger] s[i]).vpn == v,
    decreases s.len(),
{
    if s.len() > 0 {
        lemma_pages_map_dom(s.drop_last(), v);
        if s.last().vpn == v {
            assert(s[s.len() - 1].vpn == v);
        } else if pages_map(s.drop_last()).dom().contains(v) {
            let i = choose|i: int| 0 <= i < s.drop_last().len() && (#[trigger] s.drop_last()[i]).vpn == v;
            assert(s[i].vpn == v);
        } else if exists|i: int| 0 <= i < s.len() && (#[trigger] s[i]).vpn == v {
            let i = choose|i: int| 0 <= i < s.len() && (#[trigger] s[i]).vpn == v;
            assert(s.drop_last()[i].vpn == v);
        }
    }
}

/// The per-task mapping state owned by the memory mapper.
pub struct AddressSpace {
    pages: Vec<MappedPage>,
}

impl AddressSpace {
    /// The installed mappings: virtual page number to permission bits.
    pub closed spec fn view(self) -> Map<int, u8> {
        pages_map(self.pages@)
    }

    /// An address space with no installed mapping.
    pub fn new() -> (space: AddressSpace)
        ensures
            space@ == Map::<int, u8>::empty(),
    {
        AddressSpace { pages: Vec::new() }
    }

    /// Whether the page with the given virtual page number is mapped.
    pub fn contains_page(&self, vpn: usize) -> (mapped: bool)
        ensures
            mapped == self@.dom().contains(vpn as int),
    {
        let n = self.pages.len();
        let mut i: usize = 0;
        while i < n
            invariant
                0 <= i <= n,
                n == self.pages@.len(),
                forall|j: int| 0 <= j < i ==> (#[trigger] self.pages@[j]).vpn != vpn,
            decreases n - i,
        {
            if self.pages[i].vpn == vpn {
                proof {
                    lemma_pages_map_dom(self.pages@, vpn as int);
                }
                return true;
            }
            i = i + 1;
        }
        proof {
            lemma_pages_map_dom(self.pages@, vpn as int);
        }
        false
    }

    /// The permission bits the page is mapped with, if it is mapped.
    pub fn page_perm(&self, vpn: usize) -> (perm: Option<u8>)
        ensures
            perm == if self@.dom().contains(vpn as int) {
                Some(self@[vpn as int])
            } else {
                None::<u8>
            },
    {
        let n = self.pages.len();
        let mut i: usize = 0;
        let mut found: Option<u8> = None;
        while i < n
            invariant
                0 <= i <= n,
                n == self.pages@.len(),
                found == if pages_map(self.pages@.subrange(0, i as int)).dom().contains(vpn as int) {
                    Some(pages_map(self.pages@.subrange(0, i as int))[vpn as int])
                } else {
                    None::<u8>
                },
            decreases n - i,
        {
            proof {
                assert(self.pages@.subrange(0, i + 1).drop_last() =~= self.pages@.subrange(0, i as int));
                assert(self.pages@.subrange(0, i + 1).last() == self.pages@[i as int]);
            }
            if self.pages[i].vpn == vpn {
                found = Some(self.pages[i].perm);
            }
            i = i + 1;
        }
        proof {
            assert(self.pages@.subrange(0, n as int) =~= self.pages@);
        }
        found
    }

    /// Install the page range `[start_vpn, end_vpn)` with the given
    /// permission. Succeeds exactly when no page of the range is
    /// already mapped; on failure nothing changes.
    pub fn install(&mut self, start_vpn: usize, end_vpn: usize, perm: u8) -> (success: bool)
        ensures
            success == range_free(old(self)@, start_vpn as int, end_vpn as int),
            success ==> final(self)@ == with_range(
                old(self)@,
                start_vpn as int,
                end_vpn as int,
                perm,
            ),
            !success ==> final(self)@ == old(self)@,
    {
        let mut i: usize = start_vpn;
        if i < end_vpn {
            while i < end_vpn
                invariant
                    start_vpn <= i <= end_vpn,
                    self == old(self),
                    forall|v: int| start_vpn <= v < i ==> !(#[trigger] self@.dom().contains(v)),
                decreases end_vpn - i,
            {
                if self.contains_page(i) {
                    return false;
                }
                i = i + 1;
            }
        }
        let ghost m0 = self@;
        let mut i: usize = start_vpn;
        if i >= end_vpn {
            proof {
                assert(with_range(m0, start_vpn as int, end_vpn as int, perm) =~= m0);
            }
            return true;
        }
        while i < end_vpn
            invariant
                start_vpn <= i <= end_vpn,
                self@ == with_range(m0, start_vpn as int, i as int, perm),
            decreases end_vpn - i,
        {
            let ghost before = self.pages@;
            self.pages.push(MappedPage { vpn: i, perm });
            proof {
                assert(self.pages@.drop_last() =~= before);
                assert(self@ == pages_map(before).insert(i as int, perm));
                assert(with_range(m0, start_vpn as int, i as int, perm).insert(i as int, perm)
                    =~= with_range(m0, start_vpn as int, i + 1, perm));
            }
            i = i + 1;
        }
        true
    }

    /// Remove the page range `[start_vpn, end_vpn)`. Succeeds exactly
    /// when every page of the range is mapped; on failure nothing
    /// changes.
    pub fn remove(&mut self, start_vpn: usize, end_vpn: usize) -> (success: bool)
        ensures
            success == range_mapped(old(self)@, start_vpn as int, end_vpn as int),
            success ==> final(self)@ == without_range(old(self)@, start_vpn as int, end_vpn as int),
            !success ==> final(self)@ == old(self)@,
    {
        let mut i: usize = start_vpn;
        if i < end_vpn {
            while i < end_vpn
                invariant
                    start_vpn <= i <= end_vpn,
                    self == old(self),
                    forall|v: int| start_vpn <= v < i ==> (#[trigger] self@.dom().contains(v)),
                decreases end_vpn - i,
            {
                if !self.contains_page(i) {
                    return false;
                }
                i = i + 1;
            }
        }
        let ghost m0 = self@;
        let ghost s = self.pages@;
        let n = self.pages.len();
        let mut kept: Vec<MappedPage> = Vec::new();
        let mut j: usize = 0;
        while j < n
            invariant
                0 <= j <= n,
                n == s.len(),
                self.pages@ == s,
                pages_map(kept@) == without_range(
                    pages_map(s.subrange(0, j as int)),
                    start_vpn as int,
                    end_vpn as int,
                ),
            decreases n - j,
        {
            proof {
                assert(s.subrange(0, j + 1).drop_last() =~= s.subrange(0, j as int));
                assert(s.subrange(0, j + 1).last() == s[j as int]);
            }
            let page = self.pages[j];
            if page.vpn < start_vpn || page.vpn >= end_vpn {
                let ghost kept_before = kept@;
                kept.push(page);
                proof {
                    assert(kept@.drop_last() =~= kept_before);
                    assert(without_range(pages_map(s.subrange(0, j + 1)), start_vpn as int, end_vpn as int)
                        =~= without_range(pages_map(s.subrange(0, j as int)), start_vpn as int, end_vpn as int)
                            .insert(page.vpn as int, page.perm));
                }
            } else {
                proof {
                    assert(without_range(pages_map(s.subrange(0, j + 1)), start_vpn as int, end_vpn as int)
                        =~= without_range(pages_map(s.subrange(0, j as int)), start_vpn as int, end_vpn as int));
                }
            }
            j = j + 1;
        }
        proof {
            assert(s.subrange(0, n as int) =~= s);
        }
        self.pages = kept;
        true
    }
}

} // verus!
