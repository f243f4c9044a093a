//! The memory-mapping manager: the active task's region map at page
//! granularity, and the address translator that decides whether a raw
//! user pointer may be written through.

use vstd::prelude::*;

use crate::config::PAGE_SIZE;

verus! {

/// Permission bit: the pages of the mapping may be read.
pub const PORT_READABLE: usize = 1;

/// Permission bit: the pages of the mapping may be written.
pub const PORT_WRITABLE: usize = 2;

/// Permission bit: the pages of the mapping may be executed.
pub const PORT_EXECUTABLE: usize = 4;

/// Virtual page number of the first page touched by a byte range that
/// starts at `start`.
pub open spec fn first_vpn(start: usize) -> int {
    start as int / PAGE_SIZE as int
}

/// One past the virtual page number of the last page touched by the
/// byte range `[start, start + len)`.
pub open spec fn end_vpn(start: usize, len: usize) -> int {
    let end = start as int + len as int;
    end / PAGE_SIZE as int + if end % PAGE_SIZE as int == 0 { 0int } else { 1int }
}

/// The virtual page numbers covered by the byte range
/// `[start, start + len)`.
pub open spec fn range_vpns(start: usize, len: usize) -> Set<usize> {
    Set::new(|v: usize| first_vpn(start) <= v as int && (v as int) < end_vpn(start, len))
}

/// No page of the byte range is present in the mapping `m`.
pub open spec fn range_unmapped(m: Map<usize, usize>, start: usize, len: usize) -> bool {
    forall|v: usize| range_vpns(start, len).contains(v) ==> !m.dom().contains(v)
}

/// Every page of the byte range is present in the mapping `m`.
pub open spec fn range_mapped(m: Map<usize, usize>, start: usize, len: usize) -> bool {
    forall|v: usize| range_vpns(start, len).contains(v) ==> m.dom().contains(v)
}

/// The manager accepts a mapping request exactly when the byte range
/// stays inside the address space and none of its pages is already
/// mapped.
pub open spec fn mmap_accepts(m: Map<usize, usize>, start: usize, len: usize, port: usize) -> bool {
    &&& start as int + len as int <= usize::MAX as int
    &&& range_unmapped(m, start, len)
}

/// The mapping `m` with every page numbered in `[lo, hi)` added with
/// permission bits `port`.
pub open spec fn map_with_vpns(m: Map<usize, usize>, lo: int, hi: int, port: usize) -> Map<usize, usize> {
    Map::new(
        |v: usize| m.dom().contains(v) || (lo <= v as int && (v as int) < hi),
        |v: usize| if lo <= v as int && (v as int) < hi { port } else { m[v] },
    )
}

/// The region map that results from a successful mapping request.
pub open spec fn map_after_mmap(m: Map<usize, usize>, start: usize, len: usize, port: usize) -> Map<usize, usize> {
    map_with_vpns(m, first_vpn(start), end_vpn(start, len), port)
}

/// The manager accepts an unmapping request exactly when the byte
/// range stays inside the address space and all of its pages are
/// currently mapped.
pub open spec fn munmap_accepts(m: Map<usize, usize>, start: usize, len: usize) -> bool {
    &&& start as int + len as int <= usize::MAX as int
    &&& range_mapped(m, start, len)
}

/// The region map that results from a successful unmapping request.
pub open spec fn map_after_munmap(m: Map<usize, usize>, start: usize, len: usize) -> Map<usize, usize> {
    m.remove_keys(range_vpns(start, len))
}

/// Virtual page number of the page holding the byte at address `va`.
pub open spec fn vpn_of(va: usize) -> usize {
    (va as int / PAGE_SIZE as int) as usize
}

/// A raw user pointer may be written through exactly when the page
/// holding it is mapped with the writable permission bit set.
pub open spec fn writable_at(m: Map<usize, usize>, va: usize) -> bool {
    m.dom().contains(vpn_of(va)) && m[vpn_of(va)] & PORT_WRITABLE != 0
}

/// A byte range of positive length covers at least one page.
pub proof fn lemma_range_nonempty(start: usize, len: usize)
    requires
        len > 0,
        start as int + len as int <= usize::MAX as int,
    ensures
        first_vpn(start) < end_vpn(start, len),
{
    let ps = PAGE_SIZE as int;
    let s = start as int;
    let e = s + len as int;
    vstd::arithmetic::div_mod::lemma_div_is_ordered(s, e, ps);
    if e % ps == 0 && s / ps == e / ps {
        vstd::arithmetic::div_mod::lemma_fundamental_div_mod(s, ps);
        vstd::arithmetic::div_mod::lemma_fundamental_div_mod(e, ps);
        vstd::arithmetic::div_mod::lemma_mod_bound(s, ps);
        assert(false);
    }
}

/// A mapping that the manager accepted is undone by an unmapping of
/// the identical byte range: the manager owes success to that
/// unmapping, and the region map returns to exactly its previous
/// value.
pub proof fn lemma_unmap_after_map(m: Map<usize, usize>, start: usize, len: usize, port: usize)
    requires
        mmap_accepts(m, start, len, port),
    ensures
        munmap_accepts(map_after_mmap(m, start, len, port), start, len),
        map_after_munmap(map_after_mmap(m, start, len, port), start, len) == m,
{
    assert(range_mapped(map_after_mmap(m, start, len, port), start, len)) by {
        assert forall|v: usize| range_vpns(start, len).contains(v)
            implies map_after_mmap(m, start, len, port).dom().contains(v) by {
            assert(first_vpn(start) <= v as int && (v as int) < end_vpn(start, len));
        }
    }
    assert(map_after_munmap(map_after_mmap(m, start, len, port), start, len) =~= m) by {
        assert forall|v: usize| m.dom().contains(v) implies !range_vpns(start, len).contains(v) by {
            if range_vpns(start, len).contains(v) {
                assert(!m.dom().contains(v));
            }
        }
    }
}

/// Unmapping a nonempty byte range none of whose pages is mapped is
/// refused by the manager.
pub proof fn lemma_unmap_unmapped_fails(m: Map<usize, usize>, start: usize, len: usize)
    requires
        len > 0,
        start as int + len as int <= usize::MAX as int,
        range_unmapped(m, start, len),
    ensures
        !munmap_accepts(m, start, len),
{
    lemma_range_nonempty(start, len);
    vstd::arithmetic::div_mod::lemma_div_nonincreasing(start as int, PAGE_SIZE as int);
    let v = first_vpn(start) as usize;
    assert(range_vpns(start, len).contains(v));
    assert(!m.dom().contains(v));
}

/// One mapped page of the active task's address space, with its
/// permission bits.
#[derive(Clone, Copy)]
pub struct PageMapping {
    pub vpn: usize,
    pub port: usize,
}

/// The pages of a list read as a map from virtual page number to
/// permission bits; a later entry for the same page wins.
spec fn map_of(s: Seq<PageMapping>) -> Map<usize, usize>
    decreases s.len(),
{
    if s.len() == 0 {
        Map::empty()
    } else {
        map_of(s.drop_last()).insert(s.last().vpn, s.last().port)
    }
}

/// No two entries of the list name the same page.
spec fn distinct_vpns(s: Seq<PageMapping>) -> bool {
    forall|i: int, j: int| 0 <= i < j < s.len() ==> s[i].vpn != s[j].vpn
}

proof fn lemma_map_of_push(s: Seq<PageMapping>, e: PageMapping)
    ensures
        map_of(s.push(e)) == map_of(s).insert(e.vpn, e.port),
{
    assert(s.push(e).drop_last() =~= s);
    assert(s.push(e).last() == e);
}

proof fn lemma_map_of_dom(s: Seq<PageMapping>, v: usize)
    ensures
        map_of(s).dom().contains(v) <==> exists|i: int| 0 <= i < s.len() && s[i].vpn == v,
    decreases s.len(),
{
    if s.len() > 0 {
        lemma_map_of_dom(s.drop_last(), v);
        if s.last().vpn == v {
            assert(s[s.len() - 1].vpn == v);
        } else {
            if map_of(s).dom().contains(v) {
                let i = choose|i: int| 0 <= i < s.drop_last().len() && s.drop_last()[i].vpn == v;
                assert(s[i].vpn == v);
            }
            if exists|i: int| 0 <= i < s.len() && s[i].vpn == v {
                let i = choose|i: int| 0 <= i < s.len() && s[i].vpn == v;
                assert(i < s.len() - 1);
                assert(s.drop_last()[i].vpn == v);
            }
        }
    }
}

proof fn lemma_map_of_index(s: Seq<PageMapping>, i: int)
    requires
        distinct_vpns(s),
        0 <= i < s.len(),
    ensures
        map_of(s).dom().contains(s[i].vpn),
        map_of(s)[s[i].vpn] == s[i].port,
    decreases s.len(),
{
    if i < s.len() - 1 {
        assert(distinct_vpns(s.drop_last()));
        lemma_map_of_index(s.drop_last(), i);
        assert(s.last().vpn != s[i].vpn);
        assert(s.drop_last()[i] == s[i]);
    }
}

/// The active task's region map: which virtual pages are mapped, and
/// with which permission bits.  Its view is the map from virtual page
/// number to permission bits.
pub struct MemorySet {
    pages: Vec<PageMapping>,
}

impl View for MemorySet {
    type V = Map<usize, usize>;

    closed spec fn view(&self) -> Map<usize, usize> {
        map_of(self.pages@)
    }
}

impl MemorySet {
    /// The internal page list names each page at most once.
    pub closed spec fn wf(&self) -> bool {
        distinct_vpns(self.pages@)
    }

    /// An empty region map: no page of the address space is mapped.
    pub fn new() -> (r: MemorySet)
        ensures
            r.wf(),
            r@ == Map::<usize, usize>::empty(),
    {
        MemorySet { pages: Vec::new() }
    }

    /// Permission bits of the page numbered `vpn`, if it is mapped.
    #[verifier::loop_isolation(false)]
    fn find(&self, vpn: usize) -> (r: Option<usize>)
        requires
            self.wf(),
        ensures
            match r {
                Some(p) => self@.dom().contains(vpn) && self@[vpn] == p,
                None => !self@.dom().contains(vpn),
            },
    {
        let mut i: usize = 0;
        while i < self.pages.len()
            invariant
                i <= self.pages@.len(),
                forall|j: int| 0 <= j < i ==> self.pages@[j].vpn != vpn,
            decreases self.pages@.len() - i,
        {
            if self.pages[i].vpn == vpn {
                proof {
                    lemma_map_of_index(self.pages@, i as int);
                }
                return Some(self.pages[i].port);
            }
            i = i + 1;
        }
        proof {
            lemma_map_of_dom(self.pages@, vpn);
        }
        None
    }

    /// Create a new mapping: the pages covering `[start, start + len)`
    /// all become mapped with permission bits `port`.  Fails, changing
    /// nothing, if the byte range leaves the address space or any page
    /// of it is already mapped.
    #[verifier::loop_isolation(false)]
    pub fn map_region(&mut self, start: usize, len: usize, port: usize) -> (r: bool)
        requires
            old(self).wf(),
        ensures
            final(self).wf(),
            r == mmap_accepts(old(self)@, start, len, port),
            r ==> final(self)@ == map_after_mmap(old(self)@, start, len, port),
            !r ==> final(self)@ == old(self)@,
    {
        if len > usize::MAX - start {
            return false;
        }
        let end: usize = start + len;
        proof {
            vstd::arithmetic::div_mod::lemma_div_nonincreasing(end as int, PAGE_SIZE as int);
            if end as int == usize::MAX as int {
                vstd::arithmetic::div_mod::lemma_div_decreases(end as int, PAGE_SIZE as int);
            }
        }
        let first: usize = start / PAGE_SIZE;
        let last: usize = end / PAGE_SIZE + if end % PAGE_SIZE != 0 { 1 } else { 0 };

        let mut v: usize = first;
        while v < last
            invariant
                first <= v <= last,
                forall|u: usize| first <= u < v ==> !self@.dom().contains(u),
            decreases last - v,
        {
            if self.find(v).is_some() {
                proof {
                    assert(range_vpns(start, len).contains(v));
                }
                return false;
            }
            v = v + 1;
        }
        proof {
            assert(mmap_accepts(self@, start, len, port)) by {
                assert forall|u: usize| range_vpns(start, len).contains(u) implies !self@.dom().contains(u) by {
                    assert(first_vpn(start) <= u as int && (u as int) < end_vpn(start, len));
                }
            }
        }

        let ghost m0 = self@;
        let mut v: usize = first;
        while v < last
            invariant
                first <= v <= last,
                self.wf(),
                self@ == map_with_vpns(m0, first as int, v as int, port),
            decreases last - v,
        {
            let ghost prev = self.pages@;
            self.pages.push(PageMapping { vpn: v, port });
            proof {
                lemma_map_of_push(prev, (PageMapping { vpn: v, port }));
                lemma_map_of_dom(prev, v);
                assert(!map_of(prev).dom().contains(v));
                assert(forall|j: int| 0 <= j < prev.len() ==> prev[j].vpn != v);
                assert(distinct_vpns(self.pages@)) by {
                    assert(forall|j: int| 0 <= j < prev.len() ==> self.pages@[j] == prev[j]);
                }
                assert(self@ =~= map_with_vpns(m0, first as int, v as int + 1, port));
            }
            v = v + 1;
        }
        true
    }

    /// Tear a mapping down: the pages covering `[start, start + len)`
    /// all become unmapped.  Fails, changing nothing, if the byte
    /// range leaves the address space or any page of it is not
    /// currently mapped.
    #[verifier::loop_isolation(false)]
    pub fn unmap_region(&mut self, start: usize, len: usize) -> (r: bool)
        requires
            old(self).wf(),
        ensures
            final(self).wf(),
            r == munmap_accepts(old(self)@, start, len),
            r ==> final(self)@ == map_after_munmap(old(self)@, start, len),
            !r ==> final(self)@ == old(self)@,
    {
        if len > usize::MAX - start {
            return false;
        }
        let end: usize = start + len;
        proof {
            vstd::arithmetic::div_mod::lemma_div_nonincreasing(end as int, PAGE_SIZE as int);
            if end as int == usize::MAX as int {
                vstd::arithmetic::div_mod::lemma_div_decreases(end as int, PAGE_SIZE as int);
            }
        }
        let first: usize = start / PAGE_SIZE;
        let last: usize = end / PAGE_SIZE + if end % PAGE_SIZE != 0 { 1 } else { 0 };

        let mut v: usize = first;
        while v < last
            invariant
                first <= v <= last,
                forall|u: usize| first <= u < v ==> self@.dom().contains(u),
            decreases last - v,
        {
            if self.find(v).is_none() {
                proof {
                    assert(range_vpns(start, len).contains(v));
                }
                return false;
            }
            v = v + 1;
        }
        proof {
            assert(munmap_accepts(self@, start, len)) by {
                assert forall|u: usize| range_vpns(start, len).contains(u) implies self@.dom().contains(u) by {
                    assert(first_vpn(start) <= u as int && (u as int) < end_vpn(start, len));
                }
            }
        }

        let ghost rset = range_vpns(start, len);
        let mut kept: Vec<PageMapping> = Vec::new();
        let mut i: usize = 0;
        while i < self.pages.len()
            invariant
                i <= self.pages@.len(),
                distinct_vpns(kept@),
                map_of(kept@) == map_of(self.pages@.take(i as int)).remove_keys(rset),
                forall|a: int| 0 <= a < kept@.len()
                    ==> exists|b: int| 0 <= b < i && self.pages@[b].vpn == #[trigger] kept@[a].vpn,
            decreases self.pages@.len() - i,
        {
            let e = self.pages[i];
            proof {
                assert(self.pages@.take(i as int + 1) =~= self.pages@.take(i as int).push(e));
                lemma_map_of_push(self.pages@.take(i as int), e);
            }
            if e.vpn < first || e.vpn >= last {
                let ghost kprev = kept@;
                kept.push(e);
                proof {
                    lemma_map_of_push(kprev, e);
                    assert(!rset.contains(e.vpn));
                    assert(forall|a: int| 0 <= a < kprev.len() ==> kprev[a].vpn != e.vpn);
                    assert(distinct_vpns(kept@)) by {
                        assert(forall|a: int| 0 <= a < kprev.len() ==> kept@[a] == kprev[a]);
                    }
                    assert(map_of(kept@) =~= map_of(self.pages@.take(i as int + 1)).remove_keys(rset));
                }
            } else {
                proof {
                    assert(rset.contains(e.vpn));
                    assert(map_of(self.pages@.take(i as int)).remove_keys(rset)
                        =~= map_of(self.pages@.take(i as int + 1)).remove_keys(rset));
                }
            }
            i = i + 1;
        }
        proof {
            assert(self.pages@.take(self.pages@.len() as int) =~= self.pages@);
        }
        self.pages = kept;
        true
    }

    /// The address translator: decides whether the page holding the
    /// raw user address `va` is mapped with the writable permission
    /// bit, so that a kernel-side write through the translated pointer
    /// would be safe.
    pub fn translate_writable(&self, va: usize) -> (r: bool)
        requires
            self.wf(),
        ensures
            r == writable_at(self@, va),
    {
        let vpn: usize = va / PAGE_SIZE;
        match self.find(vpn) {
            Some(port) => port & PORT_WRITABLE != 0,
            None => false,
        }
    }
}

} // verus!
