//! Bounds-checked view of the physical region the kernel is loaded into.
//!
//! All writes into the load region go through the checked copy and
//! zero-fill operations of this type, over a manually tracked `[base,
//! base + page_count * PAGE_SIZE)` span. An offset into the region is an
//! offset from `base`: the byte at physical address `base + k` is
//! `mem()[k]`.

use vstd::prelude::*;

use crate::PAGE_SIZE;

verus! {

/// The fixed physical region that receives the kernel image: a whole
/// number of pages starting at the platform's load base, zero-initialized
/// on allocation.
pub struct PhysicalLoadRegion {
    base_address: u64,
    page_count: u64,
    contents: Vec<u8>,
}

impl PhysicalLoadRegion {
    /// First physical address of the region.
    pub closed spec fn base(self) -> u64 {
        self.base_address
    }

    /// Number of pages the region spans.
    pub closed spec fn pages(self) -> u64 {
        self.page_count
    }

    /// The bytes of the region, indexed by offset from `base()`.
    pub closed spec fn mem(self) -> Seq<u8> {
        self.contents@
    }

    /// The region holds exactly its pages and ends within the address
    /// space.
    pub open spec fn wf(self) -> bool {
        &&& self.mem().len() == self.pages() * PAGE_SIZE
        &&& self.base() + self.pages() * PAGE_SIZE <= u64::MAX
    }

    /// Allocate a zero-initialized region of `pages` pages at `base`.
    pub fn new(base: u64, pages: u64) -> (r: PhysicalLoadRegion)
        requires
            pages * PAGE_SIZE <= usize::MAX,
            base + pages * PAGE_SIZE <= u64::MAX,
        ensures
            r.wf(),
            r.base() == base,
            r.pages() == pages,
            forall|k: int| 0 <= k < r.mem().len() ==> r.mem()[k] == 0,
    {
        let size = (pages * PAGE_SIZE) as usize;
        let mut contents: Vec<u8> = Vec::new();
        let mut k: usize = 0;
        while k < size
            invariant
                k <= size,
                contents@.len() == k,
                forall|j: int| 0 <= j < k ==> contents@[j] == 0,
            decreases size - k,
        {
            contents.push(0);
            k = k + 1;
        }
        PhysicalLoadRegion { base_address: base, page_count: pages, contents }
    }

    /// Size of the region in bytes.
    pub fn size(&self) -> (n: usize)
        requires
            self.wf(),
        ensures
            n == self.mem().len(),
    {
        self.contents.len()
    }

    /// Read the byte at offset `k` from the base.
    pub fn byte_at(&self, k: usize) -> (b: u8)
        requires
            k < self.mem().len(),
        ensures
            b == self.mem()[k as int],
    {
        self.contents[k]
    }

    /// Checked copy: move `len` bytes of `src` starting at `src_off` to
    /// the region at offset `dst_off`. Refused, leaving the region
    /// untouched, when either range is out of bounds.
    pub fn copy_from(&mut self, src: &Vec<u8>, src_off: usize, dst_off: usize, len: usize) -> (ok:
        bool)
        ensures
            ok == (src_off + len <= src@.len() && dst_off + len <= old(self).mem().len()),
            final(self).base() == old(self).base(),
            final(self).pages() == old(self).pages(),
            final(self).mem().len() == old(self).mem().len(),
            ok ==> forall|k: int|
                dst_off <= k < dst_off + len ==> final(self).mem()[k] == src@[k - dst_off
                    + src_off],
            forall|k: int|
                0 <= k < old(self).mem().len() && !(ok && dst_off <= k < dst_off + len)
                    ==> final(self).mem()[k] == old(self).mem()[k],
    {
        if len > src.len() || src_off > src.len() - len {
            return false;
        }
        if len > self.contents.len() || dst_off > self.contents.len() - len {
            return false;
        }
        let mut t: usize = 0;
        while t < len
            invariant
                t <= len,
                src_off + len <= src@.len() <= usize::MAX,
                dst_off + len <= self.contents@.len() <= usize::MAX,
                self.base() == old(self).base(),
                self.pages() == old(self).pages(),
                self.contents@.len() == old(self).mem().len(),
                forall|k: int|
                    dst_off <= k < dst_off + t ==> self.contents@[k] == src@[k - dst_off + src_off],
                forall|k: int|
                    0 <= k < old(self).mem().len() && !(dst_off <= k < dst_off + t)
                        ==> self.contents@[k] == old(self).mem()[k],
            decreases len - t,
        {
            let b = src[src_off + t];
            self.contents.set(dst_off + t, b);
            t = t + 1;
        }
        true
    }

    /// Checked zero-fill: clear `len` bytes of the region starting at
    /// offset `dst_off`. Refused, leaving the region untouched, when the
    /// range is out of bounds.
    pub fn zero_fill(&mut self, dst_off: usize, len: usize) -> (ok: bool)
        ensures
            ok == (dst_off + len <= old(self).mem().len()),
            final(self).base() == old(self).base(),
            final(self).pages() == old(self).pages(),
            final(self).mem().len() == old(self).mem().len(),
            ok ==> forall|k: int| dst_off <= k < dst_off + len ==> final(self).mem()[k] == 0,
            forall|k: int|
                0 <= k < old(self).mem().len() && !(ok && dst_off <= k < dst_off + len)
                    ==> final(self).mem()[k] == old(self).mem()[k],
    {
        if len > self.contents.len() || dst_off > self.contents.len() - len {
            return false;
        }
        let mut t: usize = 0;
        while t < len
            invariant
                t <= len,
                dst_off + len <= self.contents@.len() <= usize::MAX,
                self.base() == old(self).base(),
                self.pages() == old(self).pages(),
                self.contents@.len() == old(self).mem().len(),
                forall|k: int| dst_off <= k < dst_off + t ==> self.contents@[k] == 0,
                forall|k: int|
                    0 <= k < old(self).mem().len() && !(dst_off <= k < dst_off + t)
                        ==> self.contents@[k] == old(self).mem()[k],
            decreases len - t,
        {
            self.contents.set(dst_off + t, 0);
            t = t + 1;
        }
        true
    }

    /// First physical address of the region, as a value.
    pub fn base_address(&self) -> (b: u64)
        ensures
            b == self.base(),
    {
        self.base_address
    }

    /// Number of pages, as a value.
    pub fn page_count(&self) -> (p: u64)
        ensures
            p == self.pages(),
    {
        self.page_count
    }
}

} // verus!
