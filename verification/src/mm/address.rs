use vstd::prelude::*;

verus! {

/// A page-granular virtual address.
#[derive(Clone, Copy, Debug, PartialEq, Eq, PartialOrd, Ord, Hash)]
pub struct VirtPageNum(pub usize);

/// A page-granular physical address.
#[derive(Clone, Copy, Debug, PartialEq, Eq, PartialOrd, Ord, Hash)]
pub struct PhysPageNum(pub usize);

/// The half-open range `[start, end)` of virtual page numbers.
#[derive(Clone, Copy, Debug)]
pub struct VPNRange {
    pub start: VirtPageNum,
    pub end: VirtPageNum,
}

impl VPNRange {
    /// A range is well formed when it does not end before it starts.
    pub open spec fn wf(&self) -> bool {
        self.start.0 <= self.end.0
    }

    /// Number of pages in the range.
    pub open spec fn spec_len(&self) -> int {
        self.end.0 - self.start.0
    }

    /// Whether `vpn` lies inside the range.
    pub open spec fn spec_contains(&self, vpn: VirtPageNum) -> bool {
        self.start.0 <= vpn.0 < self.end.0
    }

    pub fn new(start: VirtPageNum, end: VirtPageNum) -> (r: Self)
        requires
            start.0 <= end.0,
        ensures
            r.start == start,
            r.end == end,
            r.wf(),
    {
        VPNRange { start, end }
    }

    pub fn get_start(&self) -> (s: VirtPageNum)
        ensures
            s == self.start,
    {
        self.start
    }

    pub fn get_end(&self) -> (e: VirtPageNum)
        ensures
            e == self.end,
    {
        self.end
    }

    pub fn len(&self) -> (n: usize)
        requires
            self.wf(),
        ensures
            n == self.spec_len(),
    {
        self.end.0 - self.start.0
    }

    pub fn contains(&self, vpn: VirtPageNum) -> (b: bool)
        ensures
            b == self.spec_contains(vpn),
    {
        self.start.0 <= vpn.0 && vpn.0 < self.end.0
    }
}

} // verus!
