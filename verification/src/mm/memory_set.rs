//! The address space of a process: its mapped regions and what its pages
//! hold.

use std::collections::HashMap;
use vstd::bytes::{
    spec_u32_from_le_bytes, spec_u32_to_le_bytes, spec_u64_from_le_bytes, spec_u64_to_le_bytes,
    u32_from_le_bytes, u32_to_le_bytes, u64_from_le_bytes, u64_to_le_bytes,
};
use vstd::prelude::*;

use crate::config::PAGE_SIZE;
use crate::mm::address::VirtPageNum;
use crate::mm::frame::Frame;
use crate::mm::linear_map::LinearMap;
use crate::syscall::errno::EFAULT;

verus! {

/// Pages may be read.
pub const PERM_R: u8 = 1 << 1;

/// Pages may be written.
pub const PERM_W: u8 = 1 << 2;

/// Pages may be executed.
pub const PERM_X: u8 = 1 << 3;

/// Pages may be reached from user mode.
pub const PERM_U: u8 = 1 << 4;

/// One above the highest page number of a user process.
pub const USER_VPN_END: usize = 0x8_0000;

/// The first page of the window for mappings without a fixed address.
pub const MMAP_BASE_VPN: usize = 0x6_0000;

/// One above the last page of the window for mappings without a fixed
/// address.
pub const MMAP_END_VPN: usize = 0x6_8000;

/// What may be done with the pages of a region.
#[derive(Clone, Copy, Debug, PartialEq, Eq, Structural)]
pub struct MapPermission {
    pub bits: u8,
}

impl MapPermission {
    /// Whether `bits` holds permission bits only.
    pub open spec fn valid_bits(bits: u8) -> bool {
        bits & !0x1eu8 == 0
    }

    /// Whether user code may read such pages.
    pub open spec fn user_readable(self) -> bool {
        self.bits & 0x12 == 0x12
    }

    /// Whether user code may write such pages.
    pub open spec fn user_writable(self) -> bool {
        self.bits & 0x14 == 0x14
    }

    /// Whether user code may read such pages, or write them where `write`
    /// is set.
    pub open spec fn allows(self, write: bool) -> bool {
        if write {
            self.user_writable()
        } else {
            self.user_readable()
        }
    }

    /// The permission with the bits `bits`, where they are permission bits
    /// only.
    pub fn from_bits(bits: u8) -> (r: Option<MapPermission>)
        ensures
            r is Some <==> Self::valid_bits(bits),
            r is Some ==> r.unwrap().bits == bits,
    {
        if bits & !0x1eu8 == 0 {
            Some(MapPermission { bits })
        } else {
            None
        }
    }

    pub fn bits(&self) -> (r: u8)
        ensures
            r == self.bits,
    {
        self.bits
    }

    /// Whether user code may read such pages, or write them where `write`
    /// is set.
    pub fn permits(&self, write: bool) -> (r: bool)
        ensures
            r == self.allows(write),
    {
        if write {
            self.bits & 0x14 == 0x14
        } else {
            self.bits & 0x12 == 0x12
        }
    }
}

/// One mapped region: its frame table and what may be done with its pages.
pub struct MapArea {
    pub inner: LinearMap,
    pub map_perm: MapPermission,
}

impl MapArea {
    /// Whether the region holds the page `vpn`.
    pub open spec fn covers(&self, vpn: usize) -> bool {
        self.inner@.start <= vpn < self.inner@.end
    }
}

/// What an address space holds of one page.
pub struct PageEntry {
    pub perm: MapPermission,
    pub frame: Frame,
}

/// The lowest index of a region that holds the page `vpn`.
pub open spec fn find_area(areas: Seq<MapArea>, vpn: usize) -> Option<int>
    decreases areas.len(),
{
    if areas.len() == 0 {
        None
    } else {
        match find_area(areas.drop_last(), vpn) {
            Some(i) => Some(i),
            None => if areas.last().covers(vpn) {
                Some(areas.len() - 1)
            } else {
                None
            },
        }
    }
}

/// `find_area` gives the first region that holds the page, and none only
/// where no region holds it.
pub proof fn lemma_find_area(areas: Seq<MapArea>, vpn: usize)
    ensures
        match find_area(areas, vpn) {
            Some(i) => 0 <= i < areas.len() && areas[i].covers(vpn) && forall|j: int|
                0 <= j < i ==> !(#[trigger] areas[j]).covers(vpn),
            None => forall|j: int| 0 <= j < areas.len() ==> !(#[trigger] areas[j]).covers(vpn),
        },
    decreases areas.len(),
{
    if areas.len() > 0 {
        lemma_find_area(areas.drop_last(), vpn);
        match find_area(areas.drop_last(), vpn) {
            Some(i) => {
                assert(areas.drop_last()[i] == areas[i]);
                assert forall|j: int| 0 <= j < i implies !(#[trigger] areas[j]).covers(vpn) by {
                    assert(areas.drop_last()[j] == areas[j]);
                }
            },
            None => {
                assert forall|j: int| 0 <= j < areas.len() - 1 implies !(#[trigger] areas[j]).covers(
                    vpn,
                ) by {
                    assert(areas.drop_last()[j] == areas[j]);
                }
            },
        }
    }
}

/// The address space as a mathematical value: what it holds of each mapped
/// page, and the byte at each address.
pub struct MemorySetView {
    pub pages: Map<usize, PageEntry>,
    pub data: Map<usize, u8>,
    /// The page at which the next mapping without a fixed address starts.
    pub mmap_top: usize,
}

impl MemorySetView {
    /// The address space with no page mapped, whose bytes are all zero.
    pub open spec fn empty() -> Self {
        MemorySetView {
            pages: Map::empty(),
            data: Map::total(|a: usize| 0u8),
            mmap_top: MMAP_BASE_VPN,
        }
    }

    /// Whether user code may read the byte at `addr`, or write it where
    /// `write` is set.
    pub open spec fn accessible(self, addr: usize, write: bool) -> bool {
        self.pages.contains_key(addr / PAGE_SIZE) && self.pages[addr / PAGE_SIZE].perm.allows(
            write,
        )
    }

    /// Whether user code may read each of the `len` bytes from `addr` on,
    /// or write them where `write` is set.
    pub open spec fn range_accessible(self, addr: usize, len: int, write: bool) -> bool {
        &&& addr + len <= usize::MAX + 1
        &&& forall|a: usize| addr <= a < addr + len ==> self.accessible(a, write)
    }

    /// The `len` bytes from `addr` on.
    pub open spec fn bytes(self, addr: usize, len: int) -> Seq<u8> {
        Seq::new(len as nat, |i: int| self.data[(addr + i) as usize])
    }

    /// The 32-bit word at `addr`.
    pub open spec fn u32_at(self, addr: usize) -> u32 {
        spec_u32_from_le_bytes(self.bytes(addr, 4))
    }

    /// The 64-bit word at `addr`.
    pub open spec fn u64_at(self, addr: usize) -> u64 {
        spec_u64_from_le_bytes(self.bytes(addr, 8))
    }

    /// The address space after `bytes` were stored from `addr` on.
    pub open spec fn write(self, addr: usize, bytes: Seq<u8>) -> Self {
        MemorySetView {
            data: Map::total(
                |a: usize|
                    if addr <= a < addr + bytes.len() {
                        bytes[a - addr]
                    } else {
                        self.data[a]
                    },
            ),
            ..self
        }
    }
}

/// The bytes that stand for a sequence of 64-bit words, one word after the
/// other, each with its low byte first.
pub open spec fn words_to_bytes(words: Seq<u64>) -> Seq<u8>
    decreases words.len(),
{
    if words.len() == 0 {
        Seq::empty()
    } else {
        words_to_bytes(words.drop_last()) + spec_u64_to_le_bytes(words.last())
    }
}

/// Each word takes eight bytes.
pub proof fn lemma_words_to_bytes_len(words: Seq<u64>)
    ensures
        words_to_bytes(words).len() == 8 * words.len(),
    decreases words.len(),
{
    vstd::bytes::lemma_auto_spec_u64_to_from_le_bytes();
    if words.len() > 0 {
        lemma_words_to_bytes_len(words.drop_last());
    }
}

/// The bytes of `words`, one word after the other, each with its low byte
/// first.
pub fn encode_words(words: &Vec<u64>) -> (r: Vec<u8>)
    ensures
        r@ == words_to_bytes(words@),
        r@.len() == 8 * words@.len(),
{
    let mut out: Vec<u8> = Vec::new();
    let mut i: usize = 0;
    while i < words.len()
        invariant
            i <= words@.len(),
            out@ == words_to_bytes(words@.take(i as int)),
        decreases words@.len() - i,
    {
        let mut word = u64_to_le_bytes(words[i]);
        proof {
            assert(words@.take(i + 1).drop_last() =~= words@.take(i as int));
        }
        out.append(&mut word);
        i += 1;
    }
    proof {
        assert(words@.take(i as int) =~= words@);
        lemma_words_to_bytes_len(words@);
    }
    out
}

/// What the region `a` holds of its page `v`.
pub open spec fn entry_of(a: MapArea, v: usize) -> PageEntry {
    PageEntry { perm: a.map_perm, frame: a.inner@.slot(VirtPageNum(v)) }
}

/// What the regions hold of each page that one of them holds.
pub open spec fn pages_of(areas: Seq<MapArea>) -> Map<usize, PageEntry> {
    Map::new(
        |vpn: usize| find_area(areas, vpn) is Some,
        |vpn: usize| entry_of(areas[find_area(areas, vpn).unwrap()], vpn),
    )
}

/// Every region is well formed, holds a page and lies below the end of
/// the user space, and no page lies in two regions.
pub open spec fn areas_wf(areas: Seq<MapArea>) -> bool {
    &&& forall|i: int|
        0 <= i < areas.len() ==> (#[trigger] areas[i]).inner.wf() && areas[i].inner@.start
            < areas[i].inner@.end <= USER_VPN_END
    &&& forall|i: int, j: int|
        0 <= i < j < areas.len() ==> (#[trigger] areas[i]).inner@.end <= (
        #[trigger] areas[j]).inner@.start || areas[j].inner@.end <= areas[i].inner@.start
}

/// Among well-formed regions, a region that holds a page is the one that
/// `find_area` gives for it.
pub proof fn lemma_unique_area(areas: Seq<MapArea>, v: usize, i: int)
    requires
        areas_wf(areas),
        0 <= i < areas.len(),
        areas[i].covers(v),
    ensures
        find_area(areas, v) == Some(i),
{
    lemma_find_area(areas, v);
    let f = find_area(areas, v).unwrap();
    if f != i {
        assert(areas[f].covers(v));
        assert(f < i);
    }
}

/// A page that a region holds is mapped with what that region holds of it.
pub proof fn lemma_covered(areas: Seq<MapArea>, v: usize, i: int)
    requires
        areas_wf(areas),
        0 <= i < areas.len(),
        areas[i].covers(v),
    ensures
        pages_of(areas).contains_key(v),
        pages_of(areas)[v] == entry_of(areas[i], v),
{
    lemma_unique_area(areas, v, i);
}

/// A page that no region holds is not mapped.
pub proof fn lemma_uncovered(areas: Seq<MapArea>, v: usize)
    requires
        forall|i: int| 0 <= i < areas.len() ==> !(#[trigger] areas[i]).covers(v),
    ensures
        !pages_of(areas).contains_key(v),
{
    lemma_find_area(areas, v);
}

/// A page that is mapped lies in the region that `find_area` gives.
pub proof fn lemma_contained(areas: Seq<MapArea>, v: usize)
    requires
        pages_of(areas).contains_key(v),
    ensures
        find_area(areas, v) is Some,
        0 <= find_area(areas, v).unwrap() < areas.len(),
        areas[find_area(areas, v).unwrap()].covers(v),
        pages_of(areas)[v] == entry_of(areas[find_area(areas, v).unwrap()], v),
{
    lemma_find_area(areas, v);
}

/// A 32-bit word that was stored is the word that is read there.
pub proof fn lemma_write_then_read_u32(m: MemorySetView, addr: usize, value: u32)
    requires
        addr + 4 <= usize::MAX + 1,
    ensures
        m.write(addr, spec_u32_to_le_bytes(value)).u32_at(addr) == value,
{
    vstd::bytes::lemma_auto_spec_u32_to_from_le_bytes();
    let b = spec_u32_to_le_bytes(value);
    assert(m.write(addr, b).bytes(addr, 4) =~= b);
}

/// Bytes that are stored leave the bytes at other addresses as they are.
pub proof fn lemma_write_elsewhere(
    m: MemorySetView,
    addr: usize,
    bytes: Seq<u8>,
    other: usize,
    len: int,
)
    requires
        0 <= len,
        other + len <= usize::MAX + 1,
        other + len <= addr || addr + bytes.len() <= other,
    ensures
        m.write(addr, bytes).bytes(other, len) == m.bytes(other, len),
{
    assert(m.write(addr, bytes).bytes(other, len) =~= m.bytes(other, len));
}

/// The address space of a process.
pub struct MemorySet {
    /// The mapped regions. No page lies in two of them.
    pub areas: Vec<MapArea>,
    /// The bytes that were stored, by address; a byte never stored is zero.
    pub data: HashMap<usize, u8>,
    /// The page at which the next mapping without a fixed address starts.
    pub mmap_top: usize,
}

impl View for MemorySet {
    type V = MemorySetView;

    open spec fn view(&self) -> MemorySetView {
        MemorySetView {
            pages: pages_of(self.areas@),
            data: Map::total(
                |a: usize|
                    if self.data@.contains_key(a) {
                        self.data@[a]
                    } else {
                        0u8
                    },
            ),
            mmap_top: self.mmap_top,
        }
    }
}

impl MemorySet {
    /// Every region is well formed, holds a page and lies below the end of
    /// the user space, no page lies in two regions, and the next mapping
    /// without a fixed address starts inside the window for such mappings.
    pub open spec fn wf(&self) -> bool {
        &&& areas_wf(self.areas@)
        &&& MMAP_BASE_VPN <= self.mmap_top <= MMAP_END_VPN
    }

    /// An address space with no region, whose bytes are all zero.
    pub fn new_bare() -> (r: Self)
        ensures
            r.wf(),
            r@ == MemorySetView::empty(),
    {
        let r = MemorySet { areas: Vec::new(), data: HashMap::new(), mmap_top: MMAP_BASE_VPN };
        proof {
            assert(r@.pages =~= MemorySetView::empty().pages);
            assert(r@.data =~= MemorySetView::empty().data);
        }
        r
    }

    /// The index of the region that holds the page `vpn`.
    pub fn find(&self, vpn: usize) -> (r: Option<usize>)
        ensures
            match r {
                Some(i) => find_area(self.areas@, vpn) == Some(i as int) && i < self.areas@.len(),
                None => find_area(self.areas@, vpn) is None,
            },
    {
        let mut i: usize = 0;
        while i < self.areas.len()
            invariant
                i <= self.areas@.len(),
                forall|j: int| 0 <= j < i ==> !(#[trigger] self.areas@[j]).covers(vpn),
            decreases self.areas@.len() - i,
        {
            if self.areas[i].inner.vpn_range.contains(VirtPageNum(vpn)) {
                proof {
                    lemma_find_area(self.areas@, vpn);
                }
                return Some(i);
            }
            i += 1;
        }
        proof {
            lemma_find_area(self.areas@, vpn);
        }
        None
    }

    /// Whether user code may read the byte at `addr`, or write it where
    /// `write` is set.
    pub fn can_access(&self, addr: usize, write: bool) -> (r: bool)
        ensures
            r == self@.accessible(addr, write),
    {
        match self.find(addr / PAGE_SIZE) {
            Some(i) => self.areas[i].map_perm.permits(write),
            None => false,
        }
    }

    /// Whether user code may read each of the `len` bytes from `addr` on,
    /// or write them where `write` is set.
    pub fn can_access_range(&self, addr: usize, len: usize, write: bool) -> (r: bool)
        ensures
            r == self@.range_accessible(addr, len as int, write),
    {
        if len == 0 {
            return true;
        }
        if addr > usize::MAX - (len - 1) {
            return false;
        }
        let mut i: usize = 0;
        while i < len
            invariant
                i <= len,
                addr + len <= usize::MAX + 1,
                forall|a: usize| addr <= a < addr + i ==> self@.accessible(a, write),
            decreases len - i,
        {
            if !self.can_access(addr + i, write) {
                return false;
            }
            i += 1;
        }
        true
    }

    /// The byte at `addr`.
    pub fn byte_at(&self, addr: usize) -> (r: u8)
        ensures
            r == self@.data[addr],
    {
        match self.data.get(&addr) {
            Some(b) => *b,
            None => 0,
        }
    }

    /// The `len` bytes from `addr` on, where user code may read them all;
    /// a bad address otherwise.
    pub fn read_bytes(&self, addr: usize, len: usize) -> (r: Result<Vec<u8>, isize>)
        ensures
            r is Ok <==> self@.range_accessible(addr, len as int, false),
            r is Ok ==> r.unwrap()@ == self@.bytes(addr, len as int),
            r is Err ==> r.unwrap_err() == EFAULT,
    {
        if !self.can_access_range(addr, len, false) {
            return Err(EFAULT);
        }
        let mut out: Vec<u8> = Vec::with_capacity(len);
        let mut i: usize = 0;
        while i < len
            invariant
                i <= len,
                addr + len <= usize::MAX + 1,
                out@ =~= self@.bytes(addr, i as int),
            decreases len - i,
        {
            out.push(self.byte_at(addr + i));
            i += 1;
        }
        Ok(out)
    }

    /// Stores `bytes` from `addr` on, where user code may write all these
    /// addresses; changes nothing and reports a bad address otherwise.
    pub fn write_bytes(&mut self, addr: usize, bytes: &Vec<u8>) -> (r: Result<(), isize>)
        ensures
            r is Ok <==> old(self)@.range_accessible(addr, bytes@.len() as int, true),
            r is Ok ==> final(self)@ == old(self)@.write(addr, bytes@),
            r is Err ==> r.unwrap_err() == EFAULT && *final(self) == *old(self),
            final(self).areas == old(self).areas,
            final(self).mmap_top == old(self).mmap_top,
    {
        if !self.can_access_range(addr, bytes.len(), true) {
            return Err(EFAULT);
        }
        let mut i: usize = 0;
        while i < bytes.len()
            invariant
                i <= bytes@.len(),
                addr + bytes@.len() <= usize::MAX + 1,
                self.areas == old(self).areas,
                self.mmap_top == old(self).mmap_top,
                forall|a: usize|
                    #[trigger] self@.data[a] == if addr <= a < addr + i {
                        bytes@[a - addr]
                    } else {
                        old(self)@.data[a]
                    },
            decreases bytes@.len() - i,
        {
            let ghost prev = *self;
            self.data.insert(addr + i, bytes[i]);
            proof {
                assert(self.data@ == prev.data@.insert((addr + i) as usize, bytes@[i as int]));
                assert forall|a: usize|
                    #[trigger] self@.data[a] == if addr <= a < addr + i + 1 {
                        bytes@[a - addr]
                    } else {
                        old(self)@.data[a]
                    } by {
                    assert(prev@.data[a] == if addr <= a < addr + i {
                        bytes@[a - addr]
                    } else {
                        old(self)@.data[a]
                    });
                }
            }
            i += 1;
        }
        proof {
            assert(self@.data =~= old(self)@.write(addr, bytes@).data);
            assert(self@.pages =~= old(self)@.pages);
        }
        Ok(())
    }

    /// The 32-bit word at `addr`, whatever user code may do with it.
    pub fn peek_u32(&self, addr: usize) -> (r: u32)
        requires
            addr + 4 <= usize::MAX + 1,
        ensures
            r == self@.u32_at(addr),
    {
        let mut out: Vec<u8> = Vec::with_capacity(4);
        let mut i: usize = 0;
        while i < 4
            invariant
                i <= 4,
                addr + 4 <= usize::MAX + 1,
                out@ =~= self@.bytes(addr, i as int),
            decreases 4 - i,
        {
            out.push(self.byte_at(addr + i));
            i += 1;
        }
        u32_from_le_bytes(out.as_slice())
    }

    /// The 32-bit word at `addr`, where user code may read it.
    pub fn read_u32(&self, addr: usize) -> (r: Result<u32, isize>)
        ensures
            r is Ok <==> self@.range_accessible(addr, 4, false),
            r is Ok ==> r.unwrap() == self@.u32_at(addr),
            r is Err ==> r.unwrap_err() == EFAULT,
    {
        match self.read_bytes(addr, 4) {
            Ok(bytes) => Ok(u32_from_le_bytes(bytes.as_slice())),
            Err(e) => Err(e),
        }
    }

    /// Stores the 32-bit word `value` at `addr`, where user code may write
    /// it.
    pub fn write_u32(&mut self, addr: usize, value: u32) -> (r: Result<(), isize>)
        ensures
            r is Ok <==> old(self)@.range_accessible(addr, 4, true),
            r is Ok ==> final(self)@ == old(self)@.write(addr, spec_u32_to_le_bytes(value)),
            r is Err ==> r.unwrap_err() == EFAULT && *final(self) == *old(self),
            final(self).areas == old(self).areas,
            final(self).mmap_top == old(self).mmap_top,
    {
        let bytes = u32_to_le_bytes(value);
        self.write_bytes(addr, &bytes)
    }

    /// The 64-bit word at `addr`, where user code may read it.
    pub fn read_u64(&self, addr: usize) -> (r: Result<u64, isize>)
        ensures
            r is Ok <==> self@.range_accessible(addr, 8, false),
            r is Ok ==> r.unwrap() == self@.u64_at(addr),
            r is Err ==> r.unwrap_err() == EFAULT,
    {
        match self.read_bytes(addr, 8) {
            Ok(bytes) => Ok(u64_from_le_bytes(bytes.as_slice())),
            Err(e) => Err(e),
        }
    }

    /// The `n` 64-bit words from `addr` on, where user code may read them.
    pub fn read_words(&self, addr: usize, n: usize) -> (r: Result<Vec<u64>, isize>)
        requires
            n <= 64,
        ensures
            r is Ok <==> self@.range_accessible(addr, 8 * n, false),
            r is Ok ==> r.unwrap()@ == Seq::new(
                n as nat,
                |i: int| self@.u64_at((addr + 8 * i) as usize),
            ),
            r is Err ==> r.unwrap_err() == EFAULT,
    {
        if !self.can_access_range(addr, 8 * n, false) {
            return Err(EFAULT);
        }
        let mut out: Vec<u64> = Vec::with_capacity(n);
        let mut i: usize = 0;
        while i < n
            invariant
                i <= n <= 64,
                self@.range_accessible(addr, 8 * n, false),
                out@ =~= Seq::new(i as nat, |j: int| self@.u64_at((addr + 8 * j) as usize)),
            decreases n - i,
        {
            let at = addr + 8 * i;
            proof {
                assert forall|a: usize| at <= a < at + 8 implies self@.accessible(a, false) by {}
            }
            match self.read_u64(at) {
                Ok(w) => {
                    out.push(w);
                },
                Err(_) => {
                    proof {
                        assert(false);
                    }
                },
            }
            i += 1;
        }
        Ok(out)
    }

    /// Stores `words` from `addr` on, each as eight bytes with the low one
    /// first, where user code may write all these addresses.
    pub fn write_words(&mut self, addr: usize, words: &Vec<u64>) -> (r: Result<(), isize>)
        ensures
            r is Ok <==> old(self)@.range_accessible(addr, 8 * (words@.len() as int), true),
            r is Ok ==> final(self)@ == old(self)@.write(addr, words_to_bytes(words@)),
            r is Err ==> r.unwrap_err() == EFAULT && *final(self) == *old(self),
            final(self).areas == old(self).areas,
            final(self).mmap_top == old(self).mmap_top,
    {
        let bytes = encode_words(words);
        self.write_bytes(addr, &bytes)
    }
}

} // verus!
