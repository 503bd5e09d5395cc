//! Bookkeeping of data files: file ids, free extents, and the log entry that
//! creates the header page of a new extent.
use crate::storage::extent::{Extent, ExtentMeta, QuadState};
use crate::storage::log_entry::{LogEntry, LsnCounter};
use crate::common::endian::be_to_u64;
use crate::storage::page_block::{
    byte_total, lemma_read_after_write, lemma_wrapping_byte_sum_is_total, with_u64_at, wrapping_byte_sum, PageBlock,
    PageUpdate,
};
use roaring::RoaringBitmap;
use vstd::prelude::*;

verus! {

/// `roaring::RoaringBitmap`, a compressed set of `u32` values, carried as an opaque value.
#[verifier::external_type_specification]
#[verifier::external_body]
pub struct ExRoaringBitmap(RoaringBitmap);

/// The values that a `RoaringBitmap` holds.
pub uninterp spec fn roaring_members(b: RoaringBitmap) -> Set<u32>;

/// `RoaringBitmap::new`: an empty bitmap.
#[verifier::external_body]
fn roaring_new() -> (r: RoaringBitmap)
    ensures
        roaring_members(r) == Set::<u32>::empty(),
{
    RoaringBitmap::new()
}

/// The first value of `RoaringBitmap::iter`, whose values come in
/// increasing order: the smallest value held, or `None` when the bitmap is empty.
#[verifier::external_body]
fn roaring_first(b: &RoaringBitmap) -> (r: Option<u32>)
    ensures
        r is None ==> roaring_members(*b) == Set::<u32>::empty(),
        r matches Some(x) ==> roaring_members(*b).contains(x) && forall|y: u32|
            roaring_members(*b).contains(y) ==> x <= y,
{
    b.iter().next()
}

/// `RoaringBitmap::remove`: removes `value`, and tells whether it was held.
#[verifier::external_body]
fn roaring_remove(b: &mut RoaringBitmap, value: u32) -> (r: bool)
    ensures
        roaring_members(*final(b)) == roaring_members(*old(b)).remove(value),
        r == roaring_members(*old(b)).contains(value),
{
    b.remove(value)
}

/// `RoaringBitmap::insert`: adds `value`, and tells whether it was absent.
#[verifier::external_body]
fn roaring_insert(b: &mut RoaringBitmap, value: u32) -> (r: bool)
    ensures
        roaring_members(*final(b)) == roaring_members(*old(b)).insert(value),
        r == !roaring_members(*old(b)).contains(value),
{
    b.insert(value)
}

/// The numbers of the extents of a data file that are free for reuse.
pub struct FreeExtents {
    roaring: RoaringBitmap,
}

impl View for FreeExtents {
    type V = Set<u32>;

    closed spec fn view(&self) -> Set<u32> {
        roaring_members(self.roaring)
    }
}

impl FreeExtents {
    /// No extent is free.
    pub fn new() -> (r: Self)
        ensures
            r@ == Set::<u32>::empty(),
    {
        FreeExtents { roaring: roaring_new() }
    }

    /// Takes the smallest free extent number out of the set, or gives `None`
    /// when no extent is free.
    pub fn get_free_extent(&mut self) -> (r: Option<u64>)
        ensures
            r is None ==> old(self)@ == Set::<u32>::empty() && final(self)@ == old(self)@,
            r matches Some(n) ==> n <= u32::MAX && old(self)@.contains(n as u32) && (forall|y: u32|
                old(self)@.contains(y) ==> n <= y) && final(self)@ == old(self)@.remove(n as u32),
    {
        let opt = roaring_first(&self.roaring);
        if let Some(n) = opt {
            roaring_remove(&mut self.roaring, n);
            Some(n as u64)
        } else {
            None
        }
    }

    /// Puts an extent number back; it is kept as a `u32`, so only its low 32 bits are stored.
    pub fn push_free_extent(&mut self, extent: u64)
        ensures
            final(self)@ == old(self)@.insert(extent as u32),
    {
        roaring_insert(&mut self.roaring, extent as u32);
    }
}

/// The source of data file ids; ids start at 1.
pub struct FileIdCounter {
    next: u64,
}

impl FileIdCounter {
    /// The id that the next call of `_next_file_id` returns.
    pub closed spec fn spec_next(&self) -> u64 {
        self.next
    }

    pub fn new() -> (r: Self)
        ensures
            r.spec_next() == 1,
    {
        FileIdCounter { next: 1 }
    }
}

/// The id that the next data file gets.
pub fn _current_file_id(counter: &FileIdCounter) -> (r: u64)
    ensures
        r == counter.spec_next(),
{
    counter.next
}

/// Hands out a data file id; the counter wraps around after `u64::MAX`.
pub fn _next_file_id(counter: &mut FileIdCounter) -> (r: u64)
    ensures
        r == old(counter).spec_next(),
        final(counter).spec_next() == if r == u64::MAX { 0 } else { (r + 1) as u64 },
{
    let r = counter.next;
    counter.next = counter.next.wrapping_add(1);
    r
}

/// The id of the header page of extent number `index`, when every extent has
/// `extent_pages` pages.
pub fn extent_page_id(extent_pages: u64, index: u64) -> (r: u64)
    requires
        index * extent_pages <= u64::MAX,
    ensures
        r == index * extent_pages,
{
    index * extent_pages
}

/// The header page of a new extent, as the data file writes it: a zero page of
/// `page_size` bytes holding the extent id as page id and `lsn` as log sequence
/// number, with its checksum set.
pub open spec fn new_extent_header_page(page_size: u64, extent_id: u64, lsn: u64) -> Seq<u8> {
    let zero = Seq::new((page_size as usize) as nat, |i: int| 0u8);
    let p = with_u64_at(with_u64_at(with_u64_at(zero, 0, extent_id), 8, 0), 8, lsn);
    with_u64_at(p, p.len() - 8, wrapping_byte_sum(p.subrange(0, p.len() - 8)))
}

/// Storing a field leaves every byte outside it as it was.
proof fn lemma_with_u64_at_outside(s: Seq<u8>, off: int, v: u64)
    requires
        0 <= off,
        off + 8 <= s.len(),
    ensures
        with_u64_at(s, off, v).len() == s.len(),
        forall|j: int| 0 <= j < s.len() && !(off <= j < off + 8) ==> #[trigger] with_u64_at(s, off, v)[j] == s[j],
{
    let t = with_u64_at(s, off, v);
    assert forall|j: int| 0 <= j < s.len() && !(off <= j < off + 8) implies #[trigger] t[j] == s[j] by {
        if j < off {
            assert(t[j] == s.subrange(0, off)[j]);
        } else {
            assert(t[j] == s.subrange(off + 8, s.len() as int)[j - off - 8]);
        }
    }
}

/// Storing a field leaves a field that does not overlap it as it was.
proof fn lemma_disjoint_field(s: Seq<u8>, off: int, v: u64, o: int)
    requires
        0 <= off,
        off + 8 <= s.len(),
        0 <= o,
        o + 8 <= s.len(),
        o + 8 <= off || off + 8 <= o,
    ensures
        be_to_u64(with_u64_at(s, off, v), o) == be_to_u64(s, o),
{
    lemma_with_u64_at_outside(s, off, v);
    let t = with_u64_at(s, off, v);
    assert(t[o] == s[o] && t[o + 1] == s[o + 1] && t[o + 2] == s[o + 2] && t[o + 3] == s[o + 3]);
    assert(t[o + 4] == s[o + 4] && t[o + 5] == s[o + 5] && t[o + 6] == s[o + 6] && t[o + 7] == s[o + 7]);
}

/// The header page of a new extent is a page of `page_size` bytes that
/// carries the extent id as its page id and, where the page is large enough
/// for the checksum field to lie past it, `lsn` as its log sequence number;
/// every other byte before the checksum field is zero, and the checksum
/// field holds the sum of all the bytes before it, modulo 2^64.
pub proof fn lemma_extent_header_page_fields(page_size: u64, extent_id: u64, lsn: u64)
    requires
        16 <= page_size as usize,
    ensures
        ({
            let p = new_extent_header_page(page_size, extent_id, lsn);
            &&& p.len() == page_size as usize
            &&& be_to_u64(p, 0) == extent_id
            &&& 24 <= p.len() ==> be_to_u64(p, 8) == lsn
            &&& forall|i: int| 16 <= i < p.len() - 8 ==> p[i] == 0
            &&& be_to_u64(p, p.len() - 8) as int == byte_total(p.subrange(0, p.len() - 8)) % 0x1_0000_0000_0000_0000
        }),
{
    let zero = Seq::new((page_size as usize) as nat, |i: int| 0u8);
    let l = zero.len() as int;
    let p1 = with_u64_at(zero, 0, extent_id);
    let p2 = with_u64_at(p1, 8, 0);
    let p3 = with_u64_at(p2, 8, lsn);
    let c = wrapping_byte_sum(p3.subrange(0, l - 8));
    let p = with_u64_at(p3, l - 8, c);
    lemma_read_after_write(zero, 0, extent_id);
    lemma_read_after_write(p1, 8, 0);
    lemma_read_after_write(p2, 8, lsn);
    lemma_read_after_write(p3, l - 8, c);
    lemma_with_u64_at_outside(zero, 0, extent_id);
    lemma_with_u64_at_outside(p1, 8, 0);
    lemma_with_u64_at_outside(p2, 8, lsn);
    lemma_with_u64_at_outside(p3, l - 8, c);
    lemma_disjoint_field(p2, 8, lsn, 0);
    lemma_disjoint_field(p1, 8, 0, 0);
    lemma_disjoint_field(p3, l - 8, c, 0);
    if 24 <= l {
        lemma_disjoint_field(p3, l - 8, c, 8);
    }
    assert forall|i: int| 16 <= i < l - 8 implies p[i] == 0 by {
        assert(p[i] == p3[i]);
        assert(p3[i] == p2[i]);
        assert(p2[i] == p1[i]);
        assert(p1[i] == zero[i]);
    }
    assert(p.subrange(0, l - 8) =~= p3.subrange(0, l - 8));
    lemma_wrapping_byte_sum_is_total(p3.subrange(0, l - 8));
}

/// Builds the log entry that creates the header page of a new extent of file
/// `file_id`: it takes the next log sequence number of `counter`, is addressed
/// to page `extent_id * page_size`, and holds one update that writes the whole
/// header page at offset 0 of page `extent_id`.
pub fn new_extent_log_entry(counter: &mut LsnCounter, file_id: u64, extent_id: u64, page_size: u64) -> (r: LogEntry)
    requires
        16 <= page_size as usize,
        extent_id * page_size <= u64::MAX,
    ensures
        r.spec_lsn() == old(counter).spec_next(),
        final(counter).spec_next() == if r.spec_lsn() == u64::MAX { 0 } else { (r.spec_lsn() + 1) as u64 },
        r.spec_file_id() == file_id,
        r.spec_page_id() == extent_id * page_size,
        r.updates().len() == 1,
        r.updates()[0].spec_page_id() == extent_id,
        r.updates()[0].spec_offset() == 0,
        r.updates()[0].spec_update_data() == new_extent_header_page(page_size, extent_id, r.spec_lsn()),
        r.updates()[0].spec_update_data().len() == page_size as usize,
        be_to_u64(r.updates()[0].spec_update_data(), 0) == extent_id,
        24 <= page_size as usize ==> be_to_u64(r.updates()[0].spec_update_data(), 8) == r.spec_lsn(),
{
    let mut block = PageBlock::new_empty(page_size);
    block.set_page_id(extent_id);
    block.set_lsn(0);
    let page_id = extent_id;
    let mut log_entry = LogEntry::new(counter, file_id, extent_id * page_size);
    block.set_lsn(log_entry.lsn());
    block.reset_checksum();
    let bytes = block.use_block();
    log_entry.add_update_delta(PageUpdate::new(page_id, 0, bytes));
    proof {
        lemma_extent_header_page_fields(page_size, extent_id, log_entry.spec_lsn());
    }
    log_entry
}

/// Where the extent that a data file hands out comes from.
pub enum ExtentSource {
    /// A free extent is reused: the extent whose header page has this id.
    Reuse(u64),
    /// A new extent, with the log entry that writes its header page.
    Fresh(Extent, LogEntry),
}

/// The extents of one data file: how many were allocated, which are free
/// again, and the sizes that new extents get.
pub struct DataFileExtents {
    extent_pages: u64,
    page_size: u64,
    file_id: u64,
    total_allocated: u64,
    free: FreeExtents,
}

impl DataFileExtents {
    pub closed spec fn spec_extent_pages(&self) -> u64 {
        self.extent_pages
    }

    pub closed spec fn spec_page_size(&self) -> u64 {
        self.page_size
    }

    pub closed spec fn spec_file_id(&self) -> u64 {
        self.file_id
    }

    pub closed spec fn spec_total_allocated(&self) -> u64 {
        self.total_allocated
    }

    pub closed spec fn spec_free(&self) -> Set<u32> {
        self.free@
    }

    /// A data file without extents.
    pub fn new(file_id: u64, extent_pages: u64, page_size: u64) -> (r: Self)
        ensures
            r.spec_file_id() == file_id,
            r.spec_extent_pages() == extent_pages,
            r.spec_page_size() == page_size,
            r.spec_total_allocated() == 0,
            r.spec_free() == Set::<u32>::empty(),
    {
        DataFileExtents { extent_pages, page_size, file_id, total_allocated: 0, free: FreeExtents::new() }
    }

    /// Makes an extent number free for reuse.
    pub fn push_free_extent(&mut self, extent: u64)
        ensures
            final(self).spec_free() == old(self).spec_free().insert(extent as u32),
            final(self).spec_total_allocated() == old(self).spec_total_allocated(),
            final(self).spec_extent_pages() == old(self).spec_extent_pages(),
            final(self).spec_page_size() == old(self).spec_page_size(),
            final(self).spec_file_id() == old(self).spec_file_id(),
    {
        self.free.push_free_extent(extent);
    }

    /// Hands out an extent for table space `table_space_id`. The smallest free
    /// extent number is reused when there is one. Otherwise the next extent is
    /// created: its header page id is the allocated count times the extent
    /// size, its pages start right after the header page, and the log entry
    /// that writes its header page takes the next log sequence number; the
    /// allocated count grows by one, wrapping around at `u64::MAX`.
    pub fn create_extent(&mut self, table_space_id: u64, counter: &mut LsnCounter) -> (r: ExtentSource)
        requires
            forall|n: u32| old(self).spec_free().contains(n) && (forall|y: u32| old(self).spec_free().contains(y) ==> n <= y)
                ==> n * old(self).spec_extent_pages() <= u64::MAX,
            old(self).spec_free() == Set::<u32>::empty() ==> {
                let id = old(self).spec_total_allocated() * old(self).spec_extent_pages();
                &&& id + 1 <= u64::MAX
                &&& id * old(self).spec_page_size() <= u64::MAX
                &&& 16 <= old(self).spec_page_size() as usize
                &&& old(self).spec_extent_pages() as usize <= usize::MAX - 3
            },
        ensures
            final(self).spec_extent_pages() == old(self).spec_extent_pages(),
            final(self).spec_page_size() == old(self).spec_page_size(),
            final(self).spec_file_id() == old(self).spec_file_id(),
            old(self).spec_free() != Set::<u32>::empty() ==> ({
                &&& r matches ExtentSource::Reuse(id) && exists|n: u32|
                    old(self).spec_free().contains(n) && (forall|y: u32| old(self).spec_free().contains(y) ==> n <= y)
                        && id == n * old(self).spec_extent_pages() && final(self).spec_free() == old(self).spec_free().remove(n)
                &&& final(self).spec_total_allocated() == old(self).spec_total_allocated()
                &&& final(counter).spec_next() == old(counter).spec_next()
            }),
            old(self).spec_free() == Set::<u32>::empty() ==> ({
                let id = (old(self).spec_total_allocated() * old(self).spec_extent_pages()) as u64;
                &&& r matches ExtentSource::Fresh(extent, entry) && extent.wf() && extent.spec_meta() == (ExtentMeta {
                    file_id: 0,
                    table_space_id: 0,
                    extent_id: id,
                    start_page: (id + 1) as u64,
                    page_count: old(self).spec_extent_pages(),
                }) && extent.states() == Seq::new((old(self).spec_extent_pages() as usize) as nat, |i: int| QuadState::State0)
                    && entry.spec_lsn() == old(counter).spec_next()
                    && entry.spec_file_id() == old(self).spec_file_id()
                    && entry.spec_page_id() == id * old(self).spec_page_size()
                    && entry.updates().len() == 1
                    && entry.updates()[0].spec_page_id() == id
                    && entry.updates()[0].spec_offset() == 0
                    && entry.updates()[0].spec_update_data() == new_extent_header_page(old(self).spec_page_size(), id, entry.spec_lsn())
                    && be_to_u64(entry.updates()[0].spec_update_data(), 0) == id
                    && (24 <= old(self).spec_page_size() as usize ==> be_to_u64(entry.updates()[0].spec_update_data(), 8)
                        == entry.spec_lsn())
                &&& final(self).spec_total_allocated() == if old(self).spec_total_allocated() == u64::MAX {
                    0
                } else {
                    (old(self).spec_total_allocated() + 1) as u64
                }
                &&& final(self).spec_free() == old(self).spec_free()
                &&& final(counter).spec_next() == if old(counter).spec_next() == u64::MAX { 0 } else { (old(counter).spec_next() + 1) as u64 }
            }),
    {
        let opt = self.free.get_free_extent();
        if let Some(n) = opt {
            assert(old(self).spec_free().contains(n as u32));
            assert((n as u32) as u64 == n);
            let extent_id = extent_page_id(self.extent_pages, n);
            ExtentSource::Reuse(extent_id)
        } else {
            let index = self.total_allocated;
            let extent_id = extent_page_id(self.extent_pages, index);
            let extent = Extent::new(self.file_id, table_space_id, extent_id, extent_id + 1, self.extent_pages);
            let log_entry = new_extent_log_entry(counter, self.file_id, extent_id, self.page_size);
            self.total_allocated = self.total_allocated.wrapping_add(1);
            ExtentSource::Fresh(extent, log_entry)
        }
    }
}

} // verus!
