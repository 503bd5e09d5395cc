//! A page image in memory, with its header fields and its checksum.
use crate::common::endian::{be_to_u64, lemma_be_decode_encode, read_u64, u64_to_be, write_u64};
use crate::storage::constant;
use std::ops::Range;
use vstd::prelude::*;

verus! {

pub type Checksum = u64;

/// The sum of the bytes of `s`, wrapping around at 2^64.
pub open spec fn wrapping_byte_sum(s: Seq<u8>) -> u64
    decreases s.len(),
{
    if s.len() == 0 {
        0
    } else {
        let prev = wrapping_byte_sum(s.drop_last());
        if prev + s.last() > u64::MAX {
            (prev + s.last() - 0x1_0000_0000_0000_0000) as u64
        } else {
            (prev + s.last()) as u64
        }
    }
}

/// The sum of the bytes of `s`, without wrapping.
pub open spec fn byte_total(s: Seq<u8>) -> int {
    s.fold_left(0int, |acc: int, b: u8| acc + b)
}

/// The checksum sum is the sum of all the bytes of the sequence, modulo
/// 2^64; so appending a byte adds it to the sum, modulo 2^64.
pub proof fn lemma_wrapping_byte_sum_is_total(s: Seq<u8>)
    ensures
        wrapping_byte_sum(s) as int == byte_total(s) % 0x1_0000_0000_0000_0000,
        forall|b: u8|
            #[trigger] wrapping_byte_sum(s.push(b)) as int == (wrapping_byte_sum(s) + b) % 0x1_0000_0000_0000_0000,
    decreases s.len(),
{
    let m: int = 0x1_0000_0000_0000_0000;
    if s.len() > 0 {
        lemma_wrapping_byte_sum_is_total(s.drop_last());
        let prev = wrapping_byte_sum(s.drop_last()) as int;
        let t = byte_total(s.drop_last());
        let last = s.last() as int;
        assert(byte_total(s) == t + last);
        assert(t >= 0) by {
            lemma_byte_total_nonneg(s.drop_last());
        }
        assert(prev == t % m);
        assert((t + last) % m == if prev + last >= m { prev + last - m } else { prev + last }) by (nonlinear_arith)
            requires
                prev == t % m,
                t >= 0,
                0 <= last < 256,
                m == 0x1_0000_0000_0000_0000,
        ;
    }
    assert forall|b: u8| #[trigger] wrapping_byte_sum(s.push(b)) as int == (wrapping_byte_sum(s) + b) % m by {
        assert(s.push(b).drop_last() =~= s);
        let w = wrapping_byte_sum(s) as int;
        assert((w + b) % m == if w + b >= m { w + b - m } else { w + b }) by (nonlinear_arith)
            requires
                0 <= w < m,
                0 <= b < 256,
                m == 0x1_0000_0000_0000_0000,
        ;
    }
}

proof fn lemma_byte_total_nonneg(s: Seq<u8>)
    ensures
        byte_total(s) >= 0,
    decreases s.len(),
{
    if s.len() > 0 {
        lemma_byte_total_nonneg(s.drop_last());
    }
}

/// `s` with the eight bytes at `off` replaced by the big-endian bytes of `v`.
pub open spec fn with_u64_at(s: Seq<u8>, off: int, v: u64) -> Seq<u8> {
    s.subrange(0, off) + u64_to_be(v) + s.subrange(off + 8, s.len() as int)
}

/// A page whose checksum was just reset passes its checksum check: the
/// stored checksum equals the checksum computed over the bytes before it.
pub proof fn lemma_reset_checksum_consistent(s: Seq<u8>)
    requires
        s.len() >= 8,
    ensures
        ({
            let t = with_u64_at(s, s.len() - 8, wrapping_byte_sum(s.subrange(0, s.len() - 8)));
            be_to_u64(t, t.len() - 8) == wrapping_byte_sum(t.subrange(0, t.len() - 8))
        }),
{
    let c = wrapping_byte_sum(s.subrange(0, s.len() - 8));
    let t = with_u64_at(s, s.len() - 8, c);
    assert(t.subrange(0, t.len() - 8) =~= s.subrange(0, s.len() - 8));
    lemma_be_decode_encode(c);
    assert(t.subrange(t.len() - 8, t.len() as int) =~= u64_to_be(c));
    assert(be_to_u64(t, t.len() - 8) == be_to_u64(t.subrange(t.len() - 8, t.len() as int), 0));
}

/// Storing a header field and reading it back gives the value stored.
pub proof fn lemma_read_after_write(s: Seq<u8>, off: int, v: u64)
    requires
        0 <= off,
        off + 8 <= s.len(),
    ensures
        be_to_u64(with_u64_at(s, off, v), off) == v,
        with_u64_at(s, off, v).len() == s.len(),
{
    let t = with_u64_at(s, off, v);
    lemma_be_decode_encode(v);
    assert(t.subrange(off, off + 8) =~= u64_to_be(v));
    assert(be_to_u64(t, off) == be_to_u64(t.subrange(off, off + 8), 0));
}

/// Sums the bytes of `buf[0..end]`, wrapping around at 2^64.
pub(crate) fn wrapping_sum_prefix(buf: &[u8], end: usize) -> (r: u64)
    requires
        end <= buf@.len(),
    ensures
        r == wrapping_byte_sum(buf@.subrange(0, end as int)),
        r as int == byte_total(buf@.subrange(0, end as int)) % 0x1_0000_0000_0000_0000,
{
    proof {
        lemma_wrapping_byte_sum_is_total(buf@.subrange(0, end as int));
    }
    let mut acc: u64 = 0;
    let mut i: usize = 0;
    while i < end
        invariant
            end <= buf@.len(),
            i <= end,
            acc == wrapping_byte_sum(buf@.subrange(0, i as int)),
        decreases end - i,
    {
        let byte = buf[i];
        assert(buf@.subrange(0, i + 1).drop_last() =~= buf@.subrange(0, i as int));
        acc = acc.wrapping_add(byte as u64);
        i += 1;
    }
    acc
}

/// An update of a page: `update_data` written at `offset` of page `page_id`.
pub struct PageUpdate {
    page_id: u64,
    offset: u64,
    update_data: Vec<u8>,
}

impl PageUpdate {
    pub closed spec fn spec_page_id(&self) -> u64 {
        self.page_id
    }

    pub closed spec fn spec_offset(&self) -> u64 {
        self.offset
    }

    pub closed spec fn spec_update_data(&self) -> Seq<u8> {
        self.update_data@
    }

    pub fn new(page_id: u64, offset: u64, update_data: Vec<u8>) -> (r: PageUpdate)
        ensures
            r.spec_page_id() == page_id,
            r.spec_offset() == offset,
            r.spec_update_data() == update_data@,
    {
        Self { page_id, offset, update_data }
    }

    pub fn page_id(&self) -> (r: u64)
        ensures
            r == self.spec_page_id(),
    {
        self.page_id
    }

    pub fn offset(&self) -> (r: u64)
        ensures
            r == self.spec_offset(),
    {
        self.offset
    }

    pub fn update_data(&self) -> (r: &[u8])
        ensures
            r@ == self.spec_update_data(),
    {
        self.update_data.as_slice()
    }
}

/// The bytes of a page.
pub struct PageBlock {
    data: Vec<u8>,
}

impl View for PageBlock {
    type V = Seq<u8>;

    closed spec fn view(&self) -> Seq<u8> {
        self.data@
    }
}

impl PageBlock {
    /// A page of `page_size` zero bytes.
    pub fn new_empty(page_size: u64) -> (r: PageBlock)
        ensures
            r@ == Seq::new((page_size as usize) as nat, |i: int| 0u8),
    {
        let data = vec![0u8; page_size as usize];
        let r = Self { data };
        assert(r@ =~= Seq::new((page_size as usize) as nat, |i: int| 0u8));
        r
    }

    /// A page made of `data`.
    pub fn new(data: Vec<u8>) -> (r: PageBlock)
        ensures
            r@ == data@,
    {
        Self { data }
    }

    /// The page id stored in the page header.
    pub fn get_page_id(&self) -> (r: u64)
        requires
            self@.len() >= 8,
        ensures
            r == be_to_u64(self@, 0),
    {
        read_u64(self.data.as_slice(), constant::page_offset_range_page_id().start)
    }

    /// The log sequence number stored in the page header.
    pub fn get_lsn(&self) -> (r: u64)
        requires
            self@.len() >= 16,
        ensures
            r == be_to_u64(self@, 8),
    {
        read_u64(self.data.as_slice(), constant::page_offset_range_lsn().start)
    }

    /// Stores the page id in the page header.
    pub fn set_page_id(&mut self, page_id: u64)
        requires
            old(self)@.len() >= 8,
        ensures
            final(self)@ == with_u64_at(old(self)@, 0, page_id),
    {
        write_u64(&mut self.data, constant::page_offset_range_page_id().start, page_id);
    }

    /// Stores the log sequence number in the page header.
    pub fn set_lsn(&mut self, lsn: u64)
        requires
            old(self)@.len() >= 16,
        ensures
            final(self)@ == with_u64_at(old(self)@, 8, lsn),
    {
        write_u64(&mut self.data, constant::page_offset_range_lsn().start, lsn);
    }

    /// Leaves the page as it is.
    pub fn update_checksum(&self) {
    }

    /// Stores the log sequence number in the page header and describes the
    /// change as an update of the page.
    pub fn update_set_lsn(&mut self, lsn: u64) -> (r: PageUpdate)
        requires
            old(self)@.len() >= 16,
        ensures
            final(self)@ == with_u64_at(old(self)@, 8, lsn),
            r.spec_page_id() == be_to_u64(old(self)@, 0),
            r.spec_offset() == 8,
            r.spec_update_data() == u64_to_be(lsn),
    {
        let range = constant::page_offset_range_lsn();
        let page_id = self.get_page_id();
        let offset = range.start as u64;
        write_u64(&mut self.data, range.start, lsn);
        let mut update_data: Vec<u8> = Vec::with_capacity(8);
        let mut i = range.start;
        while i < range.end
            invariant
                range.start == 8,
                range.end == 16,
                8 <= i <= 16,
                self.data@.len() >= 16,
                self.data@.subrange(8, 16) == u64_to_be(lsn),
                update_data@ == self.data@.subrange(8, i as int),
            decreases range.end - i,
        {
            update_data.push(self.data[i]);
            i += 1;
            assert(update_data@ =~= self.data@.subrange(8, i as int));
        }
        PageUpdate { page_id, offset, update_data }
    }

    /// Stores the checksum in the last eight bytes of the page.
    pub fn set_checksum(&mut self, checksum: Checksum)
        requires
            old(self)@.len() >= 8,
        ensures
            final(self)@ == with_u64_at(old(self)@, old(self)@.len() - 8, checksum),
    {
        let range = self.range_checksum();
        write_u64(&mut self.data, range.start, checksum);
    }

    /// The checksum stored in the last eight bytes of the page.
    pub fn get_checksum(&self) -> (r: Checksum)
        requires
            self@.len() >= 8,
        ensures
            r == be_to_u64(self@, self@.len() - 8),
    {
        let range = self.range_checksum();
        read_u64(self.data.as_slice(), range.start)
    }

    /// The byte range of the checksum: the last eight bytes of the page.
    pub fn range_checksum(&self) -> (r: Range<usize>)
        requires
            self@.len() >= 8,
        ensures
            r.start == self@.len() - 8,
            r.end == self@.len(),
    {
        self.data.len() - core::mem::size_of::<Checksum>()..self.data.len()
    }

    /// The bytes of the page.
    pub fn block(&self) -> (r: &[u8])
        ensures
            r@ == self@,
    {
        self.data.as_slice()
    }

    /// The bytes of the page, for writing; the page must not be empty.
    pub fn block_mut(&mut self) -> (r: &mut [u8])
        requires
            old(self)@.len() > 0,
        ensures
            r@ == old(self)@,
            final(self)@ == final(r)@,
    {
        self.data.as_mut_slice()
    }

    /// Overwrites `data.len()` bytes of the page at `offset` with `data`.
    pub(crate) fn write_bytes(&mut self, offset: usize, data: &[u8])
        requires
            offset + data@.len() <= old(self)@.len(),
        ensures
            final(self)@ == old(self)@.subrange(0, offset as int) + data@ + old(self)@.subrange(
                offset + data@.len(),
                old(self)@.len() as int,
            ),
    {
        let ghost o = self.data@;
        let n = self.data.len();
        let mut i: usize = 0;
        while i < data.len()
            invariant
                n == o.len(),
                offset + data@.len() <= o.len(),
                self.data@.len() == o.len(),
                i <= data@.len(),
                forall|j: int| 0 <= j < offset ==> self.data@[j] == o[j],
                forall|j: int| offset + data@.len() <= j < o.len() ==> self.data@[j] == o[j],
                forall|j: int| 0 <= j < i ==> self.data@[offset + j] == data@[j],
                forall|j: int| offset + i <= j < offset + data@.len() ==> self.data@[j] == o[j],
            decreases data@.len() - i,
        {
            self.data.set(offset + i, data[i]);
            i += 1;
        }
        assert(self.data@ =~= o.subrange(0, offset as int) + data@ + o.subrange(offset + data@.len(), o.len() as int));
    }

    /// A copy of `length` bytes of the page from `offset` on.
    pub(crate) fn read_bytes(&self, offset: usize, length: usize) -> (r: Vec<u8>)
        requires
            offset + length <= self@.len(),
        ensures
            r@ == self@.subrange(offset as int, offset + length),
    {
        let mut r: Vec<u8> = Vec::with_capacity(length);
        let n = self.data.len();
        let mut i: usize = 0;
        while i < length
            invariant
                n == self.data@.len(),
                offset + length <= self.data@.len(),
                i <= length,
                r@ == self.data@.subrange(offset as int, offset + i),
            decreases length - i,
        {
            r.push(self.data[offset + i]);
            i += 1;
            assert(r@ =~= self.data@.subrange(offset as int, offset + i));
        }
        r
    }

    /// The number of bytes of the page.
    pub fn len(&self) -> (r: usize)
        ensures
            r == self@.len(),
    {
        self.data.len()
    }

    /// Exchanges the bytes of this page with those of `block`.
    pub fn set_block(&mut self, block: &mut PageBlock)
        ensures
            final(self)@ == old(block)@,
            final(block)@ == old(self)@,
    {
        self.swap(block);
    }

    /// Takes the bytes out of the page, leaving it empty.
    pub fn use_block(&mut self) -> (r: Vec<u8>)
        ensures
            r@ == old(self)@,
            final(self)@ == Seq::<u8>::empty(),
    {
        let mut vec = Vec::new();
        std::mem::swap(&mut self.data, &mut vec);
        vec
    }

    /// Exchanges the bytes of this page with those of `new_block`.
    pub fn swap(&mut self, new_block: &mut PageBlock)
        ensures
            final(self)@ == old(new_block)@,
            final(new_block)@ == old(self)@,
    {
        std::mem::swap(&mut self.data, &mut new_block.data);
    }

    /// Copies the bytes of this page into `block`.
    pub fn copy_block(&mut self, block: &mut PageBlock)
        ensures
            final(self)@ == old(self)@,
            final(block)@ == old(self)@,
    {
        let n = self.data.len();
        block.data.resize(n, 0);
        let mut i: usize = 0;
        while i < n
            invariant
                n == self.data@.len(),
                block.data@.len() == n,
                i <= n,
                forall|j: int| 0 <= j < i ==> block.data@[j] == self.data@[j],
            decreases n - i,
        {
            block.data.set(i, self.data[i]);
            i += 1;
        }
        assert(block.data@ =~= self.data@);
    }

    /// Leaves both pages as they are.
    pub fn update_block(&mut self, block: &mut PageBlock)
        ensures
            final(self)@ == old(self)@,
            final(block)@ == old(block)@,
    {
    }

    /// Stores the checksum of the page, computed over every byte before the
    /// checksum field.
    pub fn reset_checksum(&mut self)
        requires
            old(self)@.len() >= 8,
        ensures
            final(self)@ == with_u64_at(
                old(self)@,
                old(self)@.len() - 8,
                wrapping_byte_sum(old(self)@.subrange(0, old(self)@.len() - 8)),
            ),
    {
        let checksum = self.calculate_checksum();
        self.set_checksum(checksum);
    }

    /// The checksum of the page: the wrapping sum of the bytes before the checksum field.
    pub fn calculate_checksum(&self) -> (r: Checksum)
        requires
            self@.len() >= 8,
        ensures
            r == wrapping_byte_sum(self@.subrange(0, self@.len() - 8)),
            r as int == byte_total(self@.subrange(0, self@.len() - 8)) % 0x1_0000_0000_0000_0000,
    {
        let end = self.range_checksum().start;
        proof {
            lemma_wrapping_byte_sum_is_total(self@.subrange(0, self@.len() - 8));
        }
        wrapping_sum_prefix(self.data.as_slice(), end)
    }
}

} // verus!
