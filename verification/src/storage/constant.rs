//! Byte layout of pages and of the headers stored in them.
use std::ops::Range;
use vstd::prelude::*;

verus! {

pub const PAGE_TAIL_SIZE: usize = 64usize;

pub const PAGE_HEADER_SIZE: usize = 64usize;

pub const DATA_HEADER_SIZE: usize = 64usize;

pub const EXTEND_HEADER_SIZE: usize = 64usize;

/// Offset of the page id in a page header.
pub fn offset_page_id() -> (r: usize)
    ensures
        r == 0,
{
    0
}

/// Size of the page id in a page header.
pub fn size_page_id() -> (r: usize)
    ensures
        r == 8,
{
    core::mem::size_of::<u64>()
}

/// Offset of the log sequence number in a page header.
pub fn offset_lsn() -> (r: usize)
    ensures
        r == 8,
{
    core::mem::size_of::<u64>()
}

/// Size of the log sequence number in a page header.
pub fn size_lsn() -> (r: usize)
    ensures
        r == 8,
{
    core::mem::size_of::<u64>()
}

/// Byte range of the page id in a page.
pub fn page_offset_range_page_id() -> (r: Range<usize>)
    ensures
        r.start == 0,
        r.end == 8,
{
    offset_page_id()..offset_page_id() + size_page_id()
}

/// Byte range of the log sequence number in a page.
pub fn page_offset_range_lsn() -> (r: Range<usize>)
    ensures
        r.start == 8,
        r.end == 16,
{
    offset_lsn()..offset_lsn() + size_lsn()
}

/// Byte range, in a page, of the page header and the extent header after it.
pub(crate) fn payload_offset_extent_meta_range() -> (r: Range<usize>)
    ensures
        r.start == 0,
        r.end == PAGE_HEADER_SIZE + EXTEND_HEADER_SIZE,
{
    0..PAGE_HEADER_SIZE + EXTEND_HEADER_SIZE
}

/// Offsets of the fields of a page header.
pub struct OffsetPage {}

impl OffsetPage {
    /// The whole page header.
    pub fn total() -> (r: Range<usize>)
        ensures
            r.start == 0,
            r.end == PAGE_HEADER_SIZE,
    {
        0..PAGE_HEADER_SIZE
    }

    /// The log sequence number.
    pub fn lsn() -> (r: Range<usize>)
        ensures
            r.start == 8,
            r.end == 16,
    {
        page_offset_range_lsn()
    }

    /// The page id.
    pub fn page_id() -> (r: Range<usize>)
        ensures
            r.start == 0,
            r.end == 8,
    {
        page_offset_range_page_id()
    }
}

/// Layout of the header of an extent.
pub struct LayoutExtentHeader {}

/// Layout of the header of a data page.
pub struct LayoutDataHeader {}

impl LayoutExtentHeader {
    /// Size of the extent header.
    pub fn size() -> (r: usize)
        ensures
            r == EXTEND_HEADER_SIZE,
    {
        EXTEND_HEADER_SIZE
    }

    /// Byte range of the extent header in its page, after the page header.
    pub fn range_of_page() -> (r: Range<usize>)
        ensures
            r.start == PAGE_HEADER_SIZE,
            r.end == PAGE_HEADER_SIZE + EXTEND_HEADER_SIZE,
    {
        PAGE_HEADER_SIZE..PAGE_HEADER_SIZE + EXTEND_HEADER_SIZE
    }

    /// Byte range of the page header and the extent header together.
    pub fn range() -> (r: Range<usize>)
        ensures
            r.start == 0,
            r.end == PAGE_HEADER_SIZE + EXTEND_HEADER_SIZE,
    {
        payload_offset_extent_meta_range()
    }

    /// Byte range of the extent id in the extent header.
    pub fn range_extent_id() -> (r: Range<usize>)
        ensures
            r.start == 0,
            r.end == 8,
    {
        0..core::mem::size_of::<u64>()
    }

    /// Byte range of the first page number in the extent header.
    pub fn range_start_page() -> (r: Range<usize>)
        ensures
            r.start == 8,
            r.end == 16,
    {
        let start = Self::range_extent_id().end;
        start..start + core::mem::size_of::<u64>()
    }

    /// Byte range of the page count in the extent header.
    pub fn range_page_count() -> (r: Range<usize>)
        ensures
            r.start == 16,
            r.end == 24,
    {
        let start = Self::range_start_page().end;
        start..start + core::mem::size_of::<u64>()
    }

    /// Offset of the page bitmap in the extent header's page payload.
    pub fn offset_bitmap() -> (r: usize)
        ensures
            r == EXTEND_HEADER_SIZE,
    {
        EXTEND_HEADER_SIZE
    }
}

impl LayoutDataHeader {
    /// Byte range of the data header in its page, after the page header.
    pub fn range_of_page() -> (r: Range<usize>)
        ensures
            r.start == PAGE_HEADER_SIZE,
            r.end == PAGE_HEADER_SIZE + DATA_HEADER_SIZE,
    {
        PAGE_HEADER_SIZE..PAGE_HEADER_SIZE + DATA_HEADER_SIZE
    }

    /// Byte range of the first free offset in the data header.
    pub fn range_free_begin() -> (r: Range<usize>)
        ensures
            r.start == 0,
            r.end == 8,
    {
        0..core::mem::size_of::<u64>()
    }

    /// Byte range of the end of the free space in the data header.
    pub fn range_free_end_page() -> (r: Range<usize>)
        ensures
            r.start == 8,
            r.end == 16,
    {
        let start = Self::range_free_begin().end;
        start..start + core::mem::size_of::<u64>()
    }
}

} // verus!
