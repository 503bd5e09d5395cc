//! The address of a page: the data file it lives in and its page id there.
use vstd::prelude::*;

verus! {

/// File id that no data file has.
pub const INVALID_FILE_ID: u64 = u64::MAX;

/// Page id that no page has.
pub const INVALID_PAGE_ID: u64 = u64::MAX;

/// The address of a page; two indices are equal when both their file ids and
/// their page ids are.
#[derive(Debug, Clone, Copy, PartialEq, Eq, Structural, Hash)]
pub struct PageIndex {
    pub file_id: u64,
    pub page_id: u64,
}

impl PageIndex {
    /// The index that addresses no page.
    pub fn invalid_index() -> (r: Self)
        ensures
            r.file_id == INVALID_FILE_ID,
            r.page_id == INVALID_PAGE_ID,
    {
        Self { file_id: INVALID_FILE_ID, page_id: INVALID_PAGE_ID }
    }

    pub fn new(file_id: u64, page_id: u64) -> (r: PageIndex)
        ensures
            r.file_id == file_id,
            r.page_id == page_id,
    {
        Self { file_id, page_id }
    }

    /// Where the page starts in its data file, for pages of `page_size` bytes.
    pub fn file_offset(&self, page_size: u64) -> (r: u64)
        requires
            self.page_id * page_size <= u64::MAX,
        ensures
            r == self.page_id * page_size,
    {
        self.page_id * page_size
    }
}

} // verus!
