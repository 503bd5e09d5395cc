//! Control of a buffer frame: the page header writer, the data reads and
//! writes inside a page, and the use count and swap-out protocol of a frame.
use crate::common::error::EC;
use crate::storage::constant::PAGE_TAIL_SIZE;
use crate::storage::page_block::{wrapping_byte_sum, wrapping_sum_prefix, with_u64_at, Checksum, PageBlock};
use vstd::prelude::*;

verus! {

/// Writes the page id and the log sequence number into the page header.
pub fn write_header(page: &mut PageBlock, page_id: u64, lsn: u64)
    requires
        old(page)@.len() >= 16,
    ensures
        final(page)@ == with_u64_at(with_u64_at(old(page)@, 0, page_id), 8, lsn),
{
    page.set_page_id(page_id);
    page.set_lsn(lsn);
}

/// Where the page of a frame is.
#[derive(Debug, Clone, Copy, PartialEq, Eq, Structural)]
pub enum FrameState {
    PageUnSetup,
    PageLoaded,
    PageSwapped,
}

/// The control fields of a frame, as the contracts see them.
pub struct FrameCtrlView {
    pub frame_index: u64,
    pub is_dirty: bool,
    pub is_fixed: bool,
    pub is_swapping: bool,
    pub used_count: u64,
    pub state: FrameState,
}

/// The control block of a buffer frame. Users take the frame with
/// `use_frame` and give it back with `unuse_frame`; a swap-out first bars new
/// users, then completes once the last user is gone.
pub struct FrameCtrl {
    frame_index: u64,
    is_dirty: bool,
    is_fixed: bool,
    is_swapping: bool,
    used_count: u64,
    state: FrameState,
}

impl View for FrameCtrl {
    type V = FrameCtrlView;

    closed spec fn view(&self) -> FrameCtrlView {
        FrameCtrlView {
            frame_index: self.frame_index,
            is_dirty: self.is_dirty,
            is_fixed: self.is_fixed,
            is_swapping: self.is_swapping,
            used_count: self.used_count,
            state: self.state,
        }
    }
}

impl FrameCtrl {
    /// A frame that holds no page, is neither dirty nor fixed and has no users.
    pub fn new_empty(frame_index: u64) -> (r: Self)
        ensures
            r@ == (FrameCtrlView {
                frame_index,
                is_dirty: false,
                is_fixed: false,
                is_swapping: false,
                used_count: 0,
                state: FrameState::PageUnSetup,
            }),
    {
        FrameCtrl {
            frame_index,
            is_dirty: false,
            is_fixed: false,
            is_swapping: false,
            used_count: 0,
            state: FrameState::PageUnSetup,
        }
    }

    pub fn set_fixed(&mut self, fixed: bool)
        ensures
            final(self)@ == (FrameCtrlView { is_fixed: fixed, ..old(self)@ }),
    {
        self.is_fixed = fixed;
    }

    pub fn set_dirty(&mut self, dirty: bool)
        ensures
            final(self)@ == (FrameCtrlView { is_dirty: dirty, ..old(self)@ }),
    {
        self.is_dirty = dirty;
    }

    /// The checksum of a page: the wrapping sum of its bytes before the page tail.
    pub fn calculate_checksum(page: &PageBlock) -> (r: Checksum)
        requires
            page@.len() >= PAGE_TAIL_SIZE,
        ensures
            r == wrapping_byte_sum(page@.subrange(0, page@.len() - PAGE_TAIL_SIZE)),
    {
        wrapping_sum_prefix(page.block(), page.block().len() - PAGE_TAIL_SIZE)
    }

    /// Writes `data` into the page at `offset`, then stores the page checksum
    /// and marks the frame dirty. Data that would reach into the page tail is
    /// refused, and then nothing changes.
    pub fn write_data(&mut self, offset: usize, data: &[u8], page: &mut PageBlock) -> (r: Result<(), EC>)
        requires
            old(page)@.len() >= PAGE_TAIL_SIZE,
            offset + data@.len() <= usize::MAX,
        ensures
            r is Ok <==> offset + data@.len() <= old(page)@.len() - PAGE_TAIL_SIZE,
            r is Err ==> r == Err::<(), EC>(EC::StorageErr) && final(page)@ == old(page)@ && final(self)@ == old(self)@,
            r is Ok ==> ({
                let written = old(page)@.subrange(0, offset as int) + data@ + old(page)@.subrange(
                    offset + data@.len(),
                    old(page)@.len() as int,
                );
                &&& final(page)@ == with_u64_at(
                    written,
                    written.len() - 8,
                    wrapping_byte_sum(written.subrange(0, written.len() - PAGE_TAIL_SIZE)),
                )
                &&& final(self)@ == (FrameCtrlView { is_dirty: true, ..old(self)@ })
            }),
    {
        if offset + data.len() > page.block().len() - PAGE_TAIL_SIZE {
            return Err(EC::StorageErr);
        }
        page.write_bytes(offset, data);
        let checksum = Self::calculate_checksum(page);
        page.set_checksum(checksum);
        self.set_dirty(true);
        Ok(())
    }

    /// Reads `length` bytes of the page from `offset` on; a read that would
    /// reach into the page tail is refused.
    pub fn read_data(&self, offset: usize, length: usize, page: &PageBlock) -> (r: Result<Vec<u8>, EC>)
        requires
            page@.len() >= PAGE_TAIL_SIZE,
            offset + length <= usize::MAX,
        ensures
            r is Ok <==> offset + length <= page@.len() - PAGE_TAIL_SIZE,
            r is Err ==> r == Err::<Vec<u8>, EC>(EC::StorageErr),
            r matches Ok(v) ==> v@ == page@.subrange(offset as int, offset + length),
    {
        if offset + length > page.block().len() - PAGE_TAIL_SIZE {
            return Err(EC::StorageErr);
        }
        Ok(page.read_bytes(offset, length))
    }

    /// Takes the frame for a user: refused with `false`, leaving the count as
    /// it was, while a swap-out is under way.
    pub fn use_frame(&mut self) -> (r: bool)
        ensures
            r == !old(self)@.is_swapping,
            r ==> final(self)@ == (FrameCtrlView {
                used_count: if old(self)@.used_count == u64::MAX { 0 } else { (old(self)@.used_count + 1) as u64 },
                ..old(self)@
            }),
            !r ==> final(self)@ == old(self)@,
    {
        self.used_count = self.used_count.wrapping_add(1);
        if self.is_swapping {
            self.used_count = self.used_count.wrapping_sub(1);
            false
        } else {
            true
        }
    }

    /// Gives the frame back. Returns whether the waiting swap-out must be
    /// woken: the last user left while a swap-out is under way.
    pub fn unuse_frame(&mut self) -> (r: bool)
        ensures
            final(self)@ == (FrameCtrlView {
                used_count: if old(self)@.used_count == 0 { u64::MAX } else { (old(self)@.used_count - 1) as u64 },
                ..old(self)@
            }),
            r == (old(self)@.used_count == 1 && old(self)@.is_swapping),
    {
        let n = self.used_count;
        self.used_count = self.used_count.wrapping_sub(1);
        n == 1 && self.is_swapping
    }

    /// Starts a swap-out: a fixed frame is refused; otherwise new users are barred.
    pub fn begin_swap_out(&mut self) -> (r: Result<(), EC>)
        ensures
            old(self)@.is_fixed ==> r == Err::<(), EC>(EC::StorageErr) && final(self)@ == old(self)@,
            !old(self)@.is_fixed ==> r is Ok && final(self)@ == (FrameCtrlView { is_swapping: true, ..old(self)@ }),
    {
        if self.is_fixed {
            return Err(EC::StorageErr);
        }
        self.is_swapping = true;
        Ok(())
    }

    /// Completes a swap-out once no user holds the frame, and tells whether the
    /// page was dirty; `None` while users remain.
    pub fn try_finish_swap_out(&mut self) -> (r: Option<bool>)
        ensures
            old(self)@.used_count == 0 ==> r == Some(old(self)@.is_dirty) && final(self)@ == (FrameCtrlView {
                state: FrameState::PageSwapped,
                ..old(self)@
            }),
            old(self)@.used_count != 0 ==> r is None && final(self)@ == old(self)@,
    {
        if self.used_count == 0 {
            self.state = FrameState::PageSwapped;
            Some(self.is_dirty)
        } else {
            None
        }
    }

    /// Clears the dirty, fixed and swapping flags and the user count.
    pub fn reset(&mut self)
        ensures
            final(self)@ == (FrameCtrlView {
                is_dirty: false,
                is_fixed: false,
                is_swapping: false,
                used_count: 0,
                ..old(self)@
            }),
    {
        self.is_dirty = false;
        self.is_fixed = false;
        self.is_swapping = false;
        self.used_count = 0;
    }
}

} // verus!
