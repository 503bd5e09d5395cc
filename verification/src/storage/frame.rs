//! The control block of a frame: its control fields and the page it holds.
use crate::storage::frame_ctrl::{FrameCtrl, FrameCtrlView, FrameState};
use crate::storage::page_block::PageBlock;
use vstd::prelude::*;

verus! {

/// A frame's control fields together with its page image.
pub struct CtrlBlock {
    pub frame_ctrl: FrameCtrl,
    pub page_block: PageBlock,
}

impl CtrlBlock {
    /// An unused frame holding a zero page of `page_size` bytes.
    pub fn new_empty(frame_id: u64, page_size: u64) -> (r: Self)
        ensures
            r.frame_ctrl@ == (FrameCtrlView {
                frame_index: frame_id,
                is_dirty: false,
                is_fixed: false,
                is_swapping: false,
                used_count: 0,
                state: FrameState::PageUnSetup,
            }),
            r.page_block@ == Seq::new((page_size as usize) as nat, |i: int| 0u8),
    {
        Self { frame_ctrl: FrameCtrl::new_empty(frame_id), page_block: PageBlock::new_empty(page_size) }
    }

    pub fn new(frame_ctrl: FrameCtrl, page_block: PageBlock) -> (r: CtrlBlock)
        ensures
            r.frame_ctrl@ == frame_ctrl@,
            r.page_block@ == page_block@,
    {
        Self { frame_ctrl, page_block }
    }

    /// Exchanges the frame's page with `block`.
    pub fn swap_page(&mut self, block: &mut PageBlock) -> (r: Result<(), crate::common::error::EC>)
        ensures
            r is Ok,
            final(self).page_block@ == old(block)@,
            final(block)@ == old(self).page_block@,
            final(self).frame_ctrl@ == old(self).frame_ctrl@,
    {
        self.page_block.swap(block);
        Ok(())
    }

    /// Copies the frame's page into `block`.
    pub fn read_block(&mut self, block: &mut PageBlock)
        ensures
            final(block)@ == old(self).page_block@,
            final(self).page_block@ == old(self).page_block@,
            final(self).frame_ctrl@ == old(self).frame_ctrl@,
    {
        self.page_block.copy_block(block);
    }
}

} // verus!
