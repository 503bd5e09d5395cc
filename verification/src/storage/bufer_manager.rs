//! The free frames of the buffer pool, and the decisions of fetching a page
//! into it.
use crate::common::error::EC;
use crate::common::sorted::{sorted, sorted_insert, sorted_remove, strictly_sorted};
#[allow(unused_imports)]
use rand::seq::IteratorRandom;
use vstd::prelude::*;

verus! {

/// Picks an index below `len` at random: it calls
/// `rand::seq::IteratorRandom::choose` on the range `0..len` with the
/// thread-local generator of `rand::rng()`. On a range, whose size hint is
/// exact, `choose` returns `None` exactly when the range is empty and
/// otherwise one of its elements. Which element comes back is left open.
#[verifier::external_body]
fn choose_index(len: usize) -> (r: Option<usize>)
    ensures
        r is None <==> len == 0,
        r matches Some(i) ==> i < len,
{
    let mut rng = rand::rng();
    (0..len).choose(&mut rng)
}

/// The indices of the free frames of the buffer pool. Indices are added and
/// removed at the positions that bisection finds, and handed out from random
/// positions.
pub struct FreeList {
    vec: Vec<u64>,
}

impl View for FreeList {
    type V = Seq<u64>;

    closed spec fn view(&self) -> Seq<u64> {
        self.vec@
    }
}

impl FreeList {
    pub fn new(vec: Vec<u64>) -> (r: FreeList)
        ensures
            r@ == vec@,
    {
        Self { vec }
    }

    /// Hands out the frame index at position `index`, moving the last index into its place.
    pub fn take_free_frame_index_at(&mut self, index: usize) -> (r: u64)
        requires
            index < old(self)@.len(),
        ensures
            r == old(self)@[index as int],
            final(self)@ == old(self)@.update(index as int, old(self)@.last()).drop_last(),
    {
        self.vec.swap_remove(index)
    }

    /// Hands out a free frame index taken from a random position, or `None`
    /// when no frame is free.
    pub fn get_a_free_frame_index(&mut self) -> (r: Option<u64>)
        ensures
            r is None <==> old(self)@.len() == 0,
            r is None ==> final(self)@ == old(self)@,
            r matches Some(x) ==> exists|i: int|
                0 <= i < old(self)@.len() && old(self)@[i] == x && final(self)@ == old(self)@.update(
                    i,
                    old(self)@.last(),
                ).drop_last(),
    {
        match choose_index(self.vec.len()) {
            Some(index) => Some(self.take_free_frame_index_at(index)),
            None => None,
        }
    }

    /// Adds a frame index, unless bisection finds it present.
    pub fn add_a_free_frame_index(&mut self, fram_index: u64)
        ensures
            final(self)@.contains(fram_index),
            final(self)@ == old(self)@ || exists|i: int|
                0 <= i <= old(self)@.len() && final(self)@ == old(self)@.insert(i, fram_index),
            sorted(old(self)@) ==> sorted(final(self)@),
            strictly_sorted(old(self)@) ==> strictly_sorted(final(self)@),
            sorted(old(self)@) ==> (final(self)@ == old(self)@ <==> old(self)@.contains(fram_index)),
    {
        sorted_insert(&mut self.vec, fram_index);
    }

    /// Removes a frame index, if bisection finds it.
    pub fn remove_free_frame_index(&mut self, fram_index: u64)
        ensures
            final(self)@ == old(self)@ || exists|i: int|
                0 <= i < old(self)@.len() && old(self)@[i] == fram_index && final(self)@ == old(self)@.remove(i),
            sorted(old(self)@) ==> sorted(final(self)@),
            strictly_sorted(old(self)@) ==> strictly_sorted(final(self)@),
            sorted(old(self)@) ==> (final(self)@ == old(self)@ <==> !old(self)@.contains(fram_index)),
    {
        sorted_remove(&mut self.vec, fram_index);
    }
}

/// The free list of a new buffer pool of `buffer_num_pages` frames: every
/// frame index, in increasing order.
pub fn initial_free_list(buffer_num_pages: u64) -> (r: FreeList)
    ensures
        r@ == Seq::new(buffer_num_pages as nat, |i: int| i as u64),
        strictly_sorted(r@),
{
    let mut free_list: Vec<u64> = Vec::new();
    let mut frame_index: u64 = 0;
    while frame_index < buffer_num_pages
        invariant
            frame_index <= buffer_num_pages,
            free_list@ == Seq::new(frame_index as nat, |i: int| i as u64),
        decreases buffer_num_pages - frame_index,
    {
        free_list.push(frame_index);
        frame_index += 1;
        assert(free_list@ =~= Seq::new(frame_index as nat, |i: int| i as u64));
    }
    FreeList::new(free_list)
}

/// Where the fetch of a page into the buffer pool stands.
#[derive(Debug, Clone, Copy, PartialEq, Eq, Structural)]
pub enum FetchStage {
    /// The page cache is being looked up.
    Start,
    /// A free frame is being taken.
    TakingFrame,
    /// The frame's old page is leaving the cache and being copied out.
    Copying,
    /// The frame is being swapped out.
    SwappingOut,
    /// The frame's old page, which was dirty, is being written to disk.
    WritingBack,
    /// The page is being read from disk.
    Reading,
    /// The fetch is over.
    Done,
}

/// Where the frame that a fetch hands back has its page from.
#[derive(Debug, Clone, Copy, PartialEq, Eq, Structural)]
pub enum FetchedFrom {
    /// The frame was in the page cache.
    Cache,
    /// The page was read from disk into a frame that was freed for it.
    Disk,
}

/// What the last action of a page fetch came to.
#[derive(Debug, Clone, Copy, PartialEq, Eq)]
pub enum FetchEvent {
    /// Whether the page cache holds a frame for the page.
    Cached(bool),
    /// A free frame was taken.
    FrameTaken,
    /// The outcome of copying out the frame's old page.
    Copied(Result<(), EC>),
    /// The outcome of swapping the frame out: whether its page was dirty.
    SwappedOut(Result<bool, EC>),
    /// The outcome of writing the old page to disk.
    WrittenBack(Result<(), EC>),
    /// The outcome of reading the page from disk.
    Read(Result<(), EC>),
}

/// What the buffer pool does next for a page fetch.
#[derive(Debug, Clone, Copy, PartialEq, Eq)]
pub enum FetchAction {
    /// Take a free frame.
    TakeFreeFrame,
    /// Remove the frame's old page from the cache and copy it out.
    EvictAndCopy,
    /// Swap the frame out, waiting for its users to leave.
    SwapOut,
    /// Write the old page to disk.
    WriteBack,
    /// Reset the frame, then read the page from disk.
    ResetAndRead,
    /// Read the page from disk.
    Read,
    /// The fetch is over: the frame, with where its page came from (a page
    /// read from disk is first swapped into it), or the error.
    Finish(Result<FetchedFrom, EC>),
}

/// Whether `event` answers the action that a fetch in `stage` asked for.
pub open spec fn fetch_event_fits(stage: FetchStage, event: FetchEvent) -> bool {
    ||| stage is Start && event is Cached
    ||| stage is TakingFrame && event is FrameTaken
    ||| stage is Copying && event is Copied
    ||| stage is SwappingOut && event is SwappedOut
    ||| stage is WritingBack && event is WrittenBack
    ||| stage is Reading && event is Read
}

/// The next stage and action of a page fetch once its last action came to
/// `event`.
pub open spec fn fetch_next(event: FetchEvent) -> (FetchStage, FetchAction) {
    match event {
        FetchEvent::Cached(hit) => if hit {
            (FetchStage::Done, FetchAction::Finish(Ok(FetchedFrom::Cache)))
        } else {
            (FetchStage::TakingFrame, FetchAction::TakeFreeFrame)
        },
        FetchEvent::FrameTaken => (FetchStage::Copying, FetchAction::EvictAndCopy),
        FetchEvent::Copied(Err(e)) => (FetchStage::Done, FetchAction::Finish(Err(e))),
        FetchEvent::Copied(Ok(())) => (FetchStage::SwappingOut, FetchAction::SwapOut),
        FetchEvent::SwappedOut(Err(e)) => (FetchStage::Done, FetchAction::Finish(Err(e))),
        FetchEvent::SwappedOut(Ok(dirty)) => if dirty {
            (FetchStage::WritingBack, FetchAction::WriteBack)
        } else {
            (FetchStage::Reading, FetchAction::Read)
        },
        FetchEvent::WrittenBack(Err(e)) => (FetchStage::Done, FetchAction::Finish(Err(e))),
        FetchEvent::WrittenBack(Ok(())) => (FetchStage::Reading, FetchAction::ResetAndRead),
        FetchEvent::Read(Err(e)) => (FetchStage::Done, FetchAction::Finish(Err(e))),
        FetchEvent::Read(Ok(())) => (FetchStage::Done, FetchAction::Finish(Ok(FetchedFrom::Disk))),
    }
}

/// The decisions of fetching a page into the buffer pool. A page in the
/// cache is handed back at once. Otherwise a free frame is taken, its old
/// page leaves the cache and is copied out, and the frame is swapped out;
/// where the old page was dirty it is written to disk and the frame reset.
/// The page is then read from disk into the frame. The first step that
/// fails ends the fetch with its error.
pub fn fetch_step(stage: FetchStage, event: FetchEvent) -> (r: (FetchStage, FetchAction))
    requires
        fetch_event_fits(stage, event),
    ensures
        r == fetch_next(event),
{
    match event {
        FetchEvent::Cached(hit) => {
            if hit {
                (FetchStage::Done, FetchAction::Finish(Ok(FetchedFrom::Cache)))
            } else {
                (FetchStage::TakingFrame, FetchAction::TakeFreeFrame)
            }
        },
        FetchEvent::FrameTaken => (FetchStage::Copying, FetchAction::EvictAndCopy),
        FetchEvent::Copied(Err(e)) => (FetchStage::Done, FetchAction::Finish(Err(e))),
        FetchEvent::Copied(Ok(())) => (FetchStage::SwappingOut, FetchAction::SwapOut),
        FetchEvent::SwappedOut(Err(e)) => (FetchStage::Done, FetchAction::Finish(Err(e))),
        FetchEvent::SwappedOut(Ok(dirty)) => {
            if dirty {
                (FetchStage::WritingBack, FetchAction::WriteBack)
            } else {
                (FetchStage::Reading, FetchAction::Read)
            }
        },
        FetchEvent::WrittenBack(Err(e)) => (FetchStage::Done, FetchAction::Finish(Err(e))),
        FetchEvent::WrittenBack(Ok(())) => (FetchStage::Reading, FetchAction::ResetAndRead),
        FetchEvent::Read(Err(e)) => (FetchStage::Done, FetchAction::Finish(Err(e))),
        FetchEvent::Read(Ok(())) => (FetchStage::Done, FetchAction::Finish(Ok(FetchedFrom::Disk))),
    }
}

/// A dirty page is never lost to a fetch: once a frame is swapped out with a
/// dirty page, the fetch writes that page to disk before it reads the new
/// one, and a frame is reset only after its old page was written.
pub proof fn lemma_dirty_page_written_before_read(stage: FetchStage, event: FetchEvent)
    requires
        fetch_event_fits(stage, event),
    ensures
        event == FetchEvent::SwappedOut(Ok(true)) ==> fetch_next(event).1 == FetchAction::WriteBack,
        fetch_next(event).1 == FetchAction::ResetAndRead ==> event matches FetchEvent::WrittenBack(Ok(_)),
        fetch_next(event).1 == FetchAction::Read ==> event == FetchEvent::SwappedOut(Ok(false)),
{
}

} // verus!
