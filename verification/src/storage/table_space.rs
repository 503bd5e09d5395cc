//! The decisions of allocating a page in a table space: from its last
//! extent, or from a new extent when the table space has none or the last
//! one is full.
use crate::common::error::EC;
use vstd::prelude::*;

verus! {

/// Where the allocation of a page in a table space stands.
#[derive(Debug, Clone, Copy, PartialEq, Eq, Structural)]
pub enum AllocStage {
    /// The last extent of the table space is being looked up.
    Start,
    /// The table space has no extent: one is being created and recorded.
    CreatingFirst,
    /// A page is being allocated from the extent at hand.
    AllocatingFirst,
    /// That extent was full: another is being created.
    CreatingSecond,
    /// A page is being allocated from that other extent.
    AllocatingSecond,
    /// The allocation is over.
    Done,
}

/// What the last action of a page allocation came to.
#[derive(Debug, Clone, Copy, PartialEq, Eq)]
pub enum AllocEvent {
    /// Whether the last extent of the table space was found.
    Looked(bool),
    /// The outcome of creating an extent.
    Created(Result<(), EC>),
    /// The page that the extent allocated, or `None` when it was full.
    Allocated(Option<u64>),
}

/// What the table space does next for a page allocation.
#[derive(Debug, Clone, Copy, PartialEq, Eq)]
pub enum AllocAction {
    /// Create an extent and record it as the table space's last one.
    CreateAndRecordExtent,
    /// Create an extent without recording it.
    CreateExtent,
    /// Allocate a page from the extent at hand.
    AllocateFromExtent,
    /// The allocation is over: the page id in the extent at hand, or the error.
    Finish(Result<u64, EC>),
}

/// Whether `event` answers the action that an allocation in `stage` asked for.
pub open spec fn alloc_event_fits(stage: AllocStage, event: AllocEvent) -> bool {
    ||| stage is Start && event is Looked
    ||| (stage is CreatingFirst || stage is CreatingSecond) && event is Created
    ||| (stage is AllocatingFirst || stage is AllocatingSecond) && event is Allocated
}

/// The next stage and action of a page allocation in `stage` once its last
/// action came to `event`.
pub open spec fn alloc_next(stage: AllocStage, event: AllocEvent) -> (AllocStage, AllocAction) {
    match event {
        AllocEvent::Looked(found) => if found {
            (AllocStage::AllocatingFirst, AllocAction::AllocateFromExtent)
        } else {
            (AllocStage::CreatingFirst, AllocAction::CreateAndRecordExtent)
        },
        AllocEvent::Created(Err(e)) => (AllocStage::Done, AllocAction::Finish(Err(e))),
        AllocEvent::Created(Ok(())) => if stage is CreatingFirst {
            (AllocStage::AllocatingFirst, AllocAction::AllocateFromExtent)
        } else {
            (AllocStage::AllocatingSecond, AllocAction::AllocateFromExtent)
        },
        AllocEvent::Allocated(Some(page)) => (AllocStage::Done, AllocAction::Finish(Ok(page))),
        AllocEvent::Allocated(None) => if stage is AllocatingFirst {
            (AllocStage::CreatingSecond, AllocAction::CreateExtent)
        } else {
            (AllocStage::Done, AllocAction::Finish(Err(EC::StorageErr)))
        },
    }
}

/// The decisions of allocating a page in a table space. The page comes from
/// the table space's last extent; where it has none, an extent is created
/// and recorded first. Where that extent is full, one more extent is
/// created, not recorded, and the page comes from it; where that one is full
/// too, the allocation fails with `StorageErr`. A failure to create an
/// extent is reported as it is.
pub fn alloc_step(stage: AllocStage, event: AllocEvent) -> (r: (AllocStage, AllocAction))
    requires
        alloc_event_fits(stage, event),
    ensures
        r == alloc_next(stage, event),
{
    match event {
        AllocEvent::Looked(found) => {
            if found {
                (AllocStage::AllocatingFirst, AllocAction::AllocateFromExtent)
            } else {
                (AllocStage::CreatingFirst, AllocAction::CreateAndRecordExtent)
            }
        },
        AllocEvent::Created(Err(e)) => (AllocStage::Done, AllocAction::Finish(Err(e))),
        AllocEvent::Created(Ok(())) => {
            if stage == AllocStage::CreatingFirst {
                (AllocStage::AllocatingFirst, AllocAction::AllocateFromExtent)
            } else {
                (AllocStage::AllocatingSecond, AllocAction::AllocateFromExtent)
            }
        },
        AllocEvent::Allocated(Some(page)) => (AllocStage::Done, AllocAction::Finish(Ok(page))),
        AllocEvent::Allocated(None) => {
            if stage == AllocStage::AllocatingFirst {
                (AllocStage::CreatingSecond, AllocAction::CreateExtent)
            } else {
                (AllocStage::Done, AllocAction::Finish(Err(EC::StorageErr)))
            }
        },
    }
}

/// A page allocation asks for at most two extents and records at most one:
/// an extent is created and recorded only on the first look-up finding
/// none, another is created only after a full extent, and after the second
/// extent the allocation finishes whatever the extent answers.
pub proof fn lemma_alloc_creates_at_most_two_extents(stage: AllocStage, event: AllocEvent)
    requires
        alloc_event_fits(stage, event),
    ensures
        alloc_next(stage, event).1 is CreateAndRecordExtent ==> stage is Start,
        alloc_next(stage, event).1 is CreateExtent ==> stage is AllocatingFirst,
        stage is AllocatingSecond ==> alloc_next(stage, event).0 is Done && alloc_next(stage, event).1 is Finish,
        stage is CreatingSecond ==> !(alloc_next(stage, event).1 is CreateExtent)
            && !(alloc_next(stage, event).1 is CreateAndRecordExtent),
{
}

} // verus!
