//! The lock of one key: a holder and a first-come first-served queue of waiters.
use std::collections::VecDeque;
use vstd::prelude::*;

verus! {

/// The state of a lock slot as the contracts see it.
pub struct LockSlotView {
    pub is_deleted: bool,
    pub locked: Option<u64>,
    pub queue: Seq<u64>,
}

/// The state of the lock of one key. The transaction in `locked` holds the
/// lock; the others wait in `queue`, earliest first. The slot is marked
/// deleted once nobody holds or waits for it.
pub struct LockSlotInner {
    is_deleted: bool,
    locked: Option<u64>,
    queue: VecDeque<u64>,
}

/// The state after `xid` asks for the lock, and whether the lock was granted at once.
pub open spec fn lock_step(s: LockSlotView, xid: u64) -> (LockSlotView, bool) {
    match s.locked {
        None => (LockSlotView { locked: Some(xid), ..s }, true),
        Some(_) => (LockSlotView { queue: s.queue.push(xid), ..s }, false),
    }
}

/// The state after `xid` gives the lock back, whether it held it, and the
/// waiter that the lock passes to.
pub open spec fn release_step(s: LockSlotView, xid: u64) -> (LockSlotView, bool, Option<u64>) {
    if s.locked == Some(xid) {
        if s.queue.len() > 0 {
            (LockSlotView { locked: Some(s.queue[0]), queue: s.queue.drop_first(), ..s }, true, Some(s.queue[0]))
        } else {
            (LockSlotView { locked: None, ..s }, true, None)
        }
    } else {
        (s, false, None)
    }
}

impl View for LockSlotInner {
    type V = LockSlotView;

    closed spec fn view(&self) -> LockSlotView {
        LockSlotView { is_deleted: self.is_deleted, locked: self.locked, queue: self.queue@ }
    }
}

impl LockSlotInner {
    /// Nobody waits while the lock is free.
    pub open spec fn wf(&self) -> bool {
        self@.locked is None ==> self@.queue.len() == 0
    }

    /// A free slot.
    pub fn new() -> (r: Self)
        ensures
            r.wf(),
            r@ == (LockSlotView { is_deleted: false, locked: None, queue: Seq::empty() }),
    {
        LockSlotInner { is_deleted: false, locked: None, queue: VecDeque::new() }
    }

    pub fn is_deleted(&self) -> (r: bool)
        ensures
            r == self@.is_deleted,
    {
        self.is_deleted
    }

    pub fn set_deleted(&mut self)
        ensures
            final(self)@ == (LockSlotView { is_deleted: true, ..old(self)@ }),
    {
        self.is_deleted = true;
    }

    /// `xid` asks for the lock: it gets it when the lock is free (`true`),
    /// and waits at the back of the queue otherwise (`false`).
    pub fn lock(&mut self, xid: u64) -> (r: bool)
        requires
            old(self).wf(),
        ensures
            final(self).wf(),
            (final(self)@, r) == lock_step(old(self)@, xid),
            old(self)@.locked is None ==> r && final(self)@.locked == Some(xid) && final(self)@.queue
                == old(self)@.queue,
            old(self)@.locked is Some ==> !r && final(self)@.locked == old(self)@.locked && final(self)@.queue
                == old(self)@.queue.push(xid),
    {
        if self.locked.is_none() {
            self.locked = Some(xid);
            true
        } else {
            self.queue.push_back(xid);
            false
        }
    }

    /// `xid` gives the lock back. Returns whether it held the lock, and the
    /// first waiter, which now holds it.
    pub fn release(&mut self, xid: u64) -> (r: (bool, Option<u64>))
        requires
            old(self).wf(),
        ensures
            final(self).wf(),
            (final(self)@, r.0, r.1) == release_step(old(self)@, xid),
    {
        let ok = self.clear_locked(xid);
        if ok {
            let next = self.notify_next();
            (true, next)
        } else {
            (false, None)
        }
    }

    fn clear_locked(&mut self, xid: u64) -> (r: bool)
        ensures
            r == (old(self)@.locked == Some(xid)),
            r ==> final(self)@ == (LockSlotView { locked: None, ..old(self)@ }),
            !r ==> final(self)@ == old(self)@,
    {
        match self.locked {
            Some(id) => {
                if xid == id {
                    self.locked = None;
                    true
                } else {
                    false
                }
            },
            None => false,
        }
    }

    fn notify_next(&mut self) -> (r: Option<u64>)
        ensures
            old(self)@.locked is Some ==> r is None && final(self)@ == old(self)@,
            old(self)@.locked is None && old(self)@.queue.len() > 0 ==> r == Some(old(self)@.queue[0])
                && final(self)@ == (LockSlotView {
                locked: Some(old(self)@.queue[0]),
                queue: old(self)@.queue.drop_first(),
                ..old(self)@
            }),
            old(self)@.locked is None && old(self)@.queue.len() == 0 ==> r is None && final(self)@ == old(self)@,
    {
        if self.locked.is_some() {
            return None;
        }
        let opt = self.queue.pop_front();
        match opt {
            Some(xid) => {
                self.locked = Some(xid);
                assert(self.queue@ =~= old(self)@.queue.drop_first());
                Some(xid)
            },
            None => None,
        }
    }

    /// Marks the slot deleted when nobody holds or waits for it, and tells
    /// whether it is deleted.
    pub fn remove_if_empty(&mut self) -> (r: bool)
        ensures
            final(self)@ == (LockSlotView {
                is_deleted: old(self)@.is_deleted || (old(self)@.locked is None && old(self)@.queue.len() == 0),
                ..old(self)@
            }),
            r == final(self)@.is_deleted,
    {
        if self.locked.is_none() && self.queue.len() == 0 {
            self.is_deleted = true;
        }
        self.is_deleted
    }

    /// The decision of a lock request on a shared slot: `None` when the slot
    /// was deleted (the caller makes a new slot), else whether `xid` got the
    /// lock at once.
    pub fn try_lock(&mut self, xid: u64) -> (r: Option<bool>)
        requires
            old(self).wf(),
        ensures
            final(self).wf(),
            old(self)@.is_deleted ==> r is None && final(self)@ == old(self)@,
            !old(self)@.is_deleted ==> r == Some(lock_step(old(self)@, xid).1) && final(self)@ == lock_step(
                old(self)@,
                xid,
            ).0,
    {
        if self.is_deleted() {
            None
        } else {
            Some(self.lock(xid))
        }
    }

    /// The decision of a release on a shared slot: the waiter that now holds
    /// the lock, and whether the slot is deleted afterwards.
    pub fn release_and_check(&mut self, xid: u64) -> (r: (Option<u64>, bool))
        requires
            old(self).wf(),
        ensures
            final(self).wf(),
            ({
                let (s, _, next) = release_step(old(self)@, xid);
                &&& r.0 == next
                &&& final(self)@ == (LockSlotView {
                    is_deleted: s.is_deleted || (s.locked is None && s.queue.len() == 0),
                    ..s
                })
                &&& r.1 == final(self)@.is_deleted
            }),
    {
        let (_, next) = self.release(xid);
        let empty = self.remove_if_empty();
        (next, empty)
    }
}

/// The state after the holder gives the lock back `k` times in a row.
pub open spec fn release_by_holders(s: LockSlotView, k: nat) -> LockSlotView
    decreases k,
{
    if k == 0 {
        s
    } else {
        let prev = release_by_holders(s, (k - 1) as nat);
        match prev.locked {
            Some(h) => release_step(prev, h).0,
            None => prev,
        }
    }
}

/// Waiters get the lock in the order in which they asked for it: after the
/// holder has given it back `k` times, the `k`-th waiter holds the lock and
/// the later ones still wait, in order.
pub proof fn lemma_locks_granted_in_request_order(s: LockSlotView, k: nat)
    requires
        s.locked is Some,
        k <= s.queue.len(),
    ensures
        k > 0 ==> release_by_holders(s, k).locked == Some(s.queue[k - 1]),
        release_by_holders(s, k).queue == s.queue.skip(k as int),
        release_by_holders(s, k).locked is Some,
    decreases k,
{
    if k > 0 {
        lemma_locks_granted_in_request_order(s, (k - 1) as nat);
        let prev = release_by_holders(s, (k - 1) as nat);
        assert(prev.queue.len() > 0);
        assert(prev.queue[0] == s.queue[k - 1]);
        assert(prev.queue.drop_first() =~= s.queue.skip(k as int));
    }
}

/// At most one transaction holds the lock, and a request never takes the
/// lock from its holder: asking for a held lock leaves the holder in place.
pub proof fn lemma_request_keeps_holder(s: LockSlotView, xid: u64)
    requires
        s.locked is Some,
    ensures
        lock_step(s, xid).0.locked == s.locked,
        !lock_step(s, xid).1,
{
}

/// A transaction that asks for a held lock waits behind every transaction
/// that was already waiting: it becomes the last waiter, the earlier ones
/// keep their places, and it is granted the lock only once the holder and
/// each of the earlier waiters have given it back, in the order in which
/// they asked.
pub proof fn lemma_request_waits_behind_earlier(s: LockSlotView, xid: u64)
    requires
        s.locked is Some,
    ensures
        ({
            let t = lock_step(s, xid).0;
            &&& t.locked == s.locked
            &&& t.queue.len() == s.queue.len() + 1
            &&& t.queue[s.queue.len() as int] == xid
            &&& forall|i: int| 0 <= i < s.queue.len() ==> t.queue[i] == s.queue[i]
            &&& forall|k: nat| 0 < k <= s.queue.len() ==> #[trigger] release_by_holders(t, k).locked == Some(s.queue[k - 1])
            &&& release_by_holders(t, (s.queue.len() + 1) as nat).locked == Some(xid)
        }),
{
    let t = lock_step(s, xid).0;
    assert forall|k: nat| 0 < k <= s.queue.len() implies #[trigger] release_by_holders(t, k).locked == Some(s.queue[k - 1]) by {
        lemma_locks_granted_in_request_order(t, k);
    }
    lemma_locks_granted_in_request_order(t, (s.queue.len() + 1) as nat);
}

} // verus!
