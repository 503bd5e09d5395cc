//! How the server spreads log channels over session threads, and incoming
//! sessions over the session threads' channels.
use vstd::prelude::*;

verus! {

/// The indices below `n` whose remainder modulo `m` is `t`, in increasing order.
pub open spec fn residue_positions(n: int, m: int, t: int) -> Seq<usize>
    decreases n,
{
    if n <= 0 {
        Seq::empty()
    } else {
        let prev = residue_positions(n - 1, m, t);
        if (n - 1) % m == t {
            prev.push((n - 1) as usize)
        } else {
            prev
        }
    }
}

/// Spreads `n_channels` log channels over `session_threads` threads, round
/// robin: thread `t` gets the channels whose index leaves remainder `t` when
/// divided by the thread count, in increasing order. There must be at least
/// as many channels as threads, and at least one thread unless there is no
/// channel.
pub fn assign_log_channels(n_channels: usize, session_threads: usize) -> (r: Vec<Vec<usize>>)
    requires
        session_threads >= 1 || n_channels == 0,
        session_threads <= n_channels,
    ensures
        r@.len() == session_threads,
        forall|t: int| 0 <= t < session_threads ==> #[trigger] r@[t]@ == residue_positions(n_channels as int, session_threads as int, t),
{
    let mut groups: Vec<Vec<usize>> = Vec::new();
    let mut t: usize = 0;
    while t < session_threads
        invariant
            t <= session_threads,
            groups@.len() == t,
            forall|j: int| 0 <= j < t ==> #[trigger] groups@[j]@ == Seq::<usize>::empty(),
        decreases session_threads - t,
    {
        groups.push(Vec::new());
        t += 1;
    }
    let mut i: usize = 0;
    while i < n_channels
        invariant
            session_threads >= 1 || n_channels == 0,
            i <= n_channels,
            groups@.len() == session_threads,
            forall|j: int| 0 <= j < session_threads ==> #[trigger] groups@[j]@ == residue_positions(i as int, session_threads as int, j),
        decreases n_channels - i,
    {
        let n = i % session_threads;
        let mut group: Vec<usize> = Vec::new();
        std::mem::swap(&mut group, &mut groups[n]);
        group.push(i);
        groups.set(n, group);
        i += 1;
        assert forall|j: int| 0 <= j < session_threads implies #[trigger] groups@[j]@ == residue_positions(
            i as int,
            session_threads as int,
            j,
        ) by {
            if j != n as int {
                assert((i - 1) as int % session_threads as int != j);
            }
        }
    }
    groups
}

/// The channel of the session thread that the next accepted session goes to:
/// the session counter is advanced first, then taken modulo the channel count.
pub fn next_session_channel(session_id: &mut u64, n_channels: usize) -> (r: usize)
    requires
        n_channels >= 1,
        *old(session_id) < u64::MAX,
    ensures
        *final(session_id) == *old(session_id) + 1,
        r == (*final(session_id) as usize) % n_channels,
{
    *session_id += 1;
    (*session_id as usize) % n_channels
}

} // verus!
