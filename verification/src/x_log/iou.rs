//! Settings and alignment arithmetic of the io_uring log writer.
use vstd::prelude::*;

verus! {

pub const SECTOR_SIZE: u64 = 512;

pub const QUEUE_SIZE: u64 = 64;

pub const BUF_COUNT: u64 = 64;

pub const BUF_SIZE: u64 = 1024 * 1024;

/// Settings of the io_uring log writer.
pub struct IOUSetting {
    pub sector_size: u64,
    pub buffer_size: u64,
    pub buffer_count: u64,
    pub queue_size: u64,
}

impl Default for IOUSetting {
    fn default() -> (r: Self)
        ensures
            r.sector_size == SECTOR_SIZE,
            r.buffer_size == BUF_SIZE,
            r.buffer_count == BUF_COUNT,
            r.queue_size == QUEUE_SIZE,
    {
        Self { sector_size: SECTOR_SIZE, buffer_size: BUF_SIZE, buffer_count: BUF_COUNT, queue_size: QUEUE_SIZE }
    }
}

/// `x` rounded with the mask `size - 1`: kept when none of the mask bits is
/// set, otherwise cleared of them and raised by `size`.
pub open spec fn spec_round_up_align(x: u64, size: u64) -> int {
    let mask = (size - 1) as u64;
    if x & mask == 0 {
        (x & !mask) as int
    } else {
        (x & !mask) + size
    }
}

/// Rounds `x` up to a multiple of `size`, for a power of two `size`: the
/// result has none of the bits of `size - 1` set, is at least `x`, and is
/// less than `x + size`.
pub fn round_up_align(x: u64, size: u64) -> (r: u64)
    requires
        size >= 1,
        spec_round_up_align(x, size) <= u64::MAX,
    ensures
        r == spec_round_up_align(x, size),
        forall|k: u64| k < 64 && size == 1u64 << k ==> r & ((size - 1) as u64) == 0 && x <= r && r < x + size,
{
    let mask = size - 1;
    let r = if x & mask == 0 {
        x & !mask
    } else {
        (x & !mask) + size
    };
    assert forall|k: u64| k < 64 && size == 1u64 << k implies r & mask == 0 && x <= r && r < x + size by {
        assert(r & mask == 0 && x <= r && r < x + size) by (bit_vector)
            requires
                k < 64,
                size == 1u64 << k,
                mask == (size - 1) as u64,
                x & mask == 0 ==> r == x & !mask,
                x & mask != 0 ==> r == ((x & !mask) + size) as u64 && (x & !mask) + size <= 0xffff_ffff_ffff_ffffu64,
        ;
    }
    r
}

/// The reason a log write cannot be packed: it does not fit in a buffer.
#[derive(Debug, Clone, Copy, PartialEq, Eq, Structural)]
pub enum IoPlanError {
    BufferOverflow,
}

/// A write of `data_size` bytes from buffer `buf_index` at `file_offset` of file `file_index`.
#[derive(Debug, Clone, Copy, PartialEq, Eq, Structural)]
pub struct IoWrite {
    pub file_index: u32,
    pub buf_index: u32,
    pub data_size: u32,
    pub file_offset: u64,
}

/// Where the next write to a log file goes.
#[derive(Debug, Clone, Copy, PartialEq, Eq, Structural)]
pub struct FileOffset {
    pub file_fd: u32,
    pub file_index: u32,
    pub offset: u64,
}

/// The registered log buffers: the size of each, which of them hold writes
/// in flight, how many are free, where the search for a free one starts,
/// and the sector size that a write is padded to.
pub struct IoVecBuf {
    pub available_buf: usize,
    pub next_buf_index: usize,
    pub align_byte: u64,
    pub capacity: Vec<usize>,
    pub busy: Vec<bool>,
}

/// The sum of `lens[a..b]`.
pub open spec fn lens_sum(lens: Seq<usize>, a: int, b: int) -> int
    decreases b - a,
{
    if b <= a {
        0
    } else {
        lens_sum(lens, a, b - 1) + lens[b - 1]
    }
}

/// The first write from `i` on that does not fit in the `room` bytes left
/// after the writes before it, or `lens.len()` when all fit.
pub open spec fn pack_end(lens: Seq<usize>, i: int, room: int) -> int
    decreases lens.len() - i,
{
    if i >= lens.len() {
        lens.len() as int
    } else if lens[i] > room {
        i
    } else {
        pack_end(lens, i + 1, room - lens[i])
    }
}

/// Whether the writes that `write_to_iovec_one` would pack into buffer
/// `cap` bytes large, from `start` on, overflow it: the write at which
/// packing stops is larger than the whole buffer, or the packed bytes padded
/// to the sector size are.
pub open spec fn pack_overflows(lens: Seq<usize>, start: int, cap: int, align: u64) -> bool {
    let end = pack_end(lens, start, cap);
    let used = if start < lens.len() { lens_sum(lens, start, end) } else { 0 };
    (end < lens.len() && lens[end] > cap) || spec_round_up_align(used as u64, align) > cap
}

/// Packs the writes of sizes `lens` from `to_write_index` on, one after
/// another, into `cap` bytes: returns the first write that does not fit
/// (`lens.len()` when all do) and the bytes packed. A write larger than the
/// whole buffer is refused.
pub fn pack_writes(lens: &Vec<usize>, to_write_index: usize, cap: usize) -> (r: Result<(usize, usize), IoPlanError>)
    ensures
        ({
            let end = pack_end(lens@, to_write_index as int, cap as int);
            let used = if to_write_index < lens@.len() { lens_sum(lens@, to_write_index as int, end) } else { 0 };
            &&& r is Err <==> (end < lens@.len() && lens@[end] > cap)
            &&& r is Err ==> r == Err::<(usize, usize), IoPlanError>(IoPlanError::BufferOverflow)
            &&& r matches Ok((w, b)) ==> w == end && b == used && b <= cap
        }),
{
    let n = lens.len();
    let ghost start = to_write_index as int;
    let mut buf_offset: usize = 0;
    let mut write_index = n;
    let mut i = to_write_index;
    while i < n
        invariant_except_break
            n == lens@.len(),
            start == to_write_index,
            start <= i,
            i <= n || i == start,
            buf_offset == lens_sum(lens@, start, i as int),
            buf_offset <= cap,
            pack_end(lens@, start, cap as int) == pack_end(lens@, i as int, cap - buf_offset),
            write_index == n,
        ensures
            write_index == pack_end(lens@, start, cap as int),
            start < n ==> buf_offset == lens_sum(lens@, start, write_index as int),
            start >= n ==> buf_offset == 0,
            buf_offset <= cap,
            write_index < n ==> lens@[write_index as int] <= cap,
        decreases n - i,
    {
        let len = lens[i];
        if len > cap {
            assert(pack_end(lens@, i as int, cap - buf_offset) == i);
            return Err(IoPlanError::BufferOverflow);
        }
        if len > cap - buf_offset {
            write_index = i;
            break;
        }
        buf_offset += len;
        i += 1;
    }
    Ok((write_index, buf_offset))
}

/// The bytes of the records `a..b`, one after another.
pub open spec fn packed_bytes(records: Seq<Vec<u8>>, a: int, b: int) -> Seq<u8>
    decreases b - a,
{
    if b <= a {
        Seq::empty()
    } else {
        packed_bytes(records, a, b - 1) + records[b - 1]@
    }
}

/// The records `a..b` take as many bytes as the sizes `lens` add up to, where
/// each size is that of its record.
pub proof fn lemma_packed_len(records: Seq<Vec<u8>>, lens: Seq<usize>, a: int, b: int)
    requires
        0 <= a,
        b <= records.len(),
        lens.len() == records.len(),
        forall|i: int| 0 <= i < records.len() ==> lens[i] == #[trigger] records[i]@.len(),
    ensures
        packed_bytes(records, a, b).len() == lens_sum(lens, a, b),
    decreases b - a,
{
    if b > a {
        lemma_packed_len(records, lens, a, b - 1);
    }
}

/// The size of each record.
pub fn record_lens(records: &Vec<Vec<u8>>) -> (r: Vec<usize>)
    ensures
        r@.len() == records@.len(),
        forall|i: int| 0 <= i < records@.len() ==> r@[i] == #[trigger] records@[i]@.len(),
{
    let mut r: Vec<usize> = Vec::new();
    let mut i: usize = 0;
    while i < records.len()
        invariant
            i <= records@.len(),
            r@.len() == i,
            forall|j: int| 0 <= j < i ==> r@[j] == #[trigger] records@[j]@.len(),
        decreases records@.len() - i,
    {
        r.push(records[i].len());
        i += 1;
    }
    r
}

/// The bytes that a log buffer is written from: the records `start..end`
/// packed one after another, then zeros up to `aligned_len`, the length of
/// the write padded to the sector size.
pub fn fill_buffer(records: &Vec<Vec<u8>>, start: usize, end: usize, aligned_len: usize) -> (r: Vec<u8>)
    requires
        start <= end <= records@.len(),
        packed_bytes(records@, start as int, end as int).len() <= aligned_len,
    ensures
        r@ == packed_bytes(records@, start as int, end as int) + Seq::new(
            (aligned_len - packed_bytes(records@, start as int, end as int).len()) as nat,
            |i: int| 0u8,
        ),
{
    let ghost packed = packed_bytes(records@, start as int, end as int);
    let mut r: Vec<u8> = Vec::new();
    let mut i: usize = start;
    while i < end
        invariant
            start <= i <= end,
            end <= records@.len(),
            r@ == packed_bytes(records@, start as int, i as int),
        decreases end - i,
    {
        let record = &records[i];
        let mut k: usize = 0;
        while k < record.len()
            invariant
                k <= record@.len(),
                r@ == packed_bytes(records@, start as int, i as int) + record@.subrange(0, k as int),
            decreases record@.len() - k,
        {
            r.push(record[k]);
            k += 1;
            assert(r@ =~= packed_bytes(records@, start as int, i as int) + record@.subrange(0, k as int));
        }
        assert(record@.subrange(0, k as int) =~= record@);
        i += 1;
    }
    let ghost plen = packed.len();
    assert(r@ =~= packed + Seq::new(0, |j: int| 0u8));
    while r.len() < aligned_len
        invariant
            plen == packed.len(),
            plen <= aligned_len,
            plen <= r@.len() <= aligned_len,
            r@ == packed + Seq::new((r@.len() - plen) as nat, |j: int| 0u8),
        decreases aligned_len - r@.len(),
    {
        r.push(0u8);
        assert(r@ =~= packed + Seq::new((r@.len() - plen) as nat, |j: int| 0u8));
    }
    assert(r@ =~= packed + Seq::new((aligned_len - plen) as nat, |i: int| 0u8));
    r
}

/// Packs the log writes of sizes `lens` from `to_write_index` on into the
/// free buffer `iovec_index`, as many as fit one after another. The buffer is
/// then in flight with one write of the packed bytes at the file's current
/// offset, the file offset moves past them, the search for a free buffer
/// moves to the next buffer, and one buffer fewer is free. Returns the first
/// write that did not fit (`lens.len()` when all did). A write larger than
/// the buffer, or packed bytes that exceed it once padded to the sector
/// size, are refused with nothing changed.
pub fn write_to_iovec_one(
    lens: &Vec<usize>,
    file_offset: &mut FileOffset,
    iovec_buf: &mut IoVecBuf,
    io_write: &mut Vec<IoWrite>,
    iovec_index: usize,
    to_write_index: usize,
) -> (r: Result<usize, IoPlanError>)
    requires
        old(iovec_buf).capacity@.len() == old(iovec_buf).busy@.len(),
        iovec_index < old(iovec_buf).capacity@.len(),
        old(iovec_buf).available_buf >= 1,
        old(iovec_buf).align_byte >= 1,
        ({
            let cap = old(iovec_buf).capacity@[iovec_index as int] as int;
            let end = pack_end(lens@, to_write_index as int, cap);
            let used = if to_write_index < lens@.len() { lens_sum(lens@, to_write_index as int, end) } else { 0 };
            &&& spec_round_up_align(used as u64, old(iovec_buf).align_byte) <= u64::MAX
            &&& old(file_offset).offset + used <= u64::MAX
        }),
    ensures
        ({
            let cap = old(iovec_buf).capacity@[iovec_index as int] as int;
            let end = pack_end(lens@, to_write_index as int, cap);
            let used = if to_write_index < lens@.len() { lens_sum(lens@, to_write_index as int, end) } else { 0 };
            &&& r is Err <==> pack_overflows(lens@, to_write_index as int, cap, old(iovec_buf).align_byte)
            &&& r is Err ==> r == Err::<usize, IoPlanError>(IoPlanError::BufferOverflow) && *final(file_offset)
                == *old(file_offset) && final(iovec_buf).available_buf == old(iovec_buf).available_buf
                && final(iovec_buf).next_buf_index == old(iovec_buf).next_buf_index && final(iovec_buf).busy@
                == old(iovec_buf).busy@ && final(io_write)@ == old(io_write)@
            &&& r is Ok ==> r == Ok::<usize, IoPlanError>(end as usize) && final(io_write)@ == old(io_write)@.push(
                IoWrite {
                    file_index: old(file_offset).file_index,
                    buf_index: iovec_index as u32,
                    data_size: used as u32,
                    file_offset: old(file_offset).offset,
                },
            ) && final(file_offset).offset == old(file_offset).offset + used && final(file_offset).file_index
                == old(file_offset).file_index && final(file_offset).file_fd == old(file_offset).file_fd
                && final(iovec_buf).busy@ == old(iovec_buf).busy@.update(iovec_index as int, true)
                && final(iovec_buf).next_buf_index == (iovec_index + 1) % (old(iovec_buf).capacity@.len() as int)
                && final(iovec_buf).available_buf == old(iovec_buf).available_buf - 1
            &&& final(iovec_buf).capacity@ == old(iovec_buf).capacity@
            &&& final(iovec_buf).align_byte == old(iovec_buf).align_byte
        }),
{
    let cap = iovec_buf.capacity[iovec_index];
    let (write_index, buf_offset) = match pack_writes(lens, to_write_index, cap) {
        Ok(packed) => packed,
        Err(e) => return Err(e),
    };
    let to_write_len = round_up_align(buf_offset as u64, iovec_buf.align_byte);
    if to_write_len > cap as u64 {
        return Err(IoPlanError::BufferOverflow);
    }
    iovec_buf.busy.set(iovec_index, true);
    let write = IoWrite {
        file_index: file_offset.file_index,
        buf_index: iovec_index as u32,
        data_size: buf_offset as u32,
        file_offset: file_offset.offset,
    };
    let buf_num = iovec_buf.busy.len();
    iovec_buf.next_buf_index = (iovec_index + 1) % buf_num;
    iovec_buf.available_buf -= 1;
    file_offset.offset += buf_offset as u64;
    io_write.push(write);
    Ok(write_index)
}

/// The first buffer without a write in flight among those `k`, `k + 1`, ...
/// steps after `next`, going round to the buffers before it.
pub open spec fn first_free_from(busy: Seq<bool>, next: int, k: int) -> Option<int>
    decreases busy.len() - k,
{
    if k >= busy.len() {
        None
    } else if !busy[(next + k) % (busy.len() as int)] {
        Some((next + k) % (busy.len() as int))
    } else {
        first_free_from(busy, next, k + 1)
    }
}

/// Takes back the buffer `buf_index` once its write has completed: it no
/// longer has a write in flight and one buffer more is free.
pub fn complete_buffer(iovec_buf: &mut IoVecBuf, buf_index: usize)
    requires
        buf_index < old(iovec_buf).busy@.len(),
        old(iovec_buf).busy@[buf_index as int],
        old(iovec_buf).available_buf < usize::MAX,
    ensures
        final(iovec_buf).busy@ == old(iovec_buf).busy@.update(buf_index as int, false),
        final(iovec_buf).available_buf == old(iovec_buf).available_buf + 1,
        final(iovec_buf).next_buf_index == old(iovec_buf).next_buf_index,
        final(iovec_buf).capacity@ == old(iovec_buf).capacity@,
        final(iovec_buf).align_byte == old(iovec_buf).align_byte,
{
    iovec_buf.available_buf += 1;
    iovec_buf.busy.set(buf_index, false);
}

/// Completing the write of a buffer that was free when it was filled gives
/// back the buffers in flight that there were before.
pub proof fn lemma_fill_then_complete(busy: Seq<bool>, b: int)
    requires
        0 <= b < busy.len(),
        !busy[b],
    ensures
        busy.update(b, true).update(b, false) == busy,
{
    assert(busy.update(b, true).update(b, false) =~= busy);
}

/// Looks for a buffer without a write in flight, from `next_buf_index` on
/// and round to the buffers before it; `None` when every buffer is in flight.
pub fn find_free_buffer(iovec_buf: &IoVecBuf) -> (r: Option<usize>)
    requires
        iovec_buf.next_buf_index < iovec_buf.busy@.len(),
    ensures
        r matches Some(i) ==> first_free_from(iovec_buf.busy@, iovec_buf.next_buf_index as int, 0) == Some(i as int),
        r is None ==> first_free_from(iovec_buf.busy@, iovec_buf.next_buf_index as int, 0) is None,
        ({
            let n = iovec_buf.busy@.len() as int;
            let next = iovec_buf.next_buf_index as int;
            &&& r is None ==> forall|i: int| 0 <= i < n ==> #[trigger] iovec_buf.busy@[i]
            &&& r matches Some(i) ==> i < n && !iovec_buf.busy@[i as int] && forall|k: int|
                0 <= k < (i - next + n) % n ==> #[trigger] iovec_buf.busy@[(next + k) % n]
        }),
{
    let n = iovec_buf.busy.len();
    let next = iovec_buf.next_buf_index;
    let mut index = next;
    let ghost mut k: int = 0;
    assert(index == (next + k) % (n as int)) by (nonlinear_arith)
        requires
            index == next,
            k == 0,
            next < n,
    ;
    loop
        invariant
            n == iovec_buf.busy@.len(),
            next == iovec_buf.next_buf_index,
            next < n,
            0 <= k < n,
            index == (next + k) % (n as int),
            forall|j: int| 0 <= j < k ==> #[trigger] iovec_buf.busy@[(next + j) % (n as int)],
            first_free_from(iovec_buf.busy@, next as int, 0) == first_free_from(iovec_buf.busy@, next as int, k),
        decreases n - k,
    {
        if !iovec_buf.busy[index] {
            assert((index - next + n) % (n as int) == k) by (nonlinear_arith)
                requires
                    index == (next + k) % (n as int),
                    0 <= k < n,
                    0 <= next < n,
            ;
            return Some(index);
        }
        index = (index + 1) % n;
        proof {
            assert(index == (next + (k + 1)) % (n as int)) by (nonlinear_arith)
                requires
                    index == ((next + k) % (n as int) + 1) % (n as int),
                    n > 0,
            ;
            k = k + 1;
        }
        if index == next {
            proof {
                assert(k == n) by (nonlinear_arith)
                    requires
                        (next + k) % (n as int) == next,
                        0 < k <= n,
                        0 <= next < n,
                ;
                assert forall|i: int| 0 <= i < n implies #[trigger] iovec_buf.busy@[i] by {
                    let j = (i - next + n) % (n as int);
                    assert(0 <= j < n && (next + j) % (n as int) == i) by (nonlinear_arith)
                        requires
                            j == (i - next + n) % (n as int),
                            0 <= i < n,
                            0 <= next < n,
                    ;
                    assert(iovec_buf.busy@[(next + j) % (n as int)]);
                }
            }
            return None;
        }
        assert(k < n) by (nonlinear_arith)
            requires
                (next + k) % (n as int) != next,
                0 < k <= n,
                0 <= next < n,
        ;
    }
}

/// Where the planning of a batch of log writes stands between two of its
/// steps: the next write to place, the first write that found no free
/// buffer, the file offset, the buffers in flight, where the search for a
/// free buffer starts, how many buffers are free, the writes planned so far,
/// and whether a step could not be done (a write too large for its buffer,
/// or an overflow).
pub struct IoPlan {
    pub i: int,
    pub split: Option<int>,
    pub offset: int,
    pub busy: Seq<bool>,
    pub next: int,
    pub available: int,
    pub writes: Seq<IoWrite>,
    pub failed: bool,
}

/// One step of the planning: the first free buffer from `next` on takes as
/// many writes from `i` on as fit in it, and planning goes on after the
/// first write that did not fit, that write being passed over; with no free
/// buffer, write `i` is marked as the first to keep and passed over.
pub open spec fn plan_step(lens: Seq<usize>, caps: Seq<usize>, align: u64, file_index: u32, st: IoPlan) -> IoPlan {
    let nb = st.busy.len() as int;
    let fail = IoPlan { failed: true, ..st };
    if st.next < 0 || st.next >= nb {
        fail
    } else {
        match first_free_from(st.busy, st.next, 0) {
            None => IoPlan { i: st.i + 1, split: Some(st.i), ..st },
            Some(b) => {
                let cap = caps[b] as int;
                let end = pack_end(lens, st.i, cap);
                let used = lens_sum(lens, st.i, end);
                if align < 1 || pack_overflows(lens, st.i, cap, align) || st.offset + used > u64::MAX
                    || st.available < 1 || end + 1 > usize::MAX {
                    fail
                } else {
                    IoPlan {
                        i: end + 1,
                        split: st.split,
                        offset: st.offset + used,
                        busy: st.busy.update(b, true),
                        next: (b + 1) % nb,
                        available: st.available - 1,
                        writes: st.writes.push(
                            IoWrite {
                                file_index,
                                buf_index: b as u32,
                                data_size: used as u32,
                                file_offset: st.offset as u64,
                            },
                        ),
                        failed: false,
                    }
                }
            },
        }
    }
}

/// The planning of the writes of sizes `lens` from state `st` on, step by
/// step until every write is passed or a step cannot be done.
pub open spec fn plan_run(lens: Seq<usize>, caps: Seq<usize>, align: u64, file_index: u32, st: IoPlan) -> IoPlan
    decreases lens.len() + 1 - st.i,
    via plan_run_decreases
{
    if st.i >= lens.len() {
        st
    } else {
        let nx = plan_step(lens, caps, align, file_index, st);
        if nx.failed {
            nx
        } else {
            plan_run(lens, caps, align, file_index, nx)
        }
    }
}

#[via_fn]
proof fn plan_run_decreases(lens: Seq<usize>, caps: Seq<usize>, align: u64, file_index: u32, st: IoPlan) {
    if st.i < lens.len() && 0 <= st.next < st.busy.len() {
        if let Some(b) = first_free_from(st.busy, st.next, 0) {
            lemma_pack_end_bounds(lens, st.i, caps[b] as int);
        }
    }
}

proof fn lemma_pack_end_bounds(lens: Seq<usize>, i: int, room: int)
    requires
        i <= lens.len(),
    ensures
        i <= pack_end(lens, i, room) <= lens.len(),
    decreases lens.len() - i,
{
    if i < lens.len() && lens[i] <= room {
        lemma_pack_end_bounds(lens, i + 1, room - lens[i]);
    }
}

/// The planning of the writes of sizes `lens` into the buffers of
/// `iovec_buf`, at the offset of `file_offset`, from its start.
pub open spec fn plan_of(lens: Seq<usize>, iovec_buf: IoVecBuf, file_offset: FileOffset) -> IoPlan {
    plan_run(
        lens,
        iovec_buf.capacity@,
        iovec_buf.align_byte,
        file_offset.file_index,
        IoPlan {
            i: 0,
            split: None,
            offset: file_offset.offset as int,
            busy: iovec_buf.busy@,
            next: iovec_buf.next_buf_index as int,
            available: iovec_buf.available_buf as int,
            writes: Seq::empty(),
            failed: false,
        },
    )
}

/// The search for a free buffer, from `k` steps after `next` on, finds the
/// first buffer going round that has no write in flight, and finds none only
/// when every buffer from there round to `next` is in flight.
proof fn lemma_first_free_from(busy: Seq<bool>, next: int, k: int)
    requires
        0 <= next < busy.len(),
        0 <= k <= busy.len(),
    ensures
        first_free_from(busy, next, k) matches Some(b) ==> {
            let n = busy.len() as int;
            &&& 0 <= b < n
            &&& !busy[b]
            &&& k <= (b - next + n) % n
            &&& forall|i: int| k <= i < (b - next + n) % n ==> #[trigger] busy[(next + i) % n]
        },
        first_free_from(busy, next, k) is None ==> forall|i: int|
            k <= i < busy.len() ==> #[trigger] busy[(next + i) % (busy.len() as int)],
    decreases busy.len() - k,
{
    let n = busy.len() as int;
    if k < n {
        lemma_first_free_from(busy, next, k + 1);
        let b = (next + k) % n;
        assert(0 <= b < n && (b - next + n) % n == k) by (nonlinear_arith)
            requires
                b == (next + k) % n,
                0 <= k < n,
                0 <= next < n,
        ;
    }
}

/// Planning only adds writes after those planned before, and once a write
/// has been placed, any write kept for later comes after the first.
proof fn lemma_plan_run_extends(lens: Seq<usize>, caps: Seq<usize>, align: u64, file_index: u32, st: IoPlan)
    ensures
        plan_run(lens, caps, align, file_index, st).writes.len() >= st.writes.len(),
        forall|k: int|
            0 <= k < st.writes.len() ==> #[trigger] plan_run(lens, caps, align, file_index, st).writes[k] == st.writes[k],
        st.i >= 1 && (st.split matches Some(k) ==> k >= 1) ==> (plan_run(lens, caps, align, file_index, st).split matches Some(
            k,
        ) ==> k >= 1),
    decreases lens.len() + 1 - st.i,
{
    if st.i < lens.len() {
        let nx = plan_step(lens, caps, align, file_index, st);
        if !nx.failed {
            if 0 <= st.next < st.busy.len() {
                if let Some(b) = first_free_from(st.busy, st.next, 0) {
                    lemma_pack_end_bounds(lens, st.i, caps[b] as int);
                }
            }
            lemma_plan_run_extends(lens, caps, align, file_index, nx);
        }
    }
}

/// Where some buffer is free and there is a write to place, planning places
/// one: the first planned write goes into the first free buffer met going
/// round from `next_buf_index`, at the file's current offset, and any write
/// kept for later comes after the first one.
pub proof fn lemma_write_to_iovec_uses_first_free_buffer(lens: Seq<usize>, iovec_buf: IoVecBuf, file_offset: FileOffset)
    requires
        lens.len() > 0,
        iovec_buf.available_buf > 0,
        iovec_buf.capacity@.len() == iovec_buf.busy@.len(),
        exists|b: int| 0 <= b < iovec_buf.busy@.len() && !iovec_buf.busy@[b],
        !plan_of(lens, iovec_buf, file_offset).failed,
    ensures
        ({
            let p = plan_of(lens, iovec_buf, file_offset);
            let busy = iovec_buf.busy@;
            let n = busy.len() as int;
            let next = iovec_buf.next_buf_index as int;
            &&& p.writes.len() > 0
            &&& exists|b: int|
                0 <= b < n && !busy[b] && p.writes[0].buf_index == b as u32 && p.writes[0].file_offset
                    == file_offset.offset && forall|j: int| 0 <= j < (b - next + n) % n ==> #[trigger] busy[(next + j) % n]
            &&& p.split matches Some(k) ==> k > 0
        }),
{
    let busy = iovec_buf.busy@;
    let n = busy.len() as int;
    let next = iovec_buf.next_buf_index as int;
    let caps = iovec_buf.capacity@;
    let align = iovec_buf.align_byte;
    let fi = file_offset.file_index;
    let st0 = IoPlan {
        i: 0,
        split: None,
        offset: file_offset.offset as int,
        busy: busy,
        next: next,
        available: iovec_buf.available_buf as int,
        writes: Seq::empty(),
        failed: false,
    };
    let nx = plan_step(lens, caps, align, fi, st0);
    assert(plan_of(lens, iovec_buf, file_offset) == plan_run(lens, caps, align, fi, st0));
    assert(!nx.failed);
    assert(next < n);
    lemma_first_free_from(busy, next, 0);
    let free = choose|b: int| 0 <= b < n && !busy[b];
    if first_free_from(busy, next, 0) is None {
        let j = (free - next + n) % n;
        assert(0 <= j < n && (next + j) % n == free) by (nonlinear_arith)
            requires
                j == (free - next + n) % n,
                0 <= free < n,
                0 <= next < n,
        ;
        assert(busy[(next + j) % n]);
    }
    let b = first_free_from(busy, next, 0)->Some_0;
    lemma_pack_end_bounds(lens, 0, caps[b] as int);
    assert(nx.writes.len() == 1);
    assert(nx.i >= 1);
    lemma_plan_run_extends(lens, caps, align, fi, nx);
}

/// The bytes that the writes `ws[a..b]` carry.
pub open spec fn writes_bytes(ws: Seq<IoWrite>, a: int, b: int) -> int
    decreases b - a,
{
    if b <= a {
        0
    } else {
        writes_bytes(ws, a, b - 1) + ws[b - 1].data_size
    }
}

/// What a plan does, counted over the writes that it adds: each takes one
/// free buffer, which is then in flight while the buffers in flight before
/// stay so; each goes to the planned file, at the offset where the one before
/// it ended, and the file offset moves past all of them (for buffers whose
/// sizes fit the write's size field).
pub proof fn lemma_plan_accounting(lens: Seq<usize>, caps: Seq<usize>, align: u64, file_index: u32, st: IoPlan)
    requires
        st.i >= 0,
        0 <= st.offset <= u64::MAX,
        caps.len() == st.busy.len(),
        !plan_run(lens, caps, align, file_index, st).failed,
    ensures
        ({
            let p = plan_run(lens, caps, align, file_index, st);
            let w0 = st.writes.len() as int;
            &&& p.writes.len() >= w0
            &&& p.available == st.available - (p.writes.len() - w0)
            &&& p.busy.len() == st.busy.len()
            &&& forall|b: int| 0 <= b < st.busy.len() && st.busy[b] ==> #[trigger] p.busy[b]
            &&& forall|k: int| w0 <= k < p.writes.len() ==> #[trigger] p.writes[k].file_index == file_index
            &&& (forall|b: int| 0 <= b < caps.len() ==> #[trigger] caps[b] <= u32::MAX) ==> {
                &&& p.offset == st.offset + writes_bytes(p.writes, w0, p.writes.len() as int)
                &&& forall|k: int|
                    w0 <= k < p.writes.len() ==> #[trigger] p.writes[k].file_offset == st.offset + writes_bytes(
                        p.writes,
                        w0,
                        k,
                    )
            }
        }),
    decreases lens.len() + 1 - st.i,
{
    let p = plan_run(lens, caps, align, file_index, st);
    let w0 = st.writes.len() as int;
    if st.i < lens.len() {
        let nx = plan_step(lens, caps, align, file_index, st);
        lemma_plan_run_extends(lens, caps, align, file_index, nx);
        match first_free_from(st.busy, st.next, 0) {
            Some(b) => {
                lemma_pack_end_bounds(lens, st.i, caps[b] as int);
                lemma_first_free_from(st.busy, st.next, 0);
                lemma_used_fits(lens, st.i, caps[b] as int);
                lemma_plan_accounting(lens, caps, align, file_index, nx);
                if forall|c: int| 0 <= c < caps.len() ==> #[trigger] caps[c] <= u32::MAX {
                    let end = pack_end(lens, st.i, caps[b] as int);
                    let used = lens_sum(lens, st.i, end);
                    assert(!pack_overflows(lens, st.i, caps[b] as int, align));
                    lemma_used_fits(lens, st.i, caps[b] as int);
                    assert(nx.writes[w0].data_size == used);
                    assert forall|k: int| w0 < k <= p.writes.len() implies writes_bytes(p.writes, w0, k) == used
                        + writes_bytes(p.writes, w0 + 1, k) by {
                        lemma_writes_bytes_split(p.writes, w0, k);
                    }
                    assert(p.writes[w0] == nx.writes[w0]);
                }
            },
            None => {
                lemma_plan_accounting(lens, caps, align, file_index, nx);
            },
        }
    }
}

proof fn lemma_writes_bytes_split(ws: Seq<IoWrite>, a: int, b: int)
    requires
        a < b,
    ensures
        writes_bytes(ws, a, b) == ws[a].data_size + writes_bytes(ws, a + 1, b),
    decreases b - a,
{
    if b - 1 > a {
        lemma_writes_bytes_split(ws, a, b - 1);
    } else {
        assert(writes_bytes(ws, a, a) == 0);
        assert(writes_bytes(ws, a + 1, a + 1) == 0);
    }
}

/// The bytes packed into a buffer fit in it.
proof fn lemma_used_fits(lens: Seq<usize>, i: int, room: int)
    requires
        0 <= i < lens.len(),
        room >= 0,
    ensures
        0 <= lens_sum(lens, i, pack_end(lens, i, room)) <= room,
    decreases lens.len() - i,
{
    if lens[i] <= room {
        if i + 1 < lens.len() {
            lemma_used_fits(lens, i + 1, room - lens[i]);
        }
        lemma_pack_end_bounds(lens, i + 1, room - lens[i]);
        let e = pack_end(lens, i + 1, room - lens[i]);
        lemma_lens_sum_front(lens, i, e);
        if i + 1 == lens.len() {
            assert(lens_sum(lens, i + 1, e) == 0);
        }
    } else {
        assert(lens_sum(lens, i, i) == 0);
    }
}

proof fn lemma_lens_sum_front(lens: Seq<usize>, a: int, b: int)
    requires
        a < b,
    ensures
        lens_sum(lens, a, b) == lens[a] + lens_sum(lens, a + 1, b),
    decreases b - a,
{
    if b - 1 > a {
        lemma_lens_sum_front(lens, a, b - 1);
    } else {
        assert(lens_sum(lens, a, a) == 0);
        assert(lens_sum(lens, a + 1, a + 1) == 0);
    }
}

/// Places the log writes of sizes `lens` into the free buffers, each buffer
/// taking as many writes as fit one after another (see `write_to_iovec_one`),
/// and returns the index of the first write to keep for later: the log
/// writes from there on are still to be written, those before it are done.
/// After a buffer is filled, the write that did not fit in it is passed
/// over; once no buffer is free, each write left is passed over and the last
/// one is kept. With no write, or no free buffer, nothing changes and every
/// write is kept. A plan in which a write cannot be placed (too large for
/// its buffer, or an overflow) is not accepted.
pub fn write_to_iovec(
    lens: &Vec<usize>,
    file_offset: &mut FileOffset,
    iovec_buf: &mut IoVecBuf,
    io_write: &mut Vec<IoWrite>,
) -> (r: usize)
    requires
        old(iovec_buf).capacity@.len() == old(iovec_buf).busy@.len(),
        lens@.len() > 0 && old(iovec_buf).available_buf > 0 ==> !plan_of(lens@, *old(iovec_buf), *old(file_offset)).failed,
    ensures
        final(iovec_buf).capacity@ == old(iovec_buf).capacity@,
        final(iovec_buf).align_byte == old(iovec_buf).align_byte,
        final(file_offset).file_index == old(file_offset).file_index,
        final(file_offset).file_fd == old(file_offset).file_fd,
        lens@.len() == 0 || old(iovec_buf).available_buf == 0 ==> {
            &&& r == 0
            &&& *final(file_offset) == *old(file_offset)
            &&& final(iovec_buf).busy@ == old(iovec_buf).busy@
            &&& final(iovec_buf).next_buf_index == old(iovec_buf).next_buf_index
            &&& final(iovec_buf).available_buf == old(iovec_buf).available_buf
            &&& final(io_write)@ == old(io_write)@
        },
        lens@.len() > 0 && old(iovec_buf).available_buf > 0 ==> {
            let p = plan_of(lens@, *old(iovec_buf), *old(file_offset));
            &&& r == match p.split {
                Some(k) => k,
                None => lens@.len() as int,
            }
            &&& final(file_offset).offset == p.offset
            &&& final(iovec_buf).busy@ == p.busy
            &&& final(iovec_buf).next_buf_index == p.next
            &&& final(iovec_buf).available_buf == p.available
            &&& final(io_write)@ == old(io_write)@ + p.writes
        },
        lens@.len() > 0 && old(iovec_buf).available_buf > 0 && (exists|b: int|
            0 <= b < old(iovec_buf).busy@.len() && !old(iovec_buf).busy@[b]) ==> {
            let busy = old(iovec_buf).busy@;
            let n = busy.len() as int;
            let next = old(iovec_buf).next_buf_index as int;
            let first = final(io_write)@[old(io_write)@.len() as int];
            &&& r > 0
            &&& final(io_write)@.len() > old(io_write)@.len()
            &&& exists|b: int|
                0 <= b < n && !busy[b] && first.buf_index == b as u32 && first.file_offset == old(file_offset).offset
                    && forall|j: int| 0 <= j < (b - next + n) % n ==> #[trigger] busy[(next + j) % n]
        },
{
    let n = lens.len();
    if n == 0 {
        return 0;
    }
    if iovec_buf.available_buf == 0 {
        return 0;
    }
    let ghost caps = iovec_buf.capacity@;
    let ghost align = iovec_buf.align_byte;
    let ghost file_index = file_offset.file_index;
    let ghost target = plan_of(lens@, *iovec_buf, *file_offset);
    let ghost mut written: Seq<IoWrite> = Seq::empty();
    let mut opt_split: Option<usize> = None;
    let mut to_write_index: usize = 0;
    while to_write_index < n
        invariant
            n == lens@.len(),
            to_write_index <= n + 1,
            iovec_buf.capacity@ == caps,
            iovec_buf.align_byte == align,
            caps.len() == iovec_buf.busy@.len(),
            file_offset.file_index == file_index,
            file_offset.file_fd == old(file_offset).file_fd,
            io_write@ == old(io_write)@ + written,
            !target.failed,
            target == plan_run(
                lens@,
                caps,
                align,
                file_index,
                IoPlan {
                    i: to_write_index as int,
                    split: match opt_split {
                        Some(k) => Some(k as int),
                        None => None,
                    },
                    offset: file_offset.offset as int,
                    busy: iovec_buf.busy@,
                    next: iovec_buf.next_buf_index as int,
                    available: iovec_buf.available_buf as int,
                    writes: written,
                    failed: false,
                },
            ),
        decreases n + 1 - to_write_index,
    {
        let ghost st = IoPlan {
            i: to_write_index as int,
            split: match opt_split {
                Some(k) => Some(k as int),
                None => None,
            },
            offset: file_offset.offset as int,
            busy: iovec_buf.busy@,
            next: iovec_buf.next_buf_index as int,
            available: iovec_buf.available_buf as int,
            writes: written,
            failed: false,
        };
        let ghost nx = plan_step(lens@, caps, align, file_index, st);
        assert(!nx.failed);
        match find_free_buffer(iovec_buf) {
            Some(buf_index) => {
                let ghost end = pack_end(lens@, to_write_index as int, caps[buf_index as int] as int);
                proof {
                    lemma_pack_end_bounds(lens@, to_write_index as int, caps[buf_index as int] as int);
                }
                match write_to_iovec_one(lens, file_offset, iovec_buf, io_write, buf_index, to_write_index) {
                    Ok(w) => {
                        to_write_index = w;
                    },
                    Err(_) => {
                        assert(false);
                        return 0;
                    },
                }
                proof {
                    written = nx.writes;
                }
            },
            None => {
                opt_split = Some(to_write_index);
            },
        }
        to_write_index += 1;
    }
    proof {
        if exists|b: int| 0 <= b < old(iovec_buf).busy@.len() && !old(iovec_buf).busy@[b] {
            lemma_write_to_iovec_uses_first_free_buffer(lens@, *old(iovec_buf), *old(file_offset));
        }
    }
    match opt_split {
        Some(k) => k,
        None => n,
    }
}

/// What the log writer's event loop does at the top of a round.
#[derive(Debug, Clone, Copy, PartialEq, Eq, Structural)]
pub enum LoopWait {
    /// Wait for up to this many log records, one per free buffer; none
    /// received means the senders are gone and the loop stops.
    Receive(usize),
    /// Sleep a moment: writes are pending, or no buffer is free.
    Sleep,
}

/// The wait at the top of a round of the log writer's event loop: new
/// records are received only when nothing is pending and a buffer is free.
pub fn loop_wait(has_poll_events: bool, available_buf: usize) -> (r: LoopWait)
    ensures
        r == if !has_poll_events && available_buf > 0 {
            LoopWait::Receive(available_buf)
        } else {
            LoopWait::Sleep
        },
{
    if !has_poll_events && available_buf > 0 {
        LoopWait::Receive(available_buf)
    } else {
        LoopWait::Sleep
    }
}

/// Whether the log writer still has work in hand at the end of a round:
/// writes submitted and not completed, records not yet placed in a buffer,
/// or planned writes not yet submitted.
pub fn has_poll_events(n_submitted: usize, pending_records: usize, pending_writes: usize) -> (r: bool)
    ensures
        r == (n_submitted > 0 || pending_records > 0 || pending_writes > 0),
{
    n_submitted > 0 || pending_records > 0 || pending_writes > 0
}

} // verus!
