//! Extents: a header page followed by data pages whose allocation state is
//! kept in a bitmap of two-bit states.
use crate::common::endian::{be_to_u64, read_u64, u64_to_be, write_u64, lemma_be_decode_encode};
use crate::common::error::EC;
use crate::storage::constant::{LayoutExtentHeader, EXTEND_HEADER_SIZE};
use vstd::prelude::*;
use vstd::string::*;

verus! {

/// Four-state enumeration, each state represented by two bits.
#[derive(Debug, Clone, Copy, PartialEq, Eq, Structural)]
pub enum QuadState {
    State0,
    State1,
    State2,
    State3,
}

impl QuadState {
    /// The two-bit code of the state.
    pub open spec fn spec_bits(self) -> u8 {
        match self {
            QuadState::State0 => 0,
            QuadState::State1 => 1,
            QuadState::State2 => 2,
            QuadState::State3 => 3,
        }
    }

    /// The state whose code is `v` (only the codes 0 to 3 occur).
    pub open spec fn from_bits(v: u8) -> QuadState {
        if v == 0 {
            QuadState::State0
        } else if v == 1 {
            QuadState::State1
        } else if v == 2 {
            QuadState::State2
        } else {
            QuadState::State3
        }
    }

    /// The name of the state.
    pub open spec fn spec_name(self) -> Seq<char> {
        match self {
            QuadState::State0 => "State0"@,
            QuadState::State1 => "State1"@,
            QuadState::State2 => "State2"@,
            QuadState::State3 => "State3"@,
        }
    }

    /// The name of the state.
    pub fn name(self) -> (r: &'static str)
        ensures
            r@ == self.spec_name(),
    {
        match self {
            QuadState::State0 => "State0",
            QuadState::State1 => "State1",
            QuadState::State2 => "State2",
            QuadState::State3 => "State3",
        }
    }

    pub(crate) fn bits(self) -> (b: u8)
        ensures
            b == self.spec_bits(),
            b <= 3,
    {
        match self {
            QuadState::State0 => 0,
            QuadState::State1 => 1,
            QuadState::State2 => 2,
            QuadState::State3 => 3,
        }
    }

    fn from_value(v: u8) -> (s: QuadState)
        requires
            v <= 3,
        ensures
            s == QuadState::from_bits(v),
            s.spec_bits() == v,
    {
        if v == 0 {
            QuadState::State0
        } else if v == 1 {
            QuadState::State1
        } else if v == 2 {
            QuadState::State2
        } else {
            QuadState::State3
        }
    }
}

/// The two-bit field number `k` (0 to 3, least significant first) of byte `b`.
pub open spec fn field(b: u8, k: int) -> u8 {
    if k == 0 {
        b & 3u8
    } else if k == 1 {
        (b >> 2u8) & 3u8
    } else if k == 2 {
        (b >> 4u8) & 3u8
    } else {
        (b >> 6u8) & 3u8
    }
}

/// The names of the states of `s`, separated by `", "`.
pub open spec fn states_text(s: Seq<QuadState>) -> Seq<char>
    decreases s.len(),
{
    if s.len() == 0 {
        Seq::empty()
    } else if s.len() == 1 {
        s[0].spec_name()
    } else {
        states_text(s.drop_last()) + ", "@ + s.last().spec_name()
    }
}

/// The first `len` states stored in `bytes`, four per byte.
pub open spec fn decode_states(bytes: Seq<u8>, len: nat) -> Seq<QuadState> {
    Seq::new(len, |i: int| QuadState::from_bits(field(bytes[i / 4], i % 4)))
}

/// `r` is the first position at or after `start` whose state satisfies `p`,
/// or `None` when no such position exists.
pub open spec fn is_first_from(
    s: Seq<QuadState>,
    start: int,
    p: spec_fn(QuadState) -> bool,
    r: Option<usize>,
) -> bool {
    match r {
        Some(i) => start <= i < s.len() && p(s[i as int]) && forall|j: int|
            start <= j < i ==> !p(#[trigger] s[j]),
        None => forall|j: int| start <= j < s.len() ==> !p(#[trigger] s[j]),
    }
}

/// The increasing positions below `n` whose state satisfies `p`.
pub open spec fn match_positions(s: Seq<QuadState>, n: int, p: spec_fn(QuadState) -> bool) -> Seq<int>
    decreases n,
{
    if n <= 0 {
        Seq::empty()
    } else {
        let prev = match_positions(s, n - 1, p);
        if p(s[n - 1]) {
            prev.push(n - 1)
        } else {
            prev
        }
    }
}

pub open spec fn is_state0(q: QuadState) -> bool {
    q == QuadState::State0
}

pub open spec fn is_state012(q: QuadState) -> bool {
    q != QuadState::State3
}

/// Accepts `State0`.
pub open spec fn state0_filter() -> spec_fn(QuadState) -> bool {
    |q: QuadState| is_state0(q)
}

/// Accepts `State0`, `State1` and `State2`.
pub open spec fn state012_filter() -> spec_fn(QuadState) -> bool {
    |q: QuadState| is_state012(q)
}

proof fn lemma_positions_skip(s: Seq<QuadState>, a: int, b: int, p: spec_fn(QuadState) -> bool)
    requires
        0 <= a <= b,
        forall|j: int| a <= j < b ==> !p(#[trigger] s[j]),
    ensures
        match_positions(s, b, p) == match_positions(s, a, p),
    decreases b - a,
{
    if b > a {
        lemma_positions_skip(s, a, b - 1, p);
    }
}

proof fn lemma_first_position(s: Seq<QuadState>, n: int, p: spec_fn(QuadState) -> bool)
    requires
        0 <= n <= s.len(),
    ensures
        match_positions(s, n, p).len() > 0 ==> {
            let i = match_positions(s, n, p)[0];
            0 <= i < n && p(s[i]) && forall|j: int| 0 <= j < i ==> !p(#[trigger] s[j])
        },
        match_positions(s, n, p).len() == 0 ==> forall|j: int| 0 <= j < n ==> !p(#[trigger] s[j]),
    decreases n,
{
    if n > 0 {
        lemma_first_position(s, n - 1, p);
        let prev = match_positions(s, n - 1, p);
        if prev.len() > 0 && p(s[n - 1]) {
            assert(prev.push(n - 1)[0] == prev[0]);
        }
    }
}

proof fn lemma_positions_bounded(s: Seq<QuadState>, n: int, p: spec_fn(QuadState) -> bool)
    requires
        0 <= n,
    ensures
        match_positions(s, n, p).len() <= n,
        forall|k: int| 0 <= k < match_positions(s, n, p).len() ==> 0 <= #[trigger] match_positions(s, n, p)[k] < n,
    decreases n,
{
    if n > 0 {
        lemma_positions_bounded(s, n - 1, p);
    }
}

proof fn lemma_field_read(b: u8)
    ensures
        (b & (3u8 << 0u8)) >> 0u8 == b & 3u8,
        (b & (3u8 << 2u8)) >> 2u8 == (b >> 2u8) & 3u8,
        (b & (3u8 << 4u8)) >> 4u8 == (b >> 4u8) & 3u8,
        (b & (3u8 << 6u8)) >> 6u8 == (b >> 6u8) & 3u8,
        b & 3u8 <= 3,
        (b >> 2u8) & 3u8 <= 3,
        (b >> 4u8) & 3u8 <= 3,
        (b >> 6u8) & 3u8 <= 3,
{
    assert(
        (b & (3u8 << 0u8)) >> 0u8 == b & 3u8
        && (b & (3u8 << 2u8)) >> 2u8 == (b >> 2u8) & 3u8
        && (b & (3u8 << 4u8)) >> 4u8 == (b >> 4u8) & 3u8
        && (b & (3u8 << 6u8)) >> 6u8 == (b >> 6u8) & 3u8
        && b & 3u8 <= 3
        && (b >> 2u8) & 3u8 <= 3
        && (b >> 4u8) & 3u8 <= 3
        && (b >> 6u8) & 3u8 <= 3
    ) by (bit_vector);
}

proof fn lemma_field_write(b: u8, s: u8)
    requires
        s <= 3,
    ensures
        ({
            let n = (b & !(3u8 << 0u8)) | (s << 0u8);
            n & 3u8 == s && (n >> 2u8) & 3u8 == (b >> 2u8) & 3u8 && (n >> 4u8) & 3u8 == (b >> 4u8) & 3u8
                && (n >> 6u8) & 3u8 == (b >> 6u8) & 3u8
        }),
        ({
            let n = (b & !(3u8 << 2u8)) | (s << 2u8);
            n & 3u8 == b & 3u8 && (n >> 2u8) & 3u8 == s && (n >> 4u8) & 3u8 == (b >> 4u8) & 3u8
                && (n >> 6u8) & 3u8 == (b >> 6u8) & 3u8
        }),
        ({
            let n = (b & !(3u8 << 4u8)) | (s << 4u8);
            n & 3u8 == b & 3u8 && (n >> 2u8) & 3u8 == (b >> 2u8) & 3u8 && (n >> 4u8) & 3u8 == s
                && (n >> 6u8) & 3u8 == (b >> 6u8) & 3u8
        }),
        ({
            let n = (b & !(3u8 << 6u8)) | (s << 6u8);
            n & 3u8 == b & 3u8 && (n >> 2u8) & 3u8 == (b >> 2u8) & 3u8 && (n >> 4u8) & 3u8 == (b >> 4u8) & 3u8
                && (n >> 6u8) & 3u8 == s
        }),
{
    assert({
        let n = (b & !(3u8 << 0u8)) | (s << 0u8);
        n & 3u8 == s && (n >> 2u8) & 3u8 == (b >> 2u8) & 3u8 && (n >> 4u8) & 3u8 == (b >> 4u8) & 3u8
            && (n >> 6u8) & 3u8 == (b >> 6u8) & 3u8
    }) by (bit_vector)
        requires
            s <= 3,
    ;
    assert({
        let n = (b & !(3u8 << 2u8)) | (s << 2u8);
        n & 3u8 == b & 3u8 && (n >> 2u8) & 3u8 == s && (n >> 4u8) & 3u8 == (b >> 4u8) & 3u8
            && (n >> 6u8) & 3u8 == (b >> 6u8) & 3u8
    }) by (bit_vector)
        requires
            s <= 3,
    ;
    assert({
        let n = (b & !(3u8 << 4u8)) | (s << 4u8);
        n & 3u8 == b & 3u8 && (n >> 2u8) & 3u8 == (b >> 2u8) & 3u8 && (n >> 4u8) & 3u8 == s
            && (n >> 6u8) & 3u8 == (b >> 6u8) & 3u8
    }) by (bit_vector)
        requires
            s <= 3,
    ;
    assert({
        let n = (b & !(3u8 << 6u8)) | (s << 6u8);
        n & 3u8 == b & 3u8 && (n >> 2u8) & 3u8 == (b >> 2u8) & 3u8 && (n >> 4u8) & 3u8 == (b >> 4u8) & 3u8
            && (n >> 6u8) & 3u8 == s
    }) by (bit_vector)
        requires
            s <= 3,
    ;
}

/// The mask that covers the fields below field `o`.
spec fn low_fields_mask(o: int) -> u8 {
    if o == 1 {
        3u8
    } else if o == 2 {
        15u8
    } else {
        63u8
    }
}

proof fn lemma_byte_mask(b: u8, o: int)
    requires
        1 <= o <= 3,
    ensures
        forall|k: int| o <= k < 4 ==> #[trigger] field(b & !low_fields_mask(o), k) == field(b, k),
        field(0xFFu8, 0) == 3 && field(0xFFu8, 1) == 3 && field(0xFFu8, 2) == 3 && field(0xFFu8, 3) == 3,
{
    assert(((b & !3u8) >> 2u8) & 3u8 == (b >> 2u8) & 3u8 && ((b & !3u8) >> 4u8) & 3u8 == (b >> 4u8) & 3u8
        && ((b & !3u8) >> 6u8) & 3u8 == (b >> 6u8) & 3u8
        && ((b & !15u8) >> 4u8) & 3u8 == (b >> 4u8) & 3u8 && ((b & !15u8) >> 6u8) & 3u8 == (b >> 6u8) & 3u8
        && ((b & !63u8) >> 6u8) & 3u8 == (b >> 6u8) & 3u8) by (bit_vector);
    assert(0xFFu8 & 3u8 == 3 && (0xFFu8 >> 2u8) & 3u8 == 3 && (0xFFu8 >> 4u8) & 3u8 == 3
        && (0xFFu8 >> 6u8) & 3u8 == 3) by (bit_vector);
}

/// A search has one answer: two results that both meet the contract of a
/// search from `start` for `p` are equal. So the byte-skipping searches give
/// what the plain searches give, from every start position.
pub proof fn lemma_first_from_unique(
    s: Seq<QuadState>,
    start: int,
    p: spec_fn(QuadState) -> bool,
    r1: Option<(usize, QuadState)>,
    r2: Option<(usize, QuadState)>,
)
    requires
        is_first_state_from(s, start, p, r1),
        is_first_state_from(s, start, p, r2),
    ensures
        r1 == r2,
{
    match (r1, r2) {
        (Some((i1, q1)), Some((i2, q2))) => {
            if i1 < i2 {
                assert(!p(s[i1 as int]));
            } else if i2 < i1 {
                assert(!p(s[i2 as int]));
            }
        },
        (Some((i1, _)), None) => {
            assert(!p(s[i1 as int]));
        },
        (None, Some((i2, _))) => {
            assert(!p(s[i2 as int]));
        },
        (None, None) => {},
    }
}

/// A read gives back what a write wrote, and a write leaves every other
/// position as it was: the view after `set(index, q)` that succeeded holds
/// `q` at `index`.
pub proof fn lemma_get_after_set(s: Seq<QuadState>, index: int, q: QuadState, j: int)
    requires
        0 <= index < s.len(),
        0 <= j < s.len(),
    ensures
        s.update(index, q)[index] == q,
        j != index ==> s.update(index, q)[j] == s[j],
{
}

/// Allocating a free page and then freeing it gives the page states back.
pub proof fn lemma_allocate_then_free(s: Seq<QuadState>, page: int)
    requires
        0 <= page < s.len(),
        s[page] == QuadState::State0,
    ensures
        s.update(page, QuadState::State1).update(page, QuadState::State0) == s,
{
    assert(s.update(page, QuadState::State1).update(page, QuadState::State0) =~= s);
}

/// The positions that the `find_all_*` and `count_*` searches go by, among
/// the first `n` states, are exactly the indices of the states that `p`
/// accepts, in increasing order: each listed position holds such a state,
/// every such state is listed, and there are as many positions as such states.
pub proof fn lemma_positions_match(s: Seq<QuadState>, n: int, p: spec_fn(QuadState) -> bool)
    requires
        0 <= n <= s.len(),
    ensures
        forall|k: int| 0 <= k < match_positions(s, n, p).len() ==> p(s[#[trigger] match_positions(s, n, p)[k]]),
        forall|k1: int, k2: int| 0 <= k1 < k2 < match_positions(s, n, p).len() ==>
            #[trigger] match_positions(s, n, p)[k1] < #[trigger] match_positions(s, n, p)[k2],
        forall|i: int| 0 <= i < n && p(#[trigger] s[i]) ==> match_positions(s, n, p).contains(i),
        match_positions(s, n, p).len() == s.subrange(0, n).filter(p).len(),
    decreases n,
{
    if n > 0 {
        lemma_positions_match(s, n - 1, p);
        lemma_positions_bounded(s, n - 1, p);
        let prev = match_positions(s, n - 1, p);
        assert forall|i: int| 0 <= i < n && p(#[trigger] s[i]) implies match_positions(s, n, p).contains(i) by {
            if i < n - 1 {
                let k = choose|k: int| 0 <= k < prev.len() && prev[k] == i;
                assert(match_positions(s, n, p)[k] == i);
            } else {
                assert(match_positions(s, n, p)[prev.len() as int] == i);
            }
        }
        assert(s.subrange(0, n) =~= s.subrange(0, n - 1).push(s[n - 1]));
        s.subrange(0, n - 1).lemma_filter_push(s[n - 1], p);
    }
}

/// An allocated page is not handed out again until it is freed: once the
/// first free page `page` is marked `State1`, the next search for a free
/// page finds another one, or none.
pub proof fn lemma_allocated_page_not_reallocated(s: Seq<QuadState>, page: usize, next: Option<usize>)
    requires
        is_first_from(s, 0, state0_filter(), Some(page)),
        is_first_from(s.update(page as int, QuadState::State1), 0, state0_filter(), next),
    ensures
        next != Some(page),
        next matches Some(q) ==> q > page,
{
    let t = s.update(page as int, QuadState::State1);
    if let Some(q) = next {
        assert(t[q as int] == QuadState::State0);
        if q < page {
            assert(s[q as int] == t[q as int]);
        }
    }
}

/// A freed page is found again: after page `page` is set back to
/// `State0`, the first free page is `page` or one before it.
pub proof fn lemma_freed_page_is_found(s: Seq<QuadState>, page: int, next: Option<usize>)
    requires
        0 <= page < s.len(),
        is_first_from(s.update(page, QuadState::State0), 0, state0_filter(), next),
    ensures
        next matches Some(q) && q <= page,
{
    let t = s.update(page, QuadState::State0);
    assert(t[page] == QuadState::State0);
    if let Some(q) = next {
        if q > page {
            assert(!state0_filter()(t[page]));
        }
    } else {
        assert(!state0_filter()(t[page]));
    }
}

/// Reads the two-bit field `k` of `byte`.
fn read_field(byte: u8, k: usize) -> (v: u8)
    requires
        k < 4,
    ensures
        v == field(byte, k as int),
        v <= 3,
{
    let shift: u8 = (k * 2) as u8;
    let mask: u8 = 3u8 << shift;
    proof {
        lemma_field_read(byte);
    }
    (byte & mask) >> shift
}

/// Replaces the two-bit field `k` of `byte` by `bits`.
fn write_field(byte: u8, k: usize, bits: u8) -> (r: u8)
    requires
        k < 4,
        bits <= 3,
    ensures
        forall|j: int| 0 <= j < 4 ==> #[trigger] field(r, j) == if j == k { bits } else { field(byte, j) },
{
    let shift: u8 = (k * 2) as u8;
    let mask: u8 = 3u8 << shift;
    proof {
        lemma_field_write(byte, bits);
    }
    (byte & !mask) | (bits << shift)
}

/// What a search looks for.
enum StateTarget {
    Is(QuadState),
    NotState3,
}

impl StateTarget {
    spec fn spec_matches(self, q: QuadState) -> bool {
        match self {
            StateTarget::Is(t) => q == t,
            StateTarget::NotState3 => q != QuadState::State3,
        }
    }

    fn matches_value(&self, v: u8) -> (b: bool)
        requires
            v <= 3,
        ensures
            b == self.spec_matches(QuadState::from_bits(v)),
    {
        match self {
            StateTarget::Is(t) => v == t.bits(),
            StateTarget::NotState3 => v != 3,
        }
    }
}

/// The index part of a search result that also carries the state found.
pub open spec fn found_index(r: Option<(usize, QuadState)>) -> Option<usize> {
    match r {
        Some((i, _)) => Some(i),
        None => None,
    }
}

/// `r` is the first position at or after `start` whose state satisfies `p`,
/// together with that state.
pub open spec fn is_first_state_from(
    s: Seq<QuadState>,
    start: int,
    p: spec_fn(QuadState) -> bool,
    r: Option<(usize, QuadState)>,
) -> bool {
    &&& is_first_from(s, start, p, found_index(r))
    &&& r matches Some((i, q)) ==> q == s[i as int]
}

/// Bitmap that stores `QuadState` values, four states per byte.
pub struct QuadBitmap {
    data: Vec<u8>,
    len: usize,
}

impl View for QuadBitmap {
    type V = Seq<QuadState>;

    closed spec fn view(&self) -> Seq<QuadState> {
        decode_states(self.data@, self.len as nat)
    }
}

impl QuadBitmap {
    /// The byte vector holds exactly the bytes that `len` states need, up to
    /// one partially used byte.
    pub closed spec fn wf(&self) -> bool {
        &&& self.len <= self.data@.len() * 4
        &&& self.data@.len() * 4 < self.len + 4
        &&& self.data@.len() * 4 <= usize::MAX + 1
    }

    /// Creates a bitmap of `capacity` states, all `State0`.
    pub fn new(capacity: usize) -> (r: Self)
        requires
            capacity <= usize::MAX - 3,
        ensures
            r.wf(),
            r@ == Seq::new(capacity as nat, |i: int| QuadState::State0),
    {
        let byte_capacity = (capacity + 3) / 4;
        Self::zeroed(capacity, byte_capacity)
    }

    /// A bitmap of `capacity` states, all `State0`, in `byte_capacity` bytes.
    fn zeroed(capacity: usize, byte_capacity: usize) -> (r: Self)
        requires
            capacity <= byte_capacity * 4 < capacity + 4,
        ensures
            r.wf(),
            r@ == Seq::new(capacity as nat, |i: int| QuadState::State0),
    {
        let data = vec![0u8; byte_capacity];
        assert(0u8 & 3u8 == 0 && (0u8 >> 2u8) & 3u8 == 0 && (0u8 >> 4u8) & 3u8 == 0
            && (0u8 >> 6u8) & 3u8 == 0) by (bit_vector);
        let r = Self { data, len: capacity };
        assert forall|i: int| 0 <= i < capacity implies #[trigger] r@[i] == QuadState::State0 by {
            assert(r.data@[i / 4] == 0);
        }
        assert(r@ =~= Seq::new(capacity as nat, |i: int| QuadState::State0));
        r
    }

    /// Creates a bitmap that holds the four states of every byte of `vec`.
    pub fn from(vec: &[u8]) -> (r: Self)
        requires
            vec@.len() * 4 <= usize::MAX,
        ensures
            r.wf(),
            r@ == decode_states(vec@, vec@.len() * 4),
    {
        let len = vec.len() * 4;
        let mut data: Vec<u8> = Vec::with_capacity(vec.len());
        let mut i: usize = 0;
        while i < vec.len()
            invariant
                i <= vec@.len(),
                data@ == vec@.subrange(0, i as int),
            decreases vec@.len() - i,
        {
            data.push(vec[i]);
            i += 1;
            assert(data@ =~= vec@.subrange(0, i as int));
        }
        assert(data@ =~= vec@);
        Self { data, len }
    }

    /// Returns the number of states in the bitmap.
    pub fn len(&self) -> (r: usize)
        ensures
            r == self@.len(),
    {
        self.len
    }

    /// Returns true if the bitmap contains no states.
    pub fn is_empty(&self) -> (r: bool)
        ensures
            r == (self@.len() == 0),
    {
        self.len == 0
    }

    /// Gets the state at the specified index, `None` when it is out of bounds.
    pub fn get(&self, index: usize) -> (r: Option<QuadState>)
        requires
            self.wf(),
        ensures
            r == if index < self@.len() { Some(self@[index as int]) } else { None::<QuadState> },
    {
        if index >= self.len {
            return None;
        }
        let byte_index = index / 4;
        let value = read_field(self.data[byte_index], index % 4);
        Some(QuadState::from_value(value))
    }

    /// Sets the state at the specified index; an index out of bounds is refused.
    pub fn set(&mut self, index: usize, state: QuadState) -> (r: Result<(), &'static str>)
        requires
            old(self).wf(),
        ensures
            final(self).wf(),
            r is Ok <==> index < old(self)@.len(),
            r is Ok ==> final(self)@ == old(self)@.update(index as int, state),
            r is Err ==> final(self)@ == old(self)@,
            r matches Err(msg) ==> msg@ == "Index out of bounds"@,
    {
        if index >= self.len {
            return Err("Index out of bounds");
        }
        let byte_index = index / 4;
        let old_byte = self.data[byte_index];
        let new_byte = write_field(old_byte, index % 4, state.bits());
        self.data.set(byte_index, new_byte);
        proof {
            let s = self@;
            let o = old(self)@.update(index as int, state);
            assert forall|i: int| 0 <= i < s.len() implies s[i] == o[i] by {
                if i / 4 == byte_index as int {
                    assert(field(new_byte, i % 4) == if i % 4 == index % 4 { state.spec_bits() } else {
                        field(old_byte, i % 4)
                    });
                }
            }
            assert(s =~= o);
        }
        Ok(())
    }

    /// Scans the states from `start` on, byte by byte, for the first one that
    /// `target` accepts.
    fn scan_from(&self, start: usize, target: StateTarget) -> (r: Option<(usize, QuadState)>)
        requires
            self.wf(),
        ensures
            is_first_state_from(self@, start as int, |q: QuadState| target.spec_matches(q), r),
    {
        let ghost p = |q: QuadState| target.spec_matches(q);
        if start >= self.len {
            return None;
        }
        let start_byte = start / 4;
        let start_bit_offset = start % 4;
        let n = self.data.len();
        let mut byte_index = start_byte;
        while byte_index < n
            invariant
                self.wf(),
                n == self.data@.len(),
                start < self.len,
                start_byte == start / 4,
                start_bit_offset == start % 4,
                start_byte <= byte_index <= n,
                p == (|q: QuadState| target.spec_matches(q)),
                forall|j: int| start <= j < byte_index * 4 && j < self.len ==> !p(#[trigger] self@[j]),
            decreases n - byte_index,
        {
            let byte = self.data[byte_index];
            let mut bit_offset: usize = 0;
            while bit_offset < 4
                invariant
                    self.wf(),
                    n == self.data@.len(),
                    start < self.len,
                    start_byte == start / 4,
                    start_bit_offset == start % 4,
                    start_byte <= byte_index < n,
                    byte == self.data@[byte_index as int],
                    bit_offset <= 4,
                    p == (|q: QuadState| target.spec_matches(q)),
                    forall|j: int|
                        start <= j < byte_index * 4 + bit_offset && j < self.len ==> !p(#[trigger] self@[j]),
                decreases 4 - bit_offset,
            {
                let global_index = byte_index * 4 + bit_offset;
                if byte_index == start_byte && bit_offset < start_bit_offset {
                    bit_offset += 1;
                    continue;
                }
                if global_index >= self.len {
                    return None;
                }
                let value = read_field(byte, bit_offset);
                assert(self@[global_index as int] == QuadState::from_bits(value));
                if target.matches_value(value) {
                    return Some((global_index, QuadState::from_value(value)));
                }
                bit_offset += 1;
            }
            byte_index += 1;
        }
        None
    }

    /// Finds the first occurrence of `State0`.
    pub fn find_first_state0(&self) -> (r: Option<usize>)
        requires
            self.wf(),
        ensures
            is_first_from(self@, 0, state0_filter(), r),
    {
        self.find_first_state0_from(0)
    }

    /// Finds the first occurrence of `State0` at or after `start`.
    pub fn find_first_state0_from(&self, start: usize) -> (r: Option<usize>)
        requires
            self.wf(),
        ensures
            is_first_from(self@, start as int, state0_filter(), r),
    {
        let t = StateTarget::Is(QuadState::State0);
        let found = self.scan_from(start, t);
        assert((|q: QuadState| t.spec_matches(q)) =~= state0_filter());
        match found {
            Some((i, _)) => Some(i),
            None => None,
        }
    }

    /// Finds the first occurrence of `State0`, `State1` or `State2`, with its state.
    pub fn find_first_state012(&self) -> (r: Option<(usize, QuadState)>)
        requires
            self.wf(),
        ensures
            is_first_state_from(self@, 0, state012_filter(), r),
    {
        self.find_first_state012_from(0)
    }

    /// Finds the first occurrence of `State0`, `State1` or `State2` at or after `start`.
    pub fn find_first_state012_from(&self, start: usize) -> (r: Option<(usize, QuadState)>)
        requires
            self.wf(),
        ensures
            is_first_state_from(self@, start as int, state012_filter(), r),
    {
        let t = StateTarget::NotState3;
        let found = self.scan_from(start, t);
        assert((|q: QuadState| t.spec_matches(q)) =~= state012_filter());
        found
    }

    /// Finds the first occurrence of `target_state`.
    pub fn find_first_state(&self, target_state: QuadState) -> (r: Option<usize>)
        requires
            self.wf(),
        ensures
            is_first_from(self@, 0, |q: QuadState| q == target_state, r),
    {
        self.find_first_state_from(target_state, 0)
    }

    /// Finds the first occurrence of `target_state` at or after `start`.
    pub fn find_first_state_from(&self, target_state: QuadState, start: usize) -> (r: Option<usize>)
        requires
            self.wf(),
        ensures
            is_first_from(self@, start as int, |q: QuadState| q == target_state, r),
    {
        let t = StateTarget::Is(target_state);
        let found = self.scan_from(start, t);
        assert((|q: QuadState| t.spec_matches(q)) =~= (|q: QuadState| q == target_state));
        match found {
            Some((i, _)) => Some(i),
            None => None,
        }
    }

    /// Searches like `find_first_state012`, skipping every byte whose four states are all `State3`.
    pub fn find_first_state012_fast(&self) -> (r: Option<(usize, QuadState)>)
        requires
            self.wf(),
        ensures
            is_first_state_from(self@, 0, state012_filter(), r),
    {
        self.find_first_state012_from_fast(0)
    }

    /// Searches like `find_first_state012_from`: the starting byte is masked so
    /// that the states before `start` read as `State0` (and are skipped), and a
    /// byte equal to `0xFF` is passed over whole.
    pub fn find_first_state012_from_fast(&self, start: usize) -> (r: Option<(usize, QuadState)>)
        requires
            self.wf(),
        ensures
            is_first_state_from(self@, start as int, state012_filter(), r),
    {
        if start >= self.len {
            return None;
        }
        let start_byte = start / 4;
        let start_offset = start % 4;
        let n = self.data.len();
        let mut byte_index = start_byte;
        proof {
            lemma_byte_mask(0u8, 1);
        }
        while byte_index < n
            invariant
                self.wf(),
                n == self.data@.len(),
                start < self.len,
                start_byte == start / 4,
                start_offset == start % 4,
                start_byte <= byte_index <= n,
                forall|j: int| start <= j < byte_index * 4 && j < self.len ==> !is_state012(#[trigger] self@[j]),
                field(0xFFu8, 0) == 3 && field(0xFFu8, 1) == 3 && field(0xFFu8, 2) == 3 && field(0xFFu8, 3) == 3,
            decreases n - byte_index,
        {
            let orig = self.data[byte_index];
            let mut byte = orig;
            if byte_index == start_byte && start_offset > 0 {
                let shift: u8 = (start_offset * 2) as u8;
                assert(1u8 << 2u8 == 4u8 && 1u8 << 4u8 == 16u8 && 1u8 << 6u8 == 64u8) by (bit_vector);
                let mask: u8 = (1u8 << shift) - 1;
                assert(mask == low_fields_mask(start_offset as int));
                byte = byte & !mask;
                proof {
                    lemma_byte_mask(orig, start_offset as int);
                }
            }
            assert(forall|k: int| start_byte * 4 + start_offset <= byte_index * 4 + k && 0 <= k < 4
                ==> #[trigger] field(byte, k) == field(orig, k));
            if byte != 0xFF {
                let mut bit_offset: usize = 0;
                while bit_offset < 4
                    invariant
                        self.wf(),
                        n == self.data@.len(),
                        start < self.len,
                        start_byte == start / 4,
                        start_offset == start % 4,
                        start_byte <= byte_index < n,
                        orig == self.data@[byte_index as int],
                        forall|k: int| start_byte * 4 + start_offset <= byte_index * 4 + k && 0 <= k < 4
                            ==> #[trigger] field(byte, k) == field(orig, k),
                        bit_offset <= 4,
                        forall|j: int|
                            start <= j < byte_index * 4 + bit_offset && j < self.len ==> !is_state012(#[trigger] self@[j]),
                    decreases 4 - bit_offset,
                {
                    let global_index = byte_index * 4 + bit_offset;
                    if byte_index == start_byte && bit_offset < start_offset {
                        bit_offset += 1;
                        continue;
                    }
                    if global_index >= self.len {
                        return None;
                    }
                    let value = read_field(byte, bit_offset);
                    assert(self@[global_index as int] == QuadState::from_bits(value));
                    if value != 3 {
                        return Some((global_index, QuadState::from_value(value)));
                    }
                    bit_offset += 1;
                }
            } else {
                assert forall|j: int| start <= j < (byte_index + 1) * 4 && j < self.len
                    implies !is_state012(#[trigger] self@[j]) by {
                    if j >= byte_index * 4 {
                        assert(field(byte, j - byte_index * 4) == 3);
                    }
                }
            }
            byte_index += 1;
        }
        None
    }

    /// Finds all positions that hold `State0`, `State1` or `State2`, with their states, in increasing order.
    pub fn find_all_state012(&self) -> (r: Vec<(usize, QuadState)>)
        requires
            self.wf(),
        ensures
            r@.len() == match_positions(self@, self@.len() as int, state012_filter()).len(),
            forall|k: int| 0 <= k < r@.len() ==> {
                let i = match_positions(self@, self@.len() as int, state012_filter())[k];
                #[trigger] r@[k] == (i as usize, self@[i])
            },
    {
        let ghost s = self@;
        let ghost p = state012_filter();
        let mut results: Vec<(usize, QuadState)> = Vec::new();
        let mut current_pos: usize = 0;
        loop
            invariant
                self.wf(),
                s == self@,
                p == state012_filter(),
                current_pos <= s.len(),
                results@.len() == match_positions(s, current_pos as int, p).len(),
                forall|k: int| 0 <= k < results@.len() ==> {
                    let i = match_positions(s, current_pos as int, p)[k];
                    #[trigger] results@[k] == (i as usize, s[i])
                },
            ensures
                results@.len() == match_positions(s, s.len() as int, p).len(),
                forall|k: int| 0 <= k < results@.len() ==> {
                    let i = match_positions(s, s.len() as int, p)[k];
                    #[trigger] results@[k] == (i as usize, s[i])
                },
            decreases s.len() - current_pos,
        {
            proof {
                lemma_positions_bounded(s, current_pos as int, p);
            }
            match self.find_first_state012_from(current_pos) {
                Some((pos, state)) => {
                    proof {
                        lemma_positions_skip(s, current_pos as int, pos as int, p);
                        lemma_positions_bounded(s, pos as int, p);
                    }
                    results.push((pos, state));
                    current_pos = pos + 1;
                },
                None => {
                    proof {
                        lemma_positions_skip(s, current_pos as int, s.len() as int, p);
                    }
                    break;
                },
            }
        }
        results
    }

    /// Returns the number of positions that hold `State0`.
    pub fn count_state0(&self) -> (n: usize)
        requires
            self.wf(),
        ensures
            n == match_positions(self@, self@.len() as int, state0_filter()).len(),
    {
        let ghost s = self@;
        let ghost p = state0_filter();
        let mut n: usize = 0;
        let mut current_pos: usize = 0;
        loop
            invariant
                self.wf(),
                s == self@,
                p == state0_filter(),
                current_pos <= s.len(),
                n == match_positions(s, current_pos as int, p).len(),
            ensures
                n == match_positions(s, s.len() as int, p).len(),
            decreases s.len() - current_pos,
        {
            proof {
                lemma_positions_bounded(s, current_pos as int, p);
            }
            match self.find_first_state0_from(current_pos) {
                Some(pos) => {
                    proof {
                        lemma_positions_skip(s, current_pos as int, pos as int, p);
                    }
                    n += 1;
                    current_pos = pos + 1;
                },
                None => {
                    proof {
                        lemma_positions_skip(s, current_pos as int, s.len() as int, p);
                    }
                    break;
                },
            }
        }
        n
    }

    /// Returns the number of positions that hold `State0`, `State1` or `State2`.
    pub fn count_state012(&self) -> (n: usize)
        requires
            self.wf(),
        ensures
            n == match_positions(self@, self@.len() as int, state012_filter()).len(),
            n <= self@.len(),
    {
        let ghost s = self@;
        let ghost p = state012_filter();
        let mut n: usize = 0;
        let mut current_pos: usize = 0;
        loop
            invariant
                self.wf(),
                s == self@,
                p == state012_filter(),
                current_pos <= s.len(),
                n == match_positions(s, current_pos as int, p).len(),
            ensures
                n == match_positions(s, s.len() as int, p).len(),
            decreases s.len() - current_pos,
        {
            proof {
                lemma_positions_bounded(s, current_pos as int, p);
            }
            match self.find_first_state012_from(current_pos) {
                Some((pos, _)) => {
                    proof {
                        lemma_positions_skip(s, current_pos as int, pos as int, p);
                    }
                    n += 1;
                    current_pos = pos + 1;
                },
                None => {
                    proof {
                        lemma_positions_skip(s, current_pos as int, s.len() as int, p);
                    }
                    break;
                },
            }
        }
        proof {
            lemma_positions_bounded(s, s.len() as int, p);
        }
        n
    }

    /// Finds all positions that hold `State0`, in increasing order.
    pub fn find_all_state0(&self) -> (r: Vec<usize>)
        requires
            self.wf(),
        ensures
            r@.len() == match_positions(self@, self@.len() as int, state0_filter()).len(),
            forall|k: int| 0 <= k < r@.len() ==>
                #[trigger] r@[k] == match_positions(self@, self@.len() as int, state0_filter())[k],
    {
        let ghost s = self@;
        let ghost p = state0_filter();
        let mut positions: Vec<usize> = Vec::new();
        let mut current_pos: usize = 0;
        loop
            invariant
                self.wf(),
                s == self@,
                p == state0_filter(),
                current_pos <= s.len(),
                positions@.len() == match_positions(s, current_pos as int, p).len(),
                forall|k: int| 0 <= k < positions@.len() ==>
                    #[trigger] positions@[k] == match_positions(s, current_pos as int, p)[k],
            ensures
                positions@.len() == match_positions(s, s.len() as int, p).len(),
                forall|k: int| 0 <= k < positions@.len() ==>
                    #[trigger] positions@[k] == match_positions(s, s.len() as int, p)[k],
            decreases s.len() - current_pos,
        {
            match self.find_first_state0_from(current_pos) {
                Some(pos) => {
                    proof {
                        lemma_positions_skip(s, current_pos as int, pos as int, p);
                    }
                    positions.push(pos);
                    current_pos = pos + 1;
                },
                None => {
                    proof {
                        lemma_positions_skip(s, current_pos as int, s.len() as int, p);
                    }
                    break;
                },
            }
        }
        positions
    }

    /// Sets the states `states` at `start`, `start + 1`, and so on; a range
    /// that does not fit is refused and leaves the bitmap unchanged.
    pub fn set_range(&mut self, start: usize, states: &[QuadState]) -> (r: Result<(), &'static str>)
        requires
            old(self).wf(),
            start + states@.len() <= usize::MAX,
        ensures
            final(self).wf(),
            r is Ok <==> start + states@.len() <= old(self)@.len(),
            r is Ok ==> final(self)@ == old(self)@.subrange(0, start as int) + states@ + old(self)@.subrange(
                start + states@.len(),
                old(self)@.len() as int,
            ),
            r is Err ==> final(self)@ == old(self)@,
            r matches Err(msg) ==> msg@ == "Range out of bounds"@,
    {
        if start + states.len() > self.len {
            return Err("Range out of bounds");
        }
        let ghost old_view = self@;
        let mut i: usize = 0;
        while i < states.len()
            invariant
                self.wf(),
                start + states@.len() <= self@.len(),
                old_view.len() == self@.len(),
                i <= states@.len(),
                self@ == old_view.subrange(0, start as int) + states@.subrange(0, i as int) + old_view.subrange(
                    start + i,
                    old_view.len() as int,
                ),
            decreases states@.len() - i,
        {
            let state = states[i];
            let ghost before = self@;
            let res = self.set(start + i, state);
            assert(res is Ok);
            i += 1;
            assert(self@ =~= old_view.subrange(0, start as int) + states@.subrange(0, i as int) + old_view.subrange(
                start + i,
                old_view.len() as int,
            ));
        }
        assert(states@.subrange(0, i as int) =~= states@);
        Ok(())
    }

    /// Creates a bitmap that holds `states`.
    pub fn from_slice(states: &[QuadState]) -> (r: Self)
        ensures
            r.wf(),
            r@ == states@,
    {
        let n = states.len();
        let byte_capacity = if n % 4 == 0 {
            n / 4
        } else {
            n / 4 + 1
        };
        let mut bitmap = Self::zeroed(n, byte_capacity);
        let mut i: usize = 0;
        while i < states.len()
            invariant
                bitmap.wf(),
                i <= states@.len(),
                bitmap@.len() == states@.len(),
                forall|j: int| 0 <= j < i ==> bitmap@[j] == states@[j],
            decreases states@.len() - i,
        {
            let res = bitmap.set(i, states[i]);
            assert(res is Ok);
            i += 1;
        }
        assert(bitmap@ =~= states@);
        bitmap
    }

    /// The text `QuadStateBitmap[...]` listing the states in order, separated by `", "`.
    pub fn debug_string(&self) -> (r: String)
        requires
            self.wf(),
        ensures
            r@ == "QuadStateBitmap["@ + states_text(self@) + "]"@,
    {
        let mut s = String::new();
        s.append("QuadStateBitmap[");
        let mut it = self.iter();
        let mut i: usize = 0;
        while i < self.len()
            invariant
                self.wf(),
                it.wf(),
                it.states() == self@,
                it.position() == i,
                i <= self@.len(),
                s@ == "QuadStateBitmap["@ + states_text(self@.subrange(0, i as int)),
            decreases self@.len() - i,
        {
            let state = it.next().unwrap();
            if i > 0 {
                s.append(", ");
            }
            s.append(state.name());
            i += 1;
            proof {
                let prefix = self@.subrange(0, i as int);
                assert(prefix.drop_last() =~= self@.subrange(0, i - 1));
                if i == 1 {
                    assert(states_text(prefix.drop_last()) == Seq::<char>::empty());
                }
                assert(s@ =~= "QuadStateBitmap["@ + states_text(prefix));
            }
        }
        s.append("]");
        assert(self@.subrange(0, i as int) =~= self@);
        s
    }

    /// Returns an iterator over all states of the bitmap, in order.
    pub fn iter(&self) -> (it: QuadStateBitmapIter<'_>)
        requires
            self.wf(),
        ensures
            it.wf(),
            it.states() == self@,
            it.position() == 0,
    {
        QuadStateBitmapIter { bitmap: self, index: 0 }
    }
}

/// Iterator over the states of a `QuadBitmap`.
pub struct QuadStateBitmapIter<'a> {
    bitmap: &'a QuadBitmap,
    index: usize,
}

impl<'a> QuadStateBitmapIter<'a> {
    /// The states of the bitmap being iterated.
    pub closed spec fn states(&self) -> Seq<QuadState> {
        self.bitmap@
    }

    /// The number of states already handed out.
    pub closed spec fn position(&self) -> nat {
        self.index as nat
    }

    pub closed spec fn wf(&self) -> bool {
        self.bitmap.wf()
    }

    /// Hands out the next state, or `None` once all states were handed out.
    pub fn next(&mut self) -> (r: Option<QuadState>)
        requires
            old(self).wf(),
        ensures
            final(self).wf(),
            final(self).states() == old(self).states(),
            old(self).position() < old(self).states().len() ==> r == Some(old(self).states()[old(self).position() as int])
                && final(self).position() == old(self).position() + 1,
            old(self).position() >= old(self).states().len() ==> r is None && final(self).position() == old(self).position(),
    {
        if self.index >= self.bitmap.len() {
            None
        } else {
            let state = self.bitmap.get(self.index).unwrap();
            self.index += 1;
            Some(state)
        }
    }
}

/// The header of an extent: where its pages start and how many there are.
/// The file and table space ids are not stored on disk.
#[derive(Debug, Clone, Copy, PartialEq, Eq, Structural)]
pub struct ExtentMeta {
    pub file_id: u64,
    pub table_space_id: u64,
    pub extent_id: u64,
    pub start_page: u64,
    pub page_count: u64,
}

/// The bytes of an extent header that holds `m`: the extent id, the first
/// page and the page count in big-endian order, then zeros up to the header size.
pub open spec fn extent_meta_bytes(m: ExtentMeta) -> Seq<u8> {
    u64_to_be(m.extent_id) + u64_to_be(m.start_page) + u64_to_be(m.page_count)
        + Seq::new((EXTEND_HEADER_SIZE - 24) as nat, |i: int| 0u8)
}

/// The extent header read from `bytes`, with the given file and table space ids,
/// or `None` when `bytes` is shorter than a header.
pub open spec fn parse_extent_meta(file_id: u64, table_space_id: u64, bytes: Seq<u8>) -> Option<ExtentMeta> {
    if bytes.len() < EXTEND_HEADER_SIZE {
        None
    } else {
        Some(
            ExtentMeta {
                file_id,
                table_space_id,
                extent_id: be_to_u64(bytes, 0),
                start_page: be_to_u64(bytes, 8),
                page_count: be_to_u64(bytes, 16),
            },
        )
    }
}

impl ExtentMeta {
    /// Reads an extent header from the start of `vec`; a buffer shorter than
    /// the header is refused.
    pub fn from(file_id: u64, table_space_id: u64, vec: &[u8]) -> (r: Result<ExtentMeta, EC>)
        ensures
            match parse_extent_meta(file_id, table_space_id, vec@) {
                Some(m) => r == Ok::<ExtentMeta, EC>(m),
                None => r == Err::<ExtentMeta, EC>(EC::FatalError),
            },
    {
        if vec.len() < LayoutExtentHeader::size() {
            return Err(EC::FatalError);
        }
        let extent_id = read_u64(vec, LayoutExtentHeader::range_extent_id().start);
        let start_page = read_u64(vec, LayoutExtentHeader::range_start_page().start);
        let page_count = read_u64(vec, LayoutExtentHeader::range_page_count().start);
        Ok(Self { file_id, table_space_id, extent_id, start_page, page_count })
    }

    /// Creates the header of an extent. The file and table space ids are set to 0.
    pub fn new(file_id: u64, tablespace_id: u64, extent_id: u64, start_page: u64, page_count: u64) -> (r: Self)
        ensures
            r == (ExtentMeta { file_id: 0, table_space_id: 0, extent_id, start_page, page_count }),
    {
        Self { file_id: 0, table_space_id: 0, extent_id, start_page, page_count }
    }

    /// The number of data pages: every page but the header page.
    pub fn data_pages(&self) -> (r: u64)
        requires
            self.page_count >= 1,
        ensures
            r == self.page_count - 1,
    {
        self.page_count - 1
    }

    /// The bytes of the extent header.
    pub fn to_vec(&self) -> (r: Vec<u8>)
        ensures
            r@ == extent_meta_bytes(*self),
    {
        let n = LayoutExtentHeader::size();
        let mut vec: Vec<u8> = Vec::with_capacity(n);
        vec.resize(n, 0);
        write_u64(&mut vec, LayoutExtentHeader::range_extent_id().start, self.extent_id);
        write_u64(&mut vec, LayoutExtentHeader::range_start_page().start, self.start_page);
        write_u64(&mut vec, LayoutExtentHeader::range_page_count().start, self.page_count);
        assert(vec@ =~= extent_meta_bytes(*self));
        vec
    }
}

/// Reading back the header that `to_vec` wrote gives the same extent id,
/// first page and page count, with the file and table space ids given to the read.
pub proof fn lemma_extent_meta_round_trip(m: ExtentMeta, file_id: u64, table_space_id: u64)
    ensures
        parse_extent_meta(file_id, table_space_id, extent_meta_bytes(m)) == Some(
            ExtentMeta { file_id, table_space_id, ..m },
        ),
{
    let b = extent_meta_bytes(m);
    lemma_be_decode_encode(m.extent_id);
    lemma_be_decode_encode(m.start_page);
    lemma_be_decode_encode(m.page_count);
    assert(b.subrange(0, 8) =~= u64_to_be(m.extent_id));
    assert(b.subrange(8, 16) =~= u64_to_be(m.start_page));
    assert(b.subrange(16, 24) =~= u64_to_be(m.page_count));
    assert(be_to_u64(b, 0) == be_to_u64(b.subrange(0, 8), 0));
    assert(be_to_u64(b, 8) == be_to_u64(b.subrange(8, 16), 0));
    assert(be_to_u64(b, 16) == be_to_u64(b.subrange(16, 24), 0));
}

/// The allocation state of the data pages of an extent.
pub struct ExtentPayload {
    bitmap: QuadBitmap,
    next_write_page: u64,
    full_page_count: u64,
}

impl ExtentPayload {
    pub closed spec fn wf(&self) -> bool {
        self.bitmap.wf()
    }

    /// The state of every data page.
    pub closed spec fn states(&self) -> Seq<QuadState> {
        self.bitmap@
    }

    pub closed spec fn spec_next_write_page(&self) -> u64 {
        self.next_write_page
    }

    pub closed spec fn spec_full_page_count(&self) -> u64 {
        self.full_page_count
    }

    /// Reads the page bitmap of an extent whose header is `meta` from `vec`:
    /// the bitmap starts at the bitmap offset and holds four pages per byte.
    /// The next page to write is the first page that is not `State3` (0 if
    /// none is), and the full pages are the data pages that are not
    /// `State0`, `State1` or `State2`.
    pub fn from(vec: &[u8], meta: &ExtentMeta) -> (r: Result<Self, EC>)
        requires
            meta.page_count >= 1,
            EXTEND_HEADER_SIZE + ((meta.page_count - 1) as usize) / 4 <= vec@.len(),
        ensures
            ({
                let bytes = ((meta.page_count - 1) as usize) / 4;
                let states = decode_states(vec@.subrange(EXTEND_HEADER_SIZE as int, EXTEND_HEADER_SIZE + bytes), (bytes * 4) as nat);
                let first = match_positions(states, states.len() as int, state012_filter());
                r matches Ok(p) && p.wf() && p.states() == states
                    && p.spec_next_write_page() == (if first.len() > 0 { first[0] } else { 0 })
                    && p.spec_full_page_count() == meta.page_count - 1 - first.len()
            }),
    {
        let bitmap_off = LayoutExtentHeader::offset_bitmap();
        let bytes = Self::bytes_of_bitmap(meta.data_pages());
        let slice = vstd::slice::slice_subrange(vec, bitmap_off, bitmap_off + bytes);
        let bitmap = QuadBitmap::from(slice);
        let (next_write_page, _) = match bitmap.find_first_state012() {
            Some(found) => found,
            None => (0, QuadState::State0),
        };
        let count = bitmap.count_state012();
        let full_page_count = meta.data_pages() - count as u64;
        proof {
            lemma_first_position(bitmap@, bitmap@.len() as int, state012_filter());
        }
        let extent = Self { bitmap, next_write_page: next_write_page as u64, full_page_count };
        Ok(extent)
    }

    /// The number of bitmap bytes for `page_count` pages, four pages per byte.
    pub fn bytes_of_bitmap(page_count: u64) -> (r: usize)
        ensures
            r == (page_count as usize) / 4,
    {
        (page_count as usize) / 4
    }

    /// Creates the payload of an extent of `pages` free pages.
    pub fn new(pages: u64) -> (r: Self)
        requires
            pages as usize <= usize::MAX - 3,
        ensures
            r.wf(),
            r.states() == Seq::new((pages as usize) as nat, |i: int| QuadState::State0),
            r.spec_next_write_page() == 0,
            r.spec_full_page_count() == 0,
    {
        let bitmap = QuadBitmap::new(pages as usize);
        Self { bitmap, next_write_page: 0, full_page_count: 0 }
    }

    /// Allocates the first free (`State0`) page, marking it `State1`.
    pub fn allocate_page(&mut self) -> (r: Option<u64>)
        requires
            old(self).wf(),
        ensures
            final(self).wf(),
            final(self).spec_next_write_page() == old(self).spec_next_write_page(),
            final(self).spec_full_page_count() == old(self).spec_full_page_count(),
            match r {
                Some(page) => page < old(self).states().len()
                    && old(self).states()[page as int] == QuadState::State0
                    && (forall|j: int| 0 <= j < page ==> old(self).states()[j] != QuadState::State0)
                    && final(self).states() == old(self).states().update(page as int, QuadState::State1),
                None => is_first_from(old(self).states(), 0, state0_filter(), None)
                    && final(self).states() == old(self).states(),
            },
    {
        if let Some(page_offset) = self.find_free() {
            let _ = self.bitmap.set(page_offset, QuadState::State1);
            Some(page_offset as u64)
        } else {
            None
        }
    }

    fn find_free(&mut self) -> (r: Option<usize>)
        requires
            old(self).wf(),
        ensures
            *final(self) == *old(self),
            is_first_from(old(self).states(), 0, state0_filter(), r),
    {
        self.bitmap.find_first_state0()
    }

    /// Frees a page of this extent: a page number outside the data pages of
    /// `meta` is refused with `false`.
    pub fn free_page(&mut self, page_number: u64, meta: &ExtentMeta) -> (r: bool)
        requires
            old(self).wf(),
            meta.page_count >= 1,
            meta.start_page + meta.page_count - 1 <= u64::MAX,
        ensures
            final(self).wf(),
            final(self).spec_next_write_page() == old(self).spec_next_write_page(),
            final(self).spec_full_page_count() == old(self).spec_full_page_count(),
            r == (meta.start_page <= page_number < meta.start_page + meta.page_count - 1),
            r && ((page_number - meta.start_page) as usize) < old(self).states().len() ==> final(self).states()
                == old(self).states().update(((page_number - meta.start_page) as usize) as int, QuadState::State0),
            !(r && ((page_number - meta.start_page) as usize) < old(self).states().len()) ==> final(self).states()
                == old(self).states(),
    {
        if page_number >= meta.start_page && page_number < meta.start_page + meta.data_pages() {
            let offset = (page_number - meta.start_page) as usize;
            let _ = self.bitmap.set(offset, QuadState::State0);
            true
        } else {
            false
        }
    }

    /// Whether some page of this extent is free.
    pub fn has_free_pages(&self) -> (r: bool)
        requires
            self.wf(),
        ensures
            r == exists|i: int| 0 <= i < self.states().len() && #[trigger] self.states()[i] == QuadState::State0,
    {
        let found = self.bitmap.find_first_state0();
        assert(found matches Some(i) ==> self.states()[i as int] == QuadState::State0);
        found.is_some()
    }

    /// The number of free pages of this extent.
    pub fn free_page_count(&self) -> (r: usize)
        requires
            self.wf(),
        ensures
            r == match_positions(self.states(), self.states().len() as int, state0_filter()).len(),
    {
        self.bitmap.count_state0()
    }

    /// The size of the extent header together with its page bitmap.
    pub fn size(meta: &ExtentMeta) -> (r: usize)
        requires
            meta.page_count >= 1,
        ensures
            r == EXTEND_HEADER_SIZE + ((meta.page_count - 1) as usize) / 4,
    {
        LayoutExtentHeader::size() + (meta.data_pages() as usize) / 4
    }
}

/// An extent: its header and the allocation state of its pages.
pub struct Extent {
    meta: ExtentMeta,
    payload: ExtentPayload,
}

impl Extent {
    pub closed spec fn wf(&self) -> bool {
        self.payload.wf()
    }

    pub closed spec fn spec_meta(&self) -> ExtentMeta {
        self.meta
    }

    /// The state of every page of the extent's bitmap.
    pub closed spec fn states(&self) -> Seq<QuadState> {
        self.payload.states()
    }

    pub fn extent_id(&self) -> (r: u64)
        ensures
            r == self.spec_meta().extent_id,
    {
        self.meta.extent_id
    }

    /// Creates an extent of `page_count` free pages; its header gets file and
    /// table space id 0, as `ExtentMeta::new` gives them.
    pub fn new(file_id: u64, table_space_id: u64, extent_id: u64, start_page: u64, page_count: u64) -> (r: Extent)
        requires
            page_count as usize <= usize::MAX - 3,
        ensures
            r.wf(),
            r.spec_meta() == (ExtentMeta { file_id: 0, table_space_id: 0, extent_id, start_page, page_count }),
            r.states() == Seq::new((page_count as usize) as nat, |i: int| QuadState::State0),
    {
        Self {
            meta: ExtentMeta::new(file_id, table_space_id, extent_id, start_page, page_count),
            payload: ExtentPayload::new(page_count),
        }
    }

    /// Reads an extent from its header bytes: the header fields first, then
    /// the page bitmap after the header. A buffer shorter than the header is
    /// refused.
    pub fn from(file_id: u64, table_space_id: u64, slice: &[u8]) -> (r: Result<Extent, EC>)
        requires
            slice@.len() >= EXTEND_HEADER_SIZE ==> be_to_u64(slice@, 16) >= 1 && EXTEND_HEADER_SIZE + ((be_to_u64(
                slice@,
                16,
            ) - 1) as usize) / 4 <= slice@.len(),
        ensures
            match parse_extent_meta(file_id, table_space_id, slice@) {
                Some(m) => {
                    let bytes = ((m.page_count - 1) as usize) / 4;
                    r matches Ok(e) && e.wf() && e.spec_meta() == m && e.states() == decode_states(
                        slice@.subrange(EXTEND_HEADER_SIZE as int, EXTEND_HEADER_SIZE + bytes),
                        (bytes * 4) as nat,
                    )
                },
                None => r == Err::<Extent, EC>(EC::FatalError),
            },
    {
        let meta = match ExtentMeta::from(file_id, table_space_id, slice) {
            Ok(meta) => meta,
            Err(e) => return Err(e),
        };
        let payload = match ExtentPayload::from(slice, &meta) {
            Ok(payload) => payload,
            Err(e) => return Err(e),
        };
        Ok(Self { meta, payload })
    }

    /// Allocates the first free page of the extent.
    pub fn extent_allocate_page(&mut self) -> (r: Option<u64>)
        requires
            old(self).wf(),
        ensures
            final(self).wf(),
            final(self).spec_meta() == old(self).spec_meta(),
            match r {
                Some(page) => page < old(self).states().len()
                    && old(self).states()[page as int] == QuadState::State0
                    && (forall|j: int| 0 <= j < page ==> old(self).states()[j] != QuadState::State0)
                    && final(self).states() == old(self).states().update(page as int, QuadState::State1),
                None => is_first_from(old(self).states(), 0, state0_filter(), None) && final(self).states()
                    == old(self).states(),
            },
    {
        self.payload.allocate_page()
    }

    pub fn file_id(&self) -> (r: u64)
        ensures
            r == self.spec_meta().file_id,
    {
        self.meta.file_id
    }
}

} // verus!
