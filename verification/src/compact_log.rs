//! The compact log codec: bit-packed encoding of events and clock pairs.
//!
//! In a stream of `CompactLogItem` words:
//! - if the top bit of a word is clear, the word records an event id;
//! - if the top bit is set, the remaining bits are a probe id, and the next
//!   word in the stream is the corresponding clock count. The pair is
//!   inseparable and positionally, not structurally, linked.
//!
//! The stream is self-describing: segment boundaries are recovered from the
//! discriminator bit alone, with no separate index and O(1) working memory.

use vstd::prelude::*;

use crate::clock::LogicalClock;
use crate::id::EventId;
use crate::id::ProbeId;
use crate::id::TracerId;
use crate::id::MAX_PROBE_ID;

verus! {

/// The discriminator: set in the first word of a clock pair, clear in an
/// event word.
pub const CLOCK_MASK: u32 = 0x8000_0000;

/// The complement of the discriminator: the payload bits of a word.
pub const PAYLOAD_MASK: u32 = 0x7FFF_FFFF;

/// Whether a raw word is the first word of a clock pair.
pub open spec fn is_clock_word(w: u32) -> bool {
    w >= 0x8000_0000
}

/// The raw word that encodes the probe id of a clock pair.
pub open spec fn clock_id_word(id: u32) -> u32 {
    id | 0x8000_0000u32
}

/// The probe id recovered from the first word of a clock pair.
pub open spec fn clock_id_of(w: u32) -> u32 {
    w & 0x7FFF_FFFFu32
}

/// Setting the discriminator bit on a 31-bit id keeps the payload intact,
/// and masking it off recovers the id exactly.
pub proof fn lemma_clock_id_word_recovers(id: u32)
    requires
        id <= MAX_PROBE_ID,
    ensures
        is_clock_word(clock_id_word(id)),
        clock_id_of(clock_id_word(id)) == id,
{
    assert((id | 0x8000_0000u32) >= 0x8000_0000) by (bit_vector);
    assert(((id | 0x8000_0000u32) & 0x7FFF_FFFFu32) == id) by (bit_vector)
        requires
            id <= 0x7FFF_FFFFu32,
    ;
}

proof fn lemma_clock_bit_test(w: u32)
    ensures
        (w & 0x8000_0000u32) != 0 <==> w >= 0x8000_0000,
{
    assert((w & 0x8000_0000u32) != 0 <==> w >= 0x8000_0000) by (bit_vector);
}

/// One 32-bit word of the compact log.
#[derive(Debug, Clone, Copy, PartialEq, Eq, Structural)]
pub struct CompactLogItem(pub u32);

impl View for CompactLogItem {
    type V = u32;

    open spec fn view(&self) -> u32 {
        self.0
    }
}

impl CompactLogItem {
    /// A bare event word. The construction checks on `EventId` guarantee
    /// that the discriminator bit is clear.
    pub fn event(event_id: EventId) -> (r: Self)
        ensures
            r@ == event_id@,
            !is_clock_word(r@),
    {
        CompactLogItem(event_id.get_raw())
    }

    /// A clock pair: the first word carries the probe id with the
    /// discriminator bit set; the second word is the raw count,
    /// unconditionally, regardless of that word's own top bit.
    ///
    /// Don't separate the two words!
    pub fn clock(clock: LogicalClock) -> (r: (Self, Self))
        ensures
            r.0@ == clock_id_word(clock.id),
            is_clock_word(r.0@),
            r.1@ == clock.count,
            clock.id <= MAX_PROBE_ID ==> clock_id_of(r.0@) == clock.id,
    {
        proof {
            let cid = clock.id;
            assert((cid | 0x8000_0000u32) >= 0x8000_0000) by (bit_vector);
            if clock.id <= MAX_PROBE_ID {
                lemma_clock_id_word_recovers(clock.id);
            }
        }
        let id = clock.id | CLOCK_MASK;
        (CompactLogItem(id), CompactLogItem(clock.count))
    }

    /// Whether this word is the first word of a clock pair.
    pub fn is_first_bit_set(self) -> (r: bool)
        ensures
            r == is_clock_word(self@),
    {
        proof {
            lemma_clock_bit_test(self.0);
        }
        (self.0 & CLOCK_MASK) != 0
    }

    /// The raw backing word.
    pub fn raw(self) -> (r: u32)
        ensures
            r == self@,
    {
        self.0
    }

    /// Unset the top bit to get the original probe id of a clock pair back
    /// out.
    pub fn interpret_as_logical_clock_probe_id(self) -> (r: u32)
        ensures
            r == clock_id_of(self@),
    {
        self.0 & PAYLOAD_MASK
    }

    /// The historical name of
    /// [`interpret_as_logical_clock_probe_id`](Self::interpret_as_logical_clock_probe_id).
    pub fn interpret_as_logical_clock_tracer_id(self) -> (r: u32)
        ensures
            r == clock_id_of(self@),
    {
        self.interpret_as_logical_clock_probe_id()
    }

}

/// The two words of a clock pair, as a sequence.
pub open spec fn clock_pair(clock: LogicalClock) -> Seq<CompactLogItem> {
    seq![CompactLogItem(clock_id_word(clock.id)), CompactLogItem(clock.count)]
}

/// A well-formed compact log stream: every word that opens a clock pair is
/// followed by its count word. Bare event words may appear anywhere between
/// pairs.
pub open spec fn log_wf(s: Seq<CompactLogItem>) -> bool
    decreases s.len(),
{
    if s.len() == 0 {
        true
    } else if !is_clock_word(s[0]@) {
        log_wf(s.skip(1))
    } else {
        s.len() >= 2 && log_wf(s.skip(2))
    }
}

/// The length of the clock region that opens the stream `s`: complete clock
/// pairs are accumulated while the discriminator bit is set, except that a
/// pair whose probe id equals `local_id` forces a segment boundary unless it
/// is the very first pair (`first`). That sentinel disambiguates two
/// adjacent all-clock segments with no intervening event.
pub open spec fn clock_region_len(s: Seq<CompactLogItem>, local_id: u32, first: bool) -> nat
    decreases s.len(),
{
    if s.len() < 2 || !is_clock_word(s[0]@) {
        0
    } else if !first && clock_id_of(s[0]@) == local_id {
        0
    } else {
        (2 + clock_region_len(s.skip(2), local_id, false)) as nat
    }
}

/// The length of the run of bare event words that opens the stream `s`.
pub open spec fn event_region_len(s: Seq<CompactLogItem>) -> nat
    decreases s.len(),
{
    if s.len() == 0 || is_clock_word(s[0]@) {
        0
    } else {
        (1 + event_region_len(s.skip(1))) as nat
    }
}

/// The length of the first segment of `s`: its clock region followed by its
/// event region.
pub open spec fn segment_len(s: Seq<CompactLogItem>, local_id: u32) -> nat {
    clock_region_len(s, local_id, true) + event_region_len(
        s.skip(clock_region_len(s, local_id, true) as int),
    )
}

/// The number of segments that `s` splits into.
pub open spec fn spec_count_segments(s: Seq<CompactLogItem>, local_id: u32) -> nat
    decreases s.len(),
{
    if s.len() == 0 {
        0
    } else {
        let k = segment_len(s, local_id);
        if k == 0 || k > s.len() {
            1
        } else {
            (1 + spec_count_segments(s.skip(k as int), local_id)) as nat
        }
    }
}

proof fn lemma_skip_skip<T>(s: Seq<T>, a: int, b: int)
    requires
        0 <= a,
        0 <= b,
        a + b <= s.len(),
    ensures
        s.skip(a).skip(b) == s.skip(a + b),
{
    assert(s.skip(a).skip(b) =~= s.skip(a + b));
}

pub proof fn lemma_clock_region_len_le(s: Seq<CompactLogItem>, local_id: u32, first: bool)
    ensures
        clock_region_len(s, local_id, first) <= s.len(),
    decreases s.len(),
{
    if s.len() >= 2 && is_clock_word(s[0]@) && (first || clock_id_of(s[0]@) != local_id) {
        lemma_clock_region_len_le(s.skip(2), local_id, false);
    }
}

pub proof fn lemma_event_region_len_le(s: Seq<CompactLogItem>)
    ensures
        event_region_len(s) <= s.len(),
    decreases s.len(),
{
    if s.len() > 0 && !is_clock_word(s[0]@) {
        lemma_event_region_len_le(s.skip(1));
    }
}

proof fn lemma_wf_skip_clock_region(s: Seq<CompactLogItem>, local_id: u32, first: bool)
    requires
        log_wf(s),
    ensures
        log_wf(s.skip(clock_region_len(s, local_id, first) as int)),
    decreases s.len(),
{
    if s.len() >= 2 && is_clock_word(s[0]@) && (first || clock_id_of(s[0]@) != local_id) {
        lemma_wf_skip_clock_region(s.skip(2), local_id, false);
        lemma_clock_region_len_le(s.skip(2), local_id, false);
        lemma_skip_skip(s, 2, clock_region_len(s.skip(2), local_id, false) as int);
    } else {
        assert(s.skip(0) =~= s);
    }
}

proof fn lemma_wf_skip_event_region(s: Seq<CompactLogItem>)
    requires
        log_wf(s),
    ensures
        log_wf(s.skip(event_region_len(s) as int)),
    decreases s.len(),
{
    if s.len() > 0 && !is_clock_word(s[0]@) {
        lemma_wf_skip_event_region(s.skip(1));
        lemma_event_region_len_le(s.skip(1));
        lemma_skip_skip(s, 1, event_region_len(s.skip(1)) as int);
    } else {
        assert(s.skip(0) =~= s);
    }
}

/// Consuming one segment of a well-formed, non-empty stream removes at
/// least one word, leaves a well-formed remainder, and accounts for exactly
/// one counted segment.
pub proof fn lemma_segment_consume(s: Seq<CompactLogItem>, local_id: u32)
    requires
        log_wf(s),
        s.len() > 0,
    ensures
        1 <= segment_len(s, local_id) <= s.len(),
        log_wf(s.skip(segment_len(s, local_id) as int)),
        spec_count_segments(s, local_id) == 1 + spec_count_segments(
            s.skip(segment_len(s, local_id) as int),
            local_id,
        ),
{
    let cl = clock_region_len(s, local_id, true);
    lemma_clock_region_len_le(s, local_id, true);
    lemma_event_region_len_le(s.skip(cl as int));
    if is_clock_word(s[0]@) {
        assert(s.len() >= 2);
        assert(cl >= 2);
    } else {
        assert(cl == 0);
        assert(s.skip(0) =~= s);
        assert(event_region_len(s) >= 1);
    }
    lemma_wf_skip_clock_region(s, local_id, true);
    lemma_wf_skip_event_region(s.skip(cl as int));
    let el = event_region_len(s.skip(cl as int));
    lemma_skip_skip(s, cl as int, el as int);
}

/// Two adjacent clock-only segments with no intervening event, where the
/// second segment's leading clock pair carries the local probe id, count as
/// two segments, not one: the local id is the marker that separates them.
pub proof fn lemma_adjacent_clock_only_segments(
    lc1: LogicalClock,
    lc2: LogicalClock,
    local_id: u32,
)
    requires
        lc1.id <= MAX_PROBE_ID,
        lc2.id <= MAX_PROBE_ID,
        lc2.id == local_id,
    ensures
        spec_count_segments(clock_pair(lc1) + clock_pair(lc2), local_id) == 2,
{
    let s = clock_pair(lc1) + clock_pair(lc2);
    lemma_clock_id_word_recovers(lc1.id);
    lemma_clock_id_word_recovers(lc2.id);
    assert(s.len() == 4);
    assert(s[0] == clock_pair(lc1)[0]);
    assert(s[2] == clock_pair(lc2)[0]);
    assert(s.skip(2) =~= clock_pair(lc2));
    // The first segment is exactly the first pair: the second pair carries
    // the local id and forces the boundary.
    assert(clock_region_len(s.skip(2), local_id, false) == 0);
    assert(clock_region_len(s, local_id, true) == 2);
    assert(event_region_len(s.skip(2)) == 0);
    assert(segment_len(s, local_id) == 2);
    // The second segment is exactly the second pair.
    let t = s.skip(2);
    assert(t.skip(2) =~= Seq::<CompactLogItem>::empty());
    assert(t.len() == 2);
    assert(is_clock_word(t[0]@));
    assert(clock_region_len(t.skip(2), local_id, false) == 0);
    assert(clock_region_len(t, local_id, true) == 2);
    assert(t.skip(clock_region_len(t, local_id, true) as int).len() == 0);
    assert(segment_len(t, local_id) == 2);
    assert(spec_count_segments(t.skip(2), local_id) == 0);
    assert(spec_count_segments(t, local_id) == 1);
    assert(spec_count_segments(s, local_id) == 2);
}

/// One segment split off the front of a compact log stream.
pub struct SplitSegment {
    /// The run of complete clock pairs that opens the segment.
    pub clock_region: Vec<CompactLogItem>,
    /// The run of bare event words that follows the clock region.
    pub event_region: Vec<CompactLogItem>,
    /// Whatever remains of the stream after this segment.
    pub rest: Vec<CompactLogItem>,
}

impl SplitSegment {
    /// Whether nothing at all was split off: the input stream was empty.
    pub fn is_empty(&self) -> (r: bool)
        ensures
            r == (self.clock_region@.len() == 0 && self.event_region@.len() == 0
                && self.rest@.len() == 0),
    {
        self.clock_region.len() == 0 && self.event_region.len() == 0 && self.rest.len() == 0
    }
}

/// Split the next segment off the front of `items`.
///
/// Scans forward two words at a time while the discriminator bit is set,
/// accumulating a clock region; accumulation stops early at a clock pair
/// whose probe id equals `local_probe_id` (unless it is the first pair) —
/// that sentinel disambiguates two adjacent all-clock segments that have no
/// intervening event to mark the boundary. After the clock region, a run of
/// bare event words is accumulated until the next set discriminator bit or
/// the end of input.
pub fn split_next_segment(items: &Vec<CompactLogItem>, local_probe_id: TracerId) -> (r:
    SplitSegment)
    requires
        log_wf(items@),
    ensures
        ({
            let cl = clock_region_len(items@, local_probe_id@, true) as int;
            let el = event_region_len(items@.skip(cl)) as int;
            r.clock_region@ == items@.subrange(0, cl) && r.event_region@ == items@.subrange(
                cl,
                cl + el,
            ) && r.rest@ == items@.skip(cl + el)
        }),
{
    let local_raw = local_probe_id.get_raw();
    let n = items.len();

    // Split off the clock region.
    let mut num_clock_items: usize = 0;
    proof {
        assert(items@.skip(0) =~= items@);
    }
    while num_clock_items < n && items[num_clock_items].is_first_bit_set()
        invariant_except_break
            n == items@.len(),
            local_raw == local_probe_id@,
            num_clock_items <= n,
            log_wf(items@),
            log_wf(items@.skip(num_clock_items as int)),
            clock_region_len(items@, local_raw, true) == num_clock_items + clock_region_len(
                items@.skip(num_clock_items as int),
                local_raw,
                num_clock_items == 0,
            ),
        ensures
            n == items@.len(),
            local_raw == local_probe_id@,
            num_clock_items <= n,
            log_wf(items@.skip(num_clock_items as int)),
            clock_region_len(items@, local_raw, true) == num_clock_items,
        decreases n - num_clock_items,
    {
        let item = items[num_clock_items];
        proof {
            assert(items@.skip(num_clock_items as int)[0] == items@[num_clock_items as int]);
            assert(items@.skip(num_clock_items as int).len() >= 2);
        }
        if num_clock_items > 0 && item.interpret_as_logical_clock_probe_id() == local_raw {
            // Two adjacent clock-only segments: force the boundary here.
            break ;
        }
        proof {
            lemma_skip_skip(items@, num_clock_items as int, 2);
        }
        num_clock_items = num_clock_items + 2;
    }
    let cl = num_clock_items;
    let mut clock_region: Vec<CompactLogItem> = Vec::new();
    let mut i: usize = 0;
    while i < cl
        invariant
            n == items@.len(),
            cl <= n,
            i <= cl,
            clock_region@ == items@.subrange(0, i as int),
        decreases cl - i,
    {
        clock_region.push(items[i]);
        proof {
            assert(items@.subrange(0, i as int).push(items@[i as int]) =~= items@.subrange(
                0,
                i + 1,
            ));
        }
        i = i + 1;
    }

    // Find how many events there are before we either run out of items or
    // bump into another clock region.
    let mut num_event_items: usize = 0;
    while cl + num_event_items < n && !items[cl + num_event_items].is_first_bit_set()
        invariant
            n == items@.len(),
            cl <= n,
            num_event_items <= n - cl,
            event_region_len(items@.skip(cl as int)) == num_event_items + event_region_len(
                items@.skip(cl + num_event_items),
            ),
        decreases n - cl - num_event_items,
    {
        proof {
            assert(items@.skip(cl + num_event_items)[0] == items@[cl + num_event_items]);
            lemma_skip_skip(items@, cl + num_event_items, 1);
        }
        num_event_items = num_event_items + 1;
    }
    let el = num_event_items;
    let mut event_region: Vec<CompactLogItem> = Vec::new();
    let mut j: usize = 0;
    while j < el
        invariant
            n == items@.len(),
            cl + el <= n,
            j <= el,
            event_region@ == items@.subrange(cl as int, cl + j),
        decreases el - j,
    {
        event_region.push(items[cl + j]);
        proof {
            assert(items@.subrange(cl as int, cl + j).push(items@[cl + j]) =~= items@.subrange(
                cl as int,
                cl + j + 1,
            ));
        }
        j = j + 1;
    }

    let mut rest: Vec<CompactLogItem> = Vec::new();
    let mut k: usize = cl + el;
    while k < n
        invariant
            n == items@.len(),
            cl + el <= k <= n,
            rest@ == items@.subrange(cl + el, k as int),
        decreases n - k,
    {
        rest.push(items[k]);
        proof {
            assert(items@.subrange(cl + el, k as int).push(items@[k as int]) =~= items@.subrange(
                cl + el,
                k + 1,
            ));
        }
        k = k + 1;
    }
    proof {
        assert(items@.subrange(cl + el, n as int) =~= items@.skip(cl + el));
    }

    SplitSegment { clock_region, event_region, rest }
}

/// Count the segments of `items` by repeatedly splitting the next segment
/// off until nothing remains. Used by reporting logic to chunk the
/// continuous log into discrete (clock-state, subsequent-events) units
/// without any auxiliary index.
pub fn count_segments(items: &Vec<CompactLogItem>, local_probe_id: TracerId) -> (r: usize)
    requires
        log_wf(items@),
    ensures
        r == spec_count_segments(items@, local_probe_id@),
{
    let n = items.len();
    let mut num_segments: usize = 0;
    let ghost mut remaining: Seq<CompactLogItem> = items@;
    let mut segment = split_next_segment(items, local_probe_id);
    while !(segment.clock_region.len() == 0 && segment.event_region.len() == 0
        && segment.rest.len() == 0)
        invariant
            n == items@.len(),
            log_wf(remaining),
            num_segments + spec_count_segments(remaining, local_probe_id@)
                == spec_count_segments(items@, local_probe_id@),
            num_segments + remaining.len() <= n,
            ({
                let cl = clock_region_len(remaining, local_probe_id@, true) as int;
                let el = event_region_len(remaining.skip(cl)) as int;
                segment.clock_region@ == remaining.subrange(0, cl) && segment.event_region@
                    == remaining.subrange(cl, cl + el) && segment.rest@ == remaining.skip(cl + el)
            }),
        decreases remaining.len(),
    {
        proof {
            let cl = clock_region_len(remaining, local_probe_id@, true) as int;
            let el = event_region_len(remaining.skip(cl)) as int;
            lemma_clock_region_len_le(remaining, local_probe_id@, true);
            lemma_event_region_len_le(remaining.skip(cl));
            if remaining.len() == 0 {
                assert(segment.clock_region@.len() == 0 && segment.event_region@.len() == 0
                    && segment.rest@.len() == 0);
            }
            lemma_segment_consume(remaining, local_probe_id@);
        }
        num_segments = num_segments + 1;
        let next = split_next_segment(&segment.rest, local_probe_id);
        proof {
            remaining = remaining.skip(segment_len(remaining, local_probe_id@) as int);
        }
        segment = next;
    }
    proof {
        let cl = clock_region_len(remaining, local_probe_id@, true) as int;
        let el = event_region_len(remaining.skip(cl)) as int;
        lemma_clock_region_len_le(remaining, local_probe_id@, true);
        lemma_event_region_len_le(remaining.skip(cl));
        if remaining.len() > 0 {
            lemma_segment_consume(remaining, local_probe_id@);
            assert(segment.clock_region@.len() + segment.event_region@.len()
                >= 1);
        }
    }
    num_segments
}

} // verus!
