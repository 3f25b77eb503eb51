//! The pulse history: a fixed-capacity ring buffer of pulse timestamps,
//! updated from the sensor-edge interrupt, and the windowed snapshot derived
//! from it.
//!
//! The ring itself is `heapless::HistoryBuffer`; its behaviour is stated by
//! the trusted items below over [`history_contents`], and everything computed
//! from the ring is verified against that statement.

use vstd::prelude::*;

verus! {

use vstd::wrapping::u32_specs;

use crate::rpm::{rpm_spec, RpmInfo};
use crate::shared::{Milliseconds, HISTORY_LEN, MAX_DELTATIME};

#[verifier::external_type_specification]
#[verifier::external_body]
#[verifier::reject_recursive_types(T)]
pub struct ExHistoryBuffer<T, const N: usize>(heapless::HistoryBuffer<T, N>);

/// The timestamps a pulse ring buffer holds, oldest first.
pub uninterp spec fn history_contents(h: heapless::HistoryBuffer<u32, HISTORY_LEN>) -> Seq<u32>;

/// One ring insertion at the model level: append `t`, evicting the oldest
/// entry once the ring holds `HISTORY_LEN` values.
pub open spec fn push_evict(s: Seq<u32>, t: u32) -> Seq<u32> {
    if s.len() < HISTORY_LEN {
        s.push(t)
    } else {
        s.drop_first().push(t)
    }
}

/// Relies on `heapless::HistoryBuffer::new`: a fresh buffer holds nothing.
#[verifier::external_body]
fn history_new() -> (h: heapless::HistoryBuffer<u32, HISTORY_LEN>)
    ensures
        history_contents(h) == Seq::<u32>::empty(),
{
    heapless::HistoryBuffer::new()
}

/// Relies on `heapless::HistoryBuffer::write`: appends a value, overwriting
/// the oldest one once the buffer is full.
#[verifier::external_body]
fn history_write(h: &mut heapless::HistoryBuffer<u32, HISTORY_LEN>, t: u32)
    ensures
        history_contents(*final(h)) == push_evict(history_contents(*old(h)), t),
{
    h.write(t);
}

/// Relies on `heapless::HistoryBuffer::oldest_ordered`: yields the stored
/// values from oldest to newest.
#[verifier::external_body]
fn history_oldest_ordered(h: &heapless::HistoryBuffer<u32, HISTORY_LEN>) -> (v: Vec<u32>)
    ensures
        v@ == history_contents(*h),
{
    h.oldest_ordered().copied().collect()
}

/// A recorded (non-sentinel) timestamp within the staleness bound of `time`.
pub open spec fn recent_pulse(t: u32, time: u32) -> bool {
    t != 0 && u32_specs::wrapping_sub(time, t) <= MAX_DELTATIME
}

/// A stored timestamp counts toward the window when it is a recent pulse and
/// not the pulse being recorded right now.
pub open spec fn fresh_pulse(t: u32, time: u32) -> bool {
    recent_pulse(t, time) && t != time
}

/// Index of the oldest in-window timestamp at or after position `i`, or
/// `s.len()` when no position from `i` on holds one.
pub open spec fn first_fresh_from(s: Seq<u32>, time: u32, i: int) -> int
    decreases s.len() - i,
{
    if i < 0 || i >= s.len() {
        s.len() as int
    } else if fresh_pulse(s[i], time) {
        i
    } else {
        first_fresh_from(s, time, i + 1)
    }
}

/// The snapshot derived from ring contents `s` after recording a pulse at
/// `time`: the oldest in-window timestamp, and the number of slots from its
/// position through the newest; `{0, 0}` when no timestamp is in the window.
pub open spec fn window_spec(s: Seq<u32>, time: u32) -> RpmInfo {
    let i = first_fresh_from(s, time, 0);
    if i < s.len() {
        RpmInfo { oldest_sensor_hit_time: s[i], count: (HISTORY_LEN - i) as usize }
    } else {
        RpmInfo { oldest_sensor_hit_time: 0, count: 0 }
    }
}

/// The ring contents after inserting each value of `vs` in order, oldest
/// insertion first.
pub open spec fn push_evict_all(s: Seq<u32>, vs: Seq<u32>) -> Seq<u32>
    decreases vs.len(),
{
    if vs.len() == 0 {
        s
    } else {
        push_evict_all(push_evict(s, vs[0]), vs.drop_first())
    }
}

/// Eviction is strictly FIFO: a full ring always holds exactly its capacity,
/// and after any run of insertions it holds the last `HISTORY_LEN` values of
/// the old contents followed by the inserted ones — in particular, after
/// `HISTORY_LEN + k` insertions it holds the `HISTORY_LEN` most recently
/// inserted values, in insertion order.
pub proof fn lemma_ring_fifo(s: Seq<u32>, vs: Seq<u32>)
    requires
        s.len() == HISTORY_LEN,
    ensures
        push_evict_all(s, vs).len() == HISTORY_LEN,
        push_evict_all(s, vs) == (s + vs).skip(vs.len() as int),
        vs.len() >= HISTORY_LEN ==> push_evict_all(s, vs) == vs.skip(
            vs.len() - HISTORY_LEN as int,
        ),
    decreases vs.len(),
{
    if vs.len() == 0 {
        assert((s + vs).skip(0) =~= s);
    } else {
        let s1 = push_evict(s, vs[0]);
        assert(s1 =~= s.drop_first().push(vs[0]));
        lemma_ring_fifo(s1, vs.drop_first());
        assert(s1 + vs.drop_first() =~= (s + vs).drop_first());
        assert((s1 + vs.drop_first()).skip(vs.len() - 1) =~= (s + vs).skip(vs.len() as int));
        if vs.len() >= HISTORY_LEN {
            assert((s + vs).skip(vs.len() as int) =~= vs.skip(vs.len() - HISTORY_LEN as int));
        }
    }
}

/// How many positions of `s` hold a recorded timestamp within the staleness
/// bound of `time`.
pub open spec fn recent_count(s: Seq<u32>, time: u32) -> nat
    decreases s.len(),
{
    if s.len() == 0 {
        0
    } else {
        (if recent_pulse(s[0], time) {
            1nat
        } else {
            0nat
        }) + recent_count(s.drop_first(), time)
    }
}

/// Counting recent pulses splits at any position.
proof fn lemma_recent_count_split(s: Seq<u32>, time: u32, k: int)
    requires
        0 <= k <= s.len(),
    ensures
        recent_count(s, time) == recent_count(s.take(k), time) + recent_count(s.skip(k), time),
    decreases k,
{
    if k == 0 {
        assert(s.take(0) =~= Seq::<u32>::empty());
        assert(s.skip(0) =~= s);
    } else {
        lemma_recent_count_split(s.drop_first(), time, k - 1);
        assert(s.take(k).drop_first() =~= s.drop_first().take(k - 1));
        assert(s.skip(k) =~= s.drop_first().skip(k - 1));
        assert(s.take(k)[0] == s[0]);
    }
}

/// A position holding a recent pulse makes the count at least one.
proof fn lemma_recent_count_ge_one(s: Seq<u32>, time: u32, i: int)
    requires
        0 <= i < s.len(),
        recent_pulse(s[i], time),
    ensures
        recent_count(s, time) >= 1,
    decreases i,
{
    if i > 0 {
        lemma_recent_count_ge_one(s.drop_first(), time, i - 1);
    }
}

/// When fewer than two recorded timestamps fall within the staleness bound of
/// the pulse just recorded, the derived snapshot holds no window, and the
/// rate computed from it is 0 whatever current time it is paired with.
///
/// The newest slot holds the recorded pulse itself, so a found window always
/// implies a second, strictly older timestamp within the bound.
pub proof fn lemma_sparse_pulses_zero_rpm(s: Seq<u32>, time: u32)
    requires
        s.len() > 0,
        s.last() == time,
        time != 0,
        recent_count(s, time) < 2,
    ensures
        window_spec(s, time) == (RpmInfo { oldest_sensor_hit_time: 0, count: 0 }),
        forall|current_time: u32| rpm_spec(current_time, window_spec(s, time)) == 0,
{
    let len = s.len() as int;
    let i = first_fresh_from(s, time, 0);
    lemma_first_fresh_from_found(s, time, 0);
    if i < len {
        assert(fresh_pulse(s[i], time));
        assert(i != len - 1);
        lemma_recent_count_split(s, time, len - 1);
        lemma_recent_count_ge_one(s.take(len - 1), time, i);
        assert(s.skip(len - 1)[0] == s[len - 1]);
        lemma_recent_count_ge_one(s.skip(len - 1), time, 0);
        assert(false);
    }
}

/// What a finished window scan means: the index it returns is in range and
/// holds an in-window timestamp, or it is `s.len()` and no timestamp from
/// position `i` on is in the window.
proof fn lemma_first_fresh_from_found(s: Seq<u32>, time: u32, i: int)
    requires
        0 <= i <= s.len(),
    ensures
        i <= first_fresh_from(s, time, i) <= s.len(),
        first_fresh_from(s, time, i) < s.len() ==> fresh_pulse(
            s[first_fresh_from(s, time, i)],
            time,
        ),
    decreases s.len() - i,
{
    if i < s.len() && !fresh_pulse(s[i], time) {
        lemma_first_fresh_from_found(s, time, i + 1);
    }
}

/// The pulse history: the timestamp ring plus the snapshot computed at the
/// last recorded pulse. Writers run in interrupt context; readers take the
/// snapshot. The surrounding application must wrap each method call in its
/// critical section so no torn state is ever observed.
pub struct PulseHistory {
    buffer: heapless::HistoryBuffer<u32, HISTORY_LEN>,
    snapshot: RpmInfo,
}

impl PulseHistory {
    /// The recorded timestamps, oldest first.
    pub closed spec fn contents(self) -> Seq<u32> {
        history_contents(self.buffer)
    }

    /// The stored snapshot.
    pub closed spec fn snapshot_of(self) -> RpmInfo {
        self.snapshot
    }

    /// The ring always holds exactly `HISTORY_LEN` slots, and the snapshot
    /// never counts more than the ring holds.
    pub open spec fn wf(self) -> bool {
        &&& self.contents().len() == HISTORY_LEN
        &&& self.snapshot_of().count <= HISTORY_LEN
    }

    /// Initialize the history: every slot filled with the sentinel 0, and no
    /// window in the snapshot.
    pub fn new() -> (history: PulseHistory)
        ensures
            history.wf(),
            history.contents() == Seq::new(HISTORY_LEN as nat, |i: int| 0u32),
            history.snapshot_of() == (RpmInfo { oldest_sensor_hit_time: 0, count: 0 }),
    {
        let mut buffer = history_new();
        let mut k: usize = 0;
        while k < HISTORY_LEN
            invariant
                k <= HISTORY_LEN,
                history_contents(buffer) == Seq::new(k as nat, |i: int| 0u32),
            decreases HISTORY_LEN - k,
        {
            history_write(&mut buffer, 0);
            proof {
                assert(history_contents(buffer) =~= Seq::new((k + 1) as nat, |i: int| 0u32));
            }
            k += 1;
        }
        PulseHistory { buffer, snapshot: RpmInfo { oldest_sensor_hit_time: 0, count: 0 } }
    }

    /// Record a pulse at `time`, as the sensor-edge interrupt does: insert
    /// the timestamp (evicting the oldest slot), then scan the ring from
    /// oldest to newest for the oldest in-window pulse and store the derived
    /// snapshot.
    pub fn record_pulse(&mut self, time: Milliseconds)
        requires
            old(self).wf(),
        ensures
            final(self).wf(),
            final(self).contents() == push_evict(old(self).contents(), time),
            final(self).snapshot_of() == window_spec(final(self).contents(), time),
    {
        history_write(&mut self.buffer, time);
        let v = history_oldest_ordered(&self.buffer);
        let len = v.len();
        let mut i: usize = 0;
        while i < len && !(v[i] != 0 && time.wrapping_sub(v[i]) <= MAX_DELTATIME && v[i] != time)
            invariant
                len == v@.len(),
                i <= len,
                first_fresh_from(v@, time, 0) == first_fresh_from(v@, time, i as int),
            decreases len - i,
        {
            i += 1;
        }
        if i < len {
            self.snapshot = RpmInfo {
                oldest_sensor_hit_time: v[i],
                count: HISTORY_LEN - i,
            };
        } else {
            self.snapshot = RpmInfo { oldest_sensor_hit_time: 0, count: 0 };
        }
    }

    /// Copy out the stored snapshot. The result is determined by the stored
    /// state alone, so reading twice with no intervening
    /// [`PulseHistory::record_pulse`] yields identical values.
    pub fn read_snapshot(&self) -> (info: RpmInfo)
        ensures
            info == self.snapshot_of(),
    {
        self.snapshot
    }
}

} // verus!
