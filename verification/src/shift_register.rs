//! An arbitrarily-long latching shift register that updates all output
//! drains at once.
//!
//! The driver is a synchronous state machine: every operation returns the
//! exact sequence of pin actions (levels on the serial-data, clock and latch
//! lines, and busy-waits) that realizes the wire protocol, and the caller
//! performs them in order on the physical outputs. Shifting the N-th bit of
//! a pass latches automatically, so a full pass transfers the shadow
//! register to the output pins atomically, with no visible mid-shift state.

use vstd::prelude::*;

verus! {

use crate::shared::{PinState, LOW};

/// Setup time of the serial-data line before the clock's rising edge, from
/// the driver chip's datasheet.
pub const SERIAL_RISING_EDGE_PADDING_NS: u32 = 10;

/// Hold time of the serial-data line after the clock's rising edge.
pub const SERIAL_FALLING_EDGE_PADDING_NS: u32 = SERIAL_RISING_EDGE_PADDING_NS;

/// Minimum width of a clock pulse.
pub const CLOCK_WIDTH_NS: u32 = 20;

/// Minimum width of a latch pulse.
pub const LATCH_WIDTH_NS: u32 = CLOCK_WIDTH_NS;

/// One step of the bit-banged wire protocol, performed in order on the three
/// output lines by the surrounding application.
#[derive(Clone, Copy, Debug, PartialEq, Eq, Structural)]
pub enum PinAction {
    /// Drive the serial-data line to the given level.
    SetSerialInput(bool),
    /// Drive the clock line to the given level.
    SetClock(bool),
    /// Drive the latch line to the given level.
    SetLatch(bool),
    /// Busy-wait for the given duration before the next action.
    Wait(u32),
}

/// The pin actions that shift one bit into the register: present the bit on
/// the serial-data line, clock it in on a rising edge, and return both lines
/// to idle, with the datasheet setup and hold delays in between.
pub open spec fn shift_actions(state: bool) -> Seq<PinAction> {
    seq![
        PinAction::SetSerialInput(state),
        PinAction::Wait(SERIAL_RISING_EDGE_PADDING_NS),
        PinAction::SetClock(true),
        PinAction::Wait(SERIAL_FALLING_EDGE_PADDING_NS),
        PinAction::SetSerialInput(false),
        PinAction::Wait((CLOCK_WIDTH_NS - SERIAL_FALLING_EDGE_PADDING_NS) as u32),
        PinAction::SetClock(false),
    ]
}

/// The pin actions of one latch pulse: the shadow register becomes the
/// visible output.
pub open spec fn latch_actions() -> Seq<PinAction> {
    seq![
        PinAction::SetLatch(false),
        PinAction::Wait(LATCH_WIDTH_NS),
        PinAction::SetLatch(true),
    ]
}

/// Generic shift register with automatic latching for every `N` bits.
///
/// `is_latched` says whether the outputs currently show the shadow register;
/// the private state tracks how many bits of the current pass have been
/// shifted and mirrors the bit array last presented on the outputs.
pub struct ShiftRegister<const N: usize> {
    /// Whether the outputs show everything shifted so far.
    pub is_latched: bool,
    current_shifted_bit: usize,
    bit_array: Vec<PinState>,
}

impl<const N: usize> ShiftRegister<N> {
    /// Whether the outputs show everything shifted so far.
    pub closed spec fn latched(self) -> bool {
        self.is_latched
    }

    /// How many bits of the current pass have been shifted out.
    pub closed spec fn shifted(self) -> int {
        self.current_shifted_bit as int
    }

    /// The cached mirror of the bit array on the outputs, first physical
    /// output first.
    pub closed spec fn mirror(self) -> Seq<bool> {
        self.bit_array@
    }

    /// The mirror always holds exactly `N` bits, and a pass never counts `N`
    /// or more bits as already shifted.
    pub open spec fn wf(self) -> bool {
        &&& self.mirror().len() == N
        &&& 0 <= self.shifted() < N
    }

    /// A fresh driver: nothing shifted yet, outputs not latched, mirror all
    /// low.
    pub fn new() -> (sr: Self)
        requires
            0 < N,
            N % 8 == 0,
        ensures
            sr.wf(),
            sr.mirror() == Seq::new(N as nat, |i: int| false),
            sr.shifted() == 0,
            !sr.latched(),
    {
        let mut bit_array: Vec<PinState> = Vec::new();
        let mut k: usize = 0;
        while k < N
            invariant
                k <= N,
                bit_array@ == Seq::new(k as nat, |i: int| false),
            decreases N - k,
        {
            bit_array.push(LOW);
            proof {
                assert(bit_array@ =~= Seq::new((k + 1) as nat, |i: int| false));
            }
            k += 1;
        }
        ShiftRegister { is_latched: false, current_shifted_bit: 0, bit_array }
    }

    /// Shift one bit out. When it is the `N`-th bit of the pass, the
    /// register latches automatically and the pass counter resets; otherwise,
    /// if `update_bit_array` is set, the mirror rotates one position and the
    /// new bit enters at the front.
    pub fn shift_out(&mut self, state: PinState, update_bit_array: bool) -> (actions: Vec<
        PinAction,
    >)
        requires
            old(self).wf(),
        ensures
            final(self).wf(),
            final(self).shifted() == if old(self).shifted() + 1 == N {
                0int
            } else {
                old(self).shifted() + 1
            },
            final(self).latched() == if old(self).shifted() + 1 == N {
                true
            } else if update_bit_array {
                false
            } else {
                old(self).latched()
            },
            final(self).mirror() == if old(self).shifted() + 1 != N && update_bit_array {
                seq![state] + old(self).mirror().drop_last()
            } else {
                old(self).mirror()
            },
            actions@ == shift_actions(state) + if old(self).shifted() + 1 == N {
                latch_actions()
            } else {
                Seq::<PinAction>::empty()
            },
    {
        let mut actions: Vec<PinAction> = Vec::new();

        // Rising edge of the serial-data line (setup).
        actions.push(PinAction::SetSerialInput(state));
        actions.push(PinAction::Wait(SERIAL_RISING_EDGE_PADDING_NS));

        // Rising edge of the clock pulse captures the bit.
        actions.push(PinAction::SetClock(true));

        // Falling edge of the serial-data line (tie to ground again).
        actions.push(PinAction::Wait(SERIAL_FALLING_EDGE_PADDING_NS));
        actions.push(PinAction::SetSerialInput(false));

        // Falling edge of the clock pulse.
        actions.push(PinAction::Wait(CLOCK_WIDTH_NS - SERIAL_FALLING_EDGE_PADDING_NS));
        actions.push(PinAction::SetClock(false));

        // Latch if all bits were shifted out.
        let current = self.current_shifted_bit + 1;
        self.current_shifted_bit = current;
        if current == N {
            let mut latch_acts = self.latch();
            actions.append(&mut latch_acts);
            proof {
                assert(actions@ =~= shift_actions(state) + latch_actions());
            }
            return actions;
        }

        // No latching; update the mirror.
        if update_bit_array {
            self.bit_array.pop();
            self.bit_array.insert(0, state);
            self.is_latched = false;
            proof {
                assert(self.bit_array@ =~= seq![state] + old(self).mirror().drop_last());
            }
        }
        proof {
            assert(actions@ =~= shift_actions(state) + Seq::<PinAction>::empty());
        }
        actions
    }

    /// Pulse the latch line, transferring the fully shifted shadow register
    /// to the output pins, and reset the pass counter.
    pub fn latch(&mut self) -> (actions: Vec<PinAction>)
        ensures
            final(self).latched(),
            final(self).shifted() == 0,
            final(self).mirror() == old(self).mirror(),
            actions@ == latch_actions(),
    {
        self.is_latched = true;

        let mut actions: Vec<PinAction> = Vec::new();
        actions.push(PinAction::SetLatch(false));
        actions.push(PinAction::Wait(LATCH_WIDTH_NS));
        actions.push(PinAction::SetLatch(true));

        self.current_shifted_bit = 0;
        proof {
            assert(actions@ =~= latch_actions());
        }
        actions
    }

    /// Shift out a whole bit array, last element first, so that after the
    /// automatic latch the first array element appears at the first physical
    /// output; then remember the array as the mirror of the displayed
    /// outputs.
    pub fn set_bit_array(&mut self, bit_array: Vec<PinState>) -> (actions: Vec<PinAction>)
        requires
            old(self).wf(),
            bit_array@.len() == N,
        ensures
            final(self).wf(),
            final(self).mirror() == bit_array@,
            final(self).shifted() == old(self).shifted(),
            final(self).latched(),
            actions@ == pass_actions(bit_array@, old(self).shifted(), N as int),
    {
        let ghost c0 = old(self).shifted();
        let mut actions: Vec<PinAction> = Vec::new();
        let mut k: usize = 0;
        while k < N
            invariant
                0 < N,
                k <= N,
                0 <= c0 < N,
                bit_array@.len() == N,
                self.mirror().len() == N,
                self.shifted() == if c0 + k < N {
                    c0 + k
                } else {
                    c0 + k - N
                },
                c0 + k >= N ==> self.is_latched,
                actions@ == pass_actions(bit_array@, c0, k as int),
            decreases N - k,
        {
            let state = bit_array[N - 1 - k];
            let mut acts = self.shift_out(state, false);
            actions.append(&mut acts);
            proof {
                assert(actions@ =~= pass_actions(bit_array@, c0, (k + 1) as int));
            }
            k += 1;
        }
        self.bit_array = bit_array;
        actions
    }

    /// The cached mirror of the bit array currently on the outputs.
    pub fn bit_array(&self) -> (bits: &Vec<PinState>)
        ensures
            bits@ == self.mirror(),
    {
        &self.bit_array
    }
}

/// The pin actions of the first `k` single-bit shifts of a pass that sends
/// `bits` out in reverse element order, with `c` bits counted as already
/// shifted when the pass begins: each shift's wire protocol, with the
/// automatic latch pulse where the running count reaches the register width.
pub open spec fn pass_actions(bits: Seq<bool>, c: int, k: int) -> Seq<PinAction>
    decreases k,
{
    if k <= 0 {
        Seq::empty()
    } else {
        pass_actions(bits, c, k - 1) + shift_actions(bits[bits.len() - k]) + if c + k
            == bits.len() {
            latch_actions()
        } else {
            Seq::<PinAction>::empty()
        }
    }
}

/// How many latch pulses an action sequence performs: one per time the latch
/// line is driven low.
pub open spec fn latch_pulse_count(s: Seq<PinAction>) -> nat
    decreases s.len(),
{
    if s.len() == 0 {
        0
    } else {
        (if s[0] == PinAction::SetLatch(false) {
            1nat
        } else {
            0nat
        }) + latch_pulse_count(s.drop_first())
    }
}

/// How many bits an action sequence clocks into the register: one per rising
/// edge of the clock line.
pub open spec fn clock_rise_count(s: Seq<PinAction>) -> nat
    decreases s.len(),
{
    if s.len() == 0 {
        0
    } else {
        (if s[0] == PinAction::SetClock(true) {
            1nat
        } else {
            0nat
        }) + clock_rise_count(s.drop_first())
    }
}

/// Both counts distribute over concatenation.
proof fn lemma_counts_concat(a: Seq<PinAction>, b: Seq<PinAction>)
    ensures
        latch_pulse_count(a + b) == latch_pulse_count(a) + latch_pulse_count(b),
        clock_rise_count(a + b) == clock_rise_count(a) + clock_rise_count(b),
    decreases a.len(),
{
    if a.len() == 0 {
        assert(a + b =~= b);
    } else {
        lemma_counts_concat(a.drop_first(), b);
        assert((a + b).drop_first() =~= a.drop_first() + b);
        assert((a + b)[0] == a[0]);
    }
}

/// A single-bit shift clocks exactly one bit in and never touches the latch
/// line; a latch pulse touches it exactly once and never the clock line.
proof fn lemma_protocol_counts(state: bool)
    ensures
        latch_pulse_count(shift_actions(state)) == 0,
        clock_rise_count(shift_actions(state)) == 1,
        latch_pulse_count(latch_actions()) == 1,
        clock_rise_count(latch_actions()) == 0,
        latch_pulse_count(Seq::<PinAction>::empty()) == 0,
        clock_rise_count(Seq::<PinAction>::empty()) == 0,
{
    reveal_with_fuel(latch_pulse_count, 9);
    reveal_with_fuel(clock_rise_count, 9);
    assert(shift_actions(state).drop_first() =~= seq![
        PinAction::Wait(SERIAL_RISING_EDGE_PADDING_NS),
        PinAction::SetClock(true),
        PinAction::Wait(SERIAL_FALLING_EDGE_PADDING_NS),
        PinAction::SetSerialInput(false),
        PinAction::Wait((CLOCK_WIDTH_NS - SERIAL_FALLING_EDGE_PADDING_NS) as u32),
        PinAction::SetClock(false),
    ]);
}

/// Counts over a partial pass: `k` shifts clock in `k` bits, and the latch
/// pulse has happened exactly once as soon as the running count has reached
/// the register width.
proof fn lemma_pass_counts(bits: Seq<bool>, c: int, k: int)
    requires
        0 <= c < bits.len(),
        0 <= k <= bits.len(),
    ensures
        clock_rise_count(pass_actions(bits, c, k)) == k,
        latch_pulse_count(pass_actions(bits, c, k)) == if c + k >= bits.len() {
            1int
        } else {
            0int
        },
    decreases k,
{
    if k == 0 {
        lemma_protocol_counts(true);
    } else {
        lemma_pass_counts(bits, c, k - 1);
        let prefix = pass_actions(bits, c, k - 1);
        let shift = shift_actions(bits[bits.len() - k]);
        let tail = if c + k == bits.len() {
            latch_actions()
        } else {
            Seq::<PinAction>::empty()
        };
        lemma_protocol_counts(bits[bits.len() - k]);
        lemma_counts_concat(prefix, shift);
        lemma_counts_concat(prefix + shift, tail);
    }
}

/// A full pass over the register — shifting exactly as many bits as it is
/// wide — clocks in one bit per array element and pulses the latch exactly
/// once, wherever in a pass the counter began.
pub proof fn lemma_full_pass_single_latch(bits: Seq<bool>, c: int)
    requires
        0 <= c < bits.len(),
    ensures
        clock_rise_count(pass_actions(bits, c, bits.len() as int)) == bits.len(),
        latch_pulse_count(pass_actions(bits, c, bits.len() as int)) == 1,
{
    lemma_pass_counts(bits, c, bits.len() as int);
}

} // verus!
