//! Tests of the shift-register protocol, the digit decomposition and the
//! display interface.

use tachometer::seven_segment_display::Display;
use tachometer::shift_register::{PinAction, ShiftRegister};
use tachometer::state::State;

fn shift_protocol(state: bool) -> Vec<PinAction> {
    vec![
        PinAction::SetSerialInput(state),
        PinAction::Wait(10),
        PinAction::SetClock(true),
        PinAction::Wait(10),
        PinAction::SetSerialInput(false),
        PinAction::Wait(10),
        PinAction::SetClock(false),
    ]
}

fn latch_protocol() -> Vec<PinAction> {
    vec![
        PinAction::SetLatch(false),
        PinAction::Wait(20),
        PinAction::SetLatch(true),
    ]
}

#[test]
fn shift_out_emits_protocol() {
    let mut sr: ShiftRegister<8> = ShiftRegister::new();
    let actions = sr.shift_out(true, false);
    assert_eq!(actions, shift_protocol(true));
    assert!(!sr.is_latched);
}

#[test]
fn shift_out_updates_mirror() {
    let mut sr: ShiftRegister<8> = ShiftRegister::new();
    sr.shift_out(true, true);
    assert_eq!(
        sr.bit_array(),
        &vec![true, false, false, false, false, false, false, false]
    );
    let actions = sr.shift_out(false, true);
    assert_eq!(actions, shift_protocol(false));
    assert_eq!(
        sr.bit_array(),
        &vec![false, true, false, false, false, false, false, false]
    );
    assert!(!sr.is_latched);
}

#[test]
fn shift_out_latches_on_full_pass() {
    let mut sr: ShiftRegister<8> = ShiftRegister::new();
    for _ in 0..7 {
        sr.shift_out(true, false);
    }
    assert!(!sr.is_latched);
    let actions = sr.shift_out(true, false);
    let mut expected = shift_protocol(true);
    expected.extend(latch_protocol());
    assert_eq!(actions, expected);
    assert!(sr.is_latched);
}

#[test]
fn latch_emits_pulse() {
    let mut sr: ShiftRegister<8> = ShiftRegister::new();
    let actions = sr.latch();
    assert_eq!(actions, latch_protocol());
    assert!(sr.is_latched);
}

#[test]
fn set_bit_array_full_pass() {
    // A length-32 array: exactly 32 single-bit shifts, exactly one latch
    // pulse, and the cached mirror equals the input afterwards.
    let mut sr: ShiftRegister<32> = ShiftRegister::new();
    let bits: Vec<bool> = (0..32).map(|i| i % 3 == 0).collect();
    let actions = sr.set_bit_array(bits.clone());

    let latch_pulses = actions
        .iter()
        .filter(|a| **a == PinAction::SetLatch(false))
        .count();
    let clock_rises = actions
        .iter()
        .filter(|a| **a == PinAction::SetClock(true))
        .count();
    assert_eq!(latch_pulses, 1);
    assert_eq!(clock_rises, 32);
    assert_eq!(actions.len(), 32 * 7 + 3);
    assert_eq!(sr.bit_array(), &bits);
    assert!(sr.is_latched);

    // The bits go out in reverse element order: the first shifted bit is the
    // last array element.
    assert_eq!(actions[0], PinAction::SetSerialInput(bits[31]));
    // The latch pulse comes right after the last shifted bit, the first
    // array element.
    assert_eq!(actions[31 * 7], PinAction::SetSerialInput(bits[0]));
    assert_eq!(actions[32 * 7], PinAction::SetLatch(false));
}

#[test]
fn state_from_rpm_decomposes_digits() {
    assert_eq!(State::from_rpm(0).display_digits, vec![0, 0, 0, 0]);
    assert_eq!(State::from_rpm(60).display_digits, vec![0, 0, 6, 0]);
    assert_eq!(State::from_rpm(1234).display_digits, vec![1, 2, 3, 4]);
    assert_eq!(State::from_rpm(9999).display_digits, vec![9, 9, 9, 9]);
}

#[test]
fn state_from_rpm_clamps() {
    assert_eq!(State::from_rpm(10_000).display_digits, vec![9, 9, 9, 9]);
    assert_eq!(State::from_rpm(u32::MAX).display_digits, vec![9, 9, 9, 9]);
}

struct RecordingSink {
    rendered: Vec<u8>,
}

impl Display for RecordingSink {
    fn display(&mut self, state: &State) {
        self.rendered = state.display_digits.clone();
    }
}

#[test]
fn display_receives_digits() {
    let mut sink = RecordingSink { rendered: Vec::new() };
    let state = State::from_rpm(4321);
    sink.display(&state);
    assert_eq!(sink.rendered, vec![4, 3, 2, 1]);
}
