//! The display state: a computed rate decomposed into decimal digits.

use vstd::prelude::*;

verus! {

use crate::shared::DIGITS;

/// Largest rate the digit display can show.
pub const MAX_DISPLAY_COUNT: u32 = 9_999;

/// `10^e`.
pub open spec fn pow10(e: nat) -> nat
    decreases e,
{
    if e == 0 {
        1
    } else {
        10 * pow10((e - 1) as nat)
    }
}

/// The rate actually rendered: clamped to the maximum displayable value
/// rather than truncated or wrapped.
pub open spec fn clamped_spec(rpm: u32) -> u32 {
    if rpm > MAX_DISPLAY_COUNT {
        MAX_DISPLAY_COUNT
    } else {
        rpm
    }
}

/// The decimal digit of `value` at display position `i`, most significant
/// digit first.
pub open spec fn digit_at(value: u32, i: int) -> u8 {
    (((value as nat) / pow10((DIGITS - 1 - i) as nat)) % 10) as u8
}

/// What the main loop renders: one decimal digit (0 to 9) per display
/// position, most significant first.
pub struct State {
    /// The digits to render, most significant first.
    pub display_digits: Vec<u8>,
}

impl State {
    /// Every display position holds a decimal digit.
    pub open spec fn wf(self) -> bool {
        &&& self.display_digits@.len() == DIGITS
        &&& forall|i: int| 0 <= i < DIGITS ==> self.display_digits@[i] <= 9
    }

    /// Decompose a rate into display digits: clamp it to the largest
    /// displayable value, then split into decimal digits, most significant
    /// first.
    pub fn from_rpm(rpm: u32) -> (state: State)
        ensures
            state.wf(),
            forall|i: int|
                0 <= i < DIGITS ==> state.display_digits@[i] == digit_at(clamped_spec(rpm), i),
    {
        let clamped = if rpm > MAX_DISPLAY_COUNT {
            MAX_DISPLAY_COUNT
        } else {
            rpm
        };
        let mut display_digits: Vec<u8> = Vec::new();
        let mut k: usize = 0;
        while k < DIGITS
            invariant
                k <= DIGITS,
                display_digits@.len() == k,
                forall|i: int| 0 <= i < k ==> display_digits@[i] <= 9,
                forall|i: int| 0 <= i < k ==> display_digits@[i] == digit_at(clamped, i),
            decreases DIGITS - k,
        {
            let divisor = pow10_exec((DIGITS - 1 - k) as u32);
            let digit = ((clamped / divisor) % 10) as u8;
            display_digits.push(digit);
            k += 1;
        }
        State { display_digits }
    }
}

/// `10^e` for the small exponents the display needs.
fn pow10_exec(e: u32) -> (p: u32)
    requires
        e < DIGITS,
    ensures
        p == pow10(e as nat),
        p >= 1,
{
    proof {
        lemma_pow10_values();
    }
    if e == 0 {
        1
    } else if e == 1 {
        10
    } else if e == 2 {
        100
    } else {
        1_000
    }
}

/// The powers of ten behind each display position.
proof fn lemma_pow10_values()
    ensures
        pow10(0) == 1,
        pow10(1) == 10,
        pow10(2) == 100,
        pow10(3) == 1_000,
{
    reveal_with_fuel(pow10, 4);
}

} // verus!
