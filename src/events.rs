//! The functions that the host can call by name.
use crate::hardware::{apply_op, Hardware, HardwareState, HwOp};
use vstd::prelude::*;

verus! {

/// How many times `reset` toggles the indicator before the restart.
pub const COUNTDOWN_TOGGLES: usize = 11;

/// The pause after each toggle of the countdown, in milliseconds.
pub const COUNTDOWN_DELAY_MS: u32 = 84;

/// The operation that `set_led` performs for `data`.
pub open spec fn led_op(data: Seq<u8>) -> HwOp {
    if data.len() == 0 {
        HwOp::ToggleLed
    } else if data[0] == 0 {
        HwOp::ClearLed
    } else {
        HwOp::SetLed
    }
}

/// The first `k` steps of the countdown: a toggle, then a pause, each.
pub open spec fn countdown(k: nat) -> Seq<HwOp>
    decreases k,
{
    if k == 0 {
        Seq::empty()
    } else {
        countdown((k - 1) as nat) + seq![HwOp::ToggleLed, HwOp::DelayMs(COUNTDOWN_DELAY_MS)]
    }
}

/// The hardware after `reset`: an odd number of toggles leaves the indicator
/// flipped, and the restart comes last.
pub open spec fn reset_state(h: HardwareState) -> HardwareState {
    HardwareState {
        led: !h.led,
        ops: h.ops + countdown(COUNTDOWN_TOGGLES as nat) + seq![HwOp::SystemReset],
    }
}

/// Sets the indicator from `data`: empty toggles it, a first byte of zero
/// turns it off, any other first byte turns it on. The reply is empty.
pub fn set_led(hw: &mut Hardware, data: Vec<u8>) -> (r: Vec<u8>)
    ensures
        final(hw)@ == apply_op(old(hw)@, led_op(data@)),
        data@.len() == 0 ==> final(hw)@.led == !old(hw)@.led,
        data@.len() > 0 && data@[0] == 0 ==> final(hw)@.led == false,
        data@.len() > 0 && data@[0] != 0 ==> final(hw)@.led == true,
        r@ == Seq::<u8>::empty(),
{
    if data.len() == 0 {
        hw.apply(HwOp::ToggleLed);
    } else if data[0] == 0 {
        hw.apply(HwOp::ClearLed);
    } else {
        hw.apply(HwOp::SetLed);
    }
    Vec::new()
}

/// Counts down on the indicator and then restarts the device. `data` is
/// ignored. Nothing is to be done after the restart that this queues.
pub fn reset(hw: &mut Hardware, data: Vec<u8>)
    ensures
        final(hw)@ == reset_state(old(hw)@),
{
    let mut i: usize = 0;
    while i < COUNTDOWN_TOGGLES
        invariant
            i <= COUNTDOWN_TOGGLES,
            hw@.ops == old(hw)@.ops + countdown(i as nat),
            hw@.led == (if i % 2 == 0 { old(hw)@.led } else { !old(hw)@.led }),
        decreases COUNTDOWN_TOGGLES - i,
    {
        hw.apply(HwOp::ToggleLed);
        hw.apply(HwOp::DelayMs(COUNTDOWN_DELAY_MS));
        i = i + 1;
        assert(hw@.ops == old(hw)@.ops + countdown(i as nat));
    }
    hw.apply(HwOp::SystemReset);
    assert(hw@.ops =~= reset_state(old(hw)@).ops);
}

} // verus!
