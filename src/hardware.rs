//! The device's hardware as the command handlers see it: the indicator's
//! state and the operations still to be carried out on the real pins,
//! timer and reset controller.
use vstd::prelude::*;

verus! {

/// One operation for the hardware to perform, in order.
#[derive(Clone, Copy, Debug, PartialEq, Eq, Structural)]
pub enum HwOp {
    SetLed,
    ClearLed,
    ToggleLed,
    DelayMs(u32),
    SystemReset,
}

/// What `Hardware` holds, as mathematical values.
pub struct HardwareState {
    pub led: bool,
    pub ops: Seq<HwOp>,
}

/// The indicator's current state and the operations not yet performed.
pub struct Hardware {
    led: bool,
    ops: Vec<HwOp>,
}

impl View for Hardware {
    type V = HardwareState;

    closed spec fn view(&self) -> HardwareState {
        HardwareState { led: self.led, ops: self.ops@ }
    }
}

impl Hardware {
    /// Hardware as it stands after start-up: indicator off, nothing pending.
    pub fn setup() -> (r: Hardware)
        ensures
            r@.led == false,
            r@.ops == Seq::<HwOp>::empty(),
    {
        Hardware { led: false, ops: Vec::new() }
    }

    /// Whether the indicator is on.
    pub fn led(&self) -> (r: bool)
        ensures
            r == self@.led,
    {
        self.led
    }

    /// Hands out the pending operations, oldest first, and forgets them.
    pub fn take_ops(&mut self) -> (r: Vec<HwOp>)
        ensures
            r@ == old(self)@.ops,
            final(self)@.led == old(self)@.led,
            final(self)@.ops == Seq::<HwOp>::empty(),
    {
        let mut taken: Vec<HwOp> = Vec::new();
        std::mem::swap(&mut taken, &mut self.ops);
        taken
    }

    /// Performs `op` on the model and queues it for the real hardware.
    pub fn apply(&mut self, op: HwOp)
        ensures
            final(self)@ == apply_op(old(self)@, op),
    {
        match op {
            HwOp::SetLed => self.led = true,
            HwOp::ClearLed => self.led = false,
            HwOp::ToggleLed => self.led = !self.led,
            _ => {},
        }
        self.ops.push(op);
    }
}

/// The hardware after `op`: the indicator follows it, and it joins the queue.
pub open spec fn apply_op(h: HardwareState, op: HwOp) -> HardwareState {
    HardwareState {
        led: match op {
            HwOp::SetLed => true,
            HwOp::ClearLed => false,
            HwOp::ToggleLed => !h.led,
            _ => h.led,
        },
        ops: h.ops.push(op),
    }
}

} // verus!
