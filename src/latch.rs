use vstd::prelude::*;

verus! {

/// The two button flags shared between the interrupt handler and the
/// control loop. Button A is kept as a level: each interrupt overwrites it.
/// Button B is kept as an edge: set by an interrupt, cleared when consumed.
/// Callers hold every access inside one critical section that also masks
/// the button interrupt, so each method runs as one indivisible step.
#[derive(Clone, Copy, Debug, PartialEq, Eq, Structural)]
pub struct InputLatch {
    pub a_pressed: bool,
    pub b_pressed: bool,
}

impl InputLatch {
    /// Both buttons released.
    pub fn new() -> (r: InputLatch)
        ensures
            !r.a_pressed,
            !r.b_pressed,
    {
        InputLatch { a_pressed: false, b_pressed: false }
    }

    /// Overwrites the level of button A.
    pub fn set_a(&mut self, value: bool)
        ensures
            final(self).a_pressed == value,
            final(self).b_pressed == old(self).b_pressed,
    {
        self.a_pressed = value;
    }

    /// Records a press of button B; never clears it.
    pub fn set_b_if(&mut self, value: bool)
        ensures
            final(self).a_pressed == old(self).a_pressed,
            final(self).b_pressed == (old(self).b_pressed || value),
    {
        if value {
            self.b_pressed = true;
        }
    }

    /// The level of button A, left as it is.
    pub fn peek_a(&self) -> (r: bool)
        ensures
            r == self.a_pressed,
    {
        self.a_pressed
    }

    /// Consumes a pending press of button B: returns it and clears it.
    pub fn take_b(&mut self) -> (r: bool)
        ensures
            r == old(self).b_pressed,
            !final(self).b_pressed,
            final(self).a_pressed == old(self).a_pressed,
    {
        let r = self.b_pressed;
        self.b_pressed = false;
        r
    }

    /// What the button interrupt does to the latch, given which of the two
    /// edge-detection channels fired: A takes the state of its channel,
    /// B is set when its channel fired and otherwise kept.
    pub fn record_interrupt(&mut self, channel_a_triggered: bool, channel_b_triggered: bool)
        ensures
            final(self).a_pressed == channel_a_triggered,
            final(self).b_pressed == (old(self).b_pressed || channel_b_triggered),
    {
        self.set_a(channel_a_triggered);
        self.set_b_if(channel_b_triggered);
    }
}

} // verus!
