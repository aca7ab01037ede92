use vstd::prelude::*;
use crate::life::{
    Grid, is_grid, all_dead, complemented, is_next_generation, init_board, complement_board,
    is_done, advance, Generator, filled_from, drew,
};

verus! {

/// Frames during which a further press of button B is ignored after a flip.
pub const DEBOUNCE_FRAMES: u8 = 5;

/// Consecutive all-dead frames after which the grid is reseeded.
pub const SETTLE_FRAMES: u8 = 5;

/// Pause between two frames, in milliseconds.
pub const MILLISECONDS_PER_FRAME: u32 = 100;

/// How long each frame is shown on the display, in display time units.
pub const FRAME_EXPOSURE: u32 = 1000;

/// The one thing a frame does to the grid, in priority order.
#[derive(Clone, Copy, Debug, PartialEq, Eq, Structural)]
pub enum Action {
    /// Button A is down: a fresh random grid.
    Reseed,
    /// Button B was pressed outside the debounce window: every cell flipped.
    Flip,
    /// The grid is all dead: wait, grid unchanged.
    Wait,
    /// The grid has been all dead long enough: a fresh random grid.
    Restart,
    /// The grid moves on one generation.
    Advance,
}

/// The counters that the control loop keeps from frame to frame.
#[derive(Clone, Copy, Debug, PartialEq, Eq, Structural)]
pub struct Controller {
    /// Frames left during which button B is ignored.
    pub ignore_b_frames: u8,
    /// Consecutive frames for which the grid has been all dead.
    pub frames_waited: u8,
}

/// The action a frame takes, from the counters, the two button readings and
/// whether the grid is all dead: first match wins.
pub open spec fn chosen_action(c: Controller, a_pressed: bool, b_pressed: bool, board_done: bool) -> Action {
    if a_pressed {
        Action::Reseed
    } else if b_pressed && c.ignore_b_frames == 0 {
        Action::Flip
    } else if board_done {
        if c.frames_waited + 1 >= SETTLE_FRAMES { Action::Restart } else { Action::Wait }
    } else {
        Action::Advance
    }
}

/// The debounce counter at the end of a frame that took `act`.
pub open spec fn debounce_after(c: Controller, act: Action) -> u8 {
    let set = if act == Action::Flip { DEBOUNCE_FRAMES } else { c.ignore_b_frames };
    if set > 0 { (set - 1) as u8 } else { 0 }
}

/// The settle counter at the end of a frame that took `act`: it counts
/// all-dead frames and starts again from zero on any other frame.
pub open spec fn settle_after(c: Controller, act: Action) -> u8 {
    match act {
        Action::Wait => (c.frames_waited + 1) as u8,
        _ => 0,
    }
}

impl Controller {
    /// The counters run within their bounds.
    pub open spec fn wf(self) -> bool {
        self.ignore_b_frames <= DEBOUNCE_FRAMES && self.frames_waited < SETTLE_FRAMES
    }

    /// Both counters at zero.
    pub fn new() -> (r: Controller)
        ensures
            r.ignore_b_frames == 0,
            r.frames_waited == 0,
            r.wf(),
    {
        Controller { ignore_b_frames: 0, frames_waited: 0 }
    }

    /// Picks the frame's action from the button readings and whether the
    /// grid is all dead.
    pub fn select_action(&self, a_pressed: bool, b_pressed: bool, board_done: bool) -> (act: Action)
        ensures
            act == chosen_action(*self, a_pressed, b_pressed, board_done),
    {
        if a_pressed {
            Action::Reseed
        } else if b_pressed && self.ignore_b_frames == 0 {
            Action::Flip
        } else if board_done {
            if self.frames_waited >= SETTLE_FRAMES - 1 {
                Action::Restart
            } else {
                Action::Wait
            }
        } else {
            Action::Advance
        }
    }

    /// One frame of the control loop, short of drawing and sleeping: picks
    /// the action from the button readings (`b_pressed` already consumed
    /// from the latch), applies it to the grid and updates the counters.
    pub fn step(
        &mut self,
        grid: &mut Grid,
        rng: &mut Generator,
        a_pressed: bool,
        b_pressed: bool,
    ) -> (act: Action)
        ensures
            act == chosen_action(*old(self), a_pressed, b_pressed, all_dead(*old(grid))),
            act == Action::Reseed || act == Action::Restart ==> is_grid(*final(grid)),
            act == Action::Reseed || act == Action::Restart ==> drew(old(rng).drawn@, final(rng).drawn@, 25),
            act == Action::Reseed || act == Action::Restart ==> filled_from(
                *final(grid),
                final(rng).drawn@,
                old(rng).drawn@.len() as int,
            ),
            act != Action::Reseed && act != Action::Restart ==> *final(rng) == *old(rng),
            act == Action::Flip ==> complemented(*old(grid), *final(grid)),
            act == Action::Wait ==> *final(grid) == *old(grid),
            act == Action::Advance ==> is_next_generation(*old(grid), *final(grid)),
            final(self).ignore_b_frames == debounce_after(*old(self), act),
            final(self).frames_waited == settle_after(*old(self), act),
            old(self).wf() ==> final(self).wf(),
    {
        let board_done = is_done(grid);
        let act = self.select_action(a_pressed, b_pressed, board_done);
        match act {
            Action::Reseed => {
                *grid = init_board(rng);
                self.frames_waited = 0;
            },
            Action::Flip => {
                complement_board(grid);
                self.ignore_b_frames = DEBOUNCE_FRAMES;
                self.frames_waited = 0;
            },
            Action::Wait => {
                self.frames_waited = self.frames_waited + 1;
            },
            Action::Restart => {
                *grid = init_board(rng);
                self.frames_waited = 0;
            },
            Action::Advance => {
                self.frames_waited = 0;
                advance(grid);
            },
        }
        if self.ignore_b_frames > 0 {
            self.ignore_b_frames = self.ignore_b_frames - 1;
        }
        act
    }
}

/// While button A is down, a frame reseeds, whatever else holds; the
/// settle counter restarts and the debounce counter counts down.
pub proof fn lemma_button_a_reseeds(c: Controller, b_pressed: bool, board_done: bool)
    ensures
        chosen_action(c, true, b_pressed, board_done) == Action::Reseed,
        settle_after(c, Action::Reseed) == 0,
        debounce_after(c, Action::Reseed) == if c.ignore_b_frames > 0 { c.ignore_b_frames - 1 } else { 0 },
{
}

/// Within the debounce window a press of button B does not flip the grid,
/// and the window shrinks by one frame.
pub proof fn lemma_debounce_blocks_flip(c: Controller, a_pressed: bool, board_done: bool)
    requires
        c.ignore_b_frames > 0,
    ensures
        chosen_action(c, a_pressed, true, board_done) != Action::Flip,
        debounce_after(c, chosen_action(c, a_pressed, true, board_done)) == c.ignore_b_frames - 1,
{
}

/// On the fifth consecutive all-dead frame the grid is reseeded and the
/// settle counter goes back to zero in the same frame.
pub proof fn lemma_settled_grid_restarts(c: Controller, b_pressed: bool)
    requires
        c.frames_waited == SETTLE_FRAMES - 1,
        !(b_pressed && c.ignore_b_frames == 0),
    ensures
        chosen_action(c, false, b_pressed, true) == Action::Restart,
        settle_after(c, Action::Restart) == 0,
{
}

} // verus!
