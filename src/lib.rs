//! Conway's Game of Life on a 5×5 LED grid driven by two buttons:
//! the cellular automaton, the button latch shared with the interrupt
//! handler, and the per-frame decision of the control loop.

pub mod life;
pub mod latch;
pub mod control;
