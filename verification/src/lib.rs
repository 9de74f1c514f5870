//! Verified core of a small electrostatics puzzle.
//!
//! An electron is pushed and pulled by a handful of plates whose polarity the
//! player toggles, and has to reach an exit. This crate holds the discrete
//! rules of that game, each with a contract that Verus proves:
//!
//! - `plate`: the tri-state polarity of a plate, the sign of its pull and the
//!   label of the polarity indicator;
//! - `selection`: the ring of ids round which the selection moves;
//! - `timer`: the repeating timer that blinks the selected plate;
//! - `control`: the registry of plates and the state machine that the four
//!   direction keys drive;
//! - `exit`: the detection of the win;
//! - `bounds`: the clamp that keeps a directly moved electron inside the arena.
//!
//! Positions and forces are floating-point numbers and stay with the caller,
//! as do input, sound, drawing and the physics engine.

pub mod bounds;
pub mod control;
pub mod exit;
pub mod plate;
pub mod selection;
pub mod timer;
