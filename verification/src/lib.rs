//! Core of a local-multiplayer lightcycles game: players move on a wrapping
//! grid, leave permanent trails, are eliminated when they enter a claimed
//! cell, and the last active player wins the round.
//!
//! The library holds the deterministic simulation (movement, wraparound,
//! collision, trail recording, win-condition evaluation); drawing and input
//! polling live outside it and exchange plain values with it.

pub mod grid;
pub mod heading;
pub mod laws;
pub mod player;
pub mod round;
