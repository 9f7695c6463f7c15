//! Verified cores of a small suite of terminal arcade games.
//!
//! The centerpiece is `wator`, a predator-prey simulation on a toroidal
//! grid: every tick, each fish and shark ages, moves, eats, reproduces or
//! starves, and the stepper's contract pins the population laws that hold
//! whatever the random tie-breaks do. Around it stand the boards, shapes
//! and rules the other games are built from, and the high-score list they
//! all share. Terminal drawing, key handling and files belong to the
//! surrounding program, not to this crate.

pub mod console;
pub mod grid;
pub mod persistence;
pub mod point;
pub mod shape;
pub mod snake;
pub mod tetris;
pub mod wator;

mod rng;
