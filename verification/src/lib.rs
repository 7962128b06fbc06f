//! A Game of Life engine on a fixed-size toroidal grid.
//!
//! The board stores one bit per cell, advances one generation at a time with
//! double buffering, and exposes cell inspection, mutation and a textual
//! rendering. Every public operation carries a contract that pins down its
//! effect on the grid.

pub mod bitset;
pub mod board;
pub mod cell;
pub mod laws;
pub mod rules;

pub use board::Board;
pub use cell::Cell;
