//! A verified simulator for deterministic multi-tape Turing machines.
//!
//! The crate holds the tape, the transition table and the engine that drives
//! all tapes in lock-step until the machine halts or a step bound is reached.
//! Every executable function carries a contract over a mathematical model of
//! the data it works on.

pub mod error;
pub mod parser;
pub mod report;
pub mod text;
pub mod turing_machine;
