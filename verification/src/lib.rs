//! Conformance and performance harness core for interchangeable parser
//! implementations of a family of structured save-file formats.
//!
//! The library holds the verified logic of the harness: the game and corpus
//! model, the implementation descriptor, the wire-protocol executor state
//! machine, and the conformance and benchmark aggregation rules.

pub mod benchmark;
pub mod common;
pub mod config;
pub mod conformance;
pub mod corpus;
pub mod executor;
pub mod game;
pub mod implementation;
pub mod protocol;
pub mod savefile;
pub mod text;

pub use game::Game;
