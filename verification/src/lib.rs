//! A small set of utilities for newcomers learning Rust.
//!
//! The heart of the crate is [`OnceCell`], a lazily-initialized,
//! single-assignment cell whose initialization protocol is stated and
//! verified as a three-state machine.

pub mod args;
pub mod input;
pub mod once;
pub mod rand;

pub use args::Args;
pub use args::ArgsIter;
pub use input::ReadOutcome;
pub use input::parse_i32;
pub use input::read_number;
pub use once::CellEvent;
pub use once::CellState;
pub use once::OnceCell;
pub use once::Tag;
pub use rand::RandBound;
pub use rand::next_u64;
pub use rand::random_number;
