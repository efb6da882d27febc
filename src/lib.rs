//! A generic engine for single-tape machines: alphabets, a per-step context
//! over a growable tape, and a machine that drives a transition rule.
pub mod alphabet;
pub mod beaver;
pub mod context;
pub mod machine;

pub use alphabet::{Color, State};
pub use context::Ctx;
pub use machine::{Transition, TuringMachine};
