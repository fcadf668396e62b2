//! A CHIP-8 interpreter whose instruction semantics are stated as a
//! mathematical state machine and proved against the executable code.

pub mod font;
pub mod machine;
pub mod emulator;
pub mod execute;
pub mod runtime;
pub mod keys;
pub mod display;
pub mod laws;
