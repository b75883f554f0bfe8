//! Session drivers and heap inspection for a Windows debug engine.
pub mod bytes;
pub mod dbgeng;
pub mod heap;
pub mod text;
