//! Typed access to a debug engine session.
pub mod arrivals;
pub mod break_in;
pub mod breakpoint;
pub mod breaks;
pub mod codes;
pub mod error;
pub mod identity;
pub mod kernel_attach;
pub mod memory;
pub mod module;
pub mod opening;
pub mod process;
pub mod processor;
pub mod registers;
pub mod run;
pub mod scope;
pub mod session;
pub mod setting;
pub mod stack;
pub mod text;
pub mod wait;
pub mod watchdog;
