//! Typed, version-aware queries over user-mode Segment Heaps.
pub mod census;
pub mod ending;
pub mod enumerate;
pub mod neighbours;
pub mod pool;
pub mod query;
pub mod ring;
pub mod roots;
pub mod schema;
pub mod scope;
pub mod snapshot;
pub mod target;
pub mod types;
pub mod walk;
