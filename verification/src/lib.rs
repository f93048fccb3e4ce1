//! An in-memory entity registry with validated mutation, and a stateless
//! cursor-based paginator over a generated item sequence.

pub mod date;
pub mod ids;
pub mod paginator;
pub mod registry;
