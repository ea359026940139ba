//! Program-aware routing support for a model gateway.

pub mod counting;
pub mod keyed;
pub mod policies;
pub mod program_id;
pub mod sse;
pub mod text;
