//! Expands parameter-sweep profiles into concrete script invocations, renders
//! each as a standalone script, and holds the decisions of the batch that
//! compiles them.

pub mod scalar;
pub mod profile;
pub mod laws;
pub mod job;
