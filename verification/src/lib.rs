//! Core building blocks of the ErenFlow agent framework: its error type,
//! JSON-schema validation of state, and the shared state containers.

pub mod error;
pub mod json;
pub mod optimization;
pub mod state;
pub mod text;
pub mod validation;
