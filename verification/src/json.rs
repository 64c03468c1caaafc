//! The JSON data model that schemas and state are made of.

pub mod number;
pub mod value;
