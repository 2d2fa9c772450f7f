//! Built-in scalar functions and aggregations of a tabular query engine.

pub mod aggregations;
pub mod error;
pub mod function;
pub mod laws;
pub mod number;
pub mod object;
pub mod text;
pub mod types;
pub mod validation;
pub mod value;
