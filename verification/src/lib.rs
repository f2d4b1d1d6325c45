//! Turns a JSON list of court records into enum declarations.

pub mod casing;
pub mod court;
pub mod error;
pub mod extract;
pub mod json;
pub mod laws;
pub mod parse;
pub mod render;

pub use crate::court::{Court, Courts};
pub use crate::error::{Fault, LoadError};
pub use crate::json::Json;
