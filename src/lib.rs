//! Canonical, backend-agnostic description of columnar schemas and a
//! validating, bidirectional mapping to the arrow2 type system.

pub mod arrow2_schema;
pub mod datatypes;
pub mod error;
pub mod schema;
pub mod utils;
