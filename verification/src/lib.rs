//! Schema and type layer of an entity-attribute-value database engine:
//! a closed algebra of declared attribute types with a canonical textual
//! form, a parser for that form, exact non-widening coercion of runtime
//! values against declared types, and validation of attribute schema
//! definitions arriving through a structured-text boundary.

pub mod attr;
pub mod coerce;
pub mod id;
pub mod json;
pub mod keyword;
pub mod parse;
pub mod typing;
pub mod value;
