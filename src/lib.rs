//! An object-relational mapping layer for PostgreSQL: field classification,
//! SQL templates, row decoding and a fluent query builder.

pub mod strings;
pub mod value;
pub mod codegen;
pub mod error;
pub mod entity;
pub mod context;
pub mod migration;
