//! SQL generation for JSON:API requests on top of PostgreSQL.
//!
//! The builders turn a request on a resource type into a single SQL statement made of
//! common table expressions, with every user value passed as a numbered parameter.

pub mod error;
pub mod graph;
pub mod graph_walker;
pub mod ident;
pub mod text;
pub mod model;
pub mod table;
pub mod builder;
