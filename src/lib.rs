//! An embeddable property-graph database: vertices, directed edges and
//! JSON-valued properties, with composable queries over them.
//!
//! The database is modelled by `graph::GraphModel`; every operation states
//! its effect on that model, and `evaluator::eval` states what each query
//! yields. `laws` and `outputs` prove properties that relate several
//! operations.
use vstd::prelude::*;

pub mod database;
pub mod errors;
pub mod evaluator;
pub mod graph;
pub mod identifiers;
pub mod invariants;
pub mod json;
pub mod laws;
pub mod memory;
pub mod models;
pub mod mutations;
pub mod outputs;
pub mod queries;
pub mod types;

pub use errors::{Error, ValidationError};
pub use database::Database;
pub use identifiers::Identifier;
pub use json::Json;
pub use memory::{EdgePropertyRow, MemoryDatastore, Tables, VertexPropertyRow};
pub use models::{
    BulkInsertItem, Edge, EdgeDirection, EdgeProperties, NamedProperty, QueryOutputValue, Vertex,
    VertexProperties,
};
pub use queries::{
    CountQuery, EdgeWithPropertyPresenceQuery, EdgeWithPropertyValueQuery, IncludeQuery, OutputKind,
    PipePropertyQuery, PipeQuery, PipeWithPropertyPresenceQuery, PipeWithPropertyValueQuery, Query,
    RangeVertexQuery, SpecificEdgeQuery, SpecificVertexQuery, VertexWithPropertyPresenceQuery,
    VertexWithPropertyValueQuery,
};
pub use types::Type;
