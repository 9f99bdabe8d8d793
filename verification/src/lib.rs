//! A configuration-driven GraphQL gateway core: it compiles a validated
//! schema description (a blueprint) into a queryable schema model whose
//! fields are resolved either by projecting the parent value or by
//! evaluating a small expression against an upstream HTTP service, with
//! deduplication of identical upstream calls inside one request.

pub mod blueprint;
pub mod cli;
pub mod data_loader;
pub mod http;
pub mod into_schema;
pub mod lambda;
pub mod lint;
pub mod resolver;
pub mod value;
