//! Conversion of a deployment-framework workflow configuration into
//! Amazon States Language (ASL) JSON text.
//!
//! The library holds the document model for a `stepFunctions` configuration
//! section, a resolver for framework resource references, and a renderer that
//! turns a document into canonical JSON output.

pub mod json;
pub mod laws;
pub mod model;
pub mod render;
pub mod text;
