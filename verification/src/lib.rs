//! Intermediate representation for generating API client code from an OpenAPI
//! document: a tree of resources and operations, the closed graph of named
//! types they reach, and the per-language projection of field types.

pub mod api;
pub mod case;
pub mod cli_v2;
pub mod codesamples;
pub mod generator;
pub mod json;
pub mod name_map;
pub mod openapi;
pub mod pool;
pub mod postprocessing;
pub mod preprocess_spec;
pub mod schema;
pub mod template;
pub mod text;
pub mod util;
pub mod webhooks;

pub use crate::api::operation::IncludeMode;
pub use crate::codesamples::{CodeSample, CodesampleTemplates};
pub use crate::postprocessing::CodegenLanguage;
