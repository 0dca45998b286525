//! Shared building blocks for LLM agent tools: tool definitions with
//! input-schema validation, typed tool results, call contexts, a
//! name-keyed tool registry, and the decision logic of the built-in tools.

pub mod error;
pub mod json;
pub mod registry;
pub mod schema;
pub mod text;
pub mod tool;
pub mod tools;

pub use error::{Error, ErrorKind, Result};
pub use tool::{ToolContent, ToolContext, ToolDef, ToolResult};
pub use json::{JsonNumber, JsonValue, JsonView};
pub use registry::ToolRegistry;
