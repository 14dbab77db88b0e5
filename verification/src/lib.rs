//! Merges structured data files (JSON, YAML, or TOML) into a single rendering
//! context and renders that context against one template or a set of templates
//! selected by a glob pattern.

pub mod context;
pub mod error;
pub mod format;
pub mod parse;
pub mod render;
pub mod templates;
pub mod text;
pub mod value;

pub use context::Context;
pub use error::Error;
pub use format::{FileFormat, SourceDescriptor};
pub use parse::deserialize;
pub use render::render;
pub use templates::TemplatePlan;
pub use value::CanonicalValue;
