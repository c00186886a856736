//! Project-generation client logic: turns a scaffolding service's metadata
//! document into typed configuration steps, resolves an answer for each step,
//! and builds the request that downloads the generated project.

pub mod download;
pub mod encoding;
pub mod json;
pub mod request;
pub mod resolve;
pub mod steps;
pub mod text;

pub use json::Json;
pub use request::ResponseStep;
pub use steps::{Item, ItemKind, Step, StepKind};
