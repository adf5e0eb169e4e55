//! Verified core of the LLM3dEngine desktop host.
pub mod engine;
pub mod ipc;
pub mod json;
pub mod llm;
pub mod overlay;
pub mod path;
pub mod project;
pub mod text;
