//! The verified core of a function backend.

pub mod abi;
pub mod base64_text;
pub mod cache;
pub mod call_data;
pub mod canonical;
pub mod db;
pub mod determinism;
pub mod edit;
pub mod engine;
pub mod fetch;
pub mod guest;
pub mod guest_runtime;
pub mod host;
pub mod invocation;
pub mod json;
pub mod json_text;
pub mod language;
pub mod limits;
pub mod lossy;
pub mod macros;
pub mod node_executor;
pub mod object_json;
pub mod object_key;
pub mod order;
pub mod packed;
pub mod patch;
pub mod patch_laws;
pub mod pointer;
pub mod replay;
pub mod runner;
pub mod sections;
pub mod serialize;
pub mod sse;
pub mod text;
pub mod validation;
pub mod value;
