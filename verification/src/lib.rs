pub mod config;
pub mod errors;
pub mod json;
pub mod mcp;
pub mod paths;
pub mod sidecar;
pub mod state;
