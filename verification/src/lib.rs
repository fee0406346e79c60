//! Verified core of an MCP federation gateway.

pub mod client;
pub mod decimal;
pub mod delivery;
pub mod federation_outbound;
pub mod guardrails;
pub mod handler;
pub mod info;
pub mod json;
pub mod json_value;
pub mod mcp_apps;
pub mod metrics;
pub mod model;
pub mod multiplex_naming;
pub mod rewrite;
pub mod routes;
pub mod session;
pub mod text;
pub mod upstream;
