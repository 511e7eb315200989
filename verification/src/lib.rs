//! Verified building blocks for Biyard's web tooling: route templates,
//! handler classification, TypeScript type rendering, analytics snippets,
//! MCP tool plumbing and code-generation plans for the entity macros.

pub mod text;
pub mod route;
pub mod rust_type;
pub mod handler;
pub mod json;
pub mod gtag;
pub mod gtag_state;
pub mod service_cache;
pub mod gtag_derive;
pub mod oneshot;
pub mod case;
pub mod mcp_tool;
pub mod server_stub;
pub mod dynamo;
pub mod dynamo_fields;
pub mod dynamo_plan;
pub mod rest_error;
pub mod qdrant;
pub mod sub_partition;
pub mod rest_api;
pub mod codegen_files;
pub mod mcp_server;
pub mod dynamo_query;
