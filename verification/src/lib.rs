//! Verified core of an MCP server probe: report models, tool descriptor
//! audits, catalog checks, snapshot comparison and argument handling.

pub mod admission;
pub mod allowlist;
pub mod auth;
pub mod build_support;
pub mod catalog_contract;
pub mod catalog_profile;
pub mod cli;
pub mod guidance;
pub mod help_text;
pub mod json;
pub mod logging;
pub mod ordered;
pub mod paths;
pub mod probe;
pub mod replay;
pub mod report;
pub mod scenario;
pub mod schema_compat;
pub mod startup;
pub mod text;
pub mod transport;
pub mod urls;
