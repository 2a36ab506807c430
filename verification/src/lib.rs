//! Local tool execution sandbox: a registry of configured tools, a JSON
//! argument validator, path confinement, command-argument templating with
//! injection guards, and planning/judging of subprocess execution.

pub mod builtins;
pub mod cli;
pub mod config;
pub mod envsub;
pub mod executor;
pub mod json;
pub mod mcp;
pub mod models;
pub mod paths;
pub mod registry;
pub mod response;
pub mod search;
pub mod session;
pub mod strutil;
pub mod template;
