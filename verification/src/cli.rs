//! Command-line options, as plain values.  Parsing the actual command
//! line is left to the caller.

use vstd::prelude::*;

verus! {

/// The command-line options of the program.
#[derive(Debug, Clone)]
pub struct Args {
    pub new_conversation: bool,
    pub force_continue: bool,
    pub clear_history: bool,
    pub reasoning_effort: Option<String>,
    pub reasoning_max_tokens: Option<u32>,
    pub reasoning_exclude: bool,
    pub reasoning_enabled: bool,
    pub mcp_servers: Vec<String>,
    pub use_tools: bool,
    pub auto_tools: bool,
    pub no_tools: bool,
    pub config_init: bool,
    pub api_endpoint: Option<String>,
    pub command: Vec<String>,
}

} // verus!
