//! Configuration data for the tool registry and its surroundings.
//!
//! These types carry plain values only; reading them from YAML or JSON
//! files is left to the caller, which hands the parsed values over.

use vstd::prelude::*;
use crate::json::JsonValue;

verus! {

/// Whether tool support is on by default.
pub fn default_tools_enabled() -> (r: bool)
    ensures
        r == true,
{
    true
}

/// Whether locally configured tools are on by default.
pub fn default_local_tools_enabled() -> (r: bool)
    ensures
        r == true,
{
    true
}

/// The default cap on file sizes read by the built-in file reader, in MiB.
pub fn default_max_file_size_mb() -> (r: u64)
    ensures
        r == 10,
{
    10
}

/// The default wall-clock timeout for one tool call, in seconds.
pub fn default_tool_timeout() -> (r: u64)
    ensures
        r == 30,
{
    30
}

/// The default cap on a tool's standard output, in bytes (1 MiB).
pub fn default_max_output_bytes() -> (r: u64)
    ensures
        r == 1048576,
{
    1048576
}

/// Whether JSON arguments are piped to a command tool's stdin by default.
pub fn default_stdin_json() -> (r: bool)
    ensures
        r == true,
{
    true
}

/// Whether `value` is the default stdin setting.
pub fn is_default_stdin_json(value: &bool) -> (r: bool)
    ensures
        r == (*value == true),
{
    *value == true
}

/// Whether templated path arguments are confined to the base directory by
/// default.
pub fn default_restrict_to_base_dir() -> (r: bool)
    ensures
        r == true,
{
    true
}

/// Whether `value` is the default confinement setting.
pub fn is_default_restrict_to_base_dir(value: &bool) -> (r: bool)
    ensures
        r == (*value == true),
{
    *value == true
}

/// The default template-validation kind.
pub fn default_validation_kind() -> (r: String)
    ensures
        r@ == "string"@,
{
    "string".to_owned()
}

/// Whether absolute paths are allowed for a path-kind key by default.
pub fn default_allow_absolute() -> (r: bool)
    ensures
        r == false,
{
    false
}

/// Whether `value` is the default absolute-path setting.
pub fn is_default_allow_absolute(value: &bool) -> (r: bool)
    ensures
        r == (*value == false),
{
    *value == false
}

/// Whether chat-level tool support is enabled.
#[derive(Debug, Clone)]
pub struct ToolsConfig {
    pub enabled: bool,
}

impl Default for ToolsConfig {
    fn default() -> (r: Self)
        ensures
            r.enabled == true,
    {
        ToolsConfig { enabled: true }
    }
}

/// The per-key validation policy for a templated command argument.
#[derive(Debug, Clone, PartialEq, Eq)]
pub struct TemplateValidation {
    /// `"path"`, `"string"` or `"number"`.
    pub kind: String,
    /// For string kind: the value must match at least one, when present.
    pub allow_patterns: Option<Vec<String>>,
    /// For string kind: the value must match none, when present.
    pub deny_patterns: Option<Vec<String>>,
    /// For path kind: whether absolute paths are accepted.
    pub allow_absolute: bool,
}

/// One configured tool.
#[derive(Debug, Clone)]
pub struct LocalToolConfig {
    pub name: String,
    pub enabled: bool,
    pub settings: JsonValue,
    /// `"script"` or `"command"` for dynamically configured tools; absent
    /// for entries that only gate a built-in.
    pub tool_type: Option<String>,
    pub description: Option<String>,
    pub input_schema: Option<JsonValue>,
    /// Script tools: the interpreter to run.
    pub interpreter: Option<String>,
    /// Script tools: inline script text.
    pub script: Option<String>,
    /// Script tools: a script file, relative to the base directory.
    pub script_path: Option<String>,
    /// Command tools: the program to run.
    pub command: Option<String>,
    /// Command tools: argument templates, possibly holding `{{key}}`.
    pub args: Vec<String>,
    pub timeout_secs: u64,
    pub max_output_bytes: u64,
    /// Relative to the base directory.
    pub working_dir: Option<String>,
    /// Extra environment entries; values may hold `${VAR}` references.
    pub env: Vec<(String, String)>,
    /// Whether JSON arguments are piped to stdin.
    pub stdin_json: bool,
    /// Whether templated path values are confined to the base directory.
    pub restrict_to_base_dir: bool,
    /// `Some(b)` forces the `--` guard on or off; `None` auto-detects.
    pub insert_double_dash: Option<bool>,
    /// Explicit per-key validation policies.
    pub template_validations: Option<Vec<(String, TemplateValidation)>>,
}

impl LocalToolConfig {
    /// A tool entry carrying only a name, with every optional field empty
    /// and every setting at its default.
    pub fn new_named(name: String) -> (r: Self)
        ensures
            r.name == name,
            r.enabled == true,
            r.settings == JsonValue::Null,
            r.tool_type is None,
            r.description is None,
            r.input_schema is None,
            r.interpreter is None,
            r.script is None,
            r.script_path is None,
            r.command is None,
            r.args@.len() == 0,
            r.timeout_secs == 30,
            r.max_output_bytes == 1048576,
            r.working_dir is None,
            r.env@.len() == 0,
            r.stdin_json == true,
            r.restrict_to_base_dir == true,
            r.insert_double_dash is None,
            r.template_validations is None,
    {
        LocalToolConfig {
            name,
            enabled: true,
            settings: JsonValue::Null,
            tool_type: None,
            description: None,
            input_schema: None,
            interpreter: None,
            script: None,
            script_path: None,
            command: None,
            args: Vec::new(),
            timeout_secs: 30,
            max_output_bytes: 1048576,
            working_dir: None,
            env: Vec::new(),
            stdin_json: true,
            restrict_to_base_dir: true,
            insert_double_dash: None,
            template_validations: None,
        }
    }
}

/// The configuration of the local tool subsystem.
#[derive(Debug, Clone)]
pub struct LocalToolsConfig {
    pub enabled: bool,
    /// The sandbox root; `${VAR}` references are expanded, and the user's
    /// home directory is the fallback.
    pub base_dir: Option<String>,
    pub max_file_size_mb: u64,
    pub tools: Vec<LocalToolConfig>,
}

impl Default for LocalToolsConfig {
    fn default() -> (r: Self)
        ensures
            r.enabled == true,
            r.base_dir is None,
            r.max_file_size_mb == 10,
            r.tools@.len() == 0,
    {
        LocalToolsConfig { enabled: true, base_dir: None, max_file_size_mb: 10, tools: Vec::new() }
    }
}

/// Session-level settings read from configuration files.
#[derive(Debug, Clone)]
pub struct SessionConfig {
    pub verbose: Option<bool>,
}

impl Default for SessionConfig {
    fn default() -> (r: Self)
        ensures
            r.verbose is None,
    {
        SessionConfig { verbose: None }
    }
}

/// Model selection settings read from configuration files.
#[derive(Debug, Clone)]
pub struct ModelConfig {
    pub default_model: Option<String>,
    pub system_prompt: Option<String>,
}

impl Default for ModelConfig {
    fn default() -> (r: Self)
        ensures
            r.default_model is None,
            r.system_prompt is None,
    {
        ModelConfig { default_model: None, system_prompt: None }
    }
}

/// API endpoint settings read from configuration files.
#[derive(Debug, Clone)]
pub struct ApiConfig {
    pub endpoint: Option<String>,
    pub stream_timeout: Option<u64>,
}

impl Default for ApiConfig {
    fn default() -> (r: Self)
        ensures
            r.endpoint is None,
            r.stream_timeout is None,
    {
        ApiConfig { endpoint: None, stream_timeout: None }
    }
}

/// Reasoning settings read from configuration files.
#[derive(Debug, Clone)]
pub struct ReasoningConfig {
    pub enabled: Option<bool>,
    pub effort: Option<String>,
    pub max_tokens: Option<u32>,
    pub exclude: Option<bool>,
}

impl Default for ReasoningConfig {
    fn default() -> (r: Self)
        ensures
            r.enabled is None,
            r.effort is None,
            r.max_tokens is None,
            r.exclude is None,
    {
        ReasoningConfig { enabled: None, effort: None, max_tokens: None, exclude: None }
    }
}

/// The shape of a configuration file.
#[derive(Debug, Clone)]
pub struct JsonConfig {
    pub api: ApiConfig,
    pub model: ModelConfig,
    pub session: SessionConfig,
    pub reasoning: ReasoningConfig,
    pub tools: ToolsConfig,
    pub local_tools: LocalToolsConfig,
}

impl Default for JsonConfig {
    fn default() -> (r: Self)
        ensures
            r.api.endpoint is None,
            r.api.stream_timeout is None,
            r.model.default_model is None,
            r.model.system_prompt is None,
            r.session.verbose is None,
            r.reasoning.enabled is None,
            r.tools.enabled == true,
            r.local_tools.enabled == true,
            r.local_tools.tools@.len() == 0,
    {
        JsonConfig {
            api: Default::default(),
            model: Default::default(),
            session: Default::default(),
            reasoning: Default::default(),
            tools: Default::default(),
            local_tools: Default::default(),
        }
    }
}

/// The resolved process-wide configuration.
#[derive(Debug, Clone)]
pub struct Config {
    pub api_key: String,
    pub api_endpoint: String,
    pub model: String,
    pub system_prompt: Option<String>,
    pub stream_timeout: u64,
    pub verbose: bool,
    pub reasoning: Option<crate::models::Reasoning>,
    pub local_tools_config: LocalToolsConfig,
    pub tools_enabled: bool,
}

} // verus!

verus! {

/// `s` with every trailing `/` removed.
pub open spec fn trim_trailing_slashes(s: Seq<char>) -> Seq<char>
    decreases s.len(),
{
    if s.len() > 0 && s[s.len() - 1] == '/' {
        trim_trailing_slashes(s.drop_last())
    } else {
        s
    }
}

/// The endpoint with the chat-completions route appended as needed: an
/// endpoint already ending in `/chat/completions` is kept; one ending in
/// `/v1` or `/v1/` gets the route; anything else is taken for a base URL
/// and gets `/v1/chat/completions` after its trailing slashes.
pub open spec fn spec_normalize_endpoint(s: Seq<char>) -> Seq<char> {
    if crate::strutil::ends_with_seq(s, "/chat/completions"@) {
        s
    } else if crate::strutil::ends_with_seq(s, "/v1"@) {
        s + "/chat/completions"@
    } else if crate::strutil::ends_with_seq(s, "/v1/"@) {
        s + "chat/completions"@
    } else {
        trim_trailing_slashes(s) + "/v1/chat/completions"@
    }
}

/// Removes every trailing `/` from `s`.
fn trim_trailing_slashes_str(s: &str) -> (r: String)
    ensures
        r@ == trim_trailing_slashes(s@),
{
    let chars = crate::strutil::str_to_chars(s);
    let mut n = chars.len();
    proof {
        assert(s@.subrange(0, n as int) =~= s@);
    }
    while n > 0 && chars[n - 1] == '/'
        invariant
            0 <= n <= chars@.len(),
            chars@ == s@,
            trim_trailing_slashes(s@) == trim_trailing_slashes(s@.subrange(0, n as int)),
        decreases n,
    {
        proof {
            assert(s@.subrange(0, n as int).drop_last() =~= s@.subrange(0, n as int - 1));
        }
        n -= 1;
    }
    let mut out: Vec<char> = Vec::new();
    let mut i: usize = 0;
    while i < n
        invariant
            0 <= i <= n <= chars@.len(),
            chars@ == s@,
            out@ == s@.subrange(0, i as int),
        decreases n - i,
    {
        out.push(chars[i]);
        i += 1;
        proof {
            assert(out@ =~= s@.subrange(0, i as int));
        }
    }
    proof {
        if n > 0 {
            assert(s@.subrange(0, n as int)[n - 1] == s@[n - 1]);
        }
        assert(trim_trailing_slashes(s@.subrange(0, n as int)) == s@.subrange(0, n as int));
    }
    crate::strutil::chars_to_string(&out)
}

/// Normalizes an API endpoint to its chat-completions URL, as
/// [`spec_normalize_endpoint`] says.
pub fn normalize_api_endpoint(endpoint: &str) -> (r: String)
    ensures
        r@ == spec_normalize_endpoint(endpoint@),
{
    if crate::strutil::str_ends_with(endpoint, "/chat/completions") {
        endpoint.to_owned()
    } else if crate::strutil::str_ends_with(endpoint, "/v1") {
        crate::strutil::concat_strs(endpoint, "/chat/completions")
    } else if crate::strutil::str_ends_with(endpoint, "/v1/") {
        crate::strutil::concat_strs(endpoint, "chat/completions")
    } else {
        let trimmed = trim_trailing_slashes_str(endpoint);
        crate::strutil::concat_strs(trimmed.as_str(), "/v1/chat/completions")
    }
}

/// Whether `e` is a recognized reasoning effort level.
pub open spec fn spec_valid_effort(e: Seq<char>) -> bool {
    e == "high"@ || e == "medium"@ || e == "low"@
}

/// Whether the string names a recognized reasoning effort level.
pub fn is_valid_effort(e: &str) -> (r: bool)
    ensures
        r == spec_valid_effort(e@),
{
    crate::json::streq(e, "high") || crate::json::streq(e, "medium") || crate::json::streq(
        e,
        "low",
    )
}

/// The reasoning settings resolved from the command line, the
/// environment (already read and pre-parsed by the caller) and the
/// configuration file, in that order of precedence.  `None` when no
/// source enables or configures reasoning; an unrecognized effort level
/// is dropped.
pub fn build_reasoning_config(
    args: &crate::cli::Args,
    env_enabled: Option<bool>,
    env_effort: Option<String>,
    env_max_tokens: Option<u32>,
    env_exclude: Option<bool>,
    json_reasoning: &ReasoningConfig,
) -> (r: Option<crate::models::Reasoning>)
    ensures
        ({
            let enabled = args.reasoning_enabled || (env_enabled matches Some(true))
                || (json_reasoning.enabled matches Some(true));
            let exclude = args.reasoning_exclude || (env_exclude matches Some(true))
                || (json_reasoning.exclude matches Some(true));
            let has_effort = args.reasoning_effort is Some || env_effort is Some
                || json_reasoning.effort is Some;
            let has_max = args.reasoning_max_tokens is Some || env_max_tokens is Some
                || json_reasoning.max_tokens is Some;
            &&& (r is Some <==> enabled || exclude || has_effort || has_max)
            &&& r matches Some(reasoning) ==> {
                &&& reasoning.enabled == (if enabled {
                    Some(true)
                } else {
                    None::<bool>
                })
                &&& reasoning.exclude == (if exclude {
                    Some(true)
                } else {
                    None::<bool>
                })
                &&& (match args.reasoning_max_tokens {
                    Some(m) => reasoning.max_tokens == Some(m),
                    None => match env_max_tokens {
                        Some(m) => reasoning.max_tokens == Some(m),
                        None => reasoning.max_tokens == json_reasoning.max_tokens,
                    },
                })
                &&& (match reasoning.effort {
                    Some(e) => spec_valid_effort(e@),
                    None => true,
                })
            }
        }),
{
    let final_enabled = args.reasoning_enabled || (match env_enabled {
        Some(true) => true,
        _ => false,
    }) || (match json_reasoning.enabled {
        Some(true) => true,
        _ => false,
    });
    let final_exclude = args.reasoning_exclude || (match env_exclude {
        Some(true) => true,
        _ => false,
    }) || (match json_reasoning.exclude {
        Some(true) => true,
        _ => false,
    });
    let final_effort: Option<String> = match &args.reasoning_effort {
        Some(e) => Some(e.clone()),
        None => match env_effort {
            Some(e) => Some(e),
            None => match &json_reasoning.effort {
                Some(e) => Some(e.clone()),
                None => None,
            },
        },
    };
    let final_max_tokens: Option<u32> = match args.reasoning_max_tokens {
        Some(m) => Some(m),
        None => match env_max_tokens {
            Some(m) => Some(m),
            None => json_reasoning.max_tokens,
        },
    };
    let has_effort = final_effort.is_some();
    let has_max = final_max_tokens.is_some();
    if final_enabled || has_effort || has_max || final_exclude {
        let effort = match final_effort {
            Some(e) => {
                if is_valid_effort(e.as_str()) {
                    Some(e)
                } else {
                    None
                }
            },
            None => None,
        };
        Some(
            crate::models::Reasoning {
                effort,
                max_tokens: final_max_tokens,
                exclude: if final_exclude {
                    Some(true)
                } else {
                    None
                },
                enabled: if final_enabled {
                    Some(true)
                } else {
                    None
                },
            },
        )
    } else {
        None
    }
}

} // verus!

verus! {

/// The configuration files searched, highest priority first: local
/// overrides in the working directory, then the user's configuration
/// directory when a home directory is known.
pub fn config_path_candidates(home: Option<&str>) -> (r: Vec<String>)
    ensures
        r@.len() == (if home is Some {
            6int
        } else {
            3int
        }),
        r@[0]@ == ".cmd2ai.yaml"@,
        r@[1]@ == ".cmd2ai.yml"@,
        r@[2]@ == ".cmd2ai.json"@,
        home matches Some(h) ==> {
            &&& r@[3]@ == h@ + "/.config/cmd2ai/cmd2ai.yaml"@
            &&& r@[4]@ == h@ + "/.config/cmd2ai/cmd2ai.yml"@
            &&& r@[5]@ == h@ + "/.config/cmd2ai/cmd2ai.json"@
        },
{
    let mut paths: Vec<String> = Vec::new();
    paths.push(".cmd2ai.yaml".to_owned());
    paths.push(".cmd2ai.yml".to_owned());
    paths.push(".cmd2ai.json".to_owned());
    if let Some(h) = home {
        let dir = crate::strutil::concat_strs(h, "/.config/cmd2ai/");
        let p1 = crate::strutil::concat_strs(dir.as_str(), "cmd2ai.yaml");
        let p2 = crate::strutil::concat_strs(dir.as_str(), "cmd2ai.yml");
        let p3 = crate::strutil::concat_strs(dir.as_str(), "cmd2ai.json");
        proof {
            reveal_strlit("/.config/cmd2ai/");
            reveal_strlit("cmd2ai.yaml");
            reveal_strlit("cmd2ai.yml");
            reveal_strlit("cmd2ai.json");
            reveal_strlit("/.config/cmd2ai/cmd2ai.yaml");
            reveal_strlit("/.config/cmd2ai/cmd2ai.yml");
            reveal_strlit("/.config/cmd2ai/cmd2ai.json");
            assert(p1@ =~= h@ + "/.config/cmd2ai/cmd2ai.yaml"@);
            assert(p2@ =~= h@ + "/.config/cmd2ai/cmd2ai.yml"@);
            assert(p3@ =~= h@ + "/.config/cmd2ai/cmd2ai.json"@);
        }
        paths.push(p1);
        paths.push(p2);
        paths.push(p3);
    }
    paths
}

} // verus!
