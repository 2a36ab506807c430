//! Planning and judging of tool subprocess execution.
//!
//! The caller performs the operating-system work — materializing an
//! inline script, spawning the process, piping stdin, racing the
//! timeout — exactly as an [`ExecPlan`] says, and hands the observed
//! [`ExecOutcome`] back to [`judge_outcome`], which decides the tool
//! call's result for every possible outcome.

use vstd::prelude::*;
use crate::config::LocalToolConfig;
use crate::json::JsonValue;
use crate::registry::{LocalSettings, LocalToolRegistry, ToolKind};
use crate::strutil::{concat_strs, contains_seq, dec_digits, str_contains, u64_to_string};

verus! {

/// Everything the caller needs to run one tool process.
#[derive(Debug)]
pub struct ExecPlan {
    /// The program to spawn: the interpreter of a script tool, or the
    /// command of a command tool.
    pub program: String,
    /// The argument vector.
    pub args: Vec<String>,
    /// The working directory, an absolute path.
    pub working_dir: String,
    /// Environment entries to set, `${VAR}` references already expanded.
    pub env: Vec<(String, String)>,
    /// The JSON text to write to stdin, when stdin is piped.
    pub stdin_payload: Option<String>,
    /// An inline script to write (executable) before spawning: its
    /// target path and its text.
    pub inline_script: Option<(String, String)>,
    pub timeout_secs: u64,
    pub max_output_bytes: u64,
    /// Whether the plan came from a script tool (this wording is used in
    /// error messages).
    pub is_script: bool,
}

/// What the caller observed of the child process.
#[derive(Debug)]
pub enum ExecOutcome {
    /// The deadline elapsed first.
    TimedOut,
    /// The process completed; `exit_code` is `None` when it was ended by
    /// a signal.
    Completed { exit_code: Option<i32>, stdout: Vec<u8>, stderr: Vec<u8> },
}

/// The decoding of `bytes` as UTF-8, when they are valid UTF-8: a
/// function of the bytes alone.
pub uninterp spec fn utf8_of(bytes: Seq<u8>) -> Option<Seq<char>>;

/// The lossy decoding of `bytes` as UTF-8: a function of the bytes
/// alone.
pub uninterp spec fn lossy_utf8_of(bytes: Seq<u8>) -> Seq<char>;

/// Relies on `String::from_utf8`: succeeds exactly on valid UTF-8 and
/// yields the decoded text.
#[verifier::external_body]
pub(crate) fn decode_utf8(bytes: Vec<u8>) -> (r: Result<String, String>)
    ensures
        r is Ok <==> utf8_of(bytes@) is Some,
        r is Ok ==> r->Ok_0@ == utf8_of(bytes@)->Some_0,
{
    match String::from_utf8(bytes) {
        Ok(s) => Ok(s),
        Err(e) => Err(format!("{}", e)),
    }
}

/// Relies on `String::from_utf8_lossy`: decodes, replacing invalid
/// sequences, as a function of the bytes alone.
#[verifier::external_body]
fn decode_utf8_lossy(bytes: &Vec<u8>) -> (r: String)
    ensures
        r@ == lossy_utf8_of(bytes@),
{
    String::from_utf8_lossy(bytes).to_string()
}

/// The error text for a timed-out execution.
pub open spec fn msg_timeout(is_script: bool, timeout_secs: u64) -> Seq<char> {
    (if is_script {
        "Script execution timed out after "@
    } else {
        "Command execution timed out after "@
    }) + dec_digits(timeout_secs as nat) + " seconds"@
}

/// The error text for a non-zero or signalled exit.
pub open spec fn msg_exit(is_script: bool, exit_code: Option<i32>, stderr: Seq<u8>) -> Seq<char> {
    (if is_script {
        "Script exited with code "@
    } else {
        "Command exited with code "@
    }) + crate::strutil::dec_digits_signed(
        match exit_code {
            Some(c) => c as int,
            None => -1,
        },
    ) + ": "@ + lossy_utf8_of(stderr)
}

/// The error text for oversized output.
pub open spec fn msg_too_large(is_script: bool, n: nat, max: u64) -> Seq<char> {
    (if is_script {
        "Script output too large: "@
    } else {
        "Command output too large: "@
    }) + dec_digits(n) + " bytes (max: "@ + dec_digits(max as nat) + " bytes)"@
}

/// What a completed or timed-out execution yields, for every outcome:
/// the stdout text exactly when the process exited with code zero, its
/// raw stdout is within the size cap, and it decodes as UTF-8.
pub open spec fn spec_judge(outcome: ExecOutcome, timeout_secs: u64, max_output_bytes: u64, is_script: bool) -> Result<Seq<char>, Seq<char>> {
    match outcome {
        ExecOutcome::TimedOut => Err(msg_timeout(is_script, timeout_secs)),
        ExecOutcome::Completed { exit_code, stdout, stderr } => {
            if exit_code != Some(0i32) {
                Err(msg_exit(is_script, exit_code, stderr@))
            } else if stdout@.len() > max_output_bytes {
                Err(msg_too_large(is_script, stdout@.len(), max_output_bytes))
            } else {
                match utf8_of(stdout@) {
                    Some(text) => Ok(text),
                    None => Err(
                        (if is_script {
                            "Script output is not valid UTF-8"@
                        } else {
                            "Command output is not valid UTF-8"@
                        }),
                    ),
                }
            }
        },
    }
}

/// Judges one observed execution outcome: a timeout, a non-zero exit and
/// oversized or undecodable output are errors; otherwise the stdout text
/// is the tool result.
pub fn judge_outcome(outcome: ExecOutcome, timeout_secs: u64, max_output_bytes: u64, is_script: bool) -> (r: Result<String, String>)
    ensures
        match spec_judge(outcome, timeout_secs, max_output_bytes, is_script) {
            Ok(text) => r is Ok && r->Ok_0@ == text,
            Err(msg) => r is Err && r->Err_0@ == msg,
        },
{
    match outcome {
        ExecOutcome::TimedOut => {
            let prefix: &str = if is_script {
                "Script execution timed out after "
            } else {
                "Command execution timed out after "
            };
            let num = u64_to_string(timeout_secs);
            let m1 = concat_strs(prefix, num.as_str());
            let m = concat_strs(m1.as_str(), " seconds");
            Err(m)
        },
        ExecOutcome::Completed { exit_code, stdout, stderr } => {
            let is_zero = match exit_code {
                Some(c) => c == 0,
                None => false,
            };
            if !is_zero {
                let prefix: &str = if is_script {
                    "Script exited with code "
                } else {
                    "Command exited with code "
                };
                let code: i64 = match exit_code {
                    Some(c) => c as i64,
                    None => -1,
                };
                let num = crate::strutil::i64_to_string(code);
                let stderr_text = decode_utf8_lossy(&stderr);
                let m1 = concat_strs(prefix, num.as_str());
                let m2 = concat_strs(m1.as_str(), ": ");
                let m = concat_strs(m2.as_str(), stderr_text.as_str());
                return Err(m);
            }
            if stdout.len() as u64 > max_output_bytes {
                let prefix: &str = if is_script {
                    "Script output too large: "
                } else {
                    "Command output too large: "
                };
                let n = u64_to_string(stdout.len() as u64);
                let mx = u64_to_string(max_output_bytes);
                let m1 = concat_strs(prefix, n.as_str());
                let m2 = concat_strs(m1.as_str(), " bytes (max: ");
                let m3 = concat_strs(m2.as_str(), mx.as_str());
                let m = concat_strs(m3.as_str(), " bytes)");
                return Err(m);
            }
            match decode_utf8(stdout) {
                Ok(text) => Ok(text),
                Err(_) => {
                    let m: &str = if is_script {
                        "Script output is not valid UTF-8"
                    } else {
                        "Command output is not valid UTF-8"
                    };
                    Err(m.to_owned())
                },
            }
        },
    }
}

/// The file extension used for an inline script, inferred from the
/// interpreter's name.
pub open spec fn spec_script_extension(interpreter: Seq<char>) -> Seq<char> {
    if contains_seq(interpreter, "python"@) {
        "py"@
    } else if contains_seq(interpreter, "node"@) || contains_seq(interpreter, "bun"@) {
        "js"@
    } else if contains_seq(interpreter, "bash"@) || contains_seq(interpreter, "sh"@) {
        "sh"@
    } else if contains_seq(interpreter, "ruby"@) {
        "rb"@
    } else {
        "txt"@
    }
}

/// The file extension used for an inline script.
pub fn get_script_extension(interpreter: &str) -> (r: &'static str)
    ensures
        r@ == spec_script_extension(interpreter@),
{
    if str_contains(interpreter, "python") {
        "py"
    } else if str_contains(interpreter, "node") || str_contains(interpreter, "bun") {
        "js"
    } else if str_contains(interpreter, "bash") || str_contains(interpreter, "sh") {
        "sh"
    } else if str_contains(interpreter, "ruby") {
        "rb"
    } else {
        "txt"
    }
}

/// `name` with every `/` replaced by `_`.
pub open spec fn spec_sanitize_name(name: Seq<char>) -> Seq<char> {
    name.map_values(
        |c: char|
            if c == '/' {
                '_'
            } else {
                c
            },
    )
}

/// Replaces every `/` in a tool name, so it can serve as a file name.
fn sanitize_name(name: &str) -> (r: String)
    ensures
        r@ == spec_sanitize_name(name@),
{
    let chars = crate::strutil::str_to_chars(name);
    let n = chars.len();
    let mut out: Vec<char> = Vec::new();
    let mut i: usize = 0;
    while i < n
        invariant
            0 <= i <= n,
            n == chars@.len(),
            chars@ == name@,
            out@ == spec_sanitize_name(name@.subrange(0, i as int)),
        decreases n - i,
    {
        if chars[i] == '/' {
            out.push('_');
        } else {
            out.push(chars[i]);
        }
        i += 1;
        proof {
            assert(out@ =~= spec_sanitize_name(name@.subrange(0, i as int)));
        }
    }
    proof {
        assert(name@.subrange(0, n as int) =~= name@);
    }
    crate::strutil::chars_to_string(&out)
}

} // verus!

verus! {

/// What the caller must perform for one validated tool call.
#[derive(Debug)]
pub enum ToolAction {
    /// Read the planned file and judge the bytes with
    /// [`crate::builtins::judge_read_file`].
    ReadFile(crate::builtins::ReadFilePlan),
    /// Run the planned process and judge the outcome with
    /// [`judge_outcome`].
    Process(ExecPlan),
}

/// What a script tool's plan guarantees: the interpreter as program,
/// the script file as the only argument — an inline script at its
/// cache path, a configured script path confined (hence absolute) — the
/// working directory resolved, the environment expanded, and the JSON
/// arguments as the stdin payload.
pub open spec fn spec_script_plan(
    cfg: LocalToolConfig,
    args: crate::json::JsonV,
    settings: LocalSettings,
    envv: Seq<(Seq<char>, Seq<char>)>,
    plan: ExecPlan,
) -> bool {
    &&& cfg.interpreter is Some
    &&& plan.program@ == cfg.interpreter->Some_0@
    &&& plan.is_script == true
    &&& plan.timeout_secs == cfg.timeout_secs
    &&& plan.max_output_bytes == cfg.max_output_bytes
    &&& plan.stdin_payload is Some
    &&& plan.stdin_payload->Some_0@ == crate::json::json_ser(args)
    &&& plan.args@.len() == 1
    &&& (cfg.script matches Some(text) ==> plan.inline_script is Some
        && plan.inline_script->Some_0.1@ == text@ && plan.inline_script->Some_0.0@
        == plan.args@[0]@ && plan.args@[0]@ == settings.base_dir@ + "/.toolscache/tmp/"@
        + spec_sanitize_name(cfg.name@) + "."@ + spec_script_extension(cfg.interpreter->Some_0@))
    &&& (cfg.script is None ==> plan.inline_script is None && crate::paths::is_abs_path(
        plan.args@[0]@,
    ))
    &&& (cfg.working_dir is None ==> plan.working_dir@ == settings.base_dir@)
    &&& (cfg.working_dir is Some ==> crate::paths::is_abs_path(plan.working_dir@))
    &&& plan.env@.len() == cfg.env@.len()
    &&& (forall|k: int|
        0 <= k < cfg.env@.len() ==> (#[trigger] plan.env@[k]).0@ == cfg.env@[k].0@ && plan.env@[
            k
        ].1@ == crate::envsub::env_expand(cfg.env@[k].1@, 0, envv))
}

/// What a command tool's plan guarantees: the command as program, the
/// argument templates `${VAR}`-expanded and then templated with the
/// option-injection guard (see
/// [`crate::template::template_args_post`]), the working directory
/// resolved, and the JSON arguments piped exactly when configured.
pub open spec fn spec_command_plan(
    cfg: LocalToolConfig,
    args: crate::json::JsonV,
    settings: LocalSettings,
    envv: Seq<(Seq<char>, Seq<char>)>,
    plan: ExecPlan,
) -> bool {
    &&& cfg.command is Some
    &&& plan.program@ == cfg.command->Some_0@
    &&& plan.is_script == false
    &&& plan.inline_script is None
    &&& plan.timeout_secs == cfg.timeout_secs
    &&& plan.max_output_bytes == cfg.max_output_bytes
    &&& (cfg.stdin_json ==> plan.stdin_payload is Some && plan.stdin_payload->Some_0@
        == crate::json::json_ser(args))
    &&& (!cfg.stdin_json ==> plan.stdin_payload is None)
    &&& (cfg.working_dir is None ==> plan.working_dir@ == settings.base_dir@)
    &&& (cfg.working_dir is Some ==> crate::paths::is_abs_path(plan.working_dir@))
    &&& exists|ea: Seq<String>, mid: Seq<Seq<char>>|
        {
            &&& ea.len() == cfg.args@.len()
            &&& (forall|k: int|
                0 <= k < ea.len() ==> (#[trigger] ea[k])@ == crate::envsub::env_expand(
                    cfg.args@[k]@,
                    0,
                    envv,
                ))
            &&& crate::template::template_args_post(ea, args, cfg, plan.args@, mid)
        }
}

/// Plans the execution of a script tool: the interpreter runs the
/// script file — an inline script is first written under the base
/// directory's private cache, a configured script path is confined to
/// the base directory — with the JSON arguments piped to stdin.
pub fn plan_script_execution(
    cfg: &LocalToolConfig,
    arguments: &JsonValue,
    settings: &LocalSettings,
    env_table: &Vec<(String, String)>,
) -> (r: Result<ExecPlan, String>)
    ensures
        cfg.interpreter is None ==> r is Err,
        cfg.interpreter is Some && cfg.script is None && cfg.script_path is None ==> r is Err,
        cfg.interpreter is Some && cfg.script is Some && cfg.working_dir is None ==> r is Ok,
        r is Ok ==> spec_script_plan(
            *cfg,
            arguments@,
            *settings,
            crate::envsub::env_view(env_table@),
            r->Ok_0,
        ),
{
    let interpreter = match &cfg.interpreter {
        Some(i) => i,
        None => {
            let m1 = concat_strs("Tool '", cfg.name.as_str());
            let m = concat_strs(m1.as_str(), "' (type: script) requires 'interpreter' field");
            return Err(m);
        },
    };
    let (script_arg, inline_script) = if let Some(text) = &cfg.script {
        let sanitized = sanitize_name(cfg.name.as_str());
        let ext = get_script_extension(interpreter.as_str());
        let p1 = concat_strs(settings.base_dir.as_str(), "/.toolscache/tmp/");
        let p2 = concat_strs(p1.as_str(), sanitized.as_str());
        let p3 = concat_strs(p2.as_str(), ".");
        let temp_path = concat_strs(p3.as_str(), ext);
        proof {
            assert(temp_path@ =~= settings.base_dir@ + "/.toolscache/tmp/"@ + spec_sanitize_name(
                cfg.name@,
            ) + "."@ + spec_script_extension(cfg.interpreter->Some_0@));
        }
        let arg_copy = temp_path.clone();
        (arg_copy, Some((temp_path, text.clone())))
    } else if let Some(sp) = &cfg.script_path {
        let resolved = match crate::paths::safe_resolve_path(
            sp.as_str(),
            settings.base_dir.as_str(),
        ) {
            Ok(p) => p,
            Err(e) => {
                return Err(e);
            },
        };
        (resolved, None)
    } else {
        let m1 = concat_strs("Tool '", cfg.name.as_str());
        let m = concat_strs(
            m1.as_str(),
            "' (type: script) requires either 'script' (inline) or 'script_path' field",
        );
        return Err(m);
    };
    let working_dir = match &cfg.working_dir {
        Some(wd) => {
            match crate::paths::safe_resolve_path(wd.as_str(), settings.base_dir.as_str()) {
                Ok(p) => p,
                Err(e) => {
                    return Err(e);
                },
            }
        },
        None => settings.base_dir.clone(),
    };
    let env = crate::envsub::expand_env_vars(&cfg.env, env_table);
    let stdin_payload = Some(crate::json::to_json_string(arguments));
    let mut args: Vec<String> = Vec::new();
    args.push(script_arg);
    Ok(
        ExecPlan {
            program: interpreter.clone(),
            args,
            working_dir,
            env,
            stdin_payload,
            inline_script,
            timeout_secs: cfg.timeout_secs,
            max_output_bytes: cfg.max_output_bytes,
            is_script: true,
        },
    )
}

/// Plans the execution of a command tool: the command runs with its
/// argument templates expanded — `${VAR}` references first, then
/// `{{key}}` placeholders with the option-injection guard — and the
/// JSON arguments piped to stdin when configured.
pub fn plan_command_execution(
    cfg: &LocalToolConfig,
    arguments: &JsonValue,
    settings: &LocalSettings,
    env_table: &Vec<(String, String)>,
) -> (r: Result<ExecPlan, String>)
    ensures
        cfg.command is None ==> r is Err,
        (cfg.command is Some && cfg.working_dir is None && forall|j: int|
            0 <= j < cfg.args@.len() ==> crate::template::spec_all_string_checks_pass(
                crate::envsub::env_expand(
                    (#[trigger] cfg.args@[j])@,
                    0,
                    crate::envsub::env_view(env_table@),
                ),
                arguments@,
                *cfg,
            )) ==> r is Ok,
        r is Ok ==> spec_command_plan(
            *cfg,
            arguments@,
            *settings,
            crate::envsub::env_view(env_table@),
            r->Ok_0,
        ),
{
    let command = match &cfg.command {
        Some(c) => c,
        None => {
            let m1 = concat_strs("Tool '", cfg.name.as_str());
            let m = concat_strs(m1.as_str(), "' (type: command) requires 'command' field");
            return Err(m);
        },
    };
    let working_dir = match &cfg.working_dir {
        Some(wd) => {
            match crate::paths::safe_resolve_path(wd.as_str(), settings.base_dir.as_str()) {
                Ok(p) => p,
                Err(e) => {
                    return Err(e);
                },
            }
        },
        None => settings.base_dir.clone(),
    };
    let env = crate::envsub::expand_env_vars(&cfg.env, env_table);
    let n = cfg.args.len();
    let mut env_expanded: Vec<String> = Vec::new();
    let mut i: usize = 0;
    while i < n
        invariant
            0 <= i <= n,
            n == cfg.args@.len(),
            env_expanded@.len() == i,
            forall|k: int|
                0 <= k < i ==> (#[trigger] env_expanded@[k])@ == crate::envsub::env_expand(
                    cfg.args@[k]@,
                    0,
                    crate::envsub::env_view(env_table@),
                ),
        decreases n - i,
    {
        let e = crate::envsub::expand_env_var_in_string(cfg.args[i].as_str(), env_table);
        env_expanded.push(e);
        i += 1;
    }
    let templated = match crate::template::template_args(
        &env_expanded,
        arguments,
        cfg,
        settings.base_dir.as_str(),
    ) {
        Ok(t) => t,
        Err(e) => {
            proof {
                assert(forall|j: int|
                    0 <= j < env_expanded@.len() ==> (#[trigger] env_expanded@[j])@
                        == crate::envsub::env_expand(
                        cfg.args@[j]@,
                        0,
                        crate::envsub::env_view(env_table@),
                    ));
            }
            return Err(e);
        },
    };
    let stdin_payload = if cfg.stdin_json {
        Some(crate::json::to_json_string(arguments))
    } else {
        None
    };
    let ghost ea = env_expanded@;
    let ghost mid = choose|m: Seq<Seq<char>>|
        #[trigger] crate::template::template_args_post(
            env_expanded@,
            arguments@,
            *cfg,
            templated@,
            m,
        );
    let res: Result<ExecPlan, String> = Ok(
        ExecPlan {
            program: command.clone(),
            args: templated,
            working_dir,
            env,
            stdin_payload,
            inline_script: None,
            timeout_secs: cfg.timeout_secs,
            max_output_bytes: cfg.max_output_bytes,
            is_script: false,
        },
    );
    proof {
        assert(crate::template::template_args_post(ea, arguments@, *cfg, res->Ok_0.args@, mid));
    }
    res
}

/// What preparing a call of the matched tool `t` guarantees of the
/// result `r`: a returned action is the matched tool's own plan — the
/// built-in file reader yields a confined file read, a script-typed
/// configuration its script plan, a command-typed its command plan — a
/// dynamic tool of any other type is an error, and success is owed
/// where no filesystem call decides.
pub open spec fn spec_prepared(
    t: crate::registry::LocalTool,
    args: JsonValue,
    settings: LocalSettings,
    envv: Seq<(Seq<char>, Seq<char>)>,
    r: Result<ToolAction, String>,
) -> bool {
    &&& (r is Ok ==> match r->Ok_0 {
        ToolAction::ReadFile(plan) => t.kind is BuiltinReadFile && crate::paths::is_abs_path(
            plan.path@,
        ) && plan.max_file_size_bytes == settings.max_file_size_bytes,
        ToolAction::Process(plan) => t.kind is Dynamic && {
            let cfg = t.kind->Dynamic_0;
            &&& (cfg.tool_type matches Some(ty) && (ty@ == "script"@ || ty@ == "command"@))
            &&& (cfg.tool_type->Some_0@ == "script"@ ==> spec_script_plan(
                cfg,
                args@,
                settings,
                envv,
                plan,
            ))
            &&& (cfg.tool_type->Some_0@ == "command"@ ==> spec_command_plan(
                cfg,
                args@,
                settings,
                envv,
                plan,
            ))
        },
    })
    &&& (t.kind matches ToolKind::Dynamic(cfg) && !(cfg.tool_type matches Some(ty) && (ty@
        == "script"@ || ty@ == "command"@)) ==> r is Err)
    &&& ((t.kind matches ToolKind::Dynamic(cfg) && cfg.tool_type matches Some(ty) && ty@
        == "script"@ && cfg.interpreter is Some && cfg.script is Some && cfg.working_dir is None
        && crate::registry::spec_args_valid(t, args)) ==> r is Ok)
    &&& ((t.kind matches ToolKind::Dynamic(cfg) && cfg.tool_type matches Some(ty) && ty@
        == "command"@ && cfg.command is Some && cfg.working_dir is None
        && crate::registry::spec_args_valid(t, args) && (forall|j: int|
        0 <= j < cfg.args@.len() ==> crate::template::spec_all_string_checks_pass(
            crate::envsub::env_expand((#[trigger] cfg.args@[j])@, 0, envv),
            args@,
            cfg,
        ))) ==> r is Ok)
}

/// Validates the call's arguments and, only then, plans the named
/// tool's execution.  No plan is ever handed out for arguments that
/// fail the tool's schema: validation runs strictly before execution,
/// and the returned action is the matched tool's own plan, as
/// [`spec_prepared`] says.
pub fn prepare_local_tool_call(
    registry: &LocalToolRegistry,
    tool_name: &str,
    arguments: &JsonValue,
    env_table: &Vec<(String, String)>,
) -> (r: Result<ToolAction, String>)
    requires
        registry.wf(),
    ensures
        r is Ok ==> exists|i: int|
            0 <= i < registry.spec_tools().len() && (#[trigger] registry.spec_tools()[i]).name@
                == tool_name@ && crate::registry::spec_args_valid(
                registry.spec_tools()[i],
                *arguments,
            ),
        (forall|i: int|
            0 <= i < registry.spec_tools().len() ==> (#[trigger] registry.spec_tools()[i]).name@
                != tool_name@) ==> r is Err && r->Err_0@ == "Tool '"@ + tool_name@
            + "' not found"@,
        forall|i: int|
            0 <= i < registry.spec_tools().len() && (#[trigger] registry.spec_tools()[i]).name@
                == tool_name@ ==> spec_prepared(
                registry.spec_tools()[i],
                *arguments,
                registry.spec_settings(),
                crate::envsub::env_view(env_table@),
                r,
            ),
{
    match registry.validate_arguments(tool_name, arguments) {
        Ok(()) => {},
        Err(e) => {
            return Err(e);
        },
    }
    let tool = match registry.get(tool_name) {
        Some(t) => t,
        None => {
            let m1 = concat_strs("Tool '", tool_name);
            let m = concat_strs(m1.as_str(), "' not found");
            proof {
                assert(m@ =~= "Tool '"@ + tool_name@ + "' not found"@);
            }
            return Err(m);
        },
    };
    proof {
        assert(forall|i: int|
            0 <= i < registry.spec_tools().len() && (#[trigger] registry.spec_tools()[i]).name@
                == tool_name@ ==> registry.spec_tools()[i] == *tool);
    }
    let settings = registry.settings();
    let ghost envv = crate::envsub::env_view(env_table@);
    match &tool.kind {
        ToolKind::BuiltinReadFile => {
            match crate::builtins::plan_read_file(arguments, settings) {
                Ok(plan) => {
                    let res: Result<ToolAction, String> = Ok(ToolAction::ReadFile(plan));
                    proof {
                        assert(spec_prepared(
                            *tool,
                            *arguments,
                            registry.spec_settings(),
                            envv,
                            res,
                        ));
                    }
                    res
                },
                Err(e) => Err(e),
            }
        },
        ToolKind::Dynamic(cfg) => {
            let is_script = match &cfg.tool_type {
                Some(t) => crate::json::streq(t.as_str(), "script"),
                None => false,
            };
            let is_command = match &cfg.tool_type {
                Some(t) => crate::json::streq(t.as_str(), "command"),
                None => false,
            };
            proof {
                assert("script"@ != "command"@) by {
                    reveal_strlit("script");
                    reveal_strlit("command");
                    assert("script"@.len() == 6);
                    assert("command"@.len() == 7);
                };
            }
            if is_script {
                match plan_script_execution(cfg, arguments, settings, env_table) {
                    Ok(plan) => {
                        let res: Result<ToolAction, String> = Ok(ToolAction::Process(plan));
                        proof {
                            assert(spec_prepared(
                                *tool,
                                *arguments,
                                registry.spec_settings(),
                                envv,
                                res,
                            ));
                        }
                        res
                    },
                    Err(e) => Err(e),
                }
            } else if is_command {
                match plan_command_execution(cfg, arguments, settings, env_table) {
                    Ok(plan) => {
                        let res: Result<ToolAction, String> = Ok(ToolAction::Process(plan));
                        proof {
                            assert(spec_prepared(
                                *tool,
                                *arguments,
                                registry.spec_settings(),
                                envv,
                                res,
                            ));
                        }
                        res
                    },
                    Err(e) => Err(e),
                }
            } else {
                let m1 = concat_strs("Unknown tool type for tool '", cfg.name.as_str());
                let m = concat_strs(m1.as_str(), "'");
                Err(m)
            }
        },
    }
}

} // verus!
