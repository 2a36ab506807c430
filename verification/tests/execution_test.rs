//! End-to-end runs: plans produced by the library are performed with a
//! real child process, and the observed outcome is judged by the
//! library.

use cmd2ai::config::{LocalToolConfig, LocalToolsConfig};
use cmd2ai::executor::{judge_outcome, prepare_local_tool_call, ExecOutcome, ExecPlan, ToolAction};
use cmd2ai::json::JsonValue;
use cmd2ai::registry::{LocalSettings, LocalToolRegistry};
use tempfile::TempDir;

fn obj(members: Vec<(&str, JsonValue)>) -> JsonValue {
    JsonValue::Obj(
        members
            .into_iter()
            .map(|(k, v)| (k.to_string(), v))
            .collect(),
    )
}

fn s(text: &str) -> JsonValue {
    JsonValue::Str(text.to_string())
}

fn schema_requiring(key: &str, kind: &str) -> JsonValue {
    obj(vec![
        ("type", s("object")),
        ("properties", obj(vec![(key, obj(vec![("type", s(kind))]))])),
        ("required", JsonValue::Arr(vec![s(key)])),
    ])
}

/// Performs a plan as the library's contract describes: materialize an
/// inline script, hand the JSON payload to stdin, race the timeout.
fn run_plan(plan: &ExecPlan) -> ExecOutcome {
    let rt = tokio::runtime::Builder::new_current_thread()
        .enable_all()
        .build()
        .unwrap();
    rt.block_on(async {
        if let Some((path, text)) = &plan.inline_script {
            if let Some(slash) = path.rfind('/') {
                tokio::fs::create_dir_all(&path[..slash]).await.unwrap();
            }
            tokio::fs::write(path, text).await.unwrap();
        }
        let mut cmd = tokio::process::Command::new(&plan.program);
        cmd.args(&plan.args)
            .current_dir(&plan.working_dir)
            .kill_on_drop(true);
        for (k, v) in &plan.env {
            cmd.env(k, v);
        }
        let payload_file = tempfile::NamedTempFile::new().unwrap();
        if let Some(payload) = &plan.stdin_payload {
            tokio::fs::write(payload_file.path(), payload).await.unwrap();
        }
        let handle = payload_file.reopen().unwrap();
        cmd.stdin(handle);
        let deadline = std::time::Duration::from_secs(plan.timeout_secs);
        match tokio::time::timeout(deadline, cmd.output()).await {
            Ok(output) => {
                let output = output.unwrap();
                ExecOutcome::Completed {
                    exit_code: output.status.code(),
                    stdout: output.stdout,
                    stderr: output.stderr,
                }
            }
            Err(_) => ExecOutcome::TimedOut,
        }
    })
}

fn run_tool(registry: &LocalToolRegistry, name: &str, args: &JsonValue) -> Result<String, String> {
    let env: Vec<(String, String)> = Vec::new();
    let action = prepare_local_tool_call(registry, name, args, &env)?;
    match action {
        ToolAction::Process(plan) => {
            let outcome = run_plan(&plan);
            judge_outcome(outcome, plan.timeout_secs, plan.max_output_bytes, plan.is_script)
        }
        ToolAction::ReadFile(_) => Err("unexpected action".to_string()),
    }
}

fn registry_with(tools: Vec<LocalToolConfig>, base_dir: &str) -> LocalToolRegistry {
    let mut config = LocalToolsConfig::default();
    config.tools = tools;
    let settings = LocalSettings {
        base_dir: base_dir.to_string(),
        max_file_size_bytes: 10 * 1024 * 1024,
        verbose: false,
    };
    LocalToolRegistry::new(config, settings)
}

#[test]
fn test_echo_back_command() {
    let temp_dir = TempDir::new().unwrap();
    let base = temp_dir.path().to_str().unwrap();

    let mut tc = LocalToolConfig::new_named("echo_back".to_string());
    tc.tool_type = Some("command".to_string());
    tc.description = Some("Echoes the given text".to_string());
    tc.input_schema = Some(schema_requiring("text", "string"));
    tc.command = Some("echo".to_string());
    tc.args = vec!["-n".to_string(), "{{text}}".to_string()];
    tc.restrict_to_base_dir = false;

    let registry = registry_with(vec![tc], base);
    let result = run_tool(&registry, "echo_back", &obj(vec![("text", s("hello"))]));
    assert_eq!(result.unwrap(), "hello");
}

#[test]
fn test_inline_python_script_doubles_stdin_number() {
    let temp_dir = TempDir::new().unwrap();
    let base = temp_dir.path().to_str().unwrap();

    let mut tc = LocalToolConfig::new_named("double".to_string());
    tc.tool_type = Some("script".to_string());
    tc.description = Some("Doubles a number read from stdin".to_string());
    tc.input_schema = Some(schema_requiring("n", "number"));
    tc.interpreter = Some("python3".to_string());
    tc.script = Some("import sys, json; print(json.load(sys.stdin)['n'] * 2)".to_string());

    let registry = registry_with(vec![tc], base);
    let result = run_tool(
        &registry,
        "double",
        &obj(vec![("n", JsonValue::Num("21".to_string()))]),
    );
    assert_eq!(result.unwrap().trim(), "42");
}

#[test]
fn test_timeout_kills_slow_tool() {
    let temp_dir = TempDir::new().unwrap();
    let base = temp_dir.path().to_str().unwrap();

    let mut tc = LocalToolConfig::new_named("sleepy".to_string());
    tc.tool_type = Some("command".to_string());
    tc.description = Some("Sleeps".to_string());
    tc.input_schema = Some(obj(vec![("type", s("object"))]));
    tc.command = Some("sleep".to_string());
    tc.args = vec!["5".to_string()];
    tc.timeout_secs = 1;
    tc.stdin_json = false;

    let registry = registry_with(vec![tc], base);
    let start = std::time::Instant::now();
    let result = run_tool(&registry, "sleepy", &obj(vec![]));
    let elapsed = start.elapsed();
    assert_eq!(
        result.unwrap_err(),
        "Command execution timed out after 1 seconds"
    );
    assert!(elapsed < std::time::Duration::from_secs(3), "{:?}", elapsed);
}

#[test]
fn test_size_cap_trips_even_on_success() {
    let temp_dir = TempDir::new().unwrap();
    let base = temp_dir.path().to_str().unwrap();

    let mut tc = LocalToolConfig::new_named("bigmouth".to_string());
    tc.tool_type = Some("command".to_string());
    tc.description = Some("Prints a lot".to_string());
    tc.input_schema = Some(obj(vec![("type", s("object"))]));
    tc.command = Some("head".to_string());
    tc.args = vec!["-c".to_string(), "2000".to_string(), "/dev/zero".to_string()];
    tc.max_output_bytes = 100;
    tc.stdin_json = false;

    let registry = registry_with(vec![tc], base);
    let result = run_tool(&registry, "bigmouth", &obj(vec![]));
    assert_eq!(
        result.unwrap_err(),
        "Command output too large: 2000 bytes (max: 100 bytes)"
    );
}

#[test]
fn test_read_file_success() {
    let temp_dir = TempDir::new().unwrap();
    let base = temp_dir.path().to_str().unwrap();
    let rt = tokio::runtime::Builder::new_current_thread()
        .enable_all()
        .build()
        .unwrap();
    rt.block_on(async {
        tokio::fs::write(temp_dir.path().join("note.txt"), "Hello, world!")
            .await
            .unwrap();
    });

    let registry = registry_with(vec![], base);
    let env: Vec<(String, String)> = Vec::new();
    let action = prepare_local_tool_call(
        &registry,
        "read_file",
        &obj(vec![("path", s("note.txt"))]),
        &env,
    )
    .unwrap();
    match action {
        ToolAction::ReadFile(plan) => {
            let bytes = rt.block_on(async { tokio::fs::read(&plan.path).await.unwrap() });
            let result = cmd2ai::builtins::judge_read_file(bytes, plan.max_file_size_bytes);
            assert_eq!(result.unwrap(), "Hello, world!");
        }
        _ => panic!("expected a file read"),
    }
}

#[test]
fn test_read_file_too_large() {
    let temp_dir = TempDir::new().unwrap();
    let base = temp_dir.path().to_str().unwrap();
    let rt = tokio::runtime::Builder::new_current_thread()
        .enable_all()
        .build()
        .unwrap();
    let large_content = "x".repeat(2048);
    rt.block_on(async {
        tokio::fs::write(temp_dir.path().join("large.txt"), &large_content)
            .await
            .unwrap();
    });

    let mut config = LocalToolsConfig::default();
    config.tools = vec![];
    let settings = LocalSettings {
        base_dir: base.to_string(),
        max_file_size_bytes: 1024,
        verbose: false,
    };
    let registry = LocalToolRegistry::new(config, settings);
    let env: Vec<(String, String)> = Vec::new();
    let action = prepare_local_tool_call(
        &registry,
        "read_file",
        &obj(vec![("path", s("large.txt"))]),
        &env,
    )
    .unwrap();
    match action {
        ToolAction::ReadFile(plan) => {
            let bytes = rt.block_on(async { tokio::fs::read(&plan.path).await.unwrap() });
            let result = cmd2ai::builtins::judge_read_file(bytes, plan.max_file_size_bytes);
            assert!(result.is_err());
            assert!(result.unwrap_err().contains("File too large"));
        }
        _ => panic!("expected a file read"),
    }
}

#[test]
fn test_read_file_missing_path() {
    let temp_dir = TempDir::new().unwrap();
    let base = temp_dir.path().to_str().unwrap();
    let registry = registry_with(vec![], base);

    let settings = LocalSettings {
        base_dir: base.to_string(),
        max_file_size_bytes: 1024,
        verbose: false,
    };
    let result = cmd2ai::builtins::plan_read_file(&obj(vec![]), &settings);
    assert!(result.is_err());
    assert!(result.unwrap_err().contains("Missing required argument: path"));
    drop(registry);
}

#[test]
fn test_read_file_not_found() {
    let temp_dir = TempDir::new().unwrap();
    let base = temp_dir.path().to_str().unwrap();

    let settings = LocalSettings {
        base_dir: base.to_string(),
        max_file_size_bytes: 1024,
        verbose: false,
    };
    let result =
        cmd2ai::builtins::plan_read_file(&obj(vec![("path", s("nonexistent.txt"))]), &settings);
    assert!(result.is_err());
    assert!(result.unwrap_err().contains("File not found"));
}

#[test]
fn test_read_file_path_traversal_prevention() {
    let temp_dir = TempDir::new().unwrap();
    let base = temp_dir.path().to_str().unwrap();

    let settings = LocalSettings {
        base_dir: base.to_string(),
        max_file_size_bytes: 1024,
        verbose: false,
    };
    let result = cmd2ai::builtins::plan_read_file(
        &obj(vec![("path", s("../../etc/passwd"))]),
        &settings,
    );
    assert!(result.is_err());
}

#[test]
fn test_cat_reads_confined_file() {
    let temp_dir = TempDir::new().unwrap();
    let base = temp_dir.path().to_str().unwrap();
    let rt = tokio::runtime::Builder::new_current_thread()
        .enable_all()
        .build()
        .unwrap();
    rt.block_on(async {
        tokio::fs::write(temp_dir.path().join("note.txt"), "from the sandbox")
            .await
            .unwrap();
    });

    let mut tc = LocalToolConfig::new_named("cat_file".to_string());
    tc.tool_type = Some("command".to_string());
    tc.description = Some("Prints a file from the sandbox".to_string());
    tc.input_schema = Some(schema_requiring("path", "string"));
    tc.command = Some("cat".to_string());
    tc.args = vec!["{{path}}".to_string()];
    tc.stdin_json = false;

    let registry = registry_with(vec![tc], base);
    let result = run_tool(&registry, "cat_file", &obj(vec![("path", s("note.txt"))]));
    assert_eq!(result.unwrap(), "from the sandbox");
}
