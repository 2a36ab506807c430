use cmd2ai::config::{LocalToolConfig, LocalToolsConfig};
use cmd2ai::executor::{prepare_local_tool_call, ToolAction};
use cmd2ai::json::JsonValue;
use cmd2ai::registry::{LocalSettings, LocalToolRegistry};

fn obj(members: Vec<(&str, JsonValue)>) -> JsonValue {
    JsonValue::Obj(
        members
            .into_iter()
            .map(|(k, v)| (k.to_string(), v))
            .collect(),
    )
}

fn s(text: &str) -> JsonValue {
    JsonValue::Str(text.to_string())
}

fn settings() -> LocalSettings {
    LocalSettings {
        base_dir: "/tmp".to_string(),
        max_file_size_bytes: 1024,
        verbose: false,
    }
}

fn schema_requiring(key: &str) -> JsonValue {
    obj(vec![
        ("type", s("object")),
        ("properties", obj(vec![(key, obj(vec![("type", s("string"))]))])),
        ("required", JsonValue::Arr(vec![s(key)])),
        ("additionalProperties", JsonValue::Bool(false)),
    ])
}

fn echo_tool(name: &str) -> LocalToolConfig {
    let mut tc = LocalToolConfig::new_named(name.to_string());
    tc.tool_type = Some("command".to_string());
    tc.description = Some("echoes".to_string());
    tc.input_schema = Some(schema_requiring("text"));
    tc.command = Some("echo".to_string());
    tc.args = vec!["{{text}}".to_string()];
    tc
}

#[test]
fn test_builtin_precedence() {
    let mut config = LocalToolsConfig::default();
    config.tools.push(echo_tool("read_file"));

    let registry = LocalToolRegistry::new(config, settings());
    let tools = registry.list();
    let read_file_entries: Vec<_> = tools.iter().filter(|t| t.name == "read_file").collect();
    assert_eq!(read_file_entries.len(), 1);
    assert!(matches!(
        read_file_entries[0].kind,
        cmd2ai::registry::ToolKind::BuiltinReadFile
    ));
}

#[test]
fn test_disabled_builtin_not_registered() {
    let mut config = LocalToolsConfig::default();
    let mut gate = LocalToolConfig::new_named("read_file".to_string());
    gate.enabled = false;
    config.tools.push(gate);

    let registry = LocalToolRegistry::new(config, settings());
    assert!(registry.get("read_file").is_none());
}

#[test]
fn test_dynamic_tool_registered() {
    let mut config = LocalToolsConfig::default();
    config.tools.push(echo_tool("echo_back"));

    let registry = LocalToolRegistry::new(config, settings());
    assert!(registry.get("echo_back").is_some());
    assert!(registry.get("read_file").is_some());
    assert!(registry.get("nonexistent").is_none());
}

#[test]
fn test_invalid_dynamic_tool_skipped() {
    let mut config = LocalToolsConfig::default();
    let mut broken = LocalToolConfig::new_named("broken".to_string());
    broken.tool_type = Some("command".to_string());
    broken.description = Some("no command field".to_string());
    broken.input_schema = Some(schema_requiring("x"));
    config.tools.push(broken);
    config.tools.push(echo_tool("works"));

    let registry = LocalToolRegistry::new(config, settings());
    assert!(registry.get("broken").is_none());
    assert!(registry.get("works").is_some());
}

#[test]
fn test_disabled_dynamic_tool_skipped() {
    let mut config = LocalToolsConfig::default();
    let mut t = echo_tool("off");
    t.enabled = false;
    config.tools.push(t);

    let registry = LocalToolRegistry::new(config, settings());
    assert!(registry.get("off").is_none());
}

#[test]
fn test_schema_gating_rejects_before_planning() {
    let mut config = LocalToolsConfig::default();
    config.tools.push(echo_tool("echo_back"));
    let registry = LocalToolRegistry::new(config, settings());

    let bad_args = obj(vec![("wrong", s("x"))]);
    let env: Vec<(String, String)> = Vec::new();
    let result = prepare_local_tool_call(&registry, "echo_back", &bad_args, &env);
    assert!(result.is_err());
    let msg = result.unwrap_err();
    assert!(msg.contains("required") || msg.contains("wrong"), "{}", msg);
}

#[test]
fn test_validation_passes_and_plan_is_produced() {
    let mut config = LocalToolsConfig::default();
    config.tools.push(echo_tool("echo_back"));
    let registry = LocalToolRegistry::new(config, settings());

    let good_args = obj(vec![("text", s("hello"))]);
    let env: Vec<(String, String)> = Vec::new();
    let action = prepare_local_tool_call(&registry, "echo_back", &good_args, &env).unwrap();
    match action {
        ToolAction::Process(plan) => {
            assert_eq!(plan.program, "echo");
            assert_eq!(plan.args, vec!["hello".to_string()]);
            assert_eq!(plan.stdin_payload, Some("{\"text\":\"hello\"}".to_string()));
        }
        _ => panic!("expected a process plan"),
    }
}

#[test]
fn test_unknown_tool_is_an_error() {
    let config = LocalToolsConfig::default();
    let registry = LocalToolRegistry::new(config, settings());
    let env: Vec<(String, String)> = Vec::new();
    let result = prepare_local_tool_call(&registry, "missing", &obj(vec![]), &env);
    assert!(result.is_err());
    assert!(result.unwrap_err().contains("not found"));
}

#[test]
fn test_validate_arguments_reports_all_violations() {
    let mut config = LocalToolsConfig::default();
    let mut tc = echo_tool("strict");
    tc.input_schema = Some(obj(vec![
        ("type", s("object")),
        (
            "properties",
            obj(vec![
                ("a", obj(vec![("type", s("string"))])),
                ("b", obj(vec![("type", s("string"))])),
            ]),
        ),
        ("required", JsonValue::Arr(vec![s("a"), s("b")])),
    ]));
    config.tools.push(tc);
    let registry = LocalToolRegistry::new(config, settings());

    let result = registry.validate_arguments("strict", &obj(vec![]));
    assert!(result.is_err());
    let msg = result.unwrap_err();
    assert!(msg.contains("a"), "{}", msg);
    assert!(msg.contains("b"), "{}", msg);
}

#[test]
fn test_format_tools_for_llm_shape() {
    let mut config = LocalToolsConfig::default();
    config.tools.push(echo_tool("echo_back"));
    let registry = LocalToolRegistry::new(config, settings());

    let descriptors = cmd2ai::registry::format_tools_for_llm(&registry);
    assert_eq!(descriptors.len(), 2);
    for d in &descriptors {
        assert_eq!(d.get("type"), Some(&s("function")));
        let f = d.get("function").unwrap();
        assert!(f.get("name").is_some());
        assert!(f.get("description").is_some());
        assert!(f.get("parameters").is_some());
    }
}

#[test]
fn test_rejected_tool_names_reported() {
    let mut config = LocalToolsConfig::default();
    let mut broken = LocalToolConfig::new_named("broken".to_string());
    broken.tool_type = Some("command".to_string());
    broken.description = Some("no command field".to_string());
    broken.input_schema = Some(schema_requiring("x"));
    config.tools.push(broken);
    config.tools.push(echo_tool("fine"));

    let rejected = cmd2ai::registry::rejected_tool_names(&config);
    assert_eq!(rejected, vec!["broken".to_string()]);
}

#[test]
fn test_descriptors_carry_configured_description_and_schema() {
    let mut config = LocalToolsConfig::default();
    let tool = echo_tool("echo_back");
    let schema = tool.input_schema.clone().unwrap();
    config.tools.push(tool);
    let registry = LocalToolRegistry::new(config, settings());

    let descriptors = cmd2ai::registry::format_tools_for_llm(&registry);
    let dynamic = descriptors
        .iter()
        .find(|d| d.get("function").unwrap().get("name") == Some(&s("echo_back")))
        .unwrap();
    let function = dynamic.get("function").unwrap();
    assert_eq!(function.get("description"), Some(&s("echoes")));
    assert_eq!(function.get("parameters"), Some(&schema));
}
