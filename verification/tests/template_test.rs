use cmd2ai::config::{LocalToolConfig, TemplateValidation};
use cmd2ai::json::JsonValue;
use cmd2ai::template::{expand_one_arg, template_args};
use tempfile::TempDir;

fn args_obj(members: Vec<(&str, JsonValue)>) -> JsonValue {
    JsonValue::Obj(
        members
            .into_iter()
            .map(|(k, v)| (k.to_string(), v))
            .collect(),
    )
}

fn s(text: &str) -> JsonValue {
    JsonValue::Str(text.to_string())
}

fn plain_tool() -> LocalToolConfig {
    LocalToolConfig::new_named("test_tool".to_string())
}

#[test]
fn test_no_cascading_substitution() {
    let cfg = plain_tool();
    let call_args = args_obj(vec![("a", s("{{b}}")), ("b", s("evil"))]);

    let (expanded, had_ph, had_path) =
        expand_one_arg("{{a}}", &call_args, &cfg, "/tmp").unwrap();
    assert_eq!(expanded, "{{b}}");
    assert!(had_ph);
    assert!(!had_path);

    let self_referential = args_obj(vec![("a", s("{{a}}"))]);
    let (expanded2, _, _) =
        expand_one_arg("pre {{a}} post", &self_referential, &cfg, "/tmp").unwrap();
    assert_eq!(expanded2, "pre {{a}} post");
}

#[test]
fn test_missing_key_leaves_placeholder() {
    let cfg = plain_tool();
    let call_args = args_obj(vec![("other", s("x"))]);

    let (expanded, had_ph, _) = expand_one_arg("{{a}}", &call_args, &cfg, "/tmp").unwrap();
    assert_eq!(expanded, "{{a}}");
    assert!(had_ph);
}

#[test]
fn test_number_bool_null_stringified() {
    let cfg = plain_tool();
    let call_args = args_obj(vec![
        ("n", JsonValue::Num("42".to_string())),
        ("b", JsonValue::Bool(true)),
        ("z", JsonValue::Null),
    ]);

    let (expanded, _, _) =
        expand_one_arg("{{n}}-{{b}}-{{z}}", &call_args, &cfg, "/tmp").unwrap();
    assert_eq!(expanded, "42-true-");
}

#[test]
fn test_option_like_path_value_rejected() {
    let cfg = plain_tool();
    let call_args = args_obj(vec![("path", s("-rf"))]);

    let result = template_args(
        &vec!["ls".to_string(), "{{path}}".to_string()],
        &call_args,
        &cfg,
        "/tmp",
    );
    assert!(result.is_err());
    assert!(result.unwrap_err().contains("looks like a command-line option"));
}

#[test]
fn test_double_dash_inserted_on_path_substitution() {
    let temp_dir = TempDir::new().unwrap();
    let base = temp_dir.path().to_str().unwrap().to_string();
    let canonical_base = temp_dir
        .path()
        .canonicalize()
        .unwrap()
        .to_str()
        .unwrap()
        .to_string();

    let cfg = plain_tool();
    let call_args = args_obj(vec![("path", s("."))]);

    let argv = template_args(
        &vec!["ls".to_string(), "{{path}}".to_string()],
        &call_args,
        &cfg,
        &base,
    )
    .unwrap();
    assert_eq!(argv, vec!["ls".to_string(), "--".to_string(), canonical_base]);
}

#[test]
fn test_double_dash_forced_before_substituted_element() {
    let mut cfg = plain_tool();
    cfg.insert_double_dash = Some(true);
    let call_args = args_obj(vec![("name", s("-rf"))]);

    let argv = template_args(
        &vec!["ls".to_string(), "{{name}}".to_string()],
        &call_args,
        &cfg,
        "/tmp",
    )
    .unwrap();
    assert_eq!(
        argv,
        vec!["ls".to_string(), "--".to_string(), "-rf".to_string()]
    );
}

#[test]
fn test_double_dash_suppressed_when_forced_off() {
    let temp_dir = TempDir::new().unwrap();
    let base = temp_dir.path().to_str().unwrap().to_string();
    let canonical_base = temp_dir
        .path()
        .canonicalize()
        .unwrap()
        .to_str()
        .unwrap()
        .to_string();

    let mut cfg = plain_tool();
    cfg.insert_double_dash = Some(false);
    let call_args = args_obj(vec![("path", s("."))]);

    let argv = template_args(
        &vec!["ls".to_string(), "{{path}}".to_string()],
        &call_args,
        &cfg,
        &base,
    )
    .unwrap();
    assert_eq!(argv, vec!["ls".to_string(), canonical_base]);
}

#[test]
fn test_no_double_dash_without_path_substitution() {
    let cfg = plain_tool();
    let call_args = args_obj(vec![("text", s("hello"))]);

    let argv = template_args(
        &vec!["{{text}}".to_string()],
        &call_args,
        &cfg,
        "/tmp",
    )
    .unwrap();
    assert_eq!(argv, vec!["hello".to_string()]);
}

#[test]
fn test_absolute_path_value_rejected_under_confinement() {
    let cfg = plain_tool();
    let call_args = args_obj(vec![("path", s("/etc/passwd"))]);

    let result = template_args(
        &vec!["{{path}}".to_string()],
        &call_args,
        &cfg,
        "/tmp",
    );
    assert!(result.is_err());
    assert!(result.unwrap_err().contains("absolute path"));
}

#[test]
fn test_unrestricted_path_value_passes_through() {
    let mut cfg = plain_tool();
    cfg.restrict_to_base_dir = false;
    let call_args = args_obj(vec![("path", s("anything/../weird"))]);

    let (expanded, _, had_path) =
        expand_one_arg("{{path}}", &call_args, &cfg, "/tmp").unwrap();
    assert_eq!(expanded, "anything/../weird");
    assert!(had_path);
}

#[test]
fn test_allow_patterns_gate_string_values() {
    let mut cfg = plain_tool();
    cfg.template_validations = Some(vec![(
        "mode".to_string(),
        TemplateValidation {
            kind: "string".to_string(),
            allow_patterns: Some(vec!["^(fast|slow)$".to_string()]),
            deny_patterns: None,
            allow_absolute: false,
        },
    )]);

    let ok = expand_one_arg(
        "{{mode}}",
        &args_obj(vec![("mode", s("fast"))]),
        &cfg,
        "/tmp",
    );
    assert_eq!(ok.unwrap().0, "fast");

    let rejected = expand_one_arg(
        "{{mode}}",
        &args_obj(vec![("mode", s("sneaky"))]),
        &cfg,
        "/tmp",
    );
    assert!(rejected.is_err());
    assert!(rejected.unwrap_err().contains("does not match any allow_pattern"));
}

#[test]
fn test_deny_patterns_reject_string_values() {
    let mut cfg = plain_tool();
    cfg.template_validations = Some(vec![(
        "q".to_string(),
        TemplateValidation {
            kind: "string".to_string(),
            allow_patterns: None,
            deny_patterns: Some(vec!["\\.\\./".to_string()]),
            allow_absolute: false,
        },
    )]);

    let rejected = expand_one_arg(
        "{{q}}",
        &args_obj(vec![("q", s("a/../b"))]),
        &cfg,
        "/tmp",
    );
    assert!(rejected.is_err());
    assert!(rejected.unwrap_err().contains("matches deny_pattern"));
}

#[test]
fn test_explicit_policy_overrides_path_heuristic() {
    let mut cfg = plain_tool();
    cfg.template_validations = Some(vec![(
        "path".to_string(),
        TemplateValidation {
            kind: "string".to_string(),
            allow_patterns: None,
            deny_patterns: None,
            allow_absolute: false,
        },
    )]);
    let call_args = args_obj(vec![("path", s("/etc/passwd"))]);

    let (expanded, _, had_path) =
        expand_one_arg("{{path}}", &call_args, &cfg, "/tmp").unwrap();
    assert_eq!(expanded, "/etc/passwd");
    assert!(!had_path);
}
