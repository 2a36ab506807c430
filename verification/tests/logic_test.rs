use cmd2ai::config::{
    build_reasoning_config, default_max_output_bytes, default_tool_timeout,
    default_validation_kind, normalize_api_endpoint, ReasoningConfig,
};
use cmd2ai::envsub::{expand_env_var_in_string, expand_env_vars};
use cmd2ai::json::{to_json_string, JsonValue};
use cmd2ai::search::{should_search_lowered, should_use_web_search};
use cmd2ai::strutil::{i64_to_string, u64_to_string};

fn env(pairs: Vec<(&str, &str)>) -> Vec<(String, String)> {
    pairs
        .into_iter()
        .map(|(k, v)| (k.to_string(), v.to_string()))
        .collect()
}

#[test]
fn test_expand_env_var_in_string() {
    let table = env(vec![("HOME", "/home/u"), ("LANG", "C")]);
    assert_eq!(expand_env_var_in_string("${HOME}/x", &table), "/home/u/x");
    assert_eq!(
        expand_env_var_in_string("a ${HOME} b ${LANG}", &table),
        "a /home/u b C"
    );
}

#[test]
fn test_expand_env_var_missing_stays() {
    let table = env(vec![]);
    assert_eq!(expand_env_var_in_string("${NOPE}/x", &table), "${NOPE}/x");
}

#[test]
fn test_expand_env_var_no_cascade() {
    let table = env(vec![("A", "${B}"), ("B", "inner")]);
    assert_eq!(expand_env_var_in_string("${A}", &table), "${B}");
}

#[test]
fn test_expand_env_vars_map() {
    let table = env(vec![("TOKEN", "t0")]);
    let map = env(vec![("AUTH", "Bearer ${TOKEN}"), ("PLAIN", "x")]);
    let out = expand_env_vars(&map, &table);
    assert_eq!(out[0], ("AUTH".to_string(), "Bearer t0".to_string()));
    assert_eq!(out[1], ("PLAIN".to_string(), "x".to_string()));
}

#[test]
fn test_json_serialization() {
    let v = JsonValue::Obj(vec![
        ("a".to_string(), JsonValue::Num("1".to_string())),
        (
            "b".to_string(),
            JsonValue::Arr(vec![JsonValue::Bool(true), JsonValue::Null]),
        ),
        ("c".to_string(), JsonValue::Str("x\"y\\z\n".to_string())),
    ]);
    assert_eq!(
        to_json_string(&v),
        "{\"a\":1,\"b\":[true,null],\"c\":\"x\\\"y\\\\z\\n\"}"
    );
}

#[test]
fn test_json_serialization_matches_serde() {
    let v = JsonValue::Obj(vec![
        ("n".to_string(), JsonValue::Num("21".to_string())),
        ("s".to_string(), JsonValue::Str("tab\there".to_string())),
    ]);
    let text = to_json_string(&v);
    let reparsed: serde_json::Value = serde_json::from_str(&text).unwrap();
    assert_eq!(reparsed["n"], serde_json::Value::from(21));
    assert_eq!(reparsed["s"], serde_json::Value::from("tab\there"));
}

#[test]
fn test_json_control_char_escapes() {
    let v = JsonValue::Str("\u{1}".to_string());
    assert_eq!(to_json_string(&v), "\"\\u0001\"");
}

#[test]
fn test_decimal_rendering() {
    assert_eq!(u64_to_string(0), "0");
    assert_eq!(u64_to_string(1048576), "1048576");
    assert_eq!(i64_to_string(-17), "-17");
    assert_eq!(i64_to_string(i64::MIN), "-9223372036854775808");
}

#[test]
fn test_defaults() {
    assert_eq!(default_tool_timeout(), 30);
    assert_eq!(default_max_output_bytes(), 1_048_576);
    assert_eq!(default_validation_kind(), "string");
}

#[test]
fn test_normalize_api_endpoint() {
    assert_eq!(
        normalize_api_endpoint("https://x.test/v1/chat/completions"),
        "https://x.test/v1/chat/completions"
    );
    assert_eq!(
        normalize_api_endpoint("https://x.test/v1"),
        "https://x.test/v1/chat/completions"
    );
    assert_eq!(
        normalize_api_endpoint("https://x.test/v1/"),
        "https://x.test/v1/chat/completions"
    );
    assert_eq!(
        normalize_api_endpoint("https://x.test//"),
        "https://x.test/v1/chat/completions"
    );
}

#[test]
fn test_build_reasoning_config_precedence() {
    let mut args = cmd2ai::cli::Args {
        new_conversation: false,
        force_continue: false,
        clear_history: false,
        reasoning_effort: None,
        reasoning_max_tokens: None,
        reasoning_exclude: false,
        reasoning_enabled: false,
        mcp_servers: Vec::new(),
        use_tools: false,
        auto_tools: false,
        no_tools: false,
        config_init: false,
        api_endpoint: None,
        command: Vec::new(),
    };
    let json = ReasoningConfig {
        enabled: None,
        effort: Some("low".to_string()),
        max_tokens: Some(10),
        exclude: None,
    };

    let r = build_reasoning_config(&args, None, None, Some(99), None, &json).unwrap();
    assert_eq!(r.max_tokens, Some(99));
    assert_eq!(r.effort, Some("low".to_string()));
    assert_eq!(r.enabled, None);

    args.reasoning_effort = Some("bogus".to_string());
    let r2 = build_reasoning_config(&args, None, None, None, None, &json).unwrap();
    assert_eq!(r2.effort, None);

    let empty = ReasoningConfig {
        enabled: None,
        effort: None,
        max_tokens: None,
        exclude: None,
    };
    args.reasoning_effort = None;
    let r3 = build_reasoning_config(&args, None, None, None, None, &empty);
    assert!(r3.is_none());
}

#[test]
fn test_should_use_web_search() {
    assert!(should_use_web_search("anything", true, false));
    assert!(!should_use_web_search("latest news", false, true));
    assert!(should_use_web_search("latest news about rust", false, false));
    assert!(!should_use_web_search("hello there friend", false, false));
}

#[test]
fn test_should_search_lowered_rules() {
    assert!(should_search_lowered("latest rust release"));
    assert!(!should_search_lowered("help me write a poem"));
    assert!(should_search_lowered("what is that company"));
    assert!(!should_search_lowered("what is love"));
    assert!(!should_search_lowered("an unremarkable question"));
    assert!(should_search_lowered("hello, any breaking outage right now"));
    // "this" holds the substring "hi", so the chit-chat rule wins here
    assert!(!should_search_lowered("what is this company"));
}

#[test]
fn test_search_folds_case_before_matching() {
    // Would fail if case folding handed its input back unchanged.
    assert!(should_use_web_search("LATEST Rust News", false, false));
}

#[test]
fn test_stringify_path_round_trip() {
    let p = std::path::PathBuf::from("/tmp/some/dir");
    assert_eq!(
        cmd2ai::paths::stringify_path(&p).unwrap(),
        "/tmp/some/dir".to_string()
    );
}
