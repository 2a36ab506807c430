use cmd2ai::json::JsonValue;
use cmd2ai::response::{extract_content, extract_reasoning, parse_tool_calls};

fn obj(members: Vec<(&str, JsonValue)>) -> JsonValue {
    JsonValue::Obj(
        members
            .into_iter()
            .map(|(k, v)| (k.to_string(), v))
            .collect(),
    )
}

fn s(text: &str) -> JsonValue {
    JsonValue::Str(text.to_string())
}

#[test]
fn test_extract_content_with_content() {
    let response = obj(vec![(
        "choices",
        JsonValue::Arr(vec![obj(vec![(
            "message",
            obj(vec![("content", s("Hello, world!")), ("role", s("assistant"))]),
        )])]),
    )]);

    let content = extract_content(&response).unwrap();
    assert_eq!(content, Some("Hello, world!".to_string()));
}

#[test]
fn test_extract_content_without_content() {
    let response = obj(vec![(
        "choices",
        JsonValue::Arr(vec![obj(vec![(
            "message",
            obj(vec![("role", s("assistant"))]),
        )])]),
    )]);

    let content = extract_content(&response).unwrap();
    assert_eq!(content, None);
}

#[test]
fn test_extract_content_empty_choices() {
    let response = obj(vec![("choices", JsonValue::Arr(vec![]))]);

    let result = extract_content(&response);
    assert!(result.is_err());
}

#[test]
fn test_parse_tool_calls_with_tools() {
    let tool_call = obj(vec![
        ("id", s("call_123")),
        ("type", s("function")),
        (
            "function",
            obj(vec![
                ("name", s("read_file")),
                ("arguments", s("{\"path\": \"test.txt\"}")),
            ]),
        ),
    ]);
    let response = obj(vec![(
        "choices",
        JsonValue::Arr(vec![obj(vec![(
            "message",
            obj(vec![
                ("role", s("assistant")),
                ("tool_calls", JsonValue::Arr(vec![tool_call.clone()])),
            ]),
        )])]),
    )]);

    let tool_calls = parse_tool_calls(&response).unwrap();
    assert!(tool_calls.is_some());
    let calls = tool_calls.unwrap();
    assert_eq!(calls.len(), 1);
    assert_eq!(calls[0], tool_call);
}

#[test]
fn test_parse_tool_calls_without_tools() {
    let response = obj(vec![(
        "choices",
        JsonValue::Arr(vec![obj(vec![(
            "message",
            obj(vec![("role", s("assistant")), ("content", s("No tools needed"))]),
        )])]),
    )]);

    let tool_calls = parse_tool_calls(&response).unwrap();
    assert!(tool_calls.is_none());
}

#[test]
fn test_parse_tool_calls_empty_array() {
    let response = obj(vec![(
        "choices",
        JsonValue::Arr(vec![obj(vec![(
            "message",
            obj(vec![
                ("role", s("assistant")),
                ("tool_calls", JsonValue::Arr(vec![])),
            ]),
        )])]),
    )]);

    let tool_calls = parse_tool_calls(&response).unwrap();
    assert!(tool_calls.is_none());
}

#[test]
fn test_extract_reasoning_with_reasoning() {
    let response = obj(vec![(
        "choices",
        JsonValue::Arr(vec![obj(vec![(
            "message",
            obj(vec![
                ("role", s("assistant")),
                ("reasoning_content", s("Let me think about this...")),
            ]),
        )])]),
    )]);

    let reasoning = extract_reasoning(&response).unwrap();
    assert_eq!(reasoning, Some("Let me think about this...".to_string()));
}

#[test]
fn test_extract_reasoning_without_reasoning() {
    let response = obj(vec![(
        "choices",
        JsonValue::Arr(vec![obj(vec![(
            "message",
            obj(vec![("role", s("assistant")), ("content", s("No reasoning"))]),
        )])]),
    )]);

    let reasoning = extract_reasoning(&response).unwrap();
    assert_eq!(reasoning, None);
}
