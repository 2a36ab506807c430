use cmd2ai::models::{Message, Session};
use cmd2ai::session::{
    find_recent_session, is_session_file, session_file_name, trim_conversation_history,
};

fn msg(role: &str, content: &str) -> Message {
    Message {
        role: role.to_string(),
        content: Some(content.to_string()),
        tool_calls: None,
        tool_call_id: None,
    }
}

fn session(id: &str, last_updated: i64) -> Session {
    Session {
        session_id: id.to_string(),
        last_updated,
        messages: Vec::new(),
    }
}

#[test]
fn test_trim_keeps_system_and_last_three_pairs() {
    let mut messages = vec![msg("system", "rules")];
    for i in 0..5 {
        messages.push(msg("user", &format!("q{}", i)));
        messages.push(msg("assistant", &format!("a{}", i)));
    }

    trim_conversation_history(&mut messages);

    let roles: Vec<&str> = messages.iter().map(|m| m.role.as_str()).collect();
    assert_eq!(
        roles,
        vec!["system", "user", "assistant", "user", "assistant", "user", "assistant"]
    );
    let contents: Vec<String> = messages
        .iter()
        .map(|m| m.content.clone().unwrap())
        .collect();
    assert_eq!(contents[0], "rules");
    assert_eq!(contents[1], "q2");
    assert_eq!(contents[6], "a4");
}

#[test]
fn test_trim_leaves_short_history_alone() {
    let mut messages = vec![msg("user", "hi"), msg("assistant", "hello")];
    trim_conversation_history(&mut messages);
    assert_eq!(messages.len(), 2);
    assert_eq!(messages[0].content.as_deref(), Some("hi"));
}

#[test]
fn test_save_and_find_recent_session() {
    let sessions = vec![session("test-123", 1_000_000)];
    let found = find_recent_session(&sessions, 1_000_060).unwrap();
    assert_eq!(found.session_id, "test-123");
}

#[test]
fn test_find_recent_session_expired() {
    let sessions = vec![session("expired-123", 1_000_000)];
    let found = find_recent_session(&sessions, 1_000_000 + 60 * 60);
    assert!(found.is_none());
}

#[test]
fn test_find_most_recent_session() {
    let sessions = vec![session("old", 1_000_000), session("new", 1_000_600)];
    let found = find_recent_session(&sessions, 1_000_660).unwrap();
    assert_eq!(found.session_id, "new");
}

#[test]
fn test_find_recent_session_empty() {
    let sessions: Vec<Session> = Vec::new();
    assert!(find_recent_session(&sessions, 0).is_none());
}

#[test]
fn test_session_file_names() {
    assert_eq!(session_file_name("abc"), "session-abc.json");
    assert!(is_session_file("session-abc.json"));
    assert!(!is_session_file("other.json"));
    assert!(!is_session_file("session-abc.txt"));
}
