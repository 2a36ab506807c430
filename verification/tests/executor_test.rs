use cmd2ai::executor::{get_script_extension, judge_outcome, ExecOutcome};

#[test]
fn test_timeout_outcome_is_a_timeout_error() {
    let result = judge_outcome(ExecOutcome::TimedOut, 1, 1024, false);
    assert_eq!(
        result.unwrap_err(),
        "Command execution timed out after 1 seconds"
    );
}

#[test]
fn test_script_timeout_wording() {
    let result = judge_outcome(ExecOutcome::TimedOut, 30, 1024, true);
    assert_eq!(
        result.unwrap_err(),
        "Script execution timed out after 30 seconds"
    );
}

#[test]
fn test_output_size_cap_applies_despite_success() {
    let outcome = ExecOutcome::Completed {
        exit_code: Some(0),
        stdout: vec![b'x'; 2048],
        stderr: Vec::new(),
    };
    let result = judge_outcome(outcome, 30, 1024, false);
    assert_eq!(
        result.unwrap_err(),
        "Command output too large: 2048 bytes (max: 1024 bytes)"
    );
}

#[test]
fn test_nonzero_exit_reports_code_and_stderr() {
    let outcome = ExecOutcome::Completed {
        exit_code: Some(3),
        stdout: b"partial".to_vec(),
        stderr: b"boom".to_vec(),
    };
    let result = judge_outcome(outcome, 30, 1024, true);
    assert_eq!(result.unwrap_err(), "Script exited with code 3: boom");
}

#[test]
fn test_signalled_exit_reports_minus_one() {
    let outcome = ExecOutcome::Completed {
        exit_code: None,
        stdout: Vec::new(),
        stderr: Vec::new(),
    };
    let result = judge_outcome(outcome, 30, 1024, false);
    assert_eq!(result.unwrap_err(), "Command exited with code -1: ");
}

#[test]
fn test_successful_outcome_returns_stdout() {
    let outcome = ExecOutcome::Completed {
        exit_code: Some(0),
        stdout: b"hello\n".to_vec(),
        stderr: Vec::new(),
    };
    let result = judge_outcome(outcome, 30, 1024, false);
    assert_eq!(result.unwrap(), "hello\n");
}

#[test]
fn test_invalid_utf8_output_is_an_error() {
    let outcome = ExecOutcome::Completed {
        exit_code: Some(0),
        stdout: vec![0xff, 0xfe],
        stderr: Vec::new(),
    };
    let result = judge_outcome(outcome, 30, 1024, false);
    assert_eq!(result.unwrap_err(), "Command output is not valid UTF-8");
}

#[test]
fn test_get_script_extension() {
    assert_eq!(get_script_extension("python3"), "py");
    assert_eq!(get_script_extension("node"), "js");
    assert_eq!(get_script_extension("bun"), "js");
    assert_eq!(get_script_extension("bash"), "sh");
    assert_eq!(get_script_extension("sh"), "sh");
    assert_eq!(get_script_extension("ruby"), "rb");
    assert_eq!(get_script_extension("perl"), "txt");
}

#[test]
fn test_judge_read_file_size_cap() {
    let bytes = vec![b'x'; 2048];
    let result = cmd2ai::builtins::judge_read_file(bytes, 1024);
    assert!(result.is_err());
    assert!(result.unwrap_err().contains("File too large"));
}

#[test]
fn test_judge_read_file_returns_content() {
    let result = cmd2ai::builtins::judge_read_file(b"Hello, world!".to_vec(), 1024);
    assert_eq!(result.unwrap(), "Hello, world!");
}
