use babblewitz::config::{
    ExecutionConfig, ImplementationConfig, ProjectType, TaskConfig, TaskType, TasksConfig,
};
use babblewitz::executor::{ExecError, ImplementationExecutor};
use babblewitz::game::Game;
use babblewitz::implementation::Implementation;
use babblewitz::protocol::{decode_worker_reply, ExecutionResult};

fn make_implementation(
    project_type: ProjectType,
    build_command: Option<&str>,
    run_command: Option<&str>,
) -> Implementation {
    Implementation {
        name: "test-impl".to_string(),
        path: "impls/test-impl".to_string(),
        config: ImplementationConfig {
            name: "test-impl".to_string(),
            description: None,
            project_type,
            execution: Some(ExecutionConfig {
                build_command: build_command.map(|s| s.to_string()),
                run_command: run_command.map(|s| s.to_string()),
            }),
            tasks: TasksConfig {
                can_parse: Some(TaskConfig {
                    games: vec![Game::Eu4, Game::Ck3],
                }),
                deserialization: None,
            },
        },
    }
}

#[test]
fn test_parse_success_output() {
    // Simulate successful output parsing
    let stdout = "1500000\nSome task output here";
    let lines: Vec<&str> = stdout.lines().collect();

    assert_eq!(lines.len(), 2);
    assert_eq!(lines[0].parse::<u128>().unwrap(), 1500000);

    // Test conversion to milliseconds
    let microseconds = lines[0].parse::<u128>().unwrap();
    let elapsed_ms = microseconds / 1000;
    assert_eq!(elapsed_ms, 1500);
}

#[test]
fn test_parse_failure_output() {
    // Test error message parsing
    let stdout = "2000000\nError: failed to parse";
    let lines: Vec<&str> = stdout.lines().collect();

    assert_eq!(lines.len(), 2);
    assert!(lines[0].parse::<u128>().is_ok());
    assert_eq!(lines[1], "Error: failed to parse");
}

#[test]
fn test_parse_invalid_output() {
    // Test handling of invalid first line - should dump full output
    let stdout = "not_a_number\nSome output";
    let lines: Vec<&str> = stdout.lines().collect();

    assert_eq!(lines.len(), 2);
    assert!(lines[0].parse::<u128>().is_err());
    // Should dump full output for debugging
}

#[test]
fn test_debug_output_format() {
    // Test that debug output includes both stdout and stderr
    let stdout = "invalid\nformat";
    let stderr = "some error message";

    // Simulate the debug formatting logic
    let mut debug_info = String::new();
    debug_info.push_str("Unexpected output format. Full output:\n");
    debug_info.push_str("=== STDOUT ===\n");
    debug_info.push_str(stdout);
    debug_info.push('\n');
    debug_info.push_str("=== STDERR ===\n");
    debug_info.push_str(stderr);
    debug_info.push('\n');
    debug_info.push_str("=== END ===");

    assert!(debug_info.contains("=== STDOUT ==="));
    assert!(debug_info.contains("=== STDERR ==="));
    assert!(debug_info.contains("invalid\nformat"));
    assert!(debug_info.contains("some error message"));
}

#[test]
fn test_decode_success_reply() {
    let r = decode_worker_reply(true, Some(0), "1500000\nSomeOutput", "");
    match r {
        ExecutionResult::Success { elapsed_micros } => assert_eq!(elapsed_micros, 1500000),
        ExecutionResult::Error { error } => panic!("expected success, got error: {}", error),
    }
}

#[test]
fn test_decode_trusts_numeric_first_line() {
    // A numeric first line with a successful exit decodes to success even
    // when the payload looks like an error message.
    let r = decode_worker_reply(true, Some(0), "2000000\nError: bad token", "");
    match r {
        ExecutionResult::Success { elapsed_micros } => assert_eq!(elapsed_micros, 2000000),
        ExecutionResult::Error { error } => panic!("expected success, got error: {}", error),
    }
}

#[test]
fn test_decode_failure_with_numeric_line() {
    // The same payload with a nonzero exit decodes to the second line.
    let r = decode_worker_reply(false, Some(1), "2000000\nError: bad token", "");
    match r {
        ExecutionResult::Error { error } => assert_eq!(error, "Error: bad token"),
        ExecutionResult::Success { .. } => panic!("expected error"),
    }
}

#[test]
fn test_decode_invalid_first_line_combines_streams() {
    let r = decode_worker_reply(false, Some(1), "not_a_number\nSome output", "some stderr");
    match r {
        ExecutionResult::Error { error } => {
            assert_eq!(error, "not_a_number\nSome output some stderr")
        }
        ExecutionResult::Success { .. } => panic!("expected error"),
    }
}

#[test]
fn test_decode_empty_streams_reports_exit_code() {
    let r = decode_worker_reply(false, Some(3), "", "");
    match r {
        ExecutionResult::Error { error } => {
            assert_eq!(error, "Process exited with code: Some(3)")
        }
        ExecutionResult::Success { .. } => panic!("expected error"),
    }
    let r = decode_worker_reply(false, None, "", "  ");
    match r {
        ExecutionResult::Error { error } => {
            assert_eq!(error, "Process exited with code: None")
        }
        ExecutionResult::Success { .. } => panic!("expected error"),
    }
}

#[test]
fn test_decode_single_line_is_no_success() {
    // a lone number without a payload line is not a success
    let r = decode_worker_reply(true, Some(0), "1500000\n", "");
    match r {
        ExecutionResult::Error { error } => assert_eq!(error, "1500000"),
        ExecutionResult::Success { .. } => panic!("expected error"),
    }
}

#[test]
fn test_build_command_tokens_default_rust() {
    let implementation = make_implementation(ProjectType::Rust, None, None);
    let executor = ImplementationExecutor::new(&implementation);
    let tokens = executor.build_command_tokens().unwrap().unwrap();
    assert_eq!(tokens, vec!["cargo", "build", "--release"]);
}

#[test]
fn test_build_command_tokens_override() {
    let implementation = make_implementation(ProjectType::Rust, Some("make -j2 all"), None);
    let executor = ImplementationExecutor::new(&implementation);
    let tokens = executor.build_command_tokens().unwrap().unwrap();
    assert_eq!(tokens, vec!["make", "-j2", "all"]);
}

#[test]
fn test_finish_build_failure_carries_exit_code() {
    let implementation = make_implementation(ProjectType::Rust, None, None);
    let executor = ImplementationExecutor::new(&implementation);
    let err = executor.finish_build(false, Some(2)).err().unwrap();
    match err {
        ExecError::BuildFailed { exit_code } => assert_eq!(exit_code, Some(2)),
        _ => panic!("expected a build failure"),
    }
}

#[test]
fn test_run_command_tokens_with_quoting() {
    let implementation = make_implementation(
        ProjectType::Rust,
        None,
        Some(r#"program "file with spaces.txt" --flag"#),
    );
    let executor = ImplementationExecutor::new(&implementation)
        .finish_build(true, Some(0))
        .unwrap();
    let tokens = executor
        .run_command_tokens(TaskType::CanParse, &vec![Game::Eu4, Game::Ck3])
        .unwrap();
    assert_eq!(
        tokens,
        vec![
            "program",
            "file with spaces.txt",
            "--flag",
            "--task",
            "can-parse",
            "--game",
            "eu4",
            "--game",
            "ck3",
        ]
    );
}

#[test]
fn test_run_command_tokens_escaped_spaces() {
    let implementation = make_implementation(
        ProjectType::Rust,
        None,
        Some(r"program file\ with\ spaces.txt --flag"),
    );
    let executor = ImplementationExecutor::new(&implementation)
        .finish_build(true, Some(0))
        .unwrap();
    let tokens = executor
        .run_command_tokens(TaskType::Deserialization, &vec![Game::Vic3])
        .unwrap();
    assert_eq!(
        tokens,
        vec![
            "program",
            "file with spaces.txt",
            "--flag",
            "--task",
            "deserialization",
            "--game",
            "vic3",
        ]
    );
}

#[test]
fn test_run_command_tokens_empty_command() {
    let implementation = make_implementation(ProjectType::Rust, None, Some(""));
    let executor = ImplementationExecutor::new(&implementation)
        .finish_build(true, Some(0))
        .unwrap();
    let err = executor
        .run_command_tokens(TaskType::CanParse, &vec![Game::Eu4])
        .err()
        .unwrap();
    assert!(matches!(err, ExecError::EmptyRunCommand));
}

#[test]
fn test_run_command_tokens_unmatched_quote() {
    let implementation = make_implementation(ProjectType::Rust, None, Some("program \"unclosed"));
    let executor = ImplementationExecutor::new(&implementation)
        .finish_build(true, Some(0))
        .unwrap();
    let err = executor
        .run_command_tokens(TaskType::CanParse, &vec![Game::Eu4])
        .err()
        .unwrap();
    match err {
        ExecError::ParseRunCommand { command } => assert_eq!(command, "program \"unclosed"),
        _ => panic!("expected a run-command parse error"),
    }
}

#[test]
fn test_shell_command_parsing() {
    // shell command parsing handles quotes and spaces correctly
    let simple_command = "cargo build --release";
    let simple_parts = shell_words::split(simple_command).unwrap();
    assert_eq!(simple_parts, vec!["cargo", "build", "--release"]);

    // quoted arguments (this would break with split_whitespace)
    let quoted_command = r#"program "file with spaces.txt" --flag"#;
    let quoted_parts = shell_words::split(quoted_command).unwrap();
    assert_eq!(
        quoted_parts,
        vec!["program", "file with spaces.txt", "--flag"]
    );

    // escaped spaces (this would also break with split_whitespace)
    let escaped_command = r"program file\ with\ spaces.txt --flag";
    let escaped_parts = shell_words::split(escaped_command).unwrap();
    assert_eq!(
        escaped_parts,
        vec!["program", "file with spaces.txt", "--flag"]
    );
}
