use anyhow::Context;
use mysh::{ShellError, ToTrace};
use std::backtrace::{Backtrace, BacktraceStatus};
use std::io;

// Whether this process captures stacks at all: `Backtrace::capture` honors
// RUST_BACKTRACE, and without it no error carries frames.
fn capture_enabled() -> bool {
    matches!(Backtrace::capture().status(), BacktraceStatus::Captured)
}

// Helper functions to create nested errors
fn test_error_parent() -> anyhow::Result<()> {
    test_error_child_1().context("parent")?;
    Ok(())
}

fn test_error_child_1() -> anyhow::Result<()> {
    test_error_child_2().context("context 1")?;
    Ok(())
}

fn test_error_child_2() -> anyhow::Result<()> {
    Err(anyhow::Error::msg("oh no"))?;
    Ok(())
}

#[test]
pub fn test_error_to_trace_anyhow() {
    // Create an error chain
    let err = match test_error_parent() {
        Ok(_) => panic!("should not OK"),
        Err(e) => ShellError::Other(e),
    };

    let exception = err.to_trace();

    // Verify the primary message
    assert!(exception.message.is_some(), "Should have a message");

    // For wrapped errors, we expect the source chain to be populated
    assert!(!exception.sources.is_empty(), "Should have sources");

    // Combine message and sources for checking
    let all_text = format!(
        "{} {}",
        exception.message.as_ref().unwrap(),
        exception.sources.join(" ")
    );

    // Should contain some of our error context
    assert!(
        all_text.contains("parent") || all_text.contains("context 1") || all_text.contains("oh no"),
        "Error chain should contain expected context"
    );

    // Verify that frames are not empty (when this process captures stacks)
    if capture_enabled() {
        assert!(!exception.frames.is_empty(), "Should have stack frames");
    }

    // Verify filtered_range is set to the custom values
    assert_eq!(
        exception.filtered_range.0,
        Some("anyhow::__private::format_err".to_string())
    );
    assert_eq!(
        exception.filtered_range.1,
        Some("mysh::run_loop::run_once_or_loop".to_string())
    );
}

#[test]
pub fn test_error_to_trace_io() {
    // Create an IO error and wrap it
    let io_error = io::Error::new(io::ErrorKind::NotFound, "file not found");
    let err = ShellError::Other(anyhow::Error::new(io_error));

    let exception = err.to_trace();

    // Verify the primary message
    assert!(exception.message.is_some(), "Should have a message");
    assert!(
        exception
            .message
            .as_ref()
            .unwrap()
            .contains("file not found"),
        "Message should contain error text"
    );

    // Verify that frames are not empty (when this process captures stacks)
    if capture_enabled() {
        assert!(!exception.frames.is_empty(), "Should have stack frames");
    }

    // Verify filtered_range is set to the custom values
    assert_eq!(
        exception.filtered_range.0,
        Some("anyhow::__private::format_err".to_string())
    );
    assert_eq!(
        exception.filtered_range.1,
        Some("mysh::run_loop::run_once_or_loop".to_string())
    );
}

#[test]
fn test_describe_declared_kinds() {
    assert_eq!(
        ShellError::ArgParseError("bad".to_string()).describe(),
        "arg parse error: bad"
    );
    assert_eq!(
        ShellError::MissingSubcommand("a, b".to_string()).describe(),
        "Please provide a subcommand. Available subcommands: a, b"
    );
    assert_eq!(
        ShellError::NoSuchSubcommand.describe(),
        "No such subcommand. ie. ./[bin] [command] [subcommand]"
    );
    assert_eq!(
        ShellError::CommandNotFound("zap".to_string()).describe(),
        "Command not found: zap"
    );
}

#[test]
fn test_declared_kind_trace_has_no_sources_or_frames() {
    let exception = ShellError::NoSuchSubcommand.to_trace();
    assert_eq!(
        exception.message,
        Some("No such subcommand. ie. ./[bin] [command] [subcommand]".to_string())
    );
    assert!(exception.sources.is_empty());
    assert!(exception.frames.is_empty());
    assert_eq!(
        exception.filtered_range.0,
        Some("anyhow::__private::format_err".to_string())
    );
}

#[test]
fn test_error_trace_sources_order() {
    // The cause chain keeps its original order: the outermost context is
    // the message, deeper causes follow in order.
    let err = match test_error_parent() {
        Ok(_) => panic!("should not OK"),
        Err(e) => ShellError::Other(e),
    };
    let exception = err.to_trace();
    assert_eq!(exception.message, Some("parent".to_string()));
    assert_eq!(
        exception.sources,
        vec!["context 1".to_string(), "oh no".to_string()]
    );
}
