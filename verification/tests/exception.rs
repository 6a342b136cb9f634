use mysh::exception::parse_frame_line;
use mysh::exception::first_line;
use mysh::{ExceptionWithTrace, FrameSymbol};
use std::backtrace::Backtrace;

#[test]
fn test_message_splitting() {
    // Test with single-line message
    let single_line = "test message";
    assert_eq!(first_line(single_line), "test message");

    // Test with multi-line message
    let multi_line = "first line\nsecond line\nthird line";
    assert_eq!(first_line(multi_line), "first line");
}

#[test]
fn test_frame_symbol_core_or_stdlib() {
    // Test core module detection
    let core_symbol = FrameSymbol {
        func: "core::result::Result<T,E>::expect".to_string(),
        file: None,
        line: None,
    };
    assert!(core_symbol.is_core_or_stdlib());

    // Test std module detection
    let std_symbol = FrameSymbol {
        func: "std::panic::panic_fmt".to_string(),
        file: None,
        line: None,
    };
    assert!(std_symbol.is_core_or_stdlib());

    // Test non-stdlib module
    let custom_symbol = FrameSymbol {
        func: "mysh::exception::tests".to_string(),
        file: None,
        line: None,
    };
    assert!(!custom_symbol.is_core_or_stdlib());
}

#[test]
fn test_parse_frames_regex() {
    // Test the frame-line parser against sample capture output
    let sample_line =
        r#"{ fn: "mysh::exception::tests::test_function", file: "/path/to/source.rs", line: 42 },"#;

    let frame = parse_frame_line(sample_line).unwrap();
    assert_eq!(frame.func, "mysh::exception::tests::test_function");
    assert_eq!(frame.file, Some("/path/to/source.rs".to_string()));
    assert_eq!(frame.line, Some(42));
}

#[test]
fn test_filtered_range_defaults() {
    // Test that the default range values are None
    let backtrace = Backtrace::capture();
    let exception = ExceptionWithTrace::new(Some("test error".to_string()), Some(&backtrace));

    assert_eq!(exception.filtered_range.0, None);
    assert_eq!(exception.filtered_range.1, None);
}

#[test]
fn test_filtered_range_defaults_no_backtrace() {
    // Test with no backtrace
    let exception = ExceptionWithTrace::new(Some("test error".to_string()), None);

    assert_eq!(exception.filtered_range.0, None);
    assert_eq!(exception.filtered_range.1, None);
    assert!(exception.frames.is_empty(), "Frames should be empty with no backtrace");
}

#[test]
fn test_filtered_range_custom() {
    // Test setting custom range values
    let backtrace = Backtrace::capture();
    let mut exception = ExceptionWithTrace::new(Some("test error".to_string()), Some(&backtrace));

    // Set custom range values
    exception.filtered_range.0 = Some("start_function".to_string());
    exception.filtered_range.1 = Some("end_function".to_string());

    assert_eq!(
        exception.filtered_range.0,
        Some("start_function".to_string())
    );
    assert_eq!(exception.filtered_range.1, Some("end_function".to_string()));
}

// Helper function to create test frames
fn create_test_frames() -> Vec<FrameSymbol> {
    vec![
        FrameSymbol {
            func: "pre_start_function".to_string(),
            file: Some("/path/to/file1.rs".to_string()),
            line: Some(10),
        },
        FrameSymbol {
            func: "start_function".to_string(),
            file: Some("/path/to/file2.rs".to_string()),
            line: Some(20),
        },
        FrameSymbol {
            func: "middle_function".to_string(),
            file: Some("/path/to/file3.rs".to_string()),
            line: Some(30),
        },
        FrameSymbol {
            func: "core::panicking::panic_fmt".to_string(),
            file: Some("/path/to/core.rs".to_string()),
            line: Some(40),
        },
        FrameSymbol {
            func: "end_function".to_string(),
            file: Some("/path/to/file4.rs".to_string()),
            line: Some(50),
        },
        FrameSymbol {
            func: "post_end_function".to_string(),
            file: Some("/path/to/file5.rs".to_string()),
            line: Some(60),
        },
    ]
}

#[test]
fn test_filtered_frames_behavior() {
    // Test case 1: With both start and end
    let frames = create_test_frames();
    let exception = ExceptionWithTrace {
        message: Some("test error".to_string()),
        sources: Vec::new(),
        frames: frames.clone(),
        filtered_range: (
            Some("start_function".to_string()),
            Some("end_function".to_string()),
        ),
    };

    // Collect the filtered frames
    let filtered = exception.filtered_frames();

    // We should get only the frames between start and end (excluding core functions)
    assert_eq!(filtered.len(), 1);
    assert_eq!(filtered[0].1.func, "middle_function");

    // Test case 2: With no start, only end
    let exception = ExceptionWithTrace {
        message: Some("test error".to_string()),
        sources: Vec::new(),
        frames: frames.clone(),
        filtered_range: (None, Some("end_function".to_string())),
    };

    let filtered = exception.filtered_frames();

    assert_eq!(filtered.len(), 3);
    assert_eq!(filtered[0].1.func, "pre_start_function");
    assert_eq!(filtered[1].1.func, "start_function");
    assert_eq!(filtered[2].1.func, "middle_function");

    // Test case 3: With start, no end
    let exception = ExceptionWithTrace {
        message: Some("test error".to_string()),
        sources: Vec::new(),
        frames: frames.clone(),
        filtered_range: (Some("start_function".to_string()), None),
    };

    let filtered = exception.filtered_frames();

    assert_eq!(filtered.len(), 3);
    assert_eq!(filtered[0].1.func, "middle_function");
    // The walk includes post_end_function and end_function when there's no
    // end bound
    assert!(filtered
        .iter()
        .any(|(_, frame)| frame.func == "post_end_function"));
    assert!(filtered
        .iter()
        .any(|(_, frame)| frame.func == "end_function"));

    // Test case 4: With no start and no end
    let exception = ExceptionWithTrace {
        message: Some("test error".to_string()),
        sources: Vec::new(),
        frames: frames.clone(),
        filtered_range: (None, None),
    };

    let filtered = exception.filtered_frames();

    assert_eq!(filtered.len(), 5);
}

#[test]
fn test_parse_frames_text_multiline() {
    let text = "Backtrace [\n    { fn: \"alpha::one\", file: \"/src/a.rs\", line: 7 },\n    { fn: \"beta::two\" },\n    { fn: \"gamma::three\", file: \"/src/c.rs\", line: 21 },\n]";
    let frames = mysh::exception::parse_frames_text(text);
    assert_eq!(frames.len(), 2);
    assert_eq!(frames[0].func, "alpha::one");
    assert_eq!(frames[0].file, Some("/src/a.rs".to_string()));
    assert_eq!(frames[0].line, Some(7));
    assert_eq!(frames[1].func, "gamma::three");
    assert_eq!(frames[1].line, Some(21));
}

#[test]
fn test_parse_frame_line_rejects_incomplete() {
    assert!(parse_frame_line("no braces here").is_none());
    assert!(parse_frame_line(r#"{ fn: "name_only" },"#).is_none());
    assert!(parse_frame_line(r#"{ fn: "f", file: "g", line: },"#).is_none());
    // A line number too large for u32 keeps the frame but drops the number.
    let f = parse_frame_line(r#"{ fn: "f", file: "g", line: 99999999999 },"#).unwrap();
    assert_eq!(f.func, "f");
    assert_eq!(f.line, None);
}
