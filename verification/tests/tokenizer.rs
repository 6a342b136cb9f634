use mysh::tokenize;

#[test]
fn test_tokenize_plain_words() {
    assert_eq!(
        tokenize("a b c").unwrap(),
        vec!["a".to_string(), "b".to_string(), "c".to_string()]
    );
}

#[test]
fn test_tokenize_single_quotes() {
    assert_eq!(
        tokenize("a 'b c' d").unwrap(),
        vec!["a".to_string(), "b c".to_string(), "d".to_string()]
    );
}

#[test]
fn test_tokenize_double_quote_escape() {
    assert_eq!(
        tokenize("a \"b\\\"c\" d").unwrap(),
        vec!["a".to_string(), "b\"c".to_string(), "d".to_string()]
    );
}

#[test]
fn test_tokenize_trailing_backslash() {
    assert_eq!(tokenize("a\\").unwrap(), vec!["a\\".to_string()]);
}

#[test]
fn test_tokenize_unterminated_quote_fails() {
    let err = tokenize("a 'b c").unwrap_err();
    assert_eq!(err.message(), "missing closing quote");
    assert!(tokenize("say \"oops").is_err());
}

#[test]
fn test_tokenize_empty_and_blank_lines() {
    assert_eq!(tokenize("").unwrap(), Vec::<String>::new());
    assert_eq!(tokenize("   \t ").unwrap(), Vec::<String>::new());
}

#[test]
fn test_tokenize_line_continuation() {
    assert_eq!(
        tokenize("a\\\nb").unwrap(),
        vec!["ab".to_string()]
    );
}

#[test]
fn test_tokenize_double_quote_keeps_other_escapes() {
    // Inside double quotes a backslash escapes only $ ` " \ and newline;
    // any other escaped character keeps the backslash.
    assert_eq!(
        tokenize("\"a\\b\"").unwrap(),
        vec!["a\\b".to_string()]
    );
    assert_eq!(tokenize("\"a\\$\"").unwrap(), vec!["a$".to_string()]);
}
