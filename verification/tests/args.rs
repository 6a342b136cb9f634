use mysh::command_arg::{render_doc, resolve};
use mysh::intlit::{i64_to_string, parse_i64};
use mysh::{parse_arguments, ArgDoc, Scalar, ShellError};

#[test]
fn test_resolve_bare_flag_is_true() {
    let argv = vec!["cmd".to_string(), "--verbose".to_string()];
    let doc = resolve(&argv).unwrap();
    assert_eq!(
        doc,
        ArgDoc::Flags(vec![("verbose".to_string(), Scalar::Bool(true))])
    );
}

#[test]
fn test_resolve_flag_with_value() {
    let argv = vec!["cmd".to_string(), "--count".to_string(), "3".to_string()];
    let doc = resolve(&argv).unwrap();
    assert_eq!(
        doc,
        ArgDoc::Flags(vec![("count".to_string(), Scalar::Int(3))])
    );
}

#[test]
fn test_resolve_flag_with_inline_value() {
    let argv = vec!["cmd".to_string(), "--name=bob".to_string()];
    let doc = resolve(&argv).unwrap();
    assert_eq!(
        doc,
        ArgDoc::Flags(vec![("name".to_string(), Scalar::Str("bob".to_string()))])
    );
}

#[test]
fn test_resolve_absent_and_single() {
    assert_eq!(resolve(&vec!["cmd".to_string()]).unwrap(), ArgDoc::Absent);
    assert_eq!(
        resolve(&vec!["cmd".to_string(), "37".to_string()]).unwrap(),
        ArgDoc::Single("37".to_string())
    );
}

#[test]
fn test_resolve_param_without_option_fails() {
    let argv = vec!["cmd".to_string(), "a".to_string(), "b".to_string()];
    match resolve(&argv) {
        Err(ShellError::ArgParseError(m)) => assert_eq!(m, "param without option"),
        other => panic!("expected an argument error, got {:?}", other),
    }
}

#[test]
fn test_resolve_two_flags_in_a_row() {
    // A pending key seen again, and a key pending at the end, both become
    // boolean true.
    let argv = vec![
        "cmd".to_string(),
        "--a".to_string(),
        "--b".to_string(),
    ];
    let doc = resolve(&argv).unwrap();
    assert_eq!(
        doc,
        ArgDoc::Flags(vec![
            ("a".to_string(), Scalar::Bool(true)),
            ("b".to_string(), Scalar::Bool(true)),
        ])
    );
}

#[test]
fn test_resolve_scalar_literals() {
    let argv = vec![
        "cmd".to_string(),
        "--x".to_string(),
        "true".to_string(),
        "--y".to_string(),
        "0".to_string(),
        "--z".to_string(),
        "hi".to_string(),
    ];
    let doc = resolve(&argv).unwrap();
    assert_eq!(
        doc,
        ArgDoc::Flags(vec![
            ("x".to_string(), Scalar::Bool(true)),
            ("y".to_string(), Scalar::Bool(false)),
            ("z".to_string(), Scalar::Str("hi".to_string())),
        ])
    );
}

#[test]
fn test_resolve_duplicate_key_overwrites_in_place() {
    let argv = vec![
        "cmd".to_string(),
        "--k".to_string(),
        "1".to_string(),
        "--m".to_string(),
        "2".to_string(),
        "--k".to_string(),
        "3".to_string(),
    ];
    let doc = resolve(&argv).unwrap();
    assert_eq!(
        doc,
        ArgDoc::Flags(vec![
            ("k".to_string(), Scalar::Int(3)),
            ("m".to_string(), Scalar::Int(2)),
        ])
    );
}

#[test]
fn test_render_resolve_round_trip() {
    let doc = ArgDoc::Flags(vec![
        ("flag".to_string(), Scalar::Bool(true)),
        ("count".to_string(), Scalar::Int(-7)),
        ("name".to_string(), Scalar::Str("bob".to_string())),
    ]);
    let argv = render_doc(&doc, "cmd");
    assert_eq!(
        argv,
        vec![
            "cmd".to_string(),
            "--flag".to_string(),
            "true".to_string(),
            "--count".to_string(),
            "-7".to_string(),
            "--name".to_string(),
            "bob".to_string(),
        ]
    );
    assert_eq!(resolve(&argv).unwrap(), doc);
}

#[test]
fn test_parse_arguments_zero_argument_command() {
    let argv = vec!["cmd".to_string()];
    let unit: () = parse_arguments(&argv).unwrap();
    assert_eq!(unit, ());

    // A target that requires data fails, naming its expected fields.
    match parse_arguments::<String>(&argv) {
        Err(ShellError::ArgParseError(m)) => {
            assert_eq!(m, "Missing required arguments: [string]")
        },
        other => panic!("expected an argument error, got {:?}", other),
    }
}

#[test]
fn test_parse_arguments_single_positional() {
    let argv = vec!["cmd".to_string(), "42".to_string()];
    let n: i64 = parse_arguments(&argv).unwrap();
    assert_eq!(n, 42);
    let s: String = parse_arguments(&vec!["cmd".to_string(), "42".to_string()]).unwrap();
    assert_eq!(s, "42");
    let small: i32 = parse_arguments(&vec!["cmd".to_string(), "-12".to_string()]).unwrap();
    assert_eq!(small, -12);
}

#[test]
fn test_parse_arguments_optional_target() {
    let none: Option<String> = parse_arguments(&vec!["cmd".to_string()]).unwrap();
    assert_eq!(none, None);
    let some: Option<String> =
        parse_arguments(&vec!["cmd".to_string(), "hi".to_string()]).unwrap();
    assert_eq!(some, Some("hi".to_string()));
}

#[test]
fn test_parse_arguments_mismatch_names_expected_and_provided() {
    let argv = vec!["cmd".to_string(), "--count".to_string(), "3".to_string()];
    match parse_arguments::<i64>(&argv) {
        Err(ShellError::ArgParseError(m)) => assert_eq!(
            m,
            "Failed to parse arguments.\nExpected: [i64]\nProvided: --count"
        ),
        other => panic!("expected an argument error, got {:?}", other),
    }
}

#[test]
fn test_parse_i64_edges() {
    assert_eq!(parse_i64("0"), Some(0));
    assert_eq!(parse_i64("007"), Some(7));
    assert_eq!(parse_i64("+3"), Some(3));
    assert_eq!(parse_i64("-9223372036854775808"), Some(i64::MIN));
    assert_eq!(parse_i64("9223372036854775807"), Some(i64::MAX));
    assert_eq!(parse_i64("9223372036854775808"), None);
    assert_eq!(parse_i64("12x"), None);
    assert_eq!(parse_i64(""), None);
    assert_eq!(parse_i64("-"), None);
    assert_eq!(i64_to_string(-7), "-7");
    assert_eq!(i64_to_string(0), "0");
    assert_eq!(i64_to_string(i64::MIN), "-9223372036854775808");
    assert_eq!(i64_to_string(i64::MAX), "9223372036854775807");
}

#[test]
fn test_display_help_descriptors() {
    assert_eq!(<() as mysh::CommandArg>::display_help(), Vec::<String>::new());
    assert_eq!(
        <String as mysh::CommandArg>::display_help(),
        vec!["[string]".to_string()]
    );
    assert_eq!(
        <i64 as mysh::CommandArg>::display_help(),
        vec!["[i64]".to_string()]
    );
    assert_eq!(
        <Option<i64> as mysh::CommandArg>::display_help(),
        vec!["Option<[i64]>".to_string()]
    );
    assert_eq!(
        <Option<()> as mysh::CommandArg>::display_help(),
        Vec::<String>::new()
    );
}
