use mysh::command_list::CommandList;
use mysh::command_list::CommandEntry;
use mysh::run_loop::{interactive_step, LoopStep, SignalEvent};
use mysh::{Action, PromptText, Scripts, Shell, ShellError};

fn entry(name: &str, description: &str, handler: u64) -> CommandEntry {
    CommandEntry {
        name: name.to_string(),
        description: description.to_string(),
        long_description: None,
        help: Vec::new(),
        handler,
    }
}

#[derive(Clone)]
struct TestInfo {}

fn demo_shell() -> Shell<TestInfo> {
    let mut ns = CommandList::new();
    ns.add_command(entry("c", "the nested command", 30));
    Shell::new(TestInfo {})
        .add_command(entry("a", "first", 10))
        .add_command(entry("b", "second", 20))
        .add_subcommand("ns", ns)
}

#[test]
fn test_dispatch_root_command() {
    let shell = demo_shell();
    let argv = vec!["a".to_string()];
    assert_eq!(
        shell.exec(&argv).unwrap(),
        Action::Invoke {
            namespace: None,
            handler: 10,
            argv: vec!["a".to_string()],
        }
    );
}

#[test]
fn test_dispatch_namespace_command() {
    let shell = demo_shell();
    let argv = vec!["ns".to_string(), "c".to_string()];
    assert_eq!(
        shell.exec(&argv).unwrap(),
        Action::Invoke {
            namespace: Some("ns".to_string()),
            handler: 30,
            argv: vec!["c".to_string()],
        }
    );
}

#[test]
fn test_dispatch_unknown_command_degrades_to_help() {
    let shell = demo_shell();
    let argv = vec!["missing".to_string()];
    assert_eq!(
        shell.exec(&argv).unwrap(),
        Action::Help { include_args: false }
    );
}

#[test]
fn test_dispatch_help_paths() {
    let shell = demo_shell();
    assert_eq!(
        shell.exec(&vec!["help".to_string()]).unwrap(),
        Action::Help { include_args: false }
    );
    assert_eq!(
        shell
            .exec(&vec!["help".to_string(), "--args".to_string()])
            .unwrap(),
        Action::Help { include_args: true }
    );
    assert_eq!(
        shell.exec(&vec!["help".to_string(), "a".to_string()]).unwrap(),
        Action::HelpCommand { name: "a".to_string() }
    );
    assert_eq!(
        shell
            .exec(&vec!["help".to_string(), "ns".to_string()])
            .unwrap(),
        Action::HelpNamespace { name: "ns".to_string(), include_args: false }
    );
    assert_eq!(
        shell
            .exec(&vec!["help".to_string(), "ns".to_string(), "--args".to_string()])
            .unwrap(),
        Action::HelpNamespace { name: "ns".to_string(), include_args: true }
    );
    match shell.exec(&vec!["help".to_string(), "zzz".to_string()]) {
        Err(ShellError::CommandNotFound(n)) => assert_eq!(n, "zzz"),
        other => panic!("expected command-not-found, got {:?}", other),
    }
}

#[test]
fn test_dispatch_namespace_errors() {
    let shell = demo_shell();
    match shell.exec(&vec!["ns".to_string()]) {
        Err(ShellError::MissingSubcommand(names)) => assert_eq!(names, "c"),
        other => panic!("expected missing-subcommand, got {:?}", other),
    }
    match shell.exec(&vec!["ns".to_string(), "zzz".to_string()]) {
        Err(ShellError::NoSuchSubcommand) => {},
        other => panic!("expected no-such-subcommand, got {:?}", other),
    }
}

#[test]
fn test_commands_checked_before_namespaces() {
    // A root command and a namespace with one name: the command wins.
    let mut ns = CommandList::new();
    ns.add_command(entry("inner", "nested", 77));
    let shell = Shell::new(TestInfo {})
        .add_command(entry("dup", "root command", 5))
        .add_subcommand("dup", ns);
    let argv = vec!["dup".to_string()];
    assert_eq!(
        shell.exec(&argv).unwrap(),
        Action::Invoke {
            namespace: None,
            handler: 5,
            argv: vec!["dup".to_string()],
        }
    );
}

#[test]
fn test_registry_names_sorted_and_replaced() {
    let mut list = CommandList::new();
    list.add_command(entry("zeta", "z", 1));
    list.add_command(entry("alpha", "a", 2));
    list.add_command(entry("mid", "m", 3));
    assert_eq!(
        list.names(),
        vec!["alpha".to_string(), "mid".to_string(), "zeta".to_string()]
    );
    // Registering a name again replaces the entry, keeping one per name.
    list.add_command(entry("mid", "changed", 4));
    assert_eq!(list.len(), 3);
    assert_eq!(list.find_command("mid").unwrap().handler, 4);
    assert!(list.find_command("nope").is_none());
}

#[test]
fn test_run_command_plans_invocation() {
    let scripts = Scripts::new(TestInfo {}).add_command(entry("test_cmd", "a test command", 9));
    let inv = scripts.run_command("test_cmd --help").unwrap();
    assert_eq!(inv.handler, 9);
    assert_eq!(
        inv.argv,
        vec!["test_cmd".to_string(), "--help".to_string()]
    );
    match scripts.run_command("absent") {
        Err(ShellError::NoSuchSubcommand) => {},
        other => panic!("expected no-such-subcommand, got {:?}", other),
    }
}

#[test]
fn test_interactive_step_decisions() {
    match interactive_step(SignalEvent::Line("a b".to_string())) {
        LoopStep::Run(argv) => assert_eq!(argv, vec!["a".to_string(), "b".to_string()]),
        other => panic!("expected a run step, got {:?}", other),
    }
    assert!(matches!(
        interactive_step(SignalEvent::Line("".to_string())),
        LoopStep::Skip
    ));
    assert!(matches!(
        interactive_step(SignalEvent::Line("   ".to_string())),
        LoopStep::Skip
    ));
    match interactive_step(SignalEvent::Line("say 'oops".to_string())) {
        LoopStep::Report(ShellError::ArgParseError(m)) => {
            assert_eq!(m, "missing closing quote")
        },
        other => panic!("expected a reporting step, got {:?}", other),
    }
    assert!(matches!(
        interactive_step(SignalEvent::EndOfInput),
        LoopStep::Exit
    ));
    assert!(matches!(
        interactive_step(SignalEvent::Interrupt),
        LoopStep::Exit
    ));
    assert!(matches!(interactive_step(SignalEvent::Other), LoopStep::Skip));
}

#[test]
fn test_prompt_text() {
    let mut prompt = PromptText::new();
    assert_eq!(prompt.left_prompt_text(), "");
    prompt.set(Some("db> ".to_string()));
    assert_eq!(prompt.left_prompt_text(), "db> ");
    prompt.set(None);
    assert_eq!(prompt.left_prompt_text(), "");
    assert_eq!(
        PromptText::history_search_indicator(false, "abc"),
        "(reverse-search: abc) "
    );
    assert_eq!(
        PromptText::history_search_indicator(true, "abc"),
        "(failing reverse-search: abc) "
    );
}

#[test]
fn test_is_affirmative() {
    assert!(mysh::is_affirmative("y"));
    assert!(mysh::is_affirmative(" YES \n"));
    assert!(mysh::is_affirmative("Yes"));
    assert!(!mysh::is_affirmative("no"));
    assert!(!mysh::is_affirmative(""));
    assert!(!mysh::is_affirmative("yess"));
}

#[test]
fn test_scripts_to_shell() {
    let scripts = Scripts::new(TestInfo {}).add_command(entry("solo", "the only one", 4));
    let shell = scripts.to_shell();
    let argv = vec!["solo".to_string()];
    assert!(matches!(
        shell.exec(&argv).unwrap(),
        Action::Invoke { handler: 4, .. }
    ));
    assert!(shell.find_namespace("anything").is_none());
}
