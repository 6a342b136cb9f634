use mysh::command_list::{CommandEntry, CommandList};
use mysh::Shell;

fn entry(name: &str, description: &str, help: Vec<String>, handler: u64) -> CommandEntry {
    CommandEntry {
        name: name.to_string(),
        description: description.to_string(),
        long_description: None,
        help,
        handler,
    }
}

#[derive(Clone)]
struct TestInfo {}

#[test]
fn test_list_help_lines_layout() {
    let mut list = CommandList::new();
    list.add_command(entry("beta", "the second", vec![], 2));
    list.add_command(entry("alpha", "the first", vec!["--n: i64".to_string()], 1));
    // Level 0: four spaces of indent, the name padded to 28 columns.
    let lines = list.help_lines(0, false);
    assert_eq!(
        lines,
        vec![
            format!("    {:28} {}", "alpha", "the first"),
            format!("    {:28} {}", "beta", "the second"),
        ]
    );
    // With argument details each nonempty descriptor follows its command.
    let lines = list.help_lines(0, true);
    assert_eq!(
        lines,
        vec![
            format!("    {:28} {}", "alpha", "the first"),
            format!("    {:6} {}", "", "--n: i64"),
            format!("    {:28} {}", "beta", "the second"),
        ]
    );
}

#[test]
fn test_entry_help_lines_layout() {
    let e = entry(
        "greet",
        "says hello",
        vec!["--name: String".to_string()],
        1,
    );
    assert_eq!(
        e.help_lines(),
        vec![
            "".to_string(),
            "Name:".to_string(),
            "    greet [OPTIONS]".to_string(),
            "".to_string(),
            "Description:".to_string(),
            "    says hello".to_string(),
            "".to_string(),
            "Options:".to_string(),
            "    --name: String".to_string(),
        ]
    );
    let bare = entry("quiet", "does nothing", vec![], 2);
    assert_eq!(
        bare.help_lines(),
        vec![
            "".to_string(),
            "Name:".to_string(),
            "    quiet ".to_string(),
            "".to_string(),
            "Description:".to_string(),
            "    does nothing".to_string(),
            "".to_string(),
        ]
    );
}

#[test]
fn test_entry_help_prefers_long_description() {
    let mut e = entry("greet", "short", vec![], 1);
    e.long_description = Some("the long story".to_string());
    assert_eq!(e.help_lines()[5], "    the long story");
}

#[test]
fn test_root_help_lines_sections() {
    let mut ns = CommandList::new();
    ns.add_command(entry("inner", "nested command", vec![], 3));
    let shell = Shell::new(TestInfo {})
        .add_command(entry("solo", "root command", vec![], 1))
        .add_subcommand("tools", ns);
    let lines = shell.help_lines(false);
    assert_eq!(
        lines,
        vec![
            "".to_string(),
            "Usage: [name] [command]".to_string(),
            "".to_string(),
            "Commands:".to_string(),
            format!("    {:28} {}", "solo", "root command"),
            "    tools".to_string(),
            format!("         {:23} {}", "inner", "nested command"),
            "".to_string(),
        ]
    );
}
