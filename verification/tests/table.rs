use vish::environment::ShellEnvironment;
use vish::table::Table;
use vish::text::{chars_of, string_of};

#[test]
fn table_gives_what_was_inserted() {
    let mut table = Table::new();
    assert_eq!(table.get("HOME"), None);
    table.insert("HOME", "/home/bob");
    table.insert("PAT", "Patricia");
    assert_eq!(table.get("HOME"), Some(String::from("/home/bob")));
    assert_eq!(table.get("PAT"), Some(String::from("Patricia")));
    assert_eq!(table.get("PATH"), None);
    assert_eq!(table.get(""), None);
}

#[test]
fn table_keeps_the_last_value_of_a_name() {
    let mut table = Table::new();
    table.insert("A", "1");
    table.insert("B", "2");
    table.insert("A", "3");
    assert_eq!(table.get("A"), Some(String::from("3")));
    assert_eq!(table.get("B"), Some(String::from("2")));
    assert!(table.contains(&chars_of("A")));
    assert!(!table.contains(&chars_of("C")));
}

#[test]
fn characters_and_strings_convert_both_ways() {
    let chars = chars_of("maçã €");
    assert_eq!(chars, vec!['m', 'a', 'ç', 'ã', ' ', '€']);
    assert_eq!(string_of(&chars), "maçã €");
    assert_eq!(string_of(&[]), "");
}

#[test]
fn prompts_default() {
    let env = ShellEnvironment::new(None, None);
    assert_eq!(env.shell_variables.get("PS1"), Some(String::from("$ ")));
    assert_eq!(env.shell_variables.get("PS2"), Some(String::from("> ")));
}

#[test]
fn prompts_from_the_start_of_the_shell() {
    let env = ShellEnvironment::new(Some(String::from("% ")), None);
    assert_eq!(env.shell_variables.get("PS1"), Some(String::from("% ")));
    assert_eq!(env.shell_variables.get("PS2"), Some(String::from("> ")));
    let env = ShellEnvironment::new(None, Some(String::new()));
    assert_eq!(env.shell_variables.get("PS2"), Some(String::new()));
}

#[test]
fn prompt_text_by_name() {
    let env = ShellEnvironment::new(Some(String::from("% ")), None);
    assert_eq!(env.prompt("PS1"), "% ");
    assert_eq!(env.prompt("PS2"), "> ");
    assert_eq!(env.prompt("PS3"), "");
}
