use vish::command::{
    cd, echo, parse_command, printf, replace_escape_sequence, CdTarget, ShellCommand,
};

#[test]
fn replace_hex_escape() {
    let input = &br"\x1b[".to_vec();
    assert_eq!(replace_escape_sequence(input), b"\x1b[");
}

#[test]
fn replace_oct_escape() {
    let input = &br"\033[".to_vec();
    assert_eq!(replace_escape_sequence(input), b"\x1b[");
}

#[test]
fn replace_char_escape() {
    let input = &br"\e[".to_vec();
    assert_eq!(replace_escape_sequence(input), b"\x1b[");
}

#[test]
fn replace_escape_in_the_middle() {
    assert_eq!(replace_escape_sequence(br"a\e[1mb\033[0m\x1b"), b"a\x1b[1mb\x1b[0m\x1b");
}

#[test]
fn replace_escape_alone_stays() {
    assert_eq!(replace_escape_sequence(br"\x1b"), br"\x1b");
    assert_eq!(replace_escape_sequence(br"\033"), br"\033");
    assert_eq!(replace_escape_sequence(br"\e"), br"\e");
}

#[test]
fn replace_escape_without_escapes() {
    assert_eq!(replace_escape_sequence(b"plain \\n text"), b"plain \\n text");
    assert_eq!(replace_escape_sequence(b""), b"");
}

#[test]
fn parse_command_assignment() {
    match parse_command::<()>("PS1=> ") {
        Ok(ShellCommand::Variable(name, value)) => {
            assert_eq!(name, "PS1");
            assert_eq!(value, "> ");
        },
        _ => panic!("not an assignment"),
    }
}

#[test]
fn parse_command_splits_at_first_equals() {
    match parse_command::<()>("A=b=c") {
        Ok(ShellCommand::Variable(name, value)) => {
            assert_eq!(name, "A");
            assert_eq!(value, "b=c");
        },
        _ => panic!("not an assignment"),
    }
}

#[test]
fn parse_command_without_equals() {
    match parse_command::<()>("ls") {
        Ok(ShellCommand::Process(name)) => assert_eq!(name, "exit"),
        _ => panic!("not a process"),
    }
}

#[test]
fn echo_joins_arguments_with_spaces() {
    let argv = vec!["echo".to_string(), "hello".to_string(), "big world".to_string()];
    assert_eq!(echo(&argv), "hello big world\n");
}

#[test]
fn echo_without_arguments_is_a_line_feed() {
    assert_eq!(echo(&vec!["echo".to_string()]), "\n");
    assert_eq!(echo(&Vec::new()), "\n");
}

#[test]
fn printf_replaces_escapes_and_adds_nothing() {
    let argv = vec!["printf".to_string(), "\\e[1m".to_string(), "maçã".to_string()];
    assert_eq!(printf(&argv), "\x1b[1mmaçã".as_bytes());
    assert_eq!(printf(&vec!["printf".to_string()]), b"");
}

#[test]
fn cd_target_by_arguments() {
    let argv = |words: &[&str]| words.iter().map(|w| w.to_string()).collect::<Vec<String>>();
    assert_eq!(cd(&argv(&["cd"])), CdTarget::Home);
    assert_eq!(cd(&argv(&[])), CdTarget::Home);
    assert_eq!(cd(&argv(&["cd", "-"])), CdTarget::Previous);
    assert_eq!(cd(&argv(&["cd", "/usr/local"])), CdTarget::Absolute);
    assert_eq!(cd(&argv(&["cd", "src/vish"])), CdTarget::Relative);
    assert_eq!(cd(&argv(&["cd", "-x"])), CdTarget::Relative);
    assert_eq!(cd(&argv(&["cd", ""])), CdTarget::Relative);
    assert_eq!(cd(&argv(&["cd", "a", "b"])), CdTarget::TooManyArguments);
}
