use vish::command::{exit, parse_exit_code};
use vish::session::{dispatch, Dispatch, Next, Prompt, Session};
use vish::text::chars_of;

fn argv(words: &[&str]) -> Vec<String> {
    words.iter().map(|word| word.to_string()).collect()
}

#[test]
fn session_begins_with_the_primary_prompt() {
    let session = Session::new();
    assert_eq!(session.prompt(), Prompt::Primary);
    assert_eq!(session.last_code(), 0);
}

#[test]
fn session_names_the_built_in_commands() {
    assert_eq!(dispatch("cd"), Dispatch::Cd);
    assert_eq!(dispatch("pwd"), Dispatch::Pwd);
    assert_eq!(dispatch("printf"), Dispatch::Printf);
    assert_eq!(dispatch("echo"), Dispatch::Echo);
    assert_eq!(dispatch("exec"), Dispatch::Exec);
    assert_eq!(dispatch("exit"), Dispatch::Exit);
    assert_eq!(dispatch("true"), Dispatch::True);
    assert_eq!(dispatch("false"), Dispatch::False);
    assert_eq!(dispatch("ls"), Dispatch::Process);
    assert_eq!(dispatch("Echo"), Dispatch::Process);
    assert_eq!(dispatch(""), Dispatch::Process);
}

#[test]
fn session_runs_a_line_and_keeps_its_code() {
    let mut session = Session::new();
    assert_eq!(session.line(&argv(&["false"]), None), Next::Run(Dispatch::False));
    session.finished(1);
    assert_eq!(session.last_code(), 1);
    assert_eq!(session.prompt(), Prompt::Primary);
    assert_eq!(session.line(&argv(&["ls", "-l"]), None), Next::Run(Dispatch::Process));
    assert_eq!(session.end_of_input(), Next::Leave(1));
}

#[test]
fn session_blank_line_changes_nothing() {
    let mut session = Session::new();
    session.finished(7);
    assert_eq!(session.line(&argv(&[]), None), Next::Blank);
    assert_eq!(session.prompt(), Prompt::Primary);
    assert_eq!(session.last_code(), 7);
}

#[test]
fn session_continues_behind_an_open_quote() {
    let mut session = Session::new();
    assert_eq!(session.line(&argv(&["echo"]), Some('\'')), Next::Continue);
    assert_eq!(session.prompt(), Prompt::Secondary);
    assert_eq!(session.line(&argv(&[]), Some('"')), Next::Continue);
    assert_eq!(session.prompt(), Prompt::Secondary);
    assert_eq!(session.line(&argv(&["echo", "a\nb"]), None), Next::Run(Dispatch::Echo));
    assert_eq!(session.prompt(), Prompt::Primary);
}

#[test]
fn session_end_of_input_inside_a_quote() {
    let mut session = Session::new();
    session.finished(3);
    session.line(&argv(&["echo"]), Some('"'));
    assert_eq!(session.end_of_input(), Next::Unterminated);
    assert_eq!(session.prompt(), Prompt::Primary);
    assert_eq!(session.end_of_input(), Next::Leave(3));
}

#[test]
fn exit_code_from_the_argument() {
    assert_eq!(exit(&argv(&["exit"]), 5), Some(5));
    assert_eq!(exit(&argv(&[]), 6), Some(6));
    assert_eq!(exit(&argv(&["exit", "0"]), 5), Some(0));
    assert_eq!(exit(&argv(&["exit", "42", "x"]), 5), Some(42));
    assert_eq!(exit(&argv(&["exit", "255"]), 5), Some(255));
    assert_eq!(exit(&argv(&["exit", "256"]), 5), None);
    assert_eq!(exit(&argv(&["exit", "abc"]), 5), None);
}

#[test]
fn exit_code_is_what_the_standard_parser_reads() {
    let samples = [
        "", "+", "-", "0", "7", "+7", "-7", "007", "255", "256", "0255", "+255", "+256", "999",
        "1000", "99999999999999999999", " 1", "1 ", "1a", "a1", "++1", "1+", "٣", "0x10", "1_0",
    ];
    for text in samples {
        assert_eq!(parse_exit_code(&chars_of(text)), text.parse::<u8>().ok(), "{:?}", text);
    }
}

#[test]
fn session_gives_up_a_line_that_is_not_text() {
    let mut session = Session::new();
    session.finished(2);
    session.line(&argv(&["echo"]), Some('"'));
    assert_eq!(session.invalid_line(), Next::Invalid);
    assert_eq!(session.prompt(), Prompt::Primary);
    assert_eq!(session.last_code(), 2);
}
