use vish::buffer::Buffer;
use vish::display::{delete_previous_char, kill_line, move_left, move_right, reprint_line};
use vish::reader::{
    handle_werase_byte, is_whitespace, moved, Action, Attributes, ControlChars, Directional,
    InputReader, LineEditor, LocalFlags, Mode,
};

const EMPTY: Vec<Vec<u8>> = vec![];

fn parse_text(text: &str) -> Vec<Vec<u8>> {
    Vec::from_iter(text
        .split_inclusive(|_| true)
        .map(|string: &str| string.as_bytes().to_vec()))
}

fn parse_bytes(bytes: &[u8]) -> Vec<Vec<u8>> {
    Vec::from_iter(bytes
        .split_inclusive(|byte: &u8| byte.is_ascii())
        .map(|byte_array: &[u8]| byte_array.to_vec()))
}

fn assert_handle_werase_byte(input: Vec<Vec<u8>>, expected: Vec<Vec<u8>>) {
    let output: Vec<Vec<u8>> = handle_werase_byte(input.clone());

    let mut input_string: Vec<u8> = Vec::new();
    let mut output_string: Vec<u8> = Vec::new();
    let mut expected_string: Vec<u8> = Vec::new();

    for bytes in input { for byte in bytes { input_string.push(byte); } }

    for bytes in &output {
        for byte in bytes { output_string.push(byte.clone()); }
    }

    for bytes in &expected {
        for byte in bytes { expected_string.push(byte.clone()); }
    }

    assert_eq!(output, expected,
        "\n   input: {:?}\n  output: {:?}\nexpected: {:?}\n",
        String::from_utf8(input_string).unwrap(),
        String::from_utf8(output_string).unwrap(),
        String::from_utf8(expected_string).unwrap());
}

#[test]
fn io_erase_last_space_and_word() {
    let bytes1 = parse_bytes(b"This isn't a coke ");
    assert_handle_werase_byte(bytes1, parse_bytes(b"This isn't a "));

    let bytes2 = parse_bytes(b"It is passion fruit juice...  ");
    assert_handle_werase_byte(bytes2, parse_bytes(b"It is passion fruit "));
}

#[test]
fn io_erase_last_word() {
    let bytes1 = parse_bytes(b"morango melancia abacaxi");
    assert_handle_werase_byte(bytes1, parse_bytes(b"morango melancia "));

    let bytes2 = parse_text(
        "cérebro e coração são órgãos do corpo humano");
    assert_handle_werase_byte(bytes2,
        parse_text("cérebro e coração são órgãos do corpo "));

    let bytes3 = parse_text("suco  de  maracujá");
    assert_handle_werase_byte(bytes3, parse_bytes(b"suco  de  "));
}

#[test]
fn io_erase_first_space() {
    let bytes1 = parse_bytes(b" ");
    assert_handle_werase_byte(bytes1, EMPTY);

    let bytes2 = parse_bytes(b"    ");
    assert_handle_werase_byte(bytes2, EMPTY);

    let bytes3 = parse_bytes(b"\t");
    assert_handle_werase_byte(bytes3, EMPTY);
}

#[test]
fn io_erase_first_word() {
    let bytes1 = parse_text("morango");
    assert_handle_werase_byte(bytes1, EMPTY);

    let bytes2 = parse_text("maçã");
    assert_handle_werase_byte(bytes2, EMPTY);

    let bytes3 = parse_text("maracujá");
    assert_handle_werase_byte(bytes3, EMPTY);
}

#[test]
fn io_do_nothing() {
    let bytes = EMPTY;
    assert_handle_werase_byte(bytes, EMPTY);
}

#[test]
fn mod_erase_last_space_and_word() {
    let bytes1 = parse_bytes(b"This isn't a coke ");
    assert_handle_werase_byte(bytes1, parse_bytes(b"This isn't a "));

    let bytes2 = parse_bytes(b"It is passion fruit juice...  ");
    assert_handle_werase_byte(bytes2, parse_bytes(b"It is passion fruit "));
}

#[test]
fn mod_erase_last_word() {
    let bytes1 = parse_bytes(b"morango melancia abacaxi");
    assert_handle_werase_byte(bytes1, parse_bytes(b"morango melancia "));

    let bytes2 = parse_text(
        "cérebro e coração são órgãos do corpo humano");
    assert_handle_werase_byte(bytes2,
        parse_text("cérebro e coração são órgãos do corpo "));

    let bytes3 = parse_text("suco  de  maracujá");
    assert_handle_werase_byte(bytes3, parse_bytes(b"suco  de  "));
}

#[test]
fn mod_erase_first_space() {
    let bytes1 = parse_bytes(b" ");
    assert_handle_werase_byte(bytes1, EMPTY);

    let bytes2 = parse_bytes(b"    ");
    assert_handle_werase_byte(bytes2, EMPTY);

    let bytes3 = parse_bytes(b"\t");
    assert_handle_werase_byte(bytes3, EMPTY);
}

#[test]
fn mod_erase_first_word() {
    let bytes1 = parse_text("morango");
    assert_handle_werase_byte(bytes1, EMPTY);

    let bytes2 = parse_text("maçã");
    assert_handle_werase_byte(bytes2, EMPTY);

    let bytes3 = parse_text("maracujá");
    assert_handle_werase_byte(bytes3, EMPTY);
}

#[test]
fn mod_do_nothing() {
    let bytes = EMPTY;
    assert_handle_werase_byte(bytes, EMPTY);
}

fn control() -> ControlChars {
    ControlChars { eof: 4, erase: 127, werase: 23, kill: 21, reprint: 18 }
}

fn reader() -> InputReader {
    let attributes = Attributes { local_flags: 0o105073, control: control() };
    InputReader::new(attributes, LocalFlags { canonical: 0o2, echo: 0o10 })
}

fn feed(editor: &mut LineEditor, bytes: &[u8]) -> Vec<u8> {
    let mut output = Vec::new();
    for byte in bytes {
        output.extend(editor.step(*byte, &control()).output);
    }
    output
}

#[test]
fn moved_names_the_four_cursor_keys() {
    assert_eq!(moved(b"\x1b[A".to_vec()), Some(Directional::Up));
    assert_eq!(moved(b"\x1b[B".to_vec()), Some(Directional::Down));
    assert_eq!(moved(b"\x1b[C".to_vec()), Some(Directional::Right));
    assert_eq!(moved(b"\x1b[D".to_vec()), Some(Directional::Left));
    assert_eq!(moved(b"\x1b[E".to_vec()), None);
    assert_eq!(moved(b"\x1b[".to_vec()), None);
    assert_eq!(moved(b"\x1bOA".to_vec()), None);
    assert_eq!(moved(b"\x1b[AA".to_vec()), None);
}

#[test]
fn whitespace_groups() {
    assert!(is_whitespace(b" "));
    assert!(is_whitespace(b"\t\n\x0c\r "));
    assert!(is_whitespace(b""));
    assert!(!is_whitespace(b" a"));
    assert!(!is_whitespace(b"\x0b"));
    assert!(!is_whitespace("\u{a0}".as_bytes()));
}

#[test]
fn erase_word_keeps_blank_groups_before_the_word() {
    let groups = parse_bytes(b"a  b ");
    assert_eq!(handle_werase_byte(groups), parse_bytes(b"a  "));
}

#[test]
fn display_sequences() {
    assert_eq!(delete_previous_char(), b"\x08 \x08");
    assert_eq!(move_left(), b"\x1b[D");
    assert_eq!(move_right(), b"\x1b[C");
    assert_eq!(kill_line(), b"\x1b[2K\r");
    assert_eq!(reprint_line(&parse_text("maçã")), "\x1b[2K\rmaçã".as_bytes());
    assert_eq!(reprint_line(&EMPTY), b"\x1b[2K\r");
}

#[test]
fn step_echoes_ascii_at_once() {
    let mut editor = LineEditor::new();
    let step = editor.step(b'a', &control());
    assert_eq!(step.action, Action::Echo);
    assert_eq!(step.output, b"a");
    assert_eq!(editor.groups(), &vec![b"a".to_vec()]);
    assert_eq!(editor.mode(), Mode::Idle);
}

#[test]
fn step_holds_a_character_until_it_is_complete() {
    let mut editor = LineEditor::new();
    let bytes = "€".as_bytes();
    let first = editor.step(bytes[0], &control());
    assert_eq!(first.action, Action::Hold);
    assert_eq!(first.output, b"");
    assert_eq!(editor.mode(), Mode::AccumulatingUtf8);
    let second = editor.step(bytes[1], &control());
    assert_eq!(second.action, Action::Hold);
    assert_eq!(editor.pending(), &bytes[..2].to_vec());
    let third = editor.step(bytes[2], &control());
    assert_eq!(third.action, Action::Echo);
    assert_eq!(third.output, bytes);
    assert_eq!(editor.groups(), &vec![bytes.to_vec()]);
    assert_eq!(editor.mode(), Mode::Idle);
}

#[test]
fn step_erases_one_grapheme() {
    let mut editor = LineEditor::new();
    feed(&mut editor, "maçã".as_bytes());
    let step = editor.step(127, &control());
    assert_eq!(step.action, Action::EraseChar);
    assert_eq!(step.output, b"\x08 \x08");
    assert_eq!(editor.groups(), &parse_text("maç"));
}

#[test]
fn step_erase_on_an_empty_line_still_answers() {
    let mut editor = LineEditor::new();
    let step = editor.step(127, &control());
    assert_eq!(step.action, Action::EraseChar);
    assert_eq!(step.output, b"\x08 \x08");
    assert_eq!(editor.groups(), &EMPTY);
}

#[test]
fn step_erases_a_word_and_redraws() {
    let mut editor = LineEditor::new();
    feed(&mut editor, b"This isn't a coke ");
    let step = editor.step(23, &control());
    assert_eq!(step.action, Action::EraseWord);
    assert_eq!(step.output, b"\x1b[2K\rThis isn't a ");
    assert_eq!(editor.groups(), &parse_bytes(b"This isn't a "));
}

#[test]
fn step_kills_line_and_pending() {
    let mut editor = LineEditor::new();
    feed(&mut editor, b"abc\xc3");
    assert_eq!(editor.mode(), Mode::AccumulatingUtf8);
    let step = editor.step(21, &control());
    assert_eq!(step.action, Action::KillLine);
    assert_eq!(step.output, b"\x1b[2K\r");
    assert_eq!(editor.groups(), &EMPTY);
    assert_eq!(editor.mode(), Mode::Idle);
}

#[test]
fn step_reprints_without_change() {
    let mut editor = LineEditor::new();
    feed(&mut editor, b"ls -l");
    let step = editor.step(18, &control());
    assert_eq!(step.action, Action::Reprint);
    assert_eq!(step.output, b"\x1b[2K\rls -l");
    assert_eq!(editor.groups(), &parse_bytes(b"ls -l"));
}

#[test]
fn step_swallows_up_and_down() {
    let mut editor = LineEditor::new();
    feed(&mut editor, b"ab");
    assert_eq!(feed(&mut editor, b"\x1b[A"), b"");
    assert_eq!(feed(&mut editor, b"\x1b[B"), b"");
    assert_eq!(editor.groups(), &parse_bytes(b"ab"));
    assert_eq!(editor.mode(), Mode::Idle);
}

#[test]
fn step_left_and_right_move_the_screen_cursor_only() {
    let mut editor = LineEditor::new();
    feed(&mut editor, b"ab");
    assert_eq!(editor.step(0x1b, &control()).action, Action::Escape);
    assert_eq!(editor.mode(), Mode::AccumulatingEscape);
    assert_eq!(editor.step(b'[', &control()).action, Action::Escape);
    let left = editor.step(b'D', &control());
    assert_eq!(left.action, Action::Move(Directional::Left));
    assert_eq!(left.output, b"\x1b[D");
    assert_eq!(feed(&mut editor, b"\x1b[C"), b"\x1b[C");
    assert_eq!(editor.groups(), &parse_bytes(b"ab"));
    feed(&mut editor, b"\x1b[D\x1b[D");
    feed(&mut editor, b"c");
    assert_eq!(editor.groups(), &parse_bytes(b"abc"));
}

#[test]
fn step_drops_an_escape_sequence_that_names_nothing() {
    let mut editor = LineEditor::new();
    feed(&mut editor, b"a");
    assert_eq!(feed(&mut editor, b"\x1b[Z"), b"");
    assert_eq!(editor.mode(), Mode::Idle);
    let dropped = {
        feed(&mut editor, b"\x1b");
        editor.step(b'x', &control())
    };
    assert_eq!(dropped.action, Action::Drop);
    assert_eq!(editor.groups(), &parse_bytes(b"a"));
    feed(&mut editor, b"\x1b[");
    assert_eq!(editor.step(b'[', &control()).action, Action::Drop);
    assert_eq!(editor.mode(), Mode::Idle);
}

#[test]
fn step_bracket_outside_an_escape_is_a_character() {
    let mut editor = LineEditor::new();
    let step = editor.step(b'[', &control());
    assert_eq!(step.action, Action::Echo);
    assert_eq!(editor.groups(), &parse_bytes(b"["));
}

#[test]
fn step_editing_bytes_come_before_the_escape() {
    let mut editor = LineEditor::new();
    feed(&mut editor, b"ab\x1b");
    assert_eq!(editor.step(127, &control()).action, Action::EraseChar);
    assert_eq!(editor.mode(), Mode::AccumulatingEscape);
    assert_eq!(editor.groups(), &parse_bytes(b"a"));
}

#[test]
fn step_end_of_file_and_end_of_line() {
    let mut editor = LineEditor::new();
    feed(&mut editor, b"ab");
    let done = editor.step(b'\n', &control());
    assert_eq!(done.action, Action::Complete);
    assert_eq!(done.output, b"");
    assert_eq!(editor.groups(), &parse_bytes(b"ab"));
    let end = editor.step(4, &control());
    assert_eq!(end.action, Action::EndOfInput);
    assert_eq!(editor.groups(), &EMPTY);
}

#[test]
fn finish_writes_the_line_at_the_cursor() {
    let mut editor = LineEditor::new();
    feed(&mut editor, "é um".as_bytes());
    let mut buffer = Buffer::from_utf8("echo ");
    buffer.set_position(5);
    assert_eq!(editor.finish(&mut buffer), 5);
    assert_eq!(buffer.as_str(), Ok("echo é um"));
    assert_eq!(buffer.position(), 10);
}

#[test]
fn read_input_end_of_file_first() {
    let mut buffer = Buffer::new();
    let reading = reader().read_input(&mut buffer, b"\x04ls\n");
    assert_eq!(reading.line, None);
    assert_eq!(reading.consumed, 1);
    assert_eq!(reading.output, b"");
    assert_eq!(buffer.len(), 0);
}

#[test]
fn read_input_empty_line_is_a_line() {
    let mut buffer = Buffer::new();
    let reading = reader().read_input(&mut buffer, b"\n\x04");
    assert_eq!(reading.line, Some(()));
    assert_eq!(reading.consumed, 1);
    assert_eq!(buffer.len(), 0);
}

#[test]
fn read_input_end_of_file_discards_the_line() {
    let mut buffer = Buffer::from_utf8("kept");
    let reading = reader().read_input(&mut buffer, b"ls\x04");
    assert_eq!(reading.line, None);
    assert_eq!(reading.consumed, 3);
    assert_eq!(reading.output, b"ls");
    assert_eq!(buffer.as_str(), Ok("kept"));
    assert_eq!(buffer.position(), 0);
}

#[test]
fn read_input_stops_at_the_line_feed() {
    let mut buffer = Buffer::new();
    let reading = reader().read_input(&mut buffer, b"echo hi\npwd\n");
    assert_eq!(reading.line, Some(()));
    assert_eq!(reading.consumed, 8);
    assert_eq!(reading.output, b"echo hi");
    assert_eq!(buffer.as_str(), Ok("echo hi"));
    assert_eq!(buffer.position(), 7);
}

#[test]
fn read_input_applies_the_editing_bytes() {
    let mut buffer = Buffer::new();
    let reading = reader().read_input(&mut buffer, b"cat  foo bar\x17\x7fx\x1b[D\n");
    assert_eq!(reading.line, Some(()));
    assert_eq!(buffer.as_str(), Ok("cat  foox"));
    assert_eq!(
        reading.output,
        b"cat  foo bar\x1b[2K\rcat  foo \x08 \x08x\x1b[D",
    );
}

#[test]
fn read_input_without_line_feed_completes_at_the_end() {
    let mut buffer = Buffer::new();
    let reading = reader().read_input(&mut buffer, b"ls");
    assert_eq!(reading.line, Some(()));
    assert_eq!(reading.consumed, 2);
    assert_eq!(buffer.as_str(), Ok("ls"));
}

#[test]
fn read_input_leaves_an_incomplete_character_out() {
    let mut buffer = Buffer::new();
    let reading = reader().read_input(&mut buffer, b"a\xc3\n");
    assert_eq!(reading.line, Some(()));
    assert_eq!(buffer.as_str(), Ok("a"));
    assert!(buffer.is_valid_utf8());
}

#[test]
fn read_input_continues_a_line_in_the_buffer() {
    let mut buffer = Buffer::new();
    let input_reader = reader();
    input_reader.read_input(&mut buffer, b"echo 'a\n");
    buffer.write(b"\n");
    input_reader.read_input(&mut buffer, b"b'\n");
    assert_eq!(buffer.as_str(), Ok("echo 'a\nb'"));
}

#[test]
fn raw_mode_clears_canonical_and_echo_only() {
    let mut input_reader = reader();
    let raw = input_reader.enable_raw_mode();
    assert_eq!(raw.local_flags, 0o105061);
    assert_eq!(raw.control, control());
    assert_eq!(input_reader.enable_raw_mode().local_flags, 0o105061);
    let restored = input_reader.disable_raw_mode();
    assert_eq!(restored.local_flags, 0o105073);
    assert_eq!(restored.control, control());
    assert_eq!(input_reader.control(), control());
}
