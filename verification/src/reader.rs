//! The line editor of a terminal in raw mode.
//!
//! The terminal hands over one byte at a time. The editor keeps the graphemes
//! typed so far and at most one unit that is still incomplete, a multi-byte
//! character or an escape sequence, and answers each byte with the next state
//! and the bytes to send back to the terminal.

use vstd::prelude::*;
use vstd::utf8::valid_utf8;
use vstd::slice::slice_to_vec;
use crate::buffer::{overwritten, Buffer};
use crate::display::{
    delete_previous_char,
    erase_sequence,
    groups_of,
    join,
    joined,
    kill_line,
    kill_sequence,
    left_sequence,
    move_left,
    move_right,
    reprint_line,
    reprint_sequence,
    right_sequence,
};
use crate::text::utf8_text;

verus! {

/// The byte that ends a line.
pub const NEWLINE: u8 = 0x0a;

/// The byte that opens an escape sequence.
pub const ESCAPE: u8 = 0x1b;

/// The byte that continues an escape sequence right behind `ESCAPE`.
pub const BRACKET: u8 = 0x5b;

/// A cursor key.
#[derive(Clone, Copy, Debug, PartialEq, Eq)]
pub enum Directional {
    Up,
    Down,
    Left,
    Right,
}

/// The editing bytes of the terminal's configuration.
#[derive(Clone, Copy, Debug, PartialEq, Eq)]
pub struct ControlChars {
    pub eof: u8,
    pub erase: u8,
    pub werase: u8,
    pub kill: u8,
    pub reprint: u8,
}

/// What the incomplete unit is.
#[derive(Clone, Copy, Debug, PartialEq, Eq)]
pub enum Mode {
    /// Nothing is incomplete.
    Idle,
    /// The first bytes of a multi-byte character.
    AccumulatingUtf8,
    /// The first bytes of an escape sequence.
    AccumulatingEscape,
}

/// What the editor did with a byte.
#[derive(Clone, Copy, Debug, PartialEq, Eq)]
pub enum Action {
    /// Dropped the last grapheme.
    EraseChar,
    /// Dropped the blanks at the end and the word before them.
    EraseWord,
    /// Dropped the whole line.
    KillLine,
    /// Wrote the line anew.
    Reprint,
    /// Opened or continued an escape sequence.
    Escape,
    /// Closed an escape sequence that names a cursor key.
    Move(Directional),
    /// Closed an escape sequence that names nothing, and forgot it.
    Drop,
    /// Met the end-of-file byte.
    EndOfInput,
    /// Met the end of the line.
    Complete,
    /// Completed a grapheme and echoed it.
    Echo,
    /// Kept the byte as part of a character that is still incomplete.
    Hold,
}

/// The state of the editor: the graphemes of the line, and the incomplete
/// unit.
pub struct LineState {
    pub groups: Seq<Seq<u8>>,
    pub pending: Seq<u8>,
}

/// The answer to a run of bytes.
pub struct ReadingState {
    /// Whether the end-of-file byte ended the run.
    pub ended: bool,
    /// The state after the last byte taken.
    pub state: LineState,
    /// The number of bytes taken.
    pub consumed: nat,
    /// The bytes for the terminal.
    pub output: Seq<u8>,
}

/// The cursor key that the three bytes of `input` name.
pub open spec fn direction_of(input: Seq<u8>) -> Option<Directional> {
    if input.len() == 3 && input[0] == ESCAPE && input[1] == BRACKET {
        if input[2] == 0x41 {
            Some(Directional::Up)
        } else if input[2] == 0x42 {
            Some(Directional::Down)
        } else if input[2] == 0x43 {
            Some(Directional::Right)
        } else if input[2] == 0x44 {
            Some(Directional::Left)
        } else {
            None
        }
    } else {
        None
    }
}

/// Space, tab, line feed, form feed or carriage return.
pub open spec fn is_whitespace_byte(byte: u8) -> bool {
    byte == 0x20 || byte == 0x09 || byte == 0x0a || byte == 0x0c || byte == 0x0d
}

/// Whether every byte of `group` is whitespace.
pub open spec fn is_blank(group: Seq<u8>) -> bool {
    forall|i: int| 0 <= i < group.len() ==> is_whitespace_byte(#[trigger] group[i])
}

/// The number of groups left when the groups at the end that are blank, or
/// with `blank` false those that are not, are taken away.
pub open spec fn trimmed_len(groups: Seq<Seq<u8>>, blank: bool) -> nat
    decreases groups.len(),
{
    if groups.len() > 0 && is_blank(groups.last()) == blank {
        trimmed_len(groups.drop_last(), blank)
    } else {
        groups.len()
    }
}

/// The line after a word-erase: first the blank groups at the end go, then
/// the groups of the word before them, up to the next blank group.
pub open spec fn word_erased(groups: Seq<Seq<u8>>) -> Seq<Seq<u8>> {
    let without_blanks = groups.take(trimmed_len(groups, true) as int);
    without_blanks.take(trimmed_len(without_blanks, false) as int)
}

/// What `pending` is the beginning of.
pub open spec fn mode_of(pending: Seq<u8>) -> Mode {
    if pending.len() == 0 {
        Mode::Idle
    } else if pending[0] == ESCAPE {
        Mode::AccumulatingEscape
    } else {
        Mode::AccumulatingUtf8
    }
}

/// The editor's decision on `byte`. The first rule that applies decides: the
/// four editing bytes of the terminal, then the opening of an escape
/// sequence, then its continuation and end, then end of file and end of line;
/// any other byte belongs to a character.
pub open spec fn action_for(state: LineState, byte: u8, control: ControlChars) -> Action {
    if byte == control.erase {
        Action::EraseChar
    } else if byte == control.werase {
        Action::EraseWord
    } else if byte == control.kill {
        Action::KillLine
    } else if byte == control.reprint {
        Action::Reprint
    } else if byte == ESCAPE {
        Action::Escape
    } else if mode_of(state.pending) is AccumulatingEscape {
        if byte == BRACKET && state.pending.len() == 1 {
            Action::Escape
        } else {
            match direction_of(seq![ESCAPE, BRACKET, byte]) {
                Some(direction) => Action::Move(direction),
                None => Action::Drop,
            }
        }
    } else if byte == control.eof {
        Action::EndOfInput
    } else if byte == NEWLINE {
        Action::Complete
    } else if valid_utf8(state.pending.push(byte)) {
        Action::Echo
    } else {
        Action::Hold
    }
}

/// The state that `byte` leaves behind. Cursor keys change nothing but the
/// incomplete unit: the line and the place where the next grapheme goes stay
/// as they were.
pub open spec fn state_after(state: LineState, byte: u8, control: ControlChars) -> LineState {
    match action_for(state, byte, control) {
        Action::EraseChar => LineState {
            groups: if state.groups.len() > 0 {
                state.groups.drop_last()
            } else {
                state.groups
            },
            pending: state.pending,
        },
        Action::EraseWord => LineState {
            groups: word_erased(state.groups),
            pending: state.pending,
        },
        Action::KillLine => LineState { groups: Seq::empty(), pending: Seq::empty() },
        Action::Reprint => state,
        Action::Escape => LineState {
            groups: state.groups,
            pending: if byte == ESCAPE {
                seq![ESCAPE]
            } else {
                state.pending.push(byte)
            },
        },
        Action::Move(_) => LineState { groups: state.groups, pending: Seq::empty() },
        Action::Drop => LineState { groups: state.groups, pending: Seq::empty() },
        Action::EndOfInput => LineState { groups: Seq::empty(), pending: Seq::empty() },
        Action::Complete => state,
        Action::Echo => LineState {
            groups: state.groups.push(state.pending.push(byte)),
            pending: Seq::empty(),
        },
        Action::Hold => LineState { groups: state.groups, pending: state.pending.push(byte) },
    }
}

/// The bytes that the terminal gets in answer to `byte`.
pub open spec fn output_for(state: LineState, byte: u8, control: ControlChars) -> Seq<u8> {
    match action_for(state, byte, control) {
        Action::EraseChar => erase_sequence(),
        Action::EraseWord => reprint_sequence(word_erased(state.groups)),
        Action::KillLine => kill_sequence(),
        Action::Reprint => reprint_sequence(state.groups),
        Action::Move(Directional::Left) => left_sequence(),
        Action::Move(Directional::Right) => right_sequence(),
        Action::Echo => state.pending.push(byte),
        _ => Seq::empty(),
    }
}

/// The state in which a line begins.
pub open spec fn empty_line() -> LineState {
    LineState { groups: Seq::empty(), pending: Seq::empty() }
}

/// The editor run over `input` from `state`: byte after byte, up to and with
/// the first byte that ends the line or the input, or to the last byte where
/// none does.
pub open spec fn read_from(state: LineState, input: Seq<u8>, control: ControlChars) -> ReadingState
    decreases input.len(),
{
    if input.len() == 0 {
        ReadingState { ended: false, state, consumed: 0, output: Seq::empty() }
    } else {
        let action = action_for(state, input[0], control);
        let next = state_after(state, input[0], control);
        let output = output_for(state, input[0], control);
        if action is EndOfInput || action is Complete {
            ReadingState { ended: action is EndOfInput, state: next, consumed: 1, output }
        } else {
            let rest = read_from(next, input.skip(1), control);
            ReadingState {
                ended: rest.ended,
                state: rest.state,
                consumed: rest.consumed + 1,
                output: output + rest.output,
            }
        }
    }
}

/// The cursor key that `input` names, if it is `ESC [` and one of `A`, `B`,
/// `C`, `D`.
pub fn moved(input: Vec<u8>) -> (direction: Option<Directional>)
    ensures
        direction == direction_of(input@),
{
    if input.len() == 3 && input[0] == ESCAPE && input[1] == BRACKET {
        let last = input[2];
        if last == 0x41 {
            Some(Directional::Up)
        } else if last == 0x42 {
            Some(Directional::Down)
        } else if last == 0x43 {
            Some(Directional::Right)
        } else if last == 0x44 {
            Some(Directional::Left)
        } else {
            None
        }
    } else {
        None
    }
}

/// Whether every byte of `group` is whitespace.
pub fn is_whitespace(group: &[u8]) -> (blank: bool)
    ensures
        blank == is_blank(group@),
{
    let mut i: usize = 0;
    while i < group.len()
        invariant
            i <= group.len(),
            forall|j: int| 0 <= j < i ==> is_whitespace_byte(#[trigger] group@[j]),
        decreases group.len() - i,
    {
        let byte = group[i];
        if !(byte == 0x20 || byte == 0x09 || byte == 0x0a || byte == 0x0c || byte == 0x0d) {
            return false;
        }
        i += 1;
    }
    true
}

/// Takes the groups at the end of `bytes` away that are blank, or with
/// `blank` false those that are not.
fn trim_groups(bytes: &mut Vec<Vec<u8>>, blank: bool)
    ensures
        groups_of(final(bytes)@) == groups_of(old(bytes)@).take(
            trimmed_len(groups_of(old(bytes)@), blank) as int,
        ),
{
    let ghost all = groups_of(bytes@);
    while bytes.len() > 0 && is_whitespace(bytes[bytes.len() - 1].as_slice()) == blank
        invariant
            bytes@.len() <= all.len(),
            groups_of(bytes@) == all.take(bytes@.len() as int),
            trimmed_len(groups_of(bytes@), blank) == trimmed_len(all, blank),
        decreases bytes.len(),
    {
        proof {
            let now = groups_of(bytes@);
            assert(now.last() == bytes@.last()@);
            assert(groups_of(bytes@.drop_last()) == now.drop_last());
            assert(now.drop_last() == all.take(bytes@.len() - 1));
        }
        bytes.pop();
    }
    proof {
        let now = groups_of(bytes@);
        if now.len() > 0 {
            assert(now.last() == bytes@.last()@);
        }
        assert(trimmed_len(now, blank) == now.len());
    }
}

/// Erases a word: the blank groups at the end of `bytes`, then the groups
/// before them up to the next blank one.
pub fn handle_werase_byte(bytes: Vec<Vec<u8>>) -> (erased: Vec<Vec<u8>>)
    ensures
        groups_of(erased@) == word_erased(groups_of(bytes@)),
{
    let mut new_bytes = bytes;
    trim_groups(&mut new_bytes, true);
    trim_groups(&mut new_bytes, false);
    new_bytes
}

/// The editor of one line.
#[derive(Debug)]
pub struct LineEditor {
    groups: Vec<Vec<u8>>,
    pending: Vec<u8>,
}

/// The editor's answer to one byte.
#[derive(Debug)]
pub struct Step {
    pub action: Action,
    /// The bytes to send to the terminal.
    pub output: Vec<u8>,
}

/// The answer to a read.
#[derive(Debug)]
pub struct Reading {
    /// `Some` where the line is in the buffer, `None` at the end of input.
    pub line: Option<()>,
    /// The number of bytes taken from the input.
    pub consumed: usize,
    /// The bytes to send to the terminal.
    pub output: Vec<u8>,
}

impl View for LineEditor {
    type V = LineState;

    closed spec fn view(&self) -> LineState {
        LineState { groups: groups_of(self.groups@), pending: self.pending@ }
    }
}

impl LineEditor {
    /// The editor at the beginning of a line.
    pub fn new() -> (editor: Self)
        ensures
            editor@ == empty_line(),
    {
        let editor = LineEditor { groups: Vec::new(), pending: Vec::new() };
        assert(editor@.groups == Seq::<Seq<u8>>::empty());
        editor
    }

    /// What the incomplete unit is.
    pub fn mode(&self) -> (mode: Mode)
        ensures
            mode == mode_of(self@.pending),
    {
        if self.pending.len() == 0 {
            Mode::Idle
        } else if self.pending[0] == ESCAPE {
            Mode::AccumulatingEscape
        } else {
            Mode::AccumulatingUtf8
        }
    }

    /// The graphemes of the line.
    pub fn groups(&self) -> (groups: &Vec<Vec<u8>>)
        ensures
            groups_of(groups@) == self@.groups,
    {
        &self.groups
    }

    /// The bytes of the incomplete unit.
    pub fn pending(&self) -> (pending: &Vec<u8>)
        ensures
            pending@ == self@.pending,
    {
        &self.pending
    }

    /// Takes one byte from the terminal.
    pub fn step(&mut self, byte: u8, control: &ControlChars) -> (step: Step)
        ensures
            step.action == action_for(old(self)@, byte, *control),
            step.output@ == output_for(old(self)@, byte, *control),
            final(self)@ == state_after(old(self)@, byte, *control),
    {
        if byte == control.erase {
            proof {
                if self.groups@.len() > 0 {
                    assert(groups_of(self.groups@.drop_last()) == groups_of(
                        self.groups@,
                    ).drop_last());
                }
            }
            self.groups.pop();
            Step { action: Action::EraseChar, output: delete_previous_char() }
        } else if byte == control.werase {
            let mut groups: Vec<Vec<u8>> = Vec::new();
            core::mem::swap(&mut self.groups, &mut groups);
            self.groups = handle_werase_byte(groups);
            Step { action: Action::EraseWord, output: reprint_line(&self.groups) }
        } else if byte == control.kill {
            self.groups.clear();
            self.pending.clear();
            assert(groups_of(self.groups@) == Seq::<Seq<u8>>::empty());
            Step { action: Action::KillLine, output: kill_line() }
        } else if byte == control.reprint {
            Step { action: Action::Reprint, output: reprint_line(&self.groups) }
        } else if byte == ESCAPE {
            self.pending.clear();
            self.pending.push(ESCAPE);
            assert(self.pending@ == seq![ESCAPE]);
            Step { action: Action::Escape, output: Vec::new() }
        } else if self.pending.len() > 0 && self.pending[0] == ESCAPE {
            if byte == BRACKET && self.pending.len() == 1 {
                self.pending.push(byte);
                Step { action: Action::Escape, output: Vec::new() }
            } else {
                self.pending.clear();
                let direction = moved(vec![ESCAPE, BRACKET, byte]);
                assert(direction == direction_of(seq![ESCAPE, BRACKET, byte]));
                match direction {
                    Some(Directional::Left) => Step {
                        action: Action::Move(Directional::Left),
                        output: move_left(),
                    },
                    Some(Directional::Right) => Step {
                        action: Action::Move(Directional::Right),
                        output: move_right(),
                    },
                    Some(direction) => Step {
                        action: Action::Move(direction),
                        output: Vec::new(),
                    },
                    None => Step { action: Action::Drop, output: Vec::new() },
                }
            }
        } else if byte == control.eof {
            self.groups.clear();
            self.pending.clear();
            assert(groups_of(self.groups@) == Seq::<Seq<u8>>::empty());
            Step { action: Action::EndOfInput, output: Vec::new() }
        } else if byte == NEWLINE {
            Step { action: Action::Complete, output: Vec::new() }
        } else {
            self.pending.push(byte);
            if utf8_text(self.pending.as_slice()).is_some() {
                let output = slice_to_vec(self.pending.as_slice());
                let mut grapheme: Vec<u8> = Vec::new();
                core::mem::swap(&mut self.pending, &mut grapheme);
                proof {
                    assert(groups_of(self.groups@.push(grapheme)) == groups_of(
                        self.groups@,
                    ).push(grapheme@));
                }
                self.groups.push(grapheme);
                Step { action: Action::Echo, output }
            } else {
                Step { action: Action::Hold, output: Vec::new() }
            }
        }
    }

    /// Writes the graphemes of the line into `buffer` at its cursor, and
    /// returns the number of bytes written.
    pub fn finish(&self, buffer: &mut Buffer) -> (written: usize)
        ensures
            final(buffer)@.bytes == overwritten(
                old(buffer)@.bytes,
                old(buffer)@.cursor,
                joined(self@.groups),
            ),
            final(buffer)@.cursor == old(buffer)@.cursor + joined(self@.groups).len(),
            written == joined(self@.groups).len(),
    {
        let line = join(&self.groups);
        buffer.write(line.as_slice())
    }
}

/// The part of a terminal's attributes that the editor reads: the local
/// flags, and the editing bytes.
#[derive(Clone, Copy, Debug, PartialEq, Eq)]
pub struct Attributes {
    pub local_flags: u64,
    pub control: ControlChars,
}

/// The bits that the two local flags occupy which raw mode switches off.
#[derive(Clone, Copy, Debug, PartialEq, Eq)]
pub struct LocalFlags {
    /// Canonical processing: the terminal edits the line itself.
    pub canonical: u64,
    /// Local echo: the terminal shows what is typed.
    pub echo: u64,
}

/// `flags` with canonical processing and local echo switched off.
pub open spec fn raw_flags(flags: u64, masks: LocalFlags) -> u64 {
    flags & !masks.canonical & !masks.echo
}

/// Raw mode clears the two flags and leaves every bit outside them as it was;
/// entering it twice is entering it once.
pub proof fn lemma_raw_flags(flags: u64, masks: LocalFlags)
    ensures
        raw_flags(flags, masks) & masks.canonical == 0,
        raw_flags(flags, masks) & masks.echo == 0,
        raw_flags(flags, masks) | (flags & (masks.canonical | masks.echo)) == flags,
        raw_flags(raw_flags(flags, masks), masks) == raw_flags(flags, masks),
{
    let c = masks.canonical;
    let e = masks.echo;
    assert((flags & !c & !e) & c == 0) by (bit_vector);
    assert((flags & !c & !e) & e == 0) by (bit_vector);
    assert((flags & !c & !e) | (flags & (c | e)) == flags) by (bit_vector);
    assert((flags & !c & !e) & !c & !e == flags & !c & !e) by (bit_vector);
}

/// The two snapshots of the terminal's attributes that a session holds: the
/// ones it found, and the ones it works with.
#[derive(Debug)]
pub struct InputReader {
    termios: Attributes,
    default: Attributes,
    masks: LocalFlags,
}

impl InputReader {
    /// The attributes that the session works with.
    pub closed spec fn working(&self) -> Attributes {
        self.termios
    }

    /// The attributes that the session found.
    pub closed spec fn found(&self) -> Attributes {
        self.default
    }

    /// The bits of the two flags that raw mode switches off.
    pub closed spec fn flag_masks(&self) -> LocalFlags {
        self.masks
    }

    /// The working attributes are those that were found, or differ from them by
    /// canonical processing and local echo being off and by nothing else.
    pub open spec fn inv(&self) -> bool {
        &&& self.working().control == self.found().control
        &&& self.working().local_flags == self.found().local_flags
            || self.working().local_flags == raw_flags(
            self.found().local_flags,
            self.flag_masks(),
        )
    }

    #[verifier::type_invariant]
    spec fn snapshots_agree(&self) -> bool {
        self.inv()
    }

    /// A reader for a terminal with the attributes `attributes`, on a system
    /// where canonical processing and local echo are the bits of `masks`.
    pub fn new(attributes: Attributes, masks: LocalFlags) -> (reader: Self)
        ensures
            reader.working() == attributes,
            reader.found() == attributes,
            reader.flag_masks() == masks,
            reader.inv(),
    {
        InputReader { termios: attributes, default: attributes, masks }
    }

    /// Switches canonical processing and local echo off in the working
    /// attributes, and returns them for the terminal to be set to. The
    /// attributes that were found stay as they are.
    pub fn enable_raw_mode(&mut self) -> (attributes: Attributes)
        ensures
            old(self).inv(),
            final(self).inv(),
            final(self).found() == old(self).found(),
            final(self).flag_masks() == old(self).flag_masks(),
            final(self).working().control == old(self).working().control,
            final(self).working().local_flags == raw_flags(
                old(self).found().local_flags,
                old(self).flag_masks(),
            ),
            attributes == final(self).working(),
    {
        proof {
            use_type_invariant(&*self);
            lemma_raw_flags(self.default.local_flags, self.masks);
        }
        self.termios.local_flags = self.termios.local_flags & !self.masks.canonical
            & !self.masks.echo;
        self.termios
    }

    /// The attributes that the session found, for the terminal to be set
    /// back to.
    pub fn disable_raw_mode(&self) -> (attributes: Attributes)
        ensures
            attributes == self.found(),
            self.inv(),
    {
        proof {
            use_type_invariant(self);
        }
        self.default
    }

    /// The editing bytes of the working attributes.
    pub fn control(&self) -> (control: ControlChars)
        ensures
            control == self.working().control,
    {
        self.termios.control
    }

    /// Reads one line from `input`: runs a fresh editor over it up to the
    /// first byte that ends the line or the input, or to its last byte.
    ///
    /// Where the end-of-file byte ended the run, `line` is `None` and
    /// `buffer` is as it was. Else `line` is `Some` and the graphemes of the
    /// line were written into `buffer` at its cursor.
    pub fn read_input(&self, buffer: &mut Buffer, input: &[u8]) -> (reading: Reading)
        ensures
            ({
                let run = read_from(empty_line(), input@, self.working().control);
                &&& reading.line is None <==> run.ended
                &&& reading.consumed == run.consumed
                &&& reading.output@ == run.output
                &&& run.ended ==> final(buffer)@ == old(buffer)@
                &&& !run.ended ==> final(buffer)@.bytes == overwritten(
                    old(buffer)@.bytes,
                    old(buffer)@.cursor,
                    joined(run.state.groups),
                ) && final(buffer)@.cursor == old(buffer)@.cursor + joined(run.state.groups).len()
            }),
    {
        let control = self.termios.control;
        let mut editor = LineEditor::new();
        let mut output: Vec<u8> = Vec::new();
        let mut i: usize = 0;
        let ghost whole = read_from(empty_line(), input@, control);
        proof {
            assert(input@.skip(0) == input@);
            assert(output@ + whole.output == whole.output);
        }
        while i < input.len()
            invariant
                i <= input.len(),
                buffer@ == old(buffer)@,
                control == self.working().control,
                whole == read_from(empty_line(), input@, control),
                ({
                    let rest = read_from(editor@, input@.skip(i as int), control);
                    &&& whole.ended == rest.ended
                    &&& whole.state == rest.state
                    &&& whole.consumed == i + rest.consumed
                    &&& whole.output == output@ + rest.output
                }),
            decreases input.len() - i,
        {
            proof {
                assert(input@.skip(i as int)[0] == input@[i as int]);
                assert(input@.skip(i as int).skip(1) == input@.skip(i + 1));
            }
            let ghost before = output@;
            let ghost rest = read_from(editor@, input@.skip(i as int), control);
            let step = editor.step(input[i], &control);
            output.extend_from_slice(step.output.as_slice());
            i += 1;
            match step.action {
                Action::EndOfInput => {
                    assert(output@ == before + rest.output);
                    return Reading { line: None, consumed: i, output };
                },
                Action::Complete => {
                    assert(output@ == before + rest.output);
                    editor.finish(buffer);
                    return Reading { line: Some(()), consumed: i, output };
                },
                _ => {
                    proof {
                        let later = read_from(editor@, input@.skip(i as int), control);
                        assert(before + (step.output@ + later.output) == (before + step.output@)
                            + later.output);
                    }
                },
            }
        }
        editor.finish(buffer);
        Reading { line: Some(()), consumed: i, output }
    }
}

/// The end-of-file byte at the very beginning of a line ends the input and
/// not the line, where the terminal gives that byte no other meaning: it is
/// the only byte taken, and nothing is sent back.
pub proof fn lemma_end_of_file_first(input: Seq<u8>, control: ControlChars)
    requires
        input.len() > 0,
        input[0] == control.eof,
        control.eof != control.erase,
        control.eof != control.werase,
        control.eof != control.kill,
        control.eof != control.reprint,
        control.eof != ESCAPE,
    ensures
        read_from(empty_line(), input, control).ended,
        read_from(empty_line(), input, control).consumed == 1,
        read_from(empty_line(), input, control).output == Seq::<u8>::empty(),
        read_from(empty_line(), input, control).state == empty_line(),
{
}

/// A cursor key leaves the line as it is: it moves the cursor on the screen
/// at most, and the next grapheme still goes to the end of the line.
pub proof fn lemma_cursor_keys_keep_line(state: LineState, byte: u8, control: ControlChars)
    requires
        action_for(state, byte, control) matches Action::Move(_),
    ensures
        state_after(state, byte, control).groups == state.groups,
        state_after(state, byte, control).pending == Seq::<u8>::empty(),
{
}

/// A word-erase leaves a beginning of the line, and no word at its end: the
/// last group left is blank.
pub proof fn lemma_word_erased(groups: Seq<Seq<u8>>)
    ensures
        word_erased(groups).len() <= groups.len(),
        word_erased(groups) == groups.take(word_erased(groups).len() as int),
        word_erased(groups).len() > 0 ==> is_blank(word_erased(groups).last()),
{
    lemma_trimmed_len(groups, true);
    let without_blanks = groups.take(trimmed_len(groups, true) as int);
    lemma_trimmed_len(without_blanks, false);
    let kept = trimmed_len(without_blanks, false) as int;
    assert(without_blanks.take(kept) == groups.take(kept));
}

/// Trimming leaves a beginning whose last group, if it has one, is not of
/// the kind that was trimmed.
pub proof fn lemma_trimmed_len(groups: Seq<Seq<u8>>, blank: bool)
    ensures
        trimmed_len(groups, blank) <= groups.len(),
        trimmed_len(groups, blank) > 0 ==> is_blank(groups[trimmed_len(groups, blank) - 1])
            != blank,
    decreases groups.len(),
{
    if groups.len() > 0 && is_blank(groups.last()) == blank {
        lemma_trimmed_len(groups.drop_last(), blank);
    }
}

/// Whether every group is UTF-8 by itself.
pub open spec fn graphemes_valid(groups: Seq<Seq<u8>>) -> bool {
    forall|i: int| 0 <= i < groups.len() ==> valid_utf8(#[trigger] groups[i])
}

/// No byte makes a group that is not UTF-8: a grapheme joins the line only
/// when it is complete.
pub proof fn lemma_step_keeps_graphemes_valid(state: LineState, byte: u8, control: ControlChars)
    requires
        graphemes_valid(state.groups),
    ensures
        graphemes_valid(state_after(state, byte, control).groups),
{
    lemma_word_erased(state.groups);
}

/// Groups that are UTF-8 one by one are UTF-8 when joined.
pub proof fn lemma_joined_valid(groups: Seq<Seq<u8>>)
    requires
        graphemes_valid(groups),
    ensures
        valid_utf8(joined(groups)),
    decreases groups.len(),
{
    if groups.len() > 0 {
        lemma_joined_valid(groups.drop_last());
        assert(valid_utf8(groups.last()));
        vstd::utf8::valid_utf8_concat(joined(groups.drop_last()), groups.last());
    }
}

/// Whatever bytes the terminal sends, the graphemes of the line are UTF-8.
pub proof fn lemma_read_keeps_graphemes_valid(
    state: LineState,
    input: Seq<u8>,
    control: ControlChars,
)
    requires
        graphemes_valid(state.groups),
    ensures
        graphemes_valid(read_from(state, input, control).state.groups),
    decreases input.len(),
{
    if input.len() > 0 {
        lemma_step_keeps_graphemes_valid(state, input[0], control);
        let action = action_for(state, input[0], control);
        if !(action is EndOfInput || action is Complete) {
            lemma_read_keeps_graphemes_valid(
                state_after(state, input[0], control),
                input.skip(1),
                control,
            );
        }
    }
}

/// A line that was read is UTF-8, whatever bytes the terminal sent.
pub proof fn lemma_line_is_utf8(input: Seq<u8>, control: ControlChars)
    ensures
        valid_utf8(joined(read_from(empty_line(), input, control).state.groups)),
{
    lemma_read_keeps_graphemes_valid(empty_line(), input, control);
    lemma_joined_valid(read_from(empty_line(), input, control).state.groups);
}

} // verus!
