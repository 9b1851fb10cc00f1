//! What the shell's built-in commands compute: the kind of a command word,
//! and the text that `echo` and `printf` write.

use vstd::prelude::*;
use vstd::string::StrSliceExecFns;
use vstd::utf8::encode_utf8;
use crate::argv::ArgV;
use crate::field::{is_number, number};
use crate::text::{chars_of, find_char, index_of, is_digit_char, lemma_index_of, string_of};

verus! {

/// What a command word names.
pub enum ShellCommand {
    SpBuiltin(String),
    Builtin(String),
    Function(String),
    Alias(String),
    Process(String),
    Script(String),
    Variable(String, String),
}

/// The byte that the written escapes stand for.
pub const ESCAPE_BYTE: u8 = 0x1b;

/// `\x1b`, written out.
pub open spec fn hex_escape() -> Seq<u8> {
    seq![0x5cu8, 0x78u8, 0x31u8, 0x62u8]
}

/// `\033`, written out.
pub open spec fn octal_escape() -> Seq<u8> {
    seq![0x5cu8, 0x30u8, 0x33u8, 0x33u8]
}

/// `\e`, written out.
pub open spec fn char_escape() -> Seq<u8> {
    seq![0x5cu8, 0x65u8]
}

/// Whether `pattern` stands in `input` at `at`, and `input` holds more than
/// `pattern` alone.
pub open spec fn stands_at(input: Seq<u8>, at: int, pattern: Seq<u8>) -> bool {
    input.len() > pattern.len() && at + pattern.len() <= input.len() && input.subrange(
        at,
        at + pattern.len(),
    ) == pattern
}

/// The length of the written escape that stands in `input` at `at`, or 0.
pub open spec fn escape_len_at(input: Seq<u8>, at: int) -> int {
    if stands_at(input, at, hex_escape()) {
        4
    } else if stands_at(input, at, octal_escape()) {
        4
    } else if stands_at(input, at, char_escape()) {
        2
    } else {
        0
    }
}

/// `input` from `at` on, with each written escape replaced by the escape
/// byte.
pub open spec fn unescaped_from(input: Seq<u8>, at: int) -> Seq<u8>
    decreases input.len() - at,
{
    if at < 0 || at >= input.len() {
        Seq::empty()
    } else if escape_len_at(input, at) > 0 {
        seq![ESCAPE_BYTE] + unescaped_from(input, at + escape_len_at(input, at))
    } else {
        seq![input[at]] + unescaped_from(input, at + 1)
    }
}

/// `input` with each written escape, `\x1b`, `\033` or `\e`, replaced by the
/// escape byte, read from left to right. An input that is one written escape
/// and nothing more stays as it is.
pub open spec fn unescaped(input: Seq<u8>) -> Seq<u8> {
    unescaped_from(input, 0)
}

/// The command that `name` is: the assignment of a variable where it holds
/// `=`, the name before the first `=` and the value behind it; else the
/// process `exit`.
pub open spec fn command_of(name: Seq<char>) -> (Seq<char>, Option<Seq<char>>) {
    let at = index_of(name, '=');
    if at < name.len() {
        (name.take(at), Some(name.skip(at + 1)))
    } else {
        ("exit"@, None)
    }
}

/// The kind of command that `name` is: see `command_of`. It never fails.
pub fn parse_command<E>(name: &str) -> (command: Result<ShellCommand, E>)
    ensures
        match command {
            Ok(ShellCommand::Variable(n, v)) => command_of(name@) == (n@, Some(v@)),
            Ok(ShellCommand::Process(p)) => command_of(name@) == (p@, None::<Seq<char>>),
            _ => false,
        },
{
    let chars = chars_of(name);
    let at = find_char(chars.as_slice(), '=');
    proof {
        lemma_index_of(chars@, '=');
    }
    if at < chars.len() {
        let n = string_of(vstd::slice::slice_subrange(chars.as_slice(), 0, at));
        let v = string_of(vstd::slice::slice_subrange(chars.as_slice(), at + 1, chars.len()));
        assert(chars@.subrange(0, at as int) == chars@.take(at as int));
        assert(chars@.subrange(at + 1, chars@.len() as int) == chars@.skip(at + 1));
        Ok(ShellCommand::Variable(n, v))
    } else {
        Ok(ShellCommand::Process("exit".to_owned()))
    }
}

/// Whether `pattern` stands in `input` at `at`: see `stands_at`.
fn matches_at(input: &[u8], at: usize, pattern: &[u8]) -> (found: bool)
    requires
        at <= input.len(),
    ensures
        found == stands_at(input@, at as int, pattern@),
{
    let size = input.len();
    let width = pattern.len();
    if !(size > width && at <= size - width) {
        return false;
    }
    let mut i: usize = 0;
    while i < width
        invariant
            i <= width,
            width == pattern@.len(),
            size == input@.len(),
            at + width <= size,
            forall|j: int| 0 <= j < i ==> input@[at + j] == pattern@[j],
        decreases width - i,
    {
        if input[at + i] != pattern[i] {
            assert(input@.subrange(at as int, at + width)[i as int] != pattern@[i as int]);
            return false;
        }
        i += 1;
    }
    assert(input@.subrange(at as int, at + width) == pattern@);
    true
}

/// Replaces each written escape in `input` by the escape byte: see
/// `unescaped`.
pub fn replace_escape_sequence(input: &[u8]) -> (output: Vec<u8>)
    ensures
        output@ == unescaped(input@),
{
    let hex_seq: [u8; 4] = [0x5c, 0x78, 0x31, 0x62];
    let oct_seq: [u8; 4] = [0x5c, 0x30, 0x33, 0x33];
    let char_seq: [u8; 2] = [0x5c, 0x65];
    assert(hex_seq@ == hex_escape());
    assert(oct_seq@ == octal_escape());
    assert(char_seq@ == char_escape());
    let size = input.len();
    let mut output: Vec<u8> = Vec::new();
    let mut i: usize = 0;
    assert(output@ + unescaped_from(input@, 0) == unescaped(input@));
    while i < size
        invariant
            i <= size,
            size == input@.len(),
            hex_seq@ == hex_escape(),
            oct_seq@ == octal_escape(),
            char_seq@ == char_escape(),
            output@ + unescaped_from(input@, i as int) == unescaped(input@),
        decreases size - i,
    {
        let ghost before = output@;
        let ghost step = escape_len_at(input@, i as int);
        let ghost later = unescaped_from(
            input@,
            if step > 0 {
                i + step
            } else {
                i + 1
            },
        );
        if matches_at(input, i, hex_seq.as_slice()) {
            output.push(ESCAPE_BYTE);
            i += 4;
        } else if matches_at(input, i, oct_seq.as_slice()) {
            output.push(ESCAPE_BYTE);
            i += 4;
        } else if matches_at(input, i, char_seq.as_slice()) {
            output.push(ESCAPE_BYTE);
            i += 2;
        } else {
            output.push(input[i]);
            i += 1;
        }
        proof {
            let first = output@.last();
            assert(output@ == before.push(first));
            assert(before.push(first) + later == before + (seq![first] + later));
        }
    }
    assert(output@ + Seq::<u8>::empty() == output@);
    output
}

/// The arguments of `argv` behind the first, with a space between each two
/// of them.
pub open spec fn spaced(argv: Seq<Seq<char>>) -> Seq<char>
    decreases argv.len(),
{
    if argv.len() <= 1 {
        Seq::empty()
    } else if argv.len() == 2 {
        argv[1]
    } else {
        spaced(argv.drop_last()) + seq![' '] + argv.last()
    }
}

/// The line that `echo` writes: the arguments behind the command's name,
/// with a space between each two, and a line feed.
pub open spec fn echoed(argv: Seq<Seq<char>>) -> Seq<char> {
    spaced(argv) + seq!['\n']
}

/// The bytes that `printf` writes: those of each argument behind the
/// command's name, one argument after the other, with the written escapes
/// replaced.
pub open spec fn printed(argv: Seq<Seq<char>>) -> Seq<u8>
    decreases argv.len(),
{
    if argv.len() <= 1 {
        Seq::empty()
    } else {
        printed(argv.drop_last()) + unescaped(encode_utf8(argv.last()))
    }
}

/// The line that `echo` writes for `argv`, whose first entry is the
/// command's name.
pub fn echo(argv: &ArgV) -> (line: String)
    ensures
        line@ == echoed(crate::argv::strings_of(argv@)),
{
    let ghost all = crate::argv::strings_of(argv@);
    let mut line: Vec<char> = Vec::new();
    let mut i: usize = 1;
    while i < argv.len()
        invariant
            1 <= i,
            all == crate::argv::strings_of(argv@),
            i <= argv.len() ==> line@ == spaced(all.take(i as int)),
            i > argv.len() ==> line@ == Seq::<char>::empty() && argv.len() == 0,
        decreases argv.len() - i,
    {
        let ghost before = line@;
        if i > 1 {
            line.push(' ');
        }
        let arg = chars_of(argv[i].as_str());
        crate::text::append_chars(&mut line, arg.as_slice());
        proof {
            let now = all.take(i + 1);
            assert(now.drop_last() == all.take(i as int));
            assert(now.last() == argv@[i as int]@);
        }
        i += 1;
    }
    proof {
        if argv.len() >= 1 {
            assert(all.take(argv.len() as int) == all);
        }
    }
    line.push('\n');
    string_of(line.as_slice())
}

/// The bytes that `printf` writes for `argv`, whose first entry is the
/// command's name.
pub fn printf(argv: &ArgV) -> (bytes: Vec<u8>)
    ensures
        bytes@ == printed(crate::argv::strings_of(argv@)),
{
    let ghost all = crate::argv::strings_of(argv@);
    let mut bytes: Vec<u8> = Vec::new();
    let mut i: usize = 1;
    while i < argv.len()
        invariant
            1 <= i,
            all == crate::argv::strings_of(argv@),
            i <= argv.len() ==> bytes@ == printed(all.take(i as int)),
            i > argv.len() ==> bytes@ == Seq::<u8>::empty() && argv.len() == 0,
        decreases argv.len() - i,
    {
        let raw = argv[i].as_str().as_bytes_vec();
        let parsed = replace_escape_sequence(raw.as_slice());
        bytes.extend_from_slice(parsed.as_slice());
        proof {
            let now = all.take(i + 1);
            assert(now.drop_last() == all.take(i as int));
            assert(now.last() == argv@[i as int]@);
        }
        i += 1;
    }
    proof {
        if argv.len() >= 1 {
            assert(all.take(argv.len() as int) == all);
        }
    }
    bytes
}

/// The number that the decimal digits of `digits` write.
pub open spec fn decimal_value(digits: Seq<char>) -> int
    decreases digits.len(),
{
    if digits.len() == 0 {
        0
    } else {
        decimal_value(digits.drop_last()) * 10 + (digits.last() as int - '0' as int)
    }
}

/// The exit code that `text` writes: decimal digits, one at least, behind a
/// `+` or behind nothing, whose number is 255 at most.
pub open spec fn exit_code_of(text: Seq<char>) -> Option<u8> {
    let digits = if text.len() > 0 && text[0] == '+' {
        text.skip(1)
    } else {
        text
    };
    if digits.len() > 0 && number(digits) && decimal_value(digits) <= 255 {
        Some(decimal_value(digits) as u8)
    } else {
        None
    }
}

/// The code that `exit` ends the shell with: that of the last command where
/// `argv` holds the command's name alone, else the one that its first
/// argument writes, or nothing where that is no exit code.
pub open spec fn exit_status(argv: Seq<Seq<char>>, exit_code: u8) -> Option<u8> {
    if argv.len() < 2 {
        Some(exit_code)
    } else {
        exit_code_of(argv[1])
    }
}

/// The number of a beginning of digits is not above that of the whole.
proof fn lemma_decimal_value_grows(digits: Seq<char>, k: int)
    requires
        number(digits),
        0 <= k <= digits.len(),
    ensures
        0 <= decimal_value(digits.take(k)) <= decimal_value(digits),
    decreases digits.len() - k,
{
    if k == digits.len() {
        assert(digits.take(k) == digits);
        lemma_decimal_value_positive(digits);
    } else {
        lemma_decimal_value_grows(digits, k + 1);
        assert(digits.take(k + 1).drop_last() == digits.take(k));
        assert(is_digit_char(digits[k]));
        lemma_decimal_value_positive(digits.take(k));
    }
}

/// The number of digits is not negative.
proof fn lemma_decimal_value_positive(digits: Seq<char>)
    requires
        number(digits),
    ensures
        0 <= decimal_value(digits),
    decreases digits.len(),
{
    if digits.len() > 0 {
        assert(is_digit_char(digits.last()));
        lemma_decimal_value_positive(digits.drop_last());
    }
}

/// The exit code that `text` writes: see `exit_code_of`.
#[verifier::loop_isolation(false)]
pub fn parse_exit_code(text: &[char]) -> (code: Option<u8>)
    ensures
        code == exit_code_of(text@),
{
    let start: usize = if text.len() > 0 && text[0] == '+' {
        1
    } else {
        0
    };
    let digits = vstd::slice::slice_subrange(text, start, text.len());
    assert(digits@ == if start == 1 {
        text@.skip(1)
    } else {
        text@
    });
    if digits.len() == 0 || !is_number(digits) {
        return None;
    }
    let mut value: u32 = 0;
    let mut i: usize = 0;
    assert(digits@.take(0) == Seq::<char>::empty());
    while i < digits.len()
        invariant
            i <= digits.len(),
            number(digits@),
            value <= 255,
            value == decimal_value(digits@.take(i as int)),
        decreases digits.len() - i,
    {
        let c = digits[i];
        assert(is_digit_char(digits@[i as int]));
        let digit: u32 = c as u32 - '0' as u32;
        proof {
            assert(digits@.take(i + 1).drop_last() == digits@.take(i as int));
            assert(digits@.take(i + 1).last() == c);
            lemma_decimal_value_grows(digits@, i + 1);
        }
        value = value * 10 + digit;
        if value > 255 {
            return None;
        }
        i += 1;
    }
    assert(digits@.take(digits.len() as int) == digits@);
    Some(value as u8)
}

/// The code that `exit` ends the shell with, for `argv`, whose first entry is
/// the command's name, and the code of the last command; nothing where the
/// argument is no exit code.
pub fn exit(argv: &ArgV, exit_code: u8) -> (code: Option<u8>)
    ensures
        code == exit_status(crate::argv::strings_of(argv@), exit_code),
{
    if argv.len() < 2 {
        return Some(exit_code);
    }
    let text = chars_of(argv[1].as_str());
    parse_exit_code(text.as_slice())
}

/// Where `cd` goes.
#[derive(Clone, Copy, Debug, PartialEq, Eq)]
pub enum CdTarget {
    /// More than one argument: nowhere.
    TooManyArguments,
    /// No argument: the home directory.
    Home,
    /// `-`: the directory before the last change.
    Previous,
    /// A path from the root.
    Absolute,
    /// A path from the current directory.
    Relative,
}

/// Where `cd` goes for `argv`, whose first entry is the command's name.
pub open spec fn cd_target_of(argv: Seq<Seq<char>>) -> CdTarget {
    if argv.len() > 2 {
        CdTarget::TooManyArguments
    } else if argv.len() < 2 {
        CdTarget::Home
    } else if argv[1] == seq!['-'] {
        CdTarget::Previous
    } else if argv[1].len() > 0 && argv[1][0] == '/' {
        CdTarget::Absolute
    } else {
        CdTarget::Relative
    }
}

/// Where `cd` goes for `argv`: see `cd_target_of`.
pub fn cd(argv: &ArgV) -> (target: CdTarget)
    ensures
        target == cd_target_of(crate::argv::strings_of(argv@)),
{
    if argv.len() > 2 {
        CdTarget::TooManyArguments
    } else if argv.len() < 2 {
        CdTarget::Home
    } else {
        let path = chars_of(argv[1].as_str());
        if path.len() == 1 && path[0] == '-' {
            assert(path@ == seq!['-']);
            CdTarget::Previous
        } else if path.len() > 0 && path[0] == '/' {
            CdTarget::Absolute
        } else {
            CdTarget::Relative
        }
    }
}

} // verus!
