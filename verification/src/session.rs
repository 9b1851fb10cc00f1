//! The decisions of the interactive session: which prompt comes next, what a
//! line that was read leads to, and when the session ends. Drawing the
//! prompt, reading the line and running the command are the caller's part.

use vstd::prelude::*;
use crate::argv::{strings_of, ArgV};
use crate::text::{chars_of, same_chars};

verus! {

/// The prompt to draw before a read.
#[derive(Clone, Copy, Debug, PartialEq, Eq)]
pub enum Prompt {
    /// `PS1`: a new line begins, in an empty buffer.
    Primary,
    /// `PS2`: the line goes on, in the buffer as it is.
    Secondary,
}

/// What runs a command.
#[derive(Clone, Copy, Debug, PartialEq, Eq)]
pub enum Dispatch {
    Cd,
    Pwd,
    Printf,
    Echo,
    Exec,
    Exit,
    True,
    False,
    /// No built-in command: a process of that name.
    Process,
}

/// What follows a read.
#[derive(Clone, Copy, Debug, PartialEq, Eq)]
pub enum Next {
    /// The session ends with this code.
    Leave(u8),
    /// The input ended inside a quote: report it, and begin a new line.
    Unterminated,
    /// The line holds no argument: begin a new line.
    Blank,
    /// A quote is open: add a line feed to the buffer and read on.
    Continue,
    /// The line is not text: report it, and begin a new line.
    Invalid,
    /// Run the command by this means, and report its code.
    Run(Dispatch),
}

/// What the session remembers between two reads.
pub struct SessionState {
    /// The code of the last command.
    pub last_code: u8,
    /// Whether the line in the buffer goes on.
    pub continuing: bool,
}

#[derive(Debug)]
pub struct Session {
    last_cmd_code: u8,
    should_clear_buffer: bool,
}

/// What runs the command `name`.
pub open spec fn dispatch_of(name: Seq<char>) -> Dispatch {
    if name == "cd"@ {
        Dispatch::Cd
    } else if name == "pwd"@ {
        Dispatch::Pwd
    } else if name == "printf"@ {
        Dispatch::Printf
    } else if name == "echo"@ {
        Dispatch::Echo
    } else if name == "exec"@ {
        Dispatch::Exec
    } else if name == "exit"@ {
        Dispatch::Exit
    } else if name == "true"@ {
        Dispatch::True
    } else if name == "false"@ {
        Dispatch::False
    } else {
        Dispatch::Process
    }
}

/// What follows a line with the arguments `argv` whose end leaves `quote`
/// open. An open quote decides first: the line goes on, whatever arguments
/// are complete. Then a line without arguments is blank, and any other runs
/// its first argument.
pub open spec fn after_line(argv: Seq<Seq<char>>, quote: Option<char>) -> Next {
    if quote is Some {
        Next::Continue
    } else if argv.len() == 0 {
        Next::Blank
    } else {
        Next::Run(dispatch_of(argv[0]))
    }
}

/// Whether `name` is `word`.
fn is_word(name: &[char], word: &str) -> (same: bool)
    ensures
        same == (name@ == word@),
{
    let chars = chars_of(word);
    same_chars(name, chars.as_slice())
}

/// What runs the command `name`.
pub fn dispatch(name: &str) -> (by: Dispatch)
    ensures
        by == dispatch_of(name@),
{
    let chars = chars_of(name);
    let word = chars.as_slice();
    if is_word(word, "cd") {
        Dispatch::Cd
    } else if is_word(word, "pwd") {
        Dispatch::Pwd
    } else if is_word(word, "printf") {
        Dispatch::Printf
    } else if is_word(word, "echo") {
        Dispatch::Echo
    } else if is_word(word, "exec") {
        Dispatch::Exec
    } else if is_word(word, "exit") {
        Dispatch::Exit
    } else if is_word(word, "true") {
        Dispatch::True
    } else if is_word(word, "false") {
        Dispatch::False
    } else {
        Dispatch::Process
    }
}

impl View for Session {
    type V = SessionState;

    closed spec fn view(&self) -> SessionState {
        SessionState { last_code: self.last_cmd_code, continuing: !self.should_clear_buffer }
    }
}

impl Session {
    /// A session before its first read: no command has run, no line is open.
    pub fn new() -> (session: Self)
        ensures
            session@.last_code == 0,
            !session@.continuing,
    {
        Session { last_cmd_code: 0, should_clear_buffer: true }
    }

    /// The prompt to draw before the next read.
    pub fn prompt(&self) -> (prompt: Prompt)
        ensures
            prompt == if self@.continuing {
                Prompt::Secondary
            } else {
                Prompt::Primary
            },
    {
        if self.should_clear_buffer {
            Prompt::Primary
        } else {
            Prompt::Secondary
        }
    }

    /// The code of the last command.
    pub fn last_code(&self) -> (code: u8)
        ensures
            code == self@.last_code,
    {
        self.last_cmd_code
    }

    /// What follows the end of the input: at the beginning of a line the
    /// session ends with the code of the last command; inside a line that
    /// goes on, the quote stays open for good, and a new line begins.
    pub fn end_of_input(&mut self) -> (next: Next)
        ensures
            next == if old(self)@.continuing {
                Next::Unterminated
            } else {
                Next::Leave(old(self)@.last_code)
            },
            final(self)@.last_code == old(self)@.last_code,
            !final(self)@.continuing,
    {
        if self.should_clear_buffer {
            Next::Leave(self.last_cmd_code)
        } else {
            self.should_clear_buffer = true;
            Next::Unterminated
        }
    }

    /// What follows a line that was read: see `after_line`. The line goes on
    /// behind an open quote and begins anew behind a command; a blank line
    /// changes nothing.
    pub fn line(&mut self, argv: &ArgV, quote: Option<char>) -> (next: Next)
        ensures
            next == after_line(strings_of(argv@), quote),
            final(self)@.last_code == old(self)@.last_code,
            final(self)@.continuing == match next {
                Next::Continue => true,
                Next::Run(_) => false,
                _ => old(self)@.continuing,
            },
    {
        if quote.is_some() {
            self.should_clear_buffer = false;
            Next::Continue
        } else if argv.len() == 0 {
            Next::Blank
        } else {
            self.should_clear_buffer = true;
            Next::Run(dispatch(argv[0].as_str()))
        }
    }

    /// What follows a line that is not UTF-8: it is given up, and a new line
    /// begins.
    pub fn invalid_line(&mut self) -> (next: Next)
        ensures
            next == Next::Invalid,
            final(self)@.last_code == old(self)@.last_code,
            !final(self)@.continuing,
    {
        self.should_clear_buffer = true;
        Next::Invalid
    }

    /// Takes note of the code that a command ended with.
    pub fn finished(&mut self, code: u8)
        ensures
            final(self)@.last_code == code,
            final(self)@.continuing == old(self)@.continuing,
    {
        self.last_cmd_code = code;
    }
}

} // verus!
