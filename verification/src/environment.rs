//! The variables that the shell keeps for itself: its prompts.

use vstd::prelude::*;
use crate::expand_parameter::value_of;
use crate::table::Table;

verus! {

/// The shell's own variables.
pub struct ShellEnvironment {
    pub shell_variables: Table,
}

/// `value` where there is one, else `default`.
pub open spec fn value_or(value: Option<String>, default: Seq<char>) -> Seq<char> {
    match value {
        Some(text) => text@,
        None => default,
    }
}

impl ShellEnvironment {
    /// The variables of a new shell: the primary prompt `PS1` and the
    /// secondary prompt `PS2`, each with the value that the shell was started
    /// with or, where it was started with none, `$ ` and `> `.
    pub fn new(ps1: Option<String>, ps2: Option<String>) -> (env: Self)
        ensures
            env.shell_variables@ == Map::<Seq<char>, Seq<char>>::empty().insert(
                "PS1"@,
                value_or(ps1, "$ "@),
            ).insert("PS2"@, value_or(ps2, "> "@)),
    {
        let mut shell_variables = Table::new();
        Self::init_par(&mut shell_variables, "PS1", "$ ", ps1);
        Self::init_par(&mut shell_variables, "PS2", "> ", ps2);
        Self { shell_variables }
    }

    /// The text of the prompt that the variable `key` holds, empty where it
    /// holds none.
    pub fn prompt(&self, key: &str) -> (text: String)
        ensures
            text@ == value_of(self.shell_variables@, key@),
    {
        match self.shell_variables.get(key) {
            Some(text) => text,
            None => String::new(),
        }
    }

    /// Gives `key` the value `value`, or `default` where there is none.
    fn init_par(shell_variables: &mut Table, key: &str, default: &str, value: Option<String>)
        ensures
            final(shell_variables)@ == old(shell_variables)@.insert(
                key@,
                value_or(value, default@),
            ),
    {
        match value {
            Some(text) => shell_variables.insert(key, text.as_str()),
            None => shell_variables.insert(key, default),
        }
    }
}

} // verus!
