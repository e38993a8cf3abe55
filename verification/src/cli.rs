//! The command-line surface: parsed arguments and what they ask for.
//!
//! Argument parsing itself is ordinary I/O and lives outside the
//! library; these types carry the parsed result, and `greeting` is the
//! decision: which text, if any, the command asks to have printed.

use vstd::prelude::*;
use crate::greet::{greeting_chars, Greetable, Name};

verus! {

/// The parsed command line: at most one command.
pub struct HelloArgs {
    pub command: Option<Command>,
}

/// A command of the tool.
pub enum Command {
    Greet { name: Name },
}

impl HelloArgs {
    /// The text the arguments ask to have printed: the greeting for the
    /// given name, or nothing when no command was given.
    pub fn greeting(&self) -> (r: Option<String>)
        ensures
            (match self.command {
                Option::Some(Command::Greet { name }) => r matches Option::Some(s) && s@
                    == greeting_chars(name.spec_chars()),
                Option::None => r is None,
            }),
    {
        match &self.command {
            Option::Some(Command::Greet { name }) => Option::Some(name.greet()),
            Option::None => Option::None,
        }
    }
}

} // verus!
