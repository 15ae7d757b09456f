//! Commands of the interactive lending client.
use vstd::prelude::*;

verus! {

/// What the user of the client asked for.
#[derive(Clone, Debug, PartialEq, Eq)]
pub enum Command {
    /// Change the address of the service.
    Settings,
    /// Lend a book to someone.
    Lend,
    /// Take a book back.
    Return,
    /// Leave the client.
    Quit,
    /// Anything else, as typed.
    Unknown(String),
}

/// The command that the text `input` names.
pub open spec fn command_of(input: Seq<char>) -> Command {
    if input == "settings"@ {
        Command::Settings
    } else if input == "lend"@ {
        Command::Lend
    } else if input == "return"@ {
        Command::Return
    } else if input == "quit"@ {
        Command::Quit
    } else {
        Command::Unknown(arbitrary())
    }
}

impl Command {
    /// Reads a command from a line the user typed (already trimmed).
    pub fn parse(input: &str) -> (result: Command)
        ensures
            match command_of(input@) {
                Command::Unknown(_) => result matches Command::Unknown(s) && s@ == input@,
                c => result == c,
            },
    {
        let given = String::from_str(input);
        if given == String::from_str("settings") {
            Command::Settings
        } else if given == String::from_str("lend") {
            Command::Lend
        } else if given == String::from_str("return") {
            Command::Return
        } else if given == String::from_str("quit") {
            Command::Quit
        } else {
            Command::Unknown(given)
        }
    }

    /// The line shown for a command that does not exist.
    pub fn not_found_message(name: &str) -> (result: String)
        ensures
            result@ == "command not found: "@ + name@,
    {
        String::from_str("command not found: ").concat(name)
    }
}

} // verus!
