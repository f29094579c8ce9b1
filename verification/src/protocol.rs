//! The commands that an outlet understands, as they stand on the wire.

use crate::text::{same_text, trim, trimmed};
use vstd::prelude::*;
use vstd::string::*;

verus! {

/// The outlet's answer to a switch command.
pub const OK: &'static str = "OK\r\n";

/// The bytes of a command on the wire, its line end among them.
pub const COMMAND_SIZE: usize = 8;

#[derive(Debug, Clone, Copy, PartialEq, Eq, Structural)]
pub enum ProtocolCommand {
    Switch,
    Status,
}

#[derive(Debug)]
pub enum ParseError {
    UnknownCommand(String),
}

/// The command that a request stands for once the white space round it is taken
/// away, if it is one.
pub open spec fn command_of(request: Seq<char>) -> Option<ProtocolCommand> {
    if trimmed(request) == "switch"@ {
        Some(ProtocolCommand::Switch)
    } else if trimmed(request) == "status"@ {
        Some(ProtocolCommand::Status)
    } else {
        None
    }
}

impl ProtocolCommand {
    /// The command as it is sent: its word and a line end.
    pub open spec fn wire(self) -> Seq<char> {
        match self {
            ProtocolCommand::Switch => "switch\r\n"@,
            ProtocolCommand::Status => "status\r\n"@,
        }
    }

    pub fn to_string(&self) -> (out: String)
        ensures
            out@ == self.wire(),
    {
        match self {
            ProtocolCommand::Switch => "switch\r\n".to_owned(),
            ProtocolCommand::Status => "status\r\n".to_owned(),
        }
    }

    /// Reads a command. White space round the word is passed over; any other
    /// word is handed back in the error.
    pub fn from_str(s: &str) -> (r: Result<ProtocolCommand, ParseError>)
        ensures
            match r {
                Ok(command) => command_of(s@) == Some(command),
                Err(ParseError::UnknownCommand(word)) => command_of(s@).is_none() && word@
                    == trimmed(s@),
            },
    {
        let word = trim(s);
        if same_text(word, "switch") {
            Ok(ProtocolCommand::Switch)
        } else if same_text(word, "status") {
            Ok(ProtocolCommand::Status)
        } else {
            Err(ParseError::UnknownCommand(word.to_owned()))
        }
    }
}

impl ParseError {
    /// The message of the error, which is also the line that the outlet sends
    /// back.
    pub open spec fn message(self) -> Seq<char> {
        match self {
            ParseError::UnknownCommand(word) => "Unknown command: "@ + word@ + "\r\n"@,
        }
    }

    pub fn to_string(&self) -> (out: String)
        ensures
            out@ == self.message(),
    {
        match self {
            ParseError::UnknownCommand(word) => {
                let mut out = "Unknown command: ".to_owned();
                out.append(word.as_str());
                out.append("\r\n");
                out
            },
        }
    }
}

/// The wire form of a command reads back as that command.
pub proof fn lemma_command_round_trip(command: ProtocolCommand)
    ensures
        command_of(command.wire()) == Some(command),
{
    reveal_strlit("switch\r\n");
    reveal_strlit("status\r\n");
    reveal_strlit("switch");
    reveal_strlit("status");
    let wire = command.wire();
    let word = wire.subrange(0, 6);
    assert(wire.len() == 8);
    assert(!crate::text::is_white_space(wire[0]));
    assert(crate::text::trim_start(wire) == wire);
    assert(crate::text::is_white_space(wire[7]));
    assert(crate::text::is_white_space(wire[6]));
    assert(wire.drop_last().drop_last() =~= word);
    assert(wire.drop_last().last() == wire[6]);
    assert(!crate::text::is_white_space(word.last()));
    assert(crate::text::trim_end(word) == word);
    assert(crate::text::trim_end(wire.drop_last()) == word);
    assert(crate::text::trim_end(wire) == word);
    match command {
        ProtocolCommand::Switch => {
            assert(word =~= "switch"@);
        },
        ProtocolCommand::Status => {
            assert(word =~= "status"@);
            assert("status"@[1] != "switch"@[1]);
        },
    }
}

} // verus!
