//! The outlet itself: the state that its server holds, and what the server
//! answers to each request.

use crate::connection::IoError;
use crate::protocol::{command_of, lemma_command_round_trip, ProtocolCommand, OK};
use crate::text::decimal;
use vstd::prelude::*;
use vstd::string::*;

verus! {

/// Where the outlet's server listens unless it is told otherwise.
pub const DEFAULT_ADDRESS: &'static str = "127.0.0.1:10701";

/// The power, in watts, that the outlet reports while it is on.
pub const POWER_WHEN_ON: u64 = 2;

pub struct SmartSocketState {
    is_on: bool,
}

/// Whether the server goes on serving its client after a request.
#[derive(Debug, Clone, Copy, PartialEq, Eq, Structural)]
pub enum Continuation {
    Continue,
    Stop,
}

/// What can go wrong when the server takes its address.
#[derive(Debug)]
pub enum BindError {
    Io(IoError),
}

/// The line that the outlet sends when it is asked for its status.
pub open spec fn status_line(is_on: bool) -> Seq<char> {
    if is_on {
        "is on ("@ + decimal(POWER_WHEN_ON as nat) + "W)\r\n"@
    } else {
        "is off\r\n"@
    }
}

/// Whether an outlet is on after it has been switched `n` times.
pub open spec fn switched(is_on: bool, n: nat) -> bool
    decreases n,
{
    if n == 0 {
        is_on
    } else {
        !switched(is_on, (n - 1) as nat)
    }
}

/// Whether the outlet is on after it has served `request`.
pub open spec fn state_after(is_on: bool, request: Seq<char>) -> bool {
    match command_of(request) {
        Some(ProtocolCommand::Switch) => switched(is_on, 1),
        _ => is_on,
    }
}

/// Whether the outlet is on after it has served `requests`, one after the
/// other.
pub open spec fn state_after_all(is_on: bool, requests: Seq<Seq<char>>) -> bool
    decreases requests.len(),
{
    if requests.len() == 0 {
        is_on
    } else {
        state_after(state_after_all(is_on, requests.drop_last()), requests.last())
    }
}

/// What the outlet, in the given state, answers to `request`.
pub open spec fn reply_to(is_on: bool, request: Seq<char>) -> Seq<char> {
    match command_of(request) {
        Some(ProtocolCommand::Switch) => OK@,
        Some(ProtocolCommand::Status) => status_line(is_on),
        None => "Unknown command: "@ + crate::text::trimmed(request) + "\r\n"@,
    }
}

impl BindError {
    /// The message of the error.
    pub open spec fn message(self) -> Seq<char> {
        match self {
            BindError::Io(e) => "IO error: "@ + e.message@,
        }
    }

    pub fn to_string(&self) -> (out: String)
        ensures
            out@ == self.message(),
    {
        match self {
            BindError::Io(e) => {
                let mut out = "IO error: ".to_owned();
                out.append(e.message.as_str());
                out
            },
        }
    }
}

impl Default for SmartSocketState {
    fn default() -> (state: Self)
        ensures
            !state.is_on(),
    {
        Self { is_on: false }
    }
}

impl SmartSocketState {
    pub closed spec fn is_on(&self) -> bool {
        self.is_on
    }

    pub fn status(&self) -> (line: String)
        ensures
            line@ == status_line(self.is_on()),
    {
        match self.is_on {
            true => {
                proof {
                    reveal_strlit("is on (2W)\r\n");
                    reveal_strlit("is on (");
                    reveal_strlit("W)\r\n");
                    assert(decimal(2) =~= seq!['2']);
                    assert("is on (2W)\r\n"@ =~= "is on ("@ + decimal(2) + "W)\r\n"@);
                }
                "is on (2W)\r\n".to_owned()
            },
            false => "is off\r\n".to_owned(),
        }
    }

    pub fn switch(&mut self)
        ensures
            final(self).is_on() == switched(old(self).is_on(), 1),
    {
        assert(switched(self.is_on, 1) == !switched(self.is_on, 0));
        self.is_on = !self.is_on;
    }

    /// Serves one request: a switch command turns the outlet over and is
    /// acknowledged, a status command is answered with the status line, and
    /// anything else is answered with a complaint, after which the server is to
    /// drop its client.
    pub fn serve(&mut self, request: &str) -> (answer: (String, Continuation))
        ensures
            final(self).is_on() == state_after(old(self).is_on(), request@),
            answer.0@ == reply_to(old(self).is_on(), request@),
            answer.1 == if command_of(request@).is_some() {
                Continuation::Continue
            } else {
                Continuation::Stop
            },
    {
        match ProtocolCommand::from_str(request) {
            Ok(ProtocolCommand::Switch) => {
                self.switch();
                (OK.to_owned(), Continuation::Continue)
            },
            Ok(ProtocolCommand::Status) => (self.status(), Continuation::Continue),
            Err(e) => (e.to_string(), Continuation::Stop),
        }
    }
}

/// Switched an even number of times, an outlet is as it was; switched an odd
/// number of times, it is the other way round. So an outlet that starts off is
/// on exactly after an odd number of switches.
pub proof fn lemma_switch_parity(is_on: bool, n: nat)
    ensures
        switched(is_on, n) == if n % 2 == 0 {
            is_on
        } else {
            !is_on
        },
        switched(false, n) == (n % 2 == 1),
    decreases n,
{
    if n > 0 {
        lemma_switch_parity(is_on, (n - 1) as nat);
        lemma_switch_parity(false, (n - 1) as nat);
    }
}

/// Switching is the same one step at a time or all at once.
pub proof fn lemma_switched_again(is_on: bool, n: nat)
    ensures
        switched(switched(is_on, n), 1) == switched(is_on, n + 1),
{
    assert(switched(switched(is_on, n), 1) == !switched(switched(is_on, n), 0));
}

/// The outlet understands the commands as they are written out: a switch
/// command turns it over and is acknowledged, a status command leaves it as it
/// is and is answered with its status line.
pub proof fn lemma_commands_are_served(is_on: bool)
    ensures
        state_after(is_on, ProtocolCommand::Switch.wire()) == !is_on,
        reply_to(is_on, ProtocolCommand::Switch.wire()) == OK@,
        state_after(is_on, ProtocolCommand::Status.wire()) == is_on,
        reply_to(is_on, ProtocolCommand::Status.wire()) == status_line(is_on),
{
    lemma_command_round_trip(ProtocolCommand::Switch);
    lemma_command_round_trip(ProtocolCommand::Status);
    lemma_switch_parity(is_on, 1);
}

/// An outlet that has served nothing but switch commands is as after that many
/// switches: as it was after an even number of them, the other way round after
/// an odd number.
pub proof fn lemma_served_switches(is_on: bool, requests: Seq<Seq<char>>)
    requires
        forall|i: int|
            0 <= i < requests.len() ==> command_of(#[trigger] requests[i]) == Some(
                ProtocolCommand::Switch,
            ),
    ensures
        state_after_all(is_on, requests) == switched(is_on, requests.len()),
        state_after_all(is_on, requests) == if requests.len() % 2 == 0 {
            is_on
        } else {
            !is_on
        },
    decreases requests.len(),
{
    if requests.len() > 0 {
        let rest = requests.drop_last();
        assert forall|i: int| 0 <= i < rest.len() implies command_of(#[trigger] rest[i]) == Some(
            ProtocolCommand::Switch,
        ) by {
            assert(rest[i] == requests[i]);
        }
        lemma_served_switches(is_on, rest);
        lemma_switched_again(is_on, rest.len());
        assert(command_of(requests.last()) == Some(ProtocolCommand::Switch));
    }
    lemma_switch_parity(is_on, requests.len());
}

} // verus!
