//! The house's end of an outlet: what it sends, and what it makes of the
//! answers.

pub use crate::connection::{ConnectError, ConnectResult};
use crate::connection::{IoError, IoErrorKind};
use crate::devices::device::{Device, DeviceStatus, Summary};
use crate::pattern::{capture, regex_capture, text_of};
use crate::protocol::ProtocolCommand;
use crate::text::{
    decimal, is_numeral, lemma_decimal_round_trip, numeral_value, parse_decimal, render_decimal,
};
use vstd::prelude::*;
use vstd::string::*;

verus! {

/// The form of the status line of an outlet that is on. Group 1 is the power.
pub const STATUS_PATTERN: &'static str = r"is on \((\d+)W\)\r\n";

/// The most bytes that are read of the answer to a status command.
pub const STATUS_REPLY_SIZE: usize = 16;

/// The bytes that are read of the answer to a switch command, no more and no
/// less.
pub const SWITCH_REPLY_SIZE: usize = 4;

#[derive(Debug)]
pub struct SmartSocket {
    name: String,
    description: String,
    connection: Option<String>,
    state: SocketState,
}

/// What an outlet says of itself: whether it is on, and the power it draws, in
/// watts.
#[derive(Debug, Clone, Copy, PartialEq, Eq, Structural)]
pub struct SocketState {
    pub is_on: bool,
    pub power_consumption: usize,
}

/// The status that a status line stands for, given the power that the search
/// of the line found: on with that power, where it found a numeral that a
/// `usize` holds; off and without power otherwise.
pub open spec fn status_of(power: Option<Seq<char>>) -> SocketState {
    if power is Some && is_numeral(power->0) && numeral_value(power->0) <= usize::MAX {
        SocketState { is_on: true, power_consumption: numeral_value(power->0) as usize }
    } else {
        SocketState { is_on: false, power_consumption: 0 }
    }
}

/// The words for a status: whether the outlet is turned on or off, and in
/// brackets the power with a `W`.
pub open spec fn status_summary(state: SocketState) -> Seq<char> {
    (if state.is_on {
        "turned on"@
    } else {
        "turned off"@
    }) + " ("@ + decimal(state.power_consumption as nat) + "W)"@
}

/// Whether the answer to a status command has come in full: it ends with a
/// line end, or it fills what is read of such an answer at most.
pub open spec fn is_whole_reply(received: Seq<u8>) -> bool {
    ||| received.len() >= STATUS_REPLY_SIZE
    ||| received.len() >= 2 && received[received.len() - 2] == 0x0D && received[received.len() - 1]
        == 0x0A
}

/// Whether the bytes that were read of the answer to a status command are the
/// whole answer, so that no more need be read.
pub fn reply_is_whole(received: &[u8]) -> (whole: bool)
    ensures
        whole == is_whole_reply(received@),
{
    let n: usize = received.len();
    n >= STATUS_REPLY_SIZE || (n >= 2 && received[n - 2] == 0x0D && received[n - 1] == 0x0A)
}

/// Whether `e` is the failure of a device named `name` that is asked to talk
/// before it was connected.
pub open spec fn is_not_connected(e: ConnectError, name: Seq<char>) -> bool {
    match e {
        ConnectError::Io(e) => e.kind == IoErrorKind::NotConnected && e.message@
            == "no connection established to "@ + name,
    }
}

/// Where the search of a status line finds the numeral of a power, the status
/// is on with that power; where it finds nothing, the status is off and without
/// power. So the line of an outlet that is on with some power, in which the
/// search finds that power's numeral, reads back as on with that power, and the
/// line of an outlet that is off, in which it finds nothing, reads back as off.
pub proof fn lemma_status_round_trip(power: usize)
    ensures
        status_of(Some(decimal(power as nat))) == (SocketState {
            is_on: true,
            power_consumption: power,
        }),
        status_of(None) == (SocketState { is_on: false, power_consumption: 0 }),
{
    lemma_decimal_round_trip(power as nat);
}

impl Default for SocketState {
    fn default() -> (state: Self)
        ensures
            state == (SocketState { is_on: false, power_consumption: 0 }),
    {
        SocketState { is_on: false, power_consumption: 0 }
    }
}

impl SocketState {
    /// The status for the power that the search of a status line found.
    pub fn from_capture(power: Option<String>) -> (state: SocketState)
        ensures
            state == status_of(text_of(power)),
    {
        match power {
            Some(digits) => match parse_decimal(digits.as_str()) {
                Some(watts) => {
                    if watts <= usize::MAX as u64 {
                        SocketState { is_on: true, power_consumption: watts as usize }
                    } else {
                        SocketState::default()
                    }
                },
                None => SocketState::default(),
            },
            None => SocketState::default(),
        }
    }

    /// Reads a status line. A line that is not that of an outlet that is on
    /// means that the outlet is off.
    pub fn parse(reply: &str) -> (state: SocketState)
        ensures
            state == status_of(regex_capture(STATUS_PATTERN@, reply@, 1)),
    {
        SocketState::from_capture(capture(STATUS_PATTERN, reply, 1))
    }

    pub fn summary(&self) -> (text: String)
        ensures
            text@ == status_summary(*self),
    {
        let mut text = if self.is_on {
            "turned on".to_owned()
        } else {
            "turned off".to_owned()
        };
        text.append(" (");
        let watts = render_decimal(self.power_consumption as u64);
        text.append(watts.as_str());
        text.append("W)");
        text
    }
}

impl SmartSocket {
    /// The address that the outlet was connected to, if it was.
    pub closed spec fn connection(&self) -> Option<Seq<char>> {
        match self.connection {
            Some(addr) => Some(addr@),
            None => None,
        }
    }

    /// The status that the outlet last reported.
    pub closed spec fn state(&self) -> SocketState {
        self.state
    }

    /// Whether two values are the same outlet with the same connection.
    pub open spec fn same_device(&self, other: &SmartSocket) -> bool {
        &&& self.name() == other.name()
        &&& self.description() == other.description()
        &&& self.connection() == other.connection()
    }

    /// An outlet that is not connected and has reported nothing, which counts
    /// as off.
    pub fn new(name: &str, description: &str) -> (socket: SmartSocket)
        ensures
            socket.name() == name@,
            socket.description() == description@,
            socket.connection().is_none(),
            socket.state() == (SocketState { is_on: false, power_consumption: 0 }),
    {
        Self {
            name: name.to_owned(),
            description: description.to_owned(),
            connection: None,
            state: SocketState::default(),
        }
    }

    /// Takes note of how dialling `addr` went: a connection that was
    /// established is the outlet's from now on, a failure is handed on and
    /// changes nothing.
    pub fn connect(&mut self, addr: &str, dialed: ConnectResult<()>) -> (outcome: ConnectResult<()>)
        ensures
            outcome == dialed,
            final(self).name() == old(self).name(),
            final(self).description() == old(self).description(),
            final(self).state() == old(self).state(),
            final(self).connection() == if dialed is Ok {
                Some(addr@)
            } else {
                old(self).connection()
            },
    {
        if dialed.is_ok() {
            self.connection = Some(addr.to_owned());
        }
        dialed
    }

    /// Fails unless the outlet is connected.
    pub fn check_connection(&self) -> (outcome: ConnectResult<()>)
        ensures
            match outcome {
                Ok(()) => self.connection().is_some(),
                Err(e) => self.connection().is_none() && is_not_connected(e, self.name()),
            },
    {
        if self.connection.is_none() {
            let mut message = "no connection established to ".to_owned();
            message.append(self.name.as_str());
            return Err(ConnectError::Io(IoError { kind: IoErrorKind::NotConnected, message }));
        }
        Ok(())
    }

    /// The line to send for `command`, which there is only for an outlet that
    /// is connected.
    pub fn request(&self, command: ProtocolCommand) -> (line: ConnectResult<String>)
        ensures
            match line {
                Ok(line) => self.connection().is_some() && line@ == command.wire(),
                Err(e) => self.connection().is_none() && is_not_connected(e, self.name()),
            },
    {
        match self.check_connection() {
            Ok(()) => Ok(command.to_string()),
            Err(e) => Err(e),
        }
    }

    /// Takes in the answer to a status command, or the failure to get one. An
    /// answer is read and kept as the outlet's status; a failure is handed on,
    /// after that of not being connected.
    pub fn get_status(&mut self, reply: ConnectResult<String>) -> (status: ConnectResult<
        SocketState,
    >)
        ensures
            final(self).same_device(old(self)),
            match status {
                Ok(state) => {
                    &&& old(self).connection().is_some()
                    &&& reply is Ok
                    &&& state == status_of(regex_capture(STATUS_PATTERN@, reply->Ok_0@, 1))
                    &&& final(self).state() == state
                },
                Err(e) => {
                    &&& final(self).state() == old(self).state()
                    &&& if old(self).connection().is_none() {
                        is_not_connected(e, old(self).name())
                    } else {
                        reply == Err::<String, ConnectError>(e)
                    }
                },
            },
    {
        match self.check_connection() {
            Ok(()) => {},
            Err(e) => {
                return Err(e);
            },
        }
        match reply {
            Ok(line) => {
                let state = SocketState::parse(line.as_str());
                self.state = state;
                Ok(state)
            },
            Err(e) => Err(e),
        }
    }

    /// Whether the outlet is on, by its answer to a status command.
    pub fn is_on(&mut self, reply: ConnectResult<String>) -> (on: ConnectResult<bool>)
        ensures
            final(self).same_device(old(self)),
            match on {
                Ok(on) => {
                    &&& old(self).connection().is_some()
                    &&& reply is Ok
                    &&& final(self).state() == status_of(
                        regex_capture(STATUS_PATTERN@, reply->Ok_0@, 1),
                    )
                    &&& on == final(self).state().is_on
                },
                Err(e) => {
                    &&& final(self).state() == old(self).state()
                    &&& if old(self).connection().is_none() {
                        is_not_connected(e, old(self).name())
                    } else {
                        reply == Err::<String, ConnectError>(e)
                    }
                },
            },
    {
        match self.get_status(reply) {
            Ok(state) => Ok(state.is_on),
            Err(e) => Err(e),
        }
    }

    /// The power that the outlet draws, by its answer to a status command.
    pub fn get_consumed_power(&mut self, reply: ConnectResult<String>) -> (power: ConnectResult<
        usize,
    >)
        ensures
            final(self).same_device(old(self)),
            match power {
                Ok(power) => {
                    &&& old(self).connection().is_some()
                    &&& reply is Ok
                    &&& final(self).state() == status_of(
                        regex_capture(STATUS_PATTERN@, reply->Ok_0@, 1),
                    )
                    &&& power == final(self).state().power_consumption
                },
                Err(e) => {
                    &&& final(self).state() == old(self).state()
                    &&& if old(self).connection().is_none() {
                        is_not_connected(e, old(self).name())
                    } else {
                        reply == Err::<String, ConnectError>(e)
                    }
                },
            },
    {
        match self.get_status(reply) {
            Ok(state) => Ok(state.power_consumption),
            Err(e) => Err(e),
        }
    }

    /// How a switch went, given the acknowledgement of the switch command or the
    /// failure to get one. The switch has succeeded when the outlet is
    /// connected and its four bytes have come, whatever they are.
    pub fn acknowledged(&self, ack: ConnectResult<String>) -> (outcome: ConnectResult<()>)
        ensures
            match outcome {
                Ok(()) => self.connection().is_some() && ack is Ok,
                Err(e) => if self.connection().is_none() {
                    is_not_connected(e, self.name())
                } else {
                    ack == Err::<String, ConnectError>(e)
                },
            },
    {
        match self.check_connection() {
            Ok(()) => {},
            Err(e) => {
                return Err(e);
            },
        }
        match ack {
            Ok(_) => Ok(()),
            Err(e) => Err(e),
        }
    }

    /// Takes in the acknowledgement of a switch command, or the failure to get
    /// one, and says how the switch went. The outlet keeps no record of it.
    pub fn switch(&mut self, ack: ConnectResult<String>) -> (outcome: ConnectResult<()>)
        ensures
            *final(self) == *old(self),
            match outcome {
                Ok(()) => old(self).connection().is_some() && ack is Ok,
                Err(e) => if old(self).connection().is_none() {
                    is_not_connected(e, old(self).name())
                } else {
                    ack == Err::<String, ConnectError>(e)
                },
            },
    {
        self.acknowledged(ack)
    }
}

impl Device for SmartSocket {
    closed spec fn name(&self) -> Seq<char> {
        self.name@
    }

    closed spec fn description(&self) -> Seq<char> {
        self.description@
    }

    fn get_name(&self) -> (name: &str) {
        self.name.as_str()
    }

    fn get_description(&self) -> (description: &str) {
        self.description.as_str()
    }
}

impl Summary for SmartSocket {
    open spec fn summary_ready(&self) -> bool {
        true
    }

    /// The words for the status that the outlet last reported.
    open spec fn summary_text(&self) -> Seq<char> {
        status_summary(self.state())
    }

    fn summary(&self) -> (text: String) {
        self.state.summary()
    }
}

impl DeviceStatus for SmartSocket {

}

} // verus!
