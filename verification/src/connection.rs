//! What can go wrong on the way to a device.

use vstd::prelude::*;
use vstd::string::*;

verus! {

/// The kinds of input/output failure that the house tells apart.
#[derive(Debug, Clone, Copy, PartialEq, Eq, Structural)]
pub enum IoErrorKind {
    /// No connection has been established.
    NotConnected,
    /// Any other failure of a socket.
    Other,
}

/// An input/output failure: its kind, and the text that describes it.
#[derive(Debug)]
pub struct IoError {
    pub kind: IoErrorKind,
    pub message: String,
}

#[derive(Debug)]
pub enum ConnectError {
    Io(IoError),
}

pub type ConnectResult<T> = Result<T, ConnectError>;

impl ConnectError {
    /// The message of the error.
    pub open spec fn message(self) -> Seq<char> {
        match self {
            ConnectError::Io(e) => "IO error: "@ + e.message@,
        }
    }

    pub fn to_string(&self) -> (out: String)
        ensures
            out@ == self.message(),
    {
        match self {
            ConnectError::Io(e) => {
                let mut out = "IO error: ".to_owned();
                out.append(e.message.as_str());
                out
            },
        }
    }
}

} // verus!
