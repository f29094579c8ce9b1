//! What can go wrong when rooms and devices are added or removed.

use vstd::prelude::*;
use vstd::string::*;

verus! {

#[derive(Debug)]
pub enum HouseUpdateErr {
    RoomAlreadyExistsError(String),
    RoomNotFoundError(String),
    DeviceAlreadyExistsError(String),
    DeviceNotFoundError(String),
}

/// The complaint that something of kind `what`, named `name`, is there already.
pub open spec fn already_exists(what: Seq<char>, name: Seq<char>) -> Seq<char> {
    what + " \""@ + name + "\" already exists"@
}

/// The complaint that something of kind `what`, named `name`, is not there.
pub open spec fn not_found(what: Seq<char>, name: Seq<char>) -> Seq<char> {
    what + " \""@ + name + "\" not found"@
}

impl HouseUpdateErr {
    /// The message of the error.
    pub open spec fn message(self) -> Seq<char> {
        match self {
            HouseUpdateErr::RoomAlreadyExistsError(name) => already_exists("room"@, name@),
            HouseUpdateErr::RoomNotFoundError(name) => not_found("room"@, name@),
            HouseUpdateErr::DeviceAlreadyExistsError(name) => already_exists("device"@, name@),
            HouseUpdateErr::DeviceNotFoundError(name) => not_found("device"@, name@),
        }
    }

    pub fn to_string(&self) -> (out: String)
        ensures
            out@ == self.message(),
    {
        let (what, name, tail) = match self {
            HouseUpdateErr::RoomAlreadyExistsError(name) => ("room", name, "\" already exists"),
            HouseUpdateErr::RoomNotFoundError(name) => ("room", name, "\" not found"),
            HouseUpdateErr::DeviceAlreadyExistsError(name) => ("device", name, "\" already exists"),
            HouseUpdateErr::DeviceNotFoundError(name) => ("device", name, "\" not found"),
        };
        let mut out = what.to_owned();
        out.append(" \"");
        out.append(name.as_str());
        out.append(tail);
        out
    }
}

} // verus!
