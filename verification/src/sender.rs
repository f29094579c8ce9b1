//! The thermometer's end of its line: what it sends, and how often.

use crate::text::{decimal, render_decimal};
use vstd::prelude::*;
use vstd::string::*;

verus! {

/// The time between two datagrams, in milliseconds.
pub const PERIOD_MS: u64 = 100;

/// A thermometer that sends one reading over and over: where it sends from,
/// where it sends to, its name and the reading.
#[derive(Debug)]
pub struct Sender {
    src_addr: String,
    remote_addr: String,
    name: String,
    value: u64,
}

/// The datagram of a sensor named `name` that reads `value`: the name, a colon,
/// a tab, and the value in digits, with nothing after it.
pub open spec fn datagram(name: Seq<char>, value: u64) -> Seq<char> {
    name + seq![':', '\t'] + decimal(value as nat)
}

impl Sender {
    pub closed spec fn src_addr(&self) -> Seq<char> {
        self.src_addr@
    }

    pub closed spec fn remote_addr(&self) -> Seq<char> {
        self.remote_addr@
    }

    pub closed spec fn name(&self) -> Seq<char> {
        self.name@
    }

    pub closed spec fn value(&self) -> u64 {
        self.value
    }

    pub fn new(src_addr: String, remote_addr: String, name: String, value: u64) -> (sender: Self)
        ensures
            sender.src_addr() == src_addr@,
            sender.remote_addr() == remote_addr@,
            sender.name() == name@,
            sender.value() == value,
    {
        Self { src_addr, remote_addr, name, value }
    }

    pub fn get_src_addr(&self) -> (addr: &str)
        ensures
            addr@ == self.src_addr(),
    {
        self.src_addr.as_str()
    }

    pub fn get_remote_addr(&self) -> (addr: &str)
        ensures
            addr@ == self.remote_addr(),
    {
        self.remote_addr.as_str()
    }

    /// The datagram that the sender sends each time.
    pub fn payload(&self) -> (text: String)
        ensures
            text@ == datagram(self.name(), self.value()),
    {
        let mut text = self.name.clone();
        text.append(":\t");
        let digits = render_decimal(self.value);
        text.append(digits.as_str());
        proof {
            reveal_strlit(":\t");
            assert(text@ =~= datagram(self.name(), self.value()));
        }
        text
    }
}

} // verus!
