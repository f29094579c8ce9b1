//! A thermometer, which sends its readings to the receiver of its room.

use crate::devices::device::Device;
use crate::receiver::Receiver;
use crate::text::{decimal, render_decimal};
use vstd::prelude::*;
use vstd::string::*;

verus! {

#[derive(Debug)]
pub struct Thermometer {
    name: String,
    description: String,
    wired: bool,
}

/// The temperature of a thermometer named `name`: the latest reading that the
/// receiver has under that name, where the thermometer is wired to a receiver
/// that has one, and zero otherwise.
pub open spec fn temperature_of(name: Seq<char>, wired: bool, receiver: Option<Receiver>) -> u64 {
    if wired && receiver is Some && receiver->0.readings().contains_key(name) {
        receiver->0.readings()[name]
    } else {
        0
    }
}

/// The words for a temperature: its number and the sign for degrees Celsius.
pub open spec fn temperature_summary(temperature: u64) -> Seq<char> {
    decimal(temperature as nat) + "°C"@
}

impl Thermometer {
    /// Whether the thermometer is wired to the receiver of its room.
    pub closed spec fn wired(&self) -> bool {
        self.wired
    }

    /// The same thermometer, wired to the receiver of its room.
    pub closed spec fn wired_up(self) -> Thermometer {
        Thermometer { name: self.name, description: self.description, wired: true }
    }

    /// The words that `summary` gives beside `receiver`.
    pub open spec fn summary_text(&self, receiver: Option<Receiver>) -> Seq<char> {
        temperature_summary(temperature_of(self.name(), self.wired(), receiver))
    }

    /// A thermometer that is wired to no receiver.
    pub fn new(name: &str, description: &str) -> (thermometer: Self)
        ensures
            thermometer.name() == name@,
            thermometer.description() == description@,
            !thermometer.wired(),
    {
        Self { name: name.to_owned(), description: description.to_owned(), wired: false }
    }

    /// Wires the thermometer to the receiver of its room.
    pub fn add_receiver(&mut self)
        ensures
            *final(self) == old(self).wired_up(),
            final(self).name() == old(self).name(),
            final(self).description() == old(self).description(),
            final(self).wired(),
    {
        self.wired = true;
    }

    /// The temperature, read beside `receiver`, which is the receiver of the
    /// thermometer's room if one is mounted there.
    pub fn get_temperature(&self, receiver: &Option<Receiver>) -> (temperature: u64)
        requires
            receiver is Some ==> receiver->0.wf(),
        ensures
            temperature == temperature_of(self.name(), self.wired(), *receiver),
    {
        if !self.wired {
            return 0;
        }
        match receiver {
            Some(receiver) => match receiver.get_data(self.name.as_str()) {
                Some(reading) => reading,
                None => 0,
            },
            None => 0,
        }
    }

    pub fn summary(&self, receiver: &Option<Receiver>) -> (text: String)
        requires
            receiver is Some ==> receiver->0.wf(),
        ensures
            text@ == self.summary_text(*receiver),
    {
        let mut text = render_decimal(self.get_temperature(receiver));
        text.append("°C");
        text
    }
}

impl Device for Thermometer {
    closed spec fn name(&self) -> Seq<char> {
        self.name@
    }

    closed spec fn description(&self) -> Seq<char> {
        self.description@
    }

    fn get_name(&self) -> (name: &str) {
        self.name.as_str()
    }

    fn get_description(&self) -> (description: &str) {
        self.description.as_str()
    }
}

} // verus!
