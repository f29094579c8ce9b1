//! The house's end of the thermometers' line: the table of the latest reading
//! of each sensor, and what a datagram does to it.

use crate::directory::Directory;
use crate::pattern::{capture, regex_capture, text_of};
use crate::text::{decimal, is_numeral, lemma_decimal_round_trip, numeral_value, parse_decimal};
use vstd::prelude::*;
use vstd::string::*;

verus! {

/// The form of a datagram that carries a reading: the sensor's name, a colon, a
/// tab, and the reading in digits. Group 1 is the name, group 2 the reading.
pub const READING_PATTERN: &'static str = r"([\w\s_-]+):\t(\d+)";

/// The least size of the buffer into which a datagram is received.
pub const DATAGRAM_SIZE: usize = 64;

#[derive(Debug)]
pub struct Receiver {
    address: String,
    data: Directory<u64>,
}

/// The reading that the digits `value` stand for: their number, where they are
/// a numeral that a `u64` holds.
pub open spec fn reading_of(value: Seq<char>) -> Option<u64> {
    if is_numeral(value) && numeral_value(value) <= u64::MAX {
        Some(numeral_value(value) as u64)
    } else {
        None
    }
}

/// The table after a datagram in which the search found `name` and `value`:
/// where both were found and the value is a reading, the name leads to that
/// reading; otherwise nothing has changed.
pub open spec fn readings_after(
    readings: Map<Seq<char>, u64>,
    name: Option<Seq<char>>,
    value: Option<Seq<char>>,
) -> Map<Seq<char>, u64> {
    match (name, value) {
        (Some(name), Some(value)) => match reading_of(value) {
            Some(reading) => readings.insert(name, reading),
            None => readings,
        },
        _ => readings,
    }
}

/// After a datagram in which the search found a name and the numeral of a
/// reading, the name leads to that reading.
pub proof fn lemma_reading_entered(readings: Map<Seq<char>, u64>, name: Seq<char>, reading: u64)
    ensures
        readings_after(readings, Some(name), Some(decimal(reading as nat))).contains_key(name),
        readings_after(readings, Some(name), Some(decimal(reading as nat)))[name] == reading,
{
    lemma_decimal_round_trip(reading as nat);
}

/// A datagram in which the search found no name, or no value, or a value that
/// is no reading, leaves the table as it is.
pub proof fn lemma_malformed_changes_nothing(
    readings: Map<Seq<char>, u64>,
    name: Option<Seq<char>>,
    value: Option<Seq<char>>,
)
    requires
        name is None || value is None || reading_of(value->0) is None,
    ensures
        readings_after(readings, name, value) == readings,
{
}

/// Whatever a datagram holds, it changes no entry but that of the name that
/// the search found in it.
pub proof fn lemma_other_entries_kept(
    readings: Map<Seq<char>, u64>,
    name: Option<Seq<char>>,
    value: Option<Seq<char>>,
    other: Seq<char>,
)
    requires
        name != Some(other),
    ensures
        readings_after(readings, name, value).contains_key(other) == readings.contains_key(other),
        readings.contains_key(other) ==> readings_after(readings, name, value)[other]
            == readings[other],
{
}

impl Receiver {
    /// The address that the receiver listens on.
    pub closed spec fn address(&self) -> Seq<char> {
        self.address@
    }

    /// The latest reading of each sensor that has been heard.
    pub closed spec fn readings(&self) -> Map<Seq<char>, u64> {
        self.data.map()
    }

    pub closed spec fn wf(&self) -> bool {
        self.data.wf()
    }

    /// A receiver for `addr` that has heard nothing yet.
    pub fn new(addr: &str) -> (receiver: Receiver)
        ensures
            receiver.wf(),
            receiver.address() == addr@,
            receiver.readings() == Map::<Seq<char>, u64>::empty(),
    {
        Receiver { address: addr.to_owned(), data: Directory::new() }
    }

    pub fn get_address(&self) -> (addr: &str)
        ensures
            addr@ == self.address(),
    {
        self.address.as_str()
    }

    /// The latest reading of the sensor `name`, if it has been heard.
    pub fn get_data(&self, name: &str) -> (reading: Option<u64>)
        requires
            self.wf(),
        ensures
            reading == if self.readings().contains_key(name@) {
                Some(self.readings()[name@])
            } else {
                None
            },
    {
        match self.data.get(name) {
            Some(reading) => Some(*reading),
            None => None,
        }
    }

    /// Enters what the search of a datagram found. A name and a value that
    /// reads as a number make the name's latest reading; anything less leaves
    /// the table as it is.
    pub fn record(&mut self, name: Option<String>, value: Option<String>)
        requires
            old(self).wf(),
        ensures
            final(self).wf(),
            final(self).address() == old(self).address(),
            final(self).readings() == readings_after(
                old(self).readings(),
                text_of(name),
                text_of(value),
            ),
    {
        if let Some(name) = name {
            if let Some(value) = value {
                if let Some(reading) = parse_decimal(value.as_str()) {
                    match self.data.position(name.as_str()) {
                        Some(place) => {
                            let entry = self.data.item_mut(place);
                            *entry = reading;
                        },
                        None => {
                            self.data.insert(name, reading);
                        },
                    }
                }
            }
        }
    }

    /// Takes in one datagram: searches it for a reading and enters what was
    /// found.
    pub fn ingest(&mut self, datagram: &str)
        requires
            old(self).wf(),
        ensures
            final(self).wf(),
            final(self).address() == old(self).address(),
            final(self).readings() == readings_after(
                old(self).readings(),
                regex_capture(READING_PATTERN@, datagram@, 1),
                regex_capture(READING_PATTERN@, datagram@, 2),
            ),
    {
        let name = capture(READING_PATTERN, datagram, 1);
        let value = capture(READING_PATTERN, datagram, 2);
        self.record(name, value);
    }
}

} // verus!
