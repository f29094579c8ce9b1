//! The kinds of device that a room holds.

use crate::devices::device::{Device, Summary};
use crate::devices::smartsocket::SmartSocket;
use crate::devices::thermometer::Thermometer;
use crate::receiver::Receiver;
use vstd::prelude::*;

verus! {

/// A walk over the devices of a room, one device at a time.
pub struct DevicesIter<'a> {
    devices: &'a Vec<DeviceType>,
    at: usize,
}

#[derive(Debug)]
pub enum DeviceType {
    Thermometer(Thermometer),
    SmartSocket(SmartSocket),
}

impl<'a> DevicesIter<'a> {
    /// The devices that the walk has yet to come to, in their order.
    pub closed spec fn remaining(&self) -> Seq<DeviceType> {
        if self.at <= self.devices@.len() {
            self.devices@.skip(self.at as int)
        } else {
            Seq::empty()
        }
    }

    /// A walk that has all of `devices` before it.
    pub fn new(devices: &'a Vec<DeviceType>) -> (walk: Self)
        ensures
            walk.remaining() == devices@,
    {
        let walk = DevicesIter { devices, at: 0 };
        proof {
            assert(devices@.skip(0) =~= devices@);
        }
        walk
    }

    /// The device that the walk comes to next, if one is left.
    pub fn next(&mut self) -> (device: Option<&'a DeviceType>)
        ensures
            match device {
                Some(device) => {
                    &&& old(self).remaining().len() > 0
                    &&& *device == old(self).remaining()[0]
                    &&& final(self).remaining() == old(self).remaining().drop_first()
                },
                None => old(self).remaining().len() == 0 && final(self).remaining() == old(
                    self,
                ).remaining(),
            },
    {
        if self.at < self.devices.len() {
            let device = &self.devices[self.at];
            proof {
                assert(self.devices@.skip(self.at as int).drop_first() =~= self.devices@.skip(
                    self.at + 1,
                ));
            }
            self.at = self.at + 1;
            Some(device)
        } else {
            None
        }
    }
}

impl DeviceType {
    /// The words that `summary` gives beside `receiver`: those of the outlet,
    /// or those of the thermometer beside that receiver.
    pub open spec fn summary_text(&self, receiver: Option<Receiver>) -> Seq<char> {
        match self {
            DeviceType::Thermometer(t) => t.summary_text(receiver),
            DeviceType::SmartSocket(s) => s.summary_text(),
        }
    }

    /// How the device is, in a few words. `receiver` is the receiver of the
    /// device's room, if one is mounted there.
    pub fn summary(&self, receiver: &Option<Receiver>) -> (text: String)
        requires
            receiver is Some ==> receiver->0.wf(),
        ensures
            text@ == self.summary_text(*receiver),
    {
        match self {
            DeviceType::Thermometer(t) => t.summary(receiver),
            DeviceType::SmartSocket(s) => s.summary(),
        }
    }
}

impl Device for DeviceType {
    open spec fn name(&self) -> Seq<char> {
        match self {
            DeviceType::Thermometer(t) => t.name(),
            DeviceType::SmartSocket(s) => s.name(),
        }
    }

    open spec fn description(&self) -> Seq<char> {
        match self {
            DeviceType::Thermometer(t) => t.description(),
            DeviceType::SmartSocket(s) => s.description(),
        }
    }

    fn get_name(&self) -> (name: &str) {
        match self {
            DeviceType::Thermometer(t) => t.get_name(),
            DeviceType::SmartSocket(s) => s.get_name(),
        }
    }

    fn get_description(&self) -> (description: &str) {
        match self {
            DeviceType::Thermometer(t) => t.get_description(),
            DeviceType::SmartSocket(s) => s.get_description(),
        }
    }
}

} // verus!
