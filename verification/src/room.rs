//! A room: its devices under their names, and the receiver that may be
//! mounted in it.

use crate::connection::ConnectResult;
use crate::devices::device::Device;
use crate::devices::smartsocket::SmartSocket;
use crate::devices::thermometer::Thermometer;
use crate::devices::types::{DeviceType, DevicesIter};
use crate::directory::{map_of, Directory};
use crate::errors::HouseUpdateErr;
use crate::formatter::{object_items, objects_items, views, Item, ItemType};
use crate::pattern::regex_capture;
use crate::receiver::{readings_after, Receiver, READING_PATTERN};
use vstd::prelude::*;
use vstd::string::*;

verus! {

#[derive(Debug)]
pub struct Room {
    name: String,
    devices: Directory<DeviceType>,
    receiver: Option<Receiver>,
}

/// The fields of the object that a device adds to the report of its house:
/// the name of the room, the name of the device and the device's summary.
pub open spec fn device_fields(
    room: Seq<char>,
    device: DeviceType,
    receiver: Option<Receiver>,
) -> Seq<(Seq<char>, Seq<char>)> {
    seq![
        ("room"@, room),
        ("device"@, device.name()),
        ("summary"@, device.summary_text(receiver)),
    ]
}

/// Whether `found` is the outlet that stands in `devices` under `name`, and
/// nothing where no outlet stands there.
pub open spec fn is_socket_at(
    devices: Map<Seq<char>, DeviceType>,
    name: Seq<char>,
    found: Option<SmartSocket>,
) -> bool {
    match found {
        Some(socket) => devices.contains_key(name) && devices[name] == DeviceType::SmartSocket(
            socket,
        ),
        None => !devices.contains_key(name) || !(devices[name] is SmartSocket),
    }
}

/// Whether `found` is the thermometer that stands in `devices` under `name`,
/// and nothing where no thermometer stands there.
pub open spec fn is_thermometer_at(
    devices: Map<Seq<char>, DeviceType>,
    name: Seq<char>,
    found: Option<Thermometer>,
) -> bool {
    match found {
        Some(thermometer) => devices.contains_key(name) && devices[name] == DeviceType::Thermometer(
            thermometer,
        ),
        None => !devices.contains_key(name) || !(devices[name] is Thermometer),
    }
}

/// The devices after the thermometer under `name` was wired to the receiver of
/// its room. Nothing has changed where no thermometer stands under that name.
pub open spec fn wired_one(devices: Map<Seq<char>, DeviceType>, name: Seq<char>) -> Map<
    Seq<char>,
    DeviceType,
> {
    if devices.contains_key(name) && devices[name] is Thermometer {
        devices.insert(name, DeviceType::Thermometer(devices[name]->Thermometer_0.wired_up()))
    } else {
        devices
    }
}

impl Room {
    pub closed spec fn name(&self) -> Seq<char> {
        self.name@
    }

    /// The names under which the devices stand, in the order in which they
    /// were added.
    pub closed spec fn device_names(&self) -> Seq<Seq<char>> {
        self.devices.names()
    }

    /// The devices, each at the place of its name.
    pub closed spec fn devices(&self) -> Seq<DeviceType> {
        self.devices.items()
    }

    /// The devices by the names under which they stand.
    pub open spec fn device_map(&self) -> Map<Seq<char>, DeviceType> {
        map_of(self.device_names(), self.devices())
    }

    /// The receiver that is mounted in the room, if one is.
    pub closed spec fn receiver(&self) -> Option<Receiver> {
        self.receiver
    }

    /// A room is well formed when each name has its device, no two devices
    /// stand under one name, and the receiver, if one is mounted, is well
    /// formed.
    pub open spec fn wf(&self) -> bool {
        &&& self.device_names().len() == self.devices().len()
        &&& self.device_names().no_duplicates()
        &&& self.receiver() is Some ==> self.receiver()->0.wf()
    }

    /// The objects that the room adds to the report of its house, one for each
    /// device, in their order.
    pub open spec fn objects(&self) -> Seq<Seq<(Seq<char>, Seq<char>)>> {
        Seq::new(
            self.devices().len(),
            |i: int| device_fields(self.name(), self.devices()[i], self.receiver()),
        )
    }

    /// The items that the room adds to the report of its house: those of its
    /// objects.
    pub open spec fn report(&self) -> Seq<Item> {
        objects_items(self.objects())
    }

    /// Whether the room is as `other` but, perhaps, for its devices.
    pub open spec fn same_but_devices(&self, other: &Room) -> bool {
        self.name() == other.name() && self.receiver() == other.receiver()
    }

    /// Whether the room is `before` with `device` added at the end, under the
    /// device's own name.
    pub open spec fn with_device_added(&self, before: &Room, device: DeviceType) -> bool {
        &&& self.same_but_devices(before)
        &&& self.device_names() == before.device_names().push(device.name())
        &&& self.devices() == before.devices().push(device)
        &&& self.device_map() == before.device_map().insert(device.name(), device)
    }

    /// Whether the room is `before` without the device under `name`, the other
    /// devices in their order.
    pub open spec fn with_device_removed(&self, before: &Room, name: Seq<char>) -> bool {
        let at = before.device_names().index_of(name);
        &&& self.same_but_devices(before)
        &&& self.device_names() == before.device_names().remove(at)
        &&& self.devices() == before.devices().remove(at)
        &&& self.device_map() == before.device_map().remove(name)
    }

    /// An empty room without a receiver.
    pub fn new(name: &str) -> (room: Self)
        ensures
            room.wf(),
            room.name() == name@,
            room.device_names() == Seq::<Seq<char>>::empty(),
            room.devices() == Seq::<DeviceType>::empty(),
            room.device_map() == Map::<Seq<char>, DeviceType>::empty(),
            room.receiver().is_none(),
    {
        Self { name: name.to_owned(), devices: Directory::new(), receiver: None }
    }

    /// Takes note of how binding a receiver to `addr` went: where it went
    /// well, a new receiver for that address is now the room's, in place of
    /// any that was mounted before; a failure is handed on and changes
    /// nothing.
    pub fn mount_receiver(&mut self, addr: &str, bound: ConnectResult<()>) -> (outcome:
        ConnectResult<()>)
        requires
            old(self).wf(),
        ensures
            final(self).wf(),
            outcome == bound,
            final(self).name() == old(self).name(),
            final(self).device_names() == old(self).device_names(),
            final(self).devices() == old(self).devices(),
            final(self).device_map() == old(self).device_map(),
            match bound {
                Ok(()) => {
                    &&& final(self).receiver() is Some
                    &&& final(self).receiver()->0.address() == addr@
                    &&& final(self).receiver()->0.readings() == Map::<Seq<char>, u64>::empty()
                },
                Err(_) => *final(self) == *old(self),
            },
    {
        if bound.is_ok() {
            self.receiver = Some(Receiver::new(addr));
        }
        bound
    }

    pub fn get_name(&self) -> (name: &str)
        ensures
            name@ == self.name(),
    {
        self.name.as_str()
    }

    /// Adds a device under its own name, unless a device stands under that
    /// name already.
    pub fn add_device(&mut self, device: DeviceType) -> (outcome: Result<(), HouseUpdateErr>)
        requires
            old(self).wf(),
        ensures
            final(self).wf(),
            match outcome {
                Ok(()) => {
                    &&& !old(self).device_map().contains_key(device.name())
                    &&& final(self).with_device_added(old(self), device)
                },
                Err(e) => {
                    &&& old(self).device_map().contains_key(device.name())
                    &&& e matches HouseUpdateErr::DeviceAlreadyExistsError(name)
                    &&& name@ == device.name()
                    &&& *final(self) == *old(self)
                },
            },
    {
        let name = device.get_name().to_owned();
        if self.devices.contains_key(name.as_str()) {
            return Err(HouseUpdateErr::DeviceAlreadyExistsError(name));
        }
        self.devices.insert(name, device);
        Ok(())
    }

    /// Takes out the device under `name`, if there is one.
    pub fn remove_device(&mut self, name: &str) -> (outcome: Result<(), HouseUpdateErr>)
        requires
            old(self).wf(),
        ensures
            final(self).wf(),
            match outcome {
                Ok(()) => {
                    &&& old(self).device_map().contains_key(name@)
                    &&& !final(self).device_map().contains_key(name@)
                    &&& final(self).with_device_removed(old(self), name@)
                },
                Err(e) => {
                    &&& !old(self).device_map().contains_key(name@)
                    &&& e matches HouseUpdateErr::DeviceNotFoundError(missing)
                    &&& missing@ == name@
                    &&& *final(self) == *old(self)
                },
            },
    {
        match self.devices.remove(name) {
            Some(_) => Ok(()),
            None => Err(HouseUpdateErr::DeviceNotFoundError(name.to_owned())),
        }
    }

    /// The devices, in the order in which they were added.
    pub fn get_devices(&self) -> (devices: &Vec<DeviceType>)
        ensures
            devices@ == self.devices(),
    {
        self.devices.values()
    }

    /// A walk over the devices, in the order in which they were added.
    pub fn iter_devices(&self) -> (walk: DevicesIter<'_>)
        ensures
            walk.remaining() == self.devices(),
    {
        DevicesIter::new(self.devices.values())
    }

    /// The devices, to be changed where they stand. The names under which they
    /// stand do not follow a change.
    pub fn get_devices_mut(&mut self) -> (devices: &mut [DeviceType])
        ensures
            devices@ == old(self).devices(),
            final(self).same_but_devices(old(self)),
            final(self).device_names() == old(self).device_names(),
            final(self).devices() == final(devices)@,
            old(self).wf() && final(devices)@.len() == devices@.len() ==> final(self).wf(),
    {
        self.devices.values_mut()
    }

    /// The outlet under `name`, if an outlet stands there.
    pub fn get_socket(&self, name: &str) -> (found: Option<&SmartSocket>)
        requires
            self.wf(),
        ensures
            is_socket_at(
                self.device_map(),
                name@,
                match found {
                    Some(socket) => Some(*socket),
                    None => None,
                },
            ),
    {
        if let Some(DeviceType::SmartSocket(s)) = self.devices.get(name) {
            return Some(s);
        }
        None
    }

    /// The thermometer under `name`, if a thermometer stands there.
    pub fn get_thermometer(&self, name: &str) -> (found: Option<&Thermometer>)
        requires
            self.wf(),
        ensures
            is_thermometer_at(
                self.device_map(),
                name@,
                match found {
                    Some(thermometer) => Some(*thermometer),
                    None => None,
                },
            ),
    {
        if let Some(DeviceType::Thermometer(t)) = self.devices.get(name) {
            return Some(t);
        }
        None
    }

    /// The outlet under `name`, to be changed, if an outlet stands there.
    pub fn get_socket_mut(&mut self, name: &str) -> (found: Option<&mut SmartSocket>)
        requires
            old(self).wf(),
        ensures
            final(self).wf(),
            final(self).same_but_devices(old(self)),
            final(self).device_names() == old(self).device_names(),
            match found {
                Some(socket) => {
                    &&& is_socket_at(old(self).device_map(), name@, Some(*socket))
                    &&& final(self).devices() == old(self).devices().update(
                        old(self).device_names().index_of(name@),
                        DeviceType::SmartSocket(*final(socket)),
                    )
                    &&& final(self).device_map() == old(self).device_map().insert(
                        name@,
                        DeviceType::SmartSocket(*final(socket)),
                    )
                },
                None => {
                    &&& is_socket_at(old(self).device_map(), name@, None)
                    &&& *final(self) == *old(self)
                },
            },
    {
        match self.devices.position(name) {
            Some(place) => {
                if let DeviceType::Thermometer(_) = self.devices.item(place) {
                    return None;
                }
                match self.devices.item_mut(place) {
                    DeviceType::SmartSocket(s) => Some(s),
                    _ => None,
                }
            },
            None => None,
        }
    }

    /// The thermometer under `name`, to be changed, if a thermometer stands
    /// there.
    pub fn get_thermometer_mut(&mut self, name: &str) -> (found: Option<&mut Thermometer>)
        requires
            old(self).wf(),
        ensures
            final(self).wf(),
            final(self).same_but_devices(old(self)),
            final(self).device_names() == old(self).device_names(),
            match found {
                Some(thermometer) => {
                    &&& is_thermometer_at(old(self).device_map(), name@, Some(*thermometer))
                    &&& final(self).devices() == old(self).devices().update(
                        old(self).device_names().index_of(name@),
                        DeviceType::Thermometer(*final(thermometer)),
                    )
                    &&& final(self).device_map() == old(self).device_map().insert(
                        name@,
                        DeviceType::Thermometer(*final(thermometer)),
                    )
                },
                None => {
                    &&& is_thermometer_at(old(self).device_map(), name@, None)
                    &&& *final(self) == *old(self)
                },
            },
    {
        match self.devices.position(name) {
            Some(place) => {
                if let DeviceType::SmartSocket(_) = self.devices.item(place) {
                    return None;
                }
                match self.devices.item_mut(place) {
                    DeviceType::Thermometer(t) => Some(t),
                    _ => None,
                }
            },
            None => None,
        }
    }

    /// Wires the thermometer under `name` to the receiver of the room. Nothing
    /// happens where no receiver is mounted, or where no thermometer stands
    /// under that name.
    pub fn connect_device_to_receiver(&mut self, name: &str)
        requires
            old(self).wf(),
        ensures
            final(self).wf(),
            final(self).same_but_devices(old(self)),
            final(self).device_names() == old(self).device_names(),
            final(self).devices().len() == old(self).devices().len(),
            final(self).device_map() == if old(self).receiver() is Some {
                wired_one(old(self).device_map(), name@)
            } else {
                old(self).device_map()
            },
            old(self).receiver() is None ==> final(self).devices() == old(self).devices(),
    {
        if self.receiver.is_none() {
            return ;
        }
        if let Some(t) = self.get_thermometer_mut(name) {
            t.add_receiver();
        }
    }

    /// Hands a datagram to the receiver of the room, which enters the reading
    /// that it carries. Nothing happens where no receiver is mounted.
    pub fn ingest(&mut self, datagram: &str)
        requires
            old(self).wf(),
        ensures
            final(self).wf(),
            final(self).name() == old(self).name(),
            final(self).device_names() == old(self).device_names(),
            final(self).devices() == old(self).devices(),
            final(self).device_map() == old(self).device_map(),
            match old(self).receiver() {
                Some(receiver) => {
                    &&& final(self).receiver() is Some
                    &&& final(self).receiver()->0.address() == receiver.address()
                    &&& final(self).receiver()->0.readings() == readings_after(
                        receiver.readings(),
                        regex_capture(READING_PATTERN@, datagram@, 1),
                        regex_capture(READING_PATTERN@, datagram@, 2),
                    )
                },
                None => final(self).receiver() is None,
            },
    {
        match &mut self.receiver {
            Some(receiver) => {
                receiver.ingest(datagram);
            },
            None => {},
        }
    }

    /// The room's part of the report of its house: for each device an object
    /// with the room's name, the device's name and the device's summary.
    pub fn report_items(&self) -> (items: Vec<ItemType>)
        requires
            self.wf(),
        ensures
            views(items@) == self.report(),
    {
        let mut items: Vec<ItemType> = Vec::new();
        let devices = self.devices.values();
        let mut i: usize = 0;
        let ghost objects = self.objects();
        proof {
            assert(objects.subrange(0, 0) =~= Seq::empty());
        }
        while i < devices.len()
            invariant
                i <= devices.len(),
                devices@ == self.devices(),
                self.wf(),
                objects == self.objects(),
                views(items@) == objects_items(objects.subrange(0, i as int)),
            decreases devices.len() - i,
        {
            let device = &devices[i];
            let ghost before = views(items@);
            items.push(ItemType::NewObject());
            items.push(ItemType::Str("room".to_owned(), self.name.clone()));
            items.push(ItemType::Str("device".to_owned(), device.get_name().to_owned()));
            items.push(ItemType::Str("summary".to_owned(), device.summary(&self.receiver)));
            items.push(ItemType::EndObject());
            proof {
                let fields = device_fields(self.name(), *device, self.receiver());
                let longer = objects.subrange(0, i + 1);
                assert(longer.drop_last() =~= objects.subrange(0, i as int));
                assert(longer.last() == fields);
                assert(views(items@) =~= before + object_items(fields));
            }
            i = i + 1;
        }
        proof {
            assert(objects.subrange(0, i as int) =~= objects);
        }
        items
    }
}

} // verus!
