//! The admin surface of a house: what each request does to the house, and what
//! is answered. How a request arrives and how an answer is written out is not
//! settled here.

use crate::connection::{ConnectError, ConnectResult};
use crate::devices::device::Device;
use crate::devices::smartsocket::{SmartSocket, SocketState};
use crate::devices::thermometer::Thermometer;
use crate::devices::types::DeviceType;
use crate::errors::{already_exists, not_found};
use crate::formatter::{json_text, JsonFormatter};
use crate::house::House;
use crate::room::wired_one;
use crate::text::same_text;
use vstd::prelude::*;
use vstd::string::*;

verus! {

/// A complaint, as it is answered.
#[derive(Debug)]
pub struct JsonError {
    error: String,
}

/// A device, as it is listed: its name and its description.
#[derive(Debug)]
pub struct RoomDevice {
    name: String,
    description: String,
}

/// A room, as it is listed: its name and its devices.
#[derive(Debug)]
pub struct Room {
    name: String,
    devices: Vec<RoomDevice>,
}

/// How a request ended.
#[derive(Debug, Clone, Copy, PartialEq, Eq, Structural)]
pub enum Status {
    Served,
    Created,
    NoContent,
    BadRequest,
    NotFound,
    ServerError,
}

/// What is answered beside the status.
#[derive(Debug)]
pub enum Body {
    Empty,
    Error(JsonError),
    Rooms(Vec<Room>),
    Report(String),
}

#[derive(Debug)]
pub struct Response {
    pub status: Status,
    pub body: Body,
}

/// Whether `response` is the bare status `status`.
pub open spec fn is_bare(response: Response, status: Status) -> bool {
    response.status == status && response.body is Empty
}

/// Whether `response` is the status `status` with the complaint `text`.
pub open spec fn is_complaint(response: Response, status: Status, text: Seq<char>) -> bool {
    &&& response.status == status
    &&& response.body matches Body::Error(e)
    &&& e.text() == text
}

/// Whether `device` is a device of the kind that `device_type` names, as it is
/// when it has just been made with this name and description: an outlet that is
/// not connected, or a thermometer that is not wired.
pub open spec fn is_new_device(
    device: DeviceType,
    device_type: Seq<char>,
    name: Seq<char>,
    description: Seq<char>,
) -> bool {
    &&& device.name() == name
    &&& device.description() == description
    &&& match device {
        DeviceType::SmartSocket(s) => device_type == "socket"@ && s.connection().is_none()
            && s.state() == (SocketState { is_on: false, power_consumption: 0 }),
        DeviceType::Thermometer(t) => device_type == "thermometer"@ && !t.wired(),
    }
}

impl Status {
    /// The number of the status.
    pub open spec fn number(self) -> u16 {
        match self {
            Status::Served => 200,
            Status::Created => 201,
            Status::NoContent => 204,
            Status::BadRequest => 400,
            Status::NotFound => 404,
            Status::ServerError => 500,
        }
    }

    pub fn code(&self) -> (code: u16)
        ensures
            code == self.number(),
    {
        match self {
            Status::Served => 200,
            Status::Created => 201,
            Status::NoContent => 204,
            Status::BadRequest => 400,
            Status::NotFound => 404,
            Status::ServerError => 500,
        }
    }
}

impl JsonError {
    /// The words of the complaint.
    pub closed spec fn text(&self) -> Seq<char> {
        self.error@
    }

    pub fn new(error: String) -> (e: Self)
        ensures
            e.text() == error@,
    {
        Self { error }
    }

    pub fn get_error(&self) -> (error: &str)
        ensures
            error@ == self.text(),
    {
        self.error.as_str()
    }
}

impl RoomDevice {
    pub closed spec fn name(&self) -> Seq<char> {
        self.name@
    }

    pub closed spec fn description(&self) -> Seq<char> {
        self.description@
    }

    pub fn new(name: &str, description: &str) -> (device: Self)
        ensures
            device.name() == name@,
            device.description() == description@,
    {
        Self { name: name.to_owned(), description: description.to_owned() }
    }

    pub fn get_name(&self) -> (name: &str)
        ensures
            name@ == self.name(),
    {
        self.name.as_str()
    }

    pub fn get_description(&self) -> (description: &str)
        ensures
            description@ == self.description(),
    {
        self.description.as_str()
    }
}

impl Room {
    pub closed spec fn name(&self) -> Seq<char> {
        self.name@
    }

    pub closed spec fn devices(&self) -> Seq<RoomDevice> {
        self.devices@
    }

    pub fn new(name: &str, devices: Vec<RoomDevice>) -> (room: Self)
        ensures
            room.name() == name@,
            room.devices() == devices@,
    {
        Self { name: name.to_owned(), devices }
    }

    pub fn get_name(&self) -> (name: &str)
        ensures
            name@ == self.name(),
    {
        self.name.as_str()
    }

    pub fn get_devices(&self) -> (devices: &Vec<RoomDevice>)
        ensures
            devices@ == self.devices(),
    {
        &self.devices
    }
}

fn bare(status: Status) -> (response: Response)
    ensures
        is_bare(response, status),
{
    Response { status, body: Body::Empty }
}

fn complaint(status: Status, text: String) -> (response: Response)
    ensures
        is_complaint(response, status, text@),
{
    Response { status, body: Body::Error(JsonError::new(text)) }
}

/// Adds a room. A name that is taken is a bad request, which changes nothing.
pub fn add_room(house: &mut House, name: &str) -> (response: Response)
    requires
        old(house).wf(),
    ensures
        final(house).wf(),
        if old(house).room_map().contains_key(name@) {
            &&& is_complaint(response, Status::BadRequest, already_exists("room"@, name@))
            &&& *final(house) == *old(house)
        } else {
            &&& is_bare(response, Status::Created)
            &&& final(house).with_room_added(old(house), name@)
        },
{
    match house.add_room(name) {
        Err(e) => complaint(Status::BadRequest, e.to_string()),
        Ok(()) => bare(Status::Created),
    }
}

/// Removes a room. A name that leads to no room is a bad request, which
/// changes nothing.
pub fn remove_room(house: &mut House, name: &str) -> (response: Response)
    requires
        old(house).wf(),
    ensures
        final(house).wf(),
        if old(house).room_map().contains_key(name@) {
            &&& is_bare(response, Status::NoContent)
            &&& final(house).with_room_removed(old(house), name@)
        } else {
            &&& is_complaint(response, Status::BadRequest, not_found("room"@, name@))
            &&& *final(house) == *old(house)
        },
{
    match house.remove_room(name) {
        Err(e) => complaint(Status::BadRequest, e.to_string()),
        Ok(()) => bare(Status::NoContent),
    }
}

/// Adds a device of the kind that `device_type` names, `socket` or
/// `thermometer`, to the room under `room_name`. Without that room nothing is
/// found; another kind, or a name that is taken in the room, is a bad request.
/// Only a device that was added changes anything.
pub fn add_device(
    house: &mut House,
    room_name: &str,
    device_type: &str,
    name: &str,
    description: &str,
) -> (response: Response)
    requires
        old(house).wf(),
    ensures
        final(house).wf(),
        if !old(house).room_map().contains_key(room_name@) {
            &&& is_bare(response, Status::NotFound)
            &&& *final(house) == *old(house)
        } else if device_type@ != "socket"@ && device_type@ != "thermometer"@ {
            &&& is_complaint(response, Status::BadRequest, "unknown device type"@)
            &&& final(house).same_as(old(house))
        } else if old(house).room_map()[room_name@].device_map().contains_key(name@) {
            &&& is_complaint(response, Status::BadRequest, already_exists("device"@, name@))
            &&& final(house).same_as(old(house))
        } else {
            let before = old(house).room_map()[room_name@];
            let after = final(house).room_map()[room_name@];
            &&& is_bare(response, Status::Created)
            &&& final(house).with_room_changed(old(house), room_name@, after)
            &&& after.device_map().contains_key(name@)
            &&& is_new_device(after.device_map()[name@], device_type@, name@, description@)
            &&& after.with_device_added(&before, after.device_map()[name@])
        },
{
    let ghost before = *house;
    match house.get_room_mut(room_name) {
        None => bare(Status::NotFound),
        Some(room) => {
            let ghost room_before = *room;
            let device = if same_text(device_type, "socket") {
                DeviceType::SmartSocket(SmartSocket::new(name, description))
            } else if same_text(device_type, "thermometer") {
                DeviceType::Thermometer(Thermometer::new(name, description))
            } else {
                proof {
                    lemma_room_put_back(before, room_name@);
                }
                return complaint(Status::BadRequest, "unknown device type".to_owned());
            };
            match room.add_device(device) {
                Err(e) => {
                    proof {
                        lemma_room_put_back(before, room_name@);
                    }
                    complaint(Status::BadRequest, e.to_string())
                },
                Ok(()) => bare(Status::Created),
            }
        },
    }
}

/// Putting the room under a name back as it was leaves the house as it was.
proof fn lemma_room_put_back(house: House, name: Seq<char>)
    requires
        house.wf(),
        house.room_map().contains_key(name),
    ensures
        house.rooms().update(house.room_names().index_of(name), house.room_map()[name])
            == house.rooms(),
        house.room_map().insert(name, house.room_map()[name]) == house.room_map(),
{
    let at = house.room_names().index_of(name);
    assert(house.room_names().contains(name));
    assert(house.rooms().update(at, house.room_map()[name]) =~= house.rooms());
    assert(house.room_map().insert(name, house.room_map()[name]) =~= house.room_map());
}

/// Removes the device under `name` from the room under `room_name`. Without
/// that room nothing is found; a name that leads to no device in it is a bad
/// request. Only a device that was removed changes anything.
pub fn remove_device(house: &mut House, room_name: &str, name: &str) -> (response: Response)
    requires
        old(house).wf(),
    ensures
        final(house).wf(),
        if !old(house).room_map().contains_key(room_name@) {
            &&& is_bare(response, Status::NotFound)
            &&& *final(house) == *old(house)
        } else if !old(house).room_map()[room_name@].device_map().contains_key(name@) {
            &&& is_complaint(response, Status::BadRequest, not_found("device"@, name@))
            &&& final(house).same_as(old(house))
        } else {
            let before = old(house).room_map()[room_name@];
            let after = final(house).room_map()[room_name@];
            &&& is_bare(response, Status::NoContent)
            &&& final(house).with_room_changed(old(house), room_name@, after)
            &&& after.with_device_removed(&before, name@)
        },
{
    let ghost before = *house;
    match house.get_room_mut(room_name) {
        None => bare(Status::NotFound),
        Some(room) => match room.remove_device(name) {
            Err(e) => {
                proof {
                    lemma_room_put_back(before, room_name@);
                }
                complaint(Status::BadRequest, e.to_string())
            },
            Ok(()) => bare(Status::NoContent),
        },
    }
}

/// Whether `listed` lists `device`: by its name and its description.
pub open spec fn lists_device(listed: RoomDevice, device: DeviceType) -> bool {
    listed.name() == device.name() && listed.description() == device.description()
}

/// Whether `listed` lists `room`: by its name, and its devices in their order.
pub open spec fn lists_room(listed: Room, room: crate::room::Room) -> bool {
    &&& listed.name() == room.name()
    &&& listed.devices().len() == room.devices().len()
    &&& forall|i: int|
        0 <= i < room.devices().len() ==> lists_device(
            #[trigger] listed.devices()[i],
            room.devices()[i],
        )
}

/// Whether `listed` lists `rooms`, in their order.
pub open spec fn lists_rooms(listed: Seq<Room>, rooms: Seq<crate::room::Room>) -> bool {
    &&& listed.len() == rooms.len()
    &&& forall|i: int| 0 <= i < rooms.len() ==> lists_room(#[trigger] listed[i], rooms[i])
}

fn list_room(room: &crate::room::Room) -> (listed: Room)
    ensures
        lists_room(listed, *room),
{
    let devices = room.get_devices();
    let mut listed: Vec<RoomDevice> = Vec::new();
    let mut i: usize = 0;
    while i < devices.len()
        invariant
            i <= devices.len(),
            devices@ == room.devices(),
            listed@.len() == i,
            forall|j: int| 0 <= j < i ==> lists_device(#[trigger] listed@[j], devices@[j]),
        decreases devices.len() - i,
    {
        let device = &devices[i];
        listed.push(RoomDevice::new(device.get_name(), device.get_description()));
        i = i + 1;
    }
    Room::new(room.get_name(), listed)
}

/// Lists the rooms of the house and their devices.
pub fn get_rooms(house: &House) -> (response: Response)
    ensures
        response.status == Status::Served,
        response.body matches Body::Rooms(listed) && lists_rooms(listed@, house.rooms()),
{
    let rooms = house.get_rooms();
    let mut listed: Vec<Room> = Vec::new();
    let mut i: usize = 0;
    while i < rooms.len()
        invariant
            i <= rooms.len(),
            rooms@ == house.rooms(),
            listed@.len() == i,
            forall|j: int| 0 <= j < i ==> lists_room(#[trigger] listed@[j], rooms@[j]),
        decreases rooms.len() - i,
    {
        listed.push(list_room(&rooms[i]));
        i = i + 1;
    }
    Response { status: Status::Served, body: Body::Rooms(listed) }
}

/// Reports on the house, in the JSON-like form.
pub fn get_report(house: &House) -> (response: Response)
    requires
        house.wf(),
    ensures
        response.status == Status::Served,
        response.body matches Body::Report(text) && text@ == json_text(house.report()),
{
    let text = house.summary_fmt(Box::new(JsonFormatter {  }));
    Response { status: Status::Served, body: Body::Report(text) }
}

/// Connects the outlet under `name` in the room under `room_name` to `host`,
/// given how dialling `host` went. Without that room, or without an outlet
/// under that name in it, nothing is found; a failure to dial is a server
/// error. Only a connection that was made changes anything.
pub fn connect_socket(
    house: &mut House,
    room_name: &str,
    name: &str,
    host: &str,
    dialed: ConnectResult<()>,
) -> (response: Response)
    requires
        old(house).wf(),
    ensures
        final(house).wf(),
        if !old(house).room_map().contains_key(room_name@) {
            &&& is_bare(response, Status::NotFound)
            &&& *final(house) == *old(house)
        } else {
            let before = old(house).room_map()[room_name@];
            let after = final(house).room_map()[room_name@];
            &&& final(house).with_room_changed(old(house), room_name@, after)
            &&& after.same_but_devices(&before)
            &&& after.device_names() == before.device_names()
            &&& if !before.device_map().contains_key(name@) || !(before.device_map()[name@]
                is SmartSocket) {
                &&& is_bare(response, Status::NotFound)
                &&& after.device_map() == before.device_map()
            } else {
                let socket = before.device_map()[name@]->SmartSocket_0;
                &&& after.device_map().contains_key(name@)
                &&& after.device_map()[name@] matches DeviceType::SmartSocket(connected)
                &&& after.device_map() == before.device_map().insert(
                    name@,
                    after.device_map()[name@],
                )
                &&& connected.name() == socket.name()
                &&& connected.description() == socket.description()
                &&& connected.state() == socket.state()
                &&& match dialed {
                    Ok(()) => is_bare(response, Status::Served) && connected.connection() == Some(
                        host@,
                    ),
                    Err(e) => is_complaint(response, Status::ServerError, e.message())
                        && connected.connection() == socket.connection(),
                }
            }
        },
{
    match house.get_room_mut(room_name) {
        None => bare(Status::NotFound),
        Some(room) => match room.get_socket_mut(name) {
            None => bare(Status::NotFound),
            Some(socket) => match socket.connect(host, dialed) {
                Err(e) => complaint(Status::ServerError, e.to_string()),
                Ok(()) => bare(Status::Served),
            },
        },
    }
}

/// Says how switching the outlet under `name` in the room under `room_name`
/// went, given the outlet's acknowledgement or the failure to get one. Without
/// that room, or without an outlet under that name in it, nothing is found; an
/// outlet that is not connected, or a failure on the line, is a server error.
pub fn switch_socket(
    house: &House,
    room_name: &str,
    name: &str,
    ack: ConnectResult<String>,
) -> (response: Response)
    requires
        house.wf(),
    ensures
        if !house.room_map().contains_key(room_name@) {
            is_bare(response, Status::NotFound)
        } else {
            let devices = house.room_map()[room_name@].device_map();
            if !devices.contains_key(name@) || !(devices[name@] is SmartSocket) {
                is_bare(response, Status::NotFound)
            } else {
                let socket = devices[name@]->SmartSocket_0;
                if socket.connection().is_none() {
                    is_complaint(
                        response,
                        Status::ServerError,
                        "IO error: "@ + ("no connection established to "@ + socket.name()),
                    )
                } else {
                    match ack {
                        Ok(_) => is_bare(response, Status::Served),
                        Err(e) => is_complaint(response, Status::ServerError, e.message()),
                    }
                }
            }
        },
{
    match house.get_room(room_name) {
        None => bare(Status::NotFound),
        Some(room) => match room.get_socket(name) {
            None => bare(Status::NotFound),
            Some(socket) => match socket.acknowledged(ack) {
                Err(e) => complaint(Status::ServerError, e.to_string()),
                Ok(()) => bare(Status::Served),
            },
        },
    }
}

/// The names of the thermometers among the first `n` of `devices`, in their
/// order.
pub open spec fn thermometer_names(devices: Seq<DeviceType>, n: nat) -> Seq<Seq<char>>
    decreases n,
{
    if n == 0 {
        Seq::empty()
    } else if devices[n - 1] is Thermometer {
        thermometer_names(devices, (n - 1) as nat).push(devices[n - 1].name())
    } else {
        thermometer_names(devices, (n - 1) as nat)
    }
}

/// The devices after the thermometers under the first `n` of `names` were wired
/// to the receiver of their room, one after the other.
pub open spec fn wired_all(
    devices: Map<Seq<char>, DeviceType>,
    names: Seq<Seq<char>>,
    n: nat,
) -> Map<Seq<char>, DeviceType>
    decreases n,
{
    if n == 0 {
        devices
    } else {
        wired_one(wired_all(devices, names, (n - 1) as nat), names[n - 1])
    }
}

/// The characters of each of `names`.
pub open spec fn texts(names: Seq<String>) -> Seq<Seq<char>> {
    Seq::new(names.len(), |i: int| names[i]@)
}

fn thermometers_in(room: &crate::room::Room) -> (names: Vec<String>)
    ensures
        texts(names@) == thermometer_names(room.devices(), room.devices().len()),
{
    let devices = room.get_devices();
    let mut names: Vec<String> = Vec::new();
    let mut i: usize = 0;
    proof {
        assert(texts(names@) =~= thermometer_names(devices@, 0));
    }
    while i < devices.len()
        invariant
            i <= devices.len(),
            devices@ == room.devices(),
            texts(names@) == thermometer_names(devices@, i as nat),
        decreases devices.len() - i,
    {
        if let DeviceType::Thermometer(t) = &devices[i] {
            let ghost before = texts(names@);
            names.push(t.get_name().to_owned());
            proof {
                assert(texts(names@) =~= before.push(devices@[i as int].name()));
            }
        }
        i = i + 1;
    }
    names
}

/// Mounts a receiver for `address` in the room under `room_name`, given how
/// binding it went, and wires the thermometers of the room to it. Without that
/// room nothing is found; a failure to bind is a server error. Only a receiver
/// that was mounted changes anything.
pub fn mount_receiver(
    house: &mut House,
    room_name: &str,
    address: &str,
    bound: ConnectResult<()>,
) -> (response: Response)
    requires
        old(house).wf(),
    ensures
        final(house).wf(),
        if !old(house).room_map().contains_key(room_name@) {
            &&& is_bare(response, Status::NotFound)
            &&& *final(house) == *old(house)
        } else {
            let before = old(house).room_map()[room_name@];
            let after = final(house).room_map()[room_name@];
            match bound {
                Err(e) => {
                    &&& is_complaint(response, Status::ServerError, e.message())
                    &&& final(house).same_as(old(house))
                },
                Ok(()) => {
                    let names = thermometer_names(before.devices(), before.devices().len());
                    &&& is_bare(response, Status::Served)
                    &&& final(house).with_room_changed(old(house), room_name@, after)
                    &&& after.name() == before.name()
                    &&& after.device_names() == before.device_names()
                    &&& after.receiver() is Some
                    &&& after.receiver()->0.address() == address@
                    &&& after.receiver()->0.readings() == Map::<Seq<char>, u64>::empty()
                    &&& after.device_map() == wired_all(before.device_map(), names, names.len())
                },
            }
        },
{
    let ghost house_before = *house;
    match house.get_room_mut(room_name) {
        None => bare(Status::NotFound),
        Some(room) => {
            let ghost before = *room;
            match room.mount_receiver(address, bound) {
                Err(e) => {
                    proof {
                        lemma_room_put_back(house_before, room_name@);
                    }
                    complaint(Status::ServerError, e.to_string())
                },
                Ok(()) => {
                    let names = thermometers_in(room);
                    let ghost mounted = room.receiver();
                    let mut i: usize = 0;
                    while i < names.len()
                        invariant
                            i <= names.len(),
                            room.wf(),
                            room.name() == before.name(),
                            room.device_names() == before.device_names(),
                            room.receiver() == mounted,
                            mounted is Some,
                            room.device_map() == wired_all(
                                before.device_map(),
                                texts(names@),
                                i as nat,
                            ),
                        decreases names.len() - i,
                    {
                        room.connect_device_to_receiver(names[i].as_str());
                        i = i + 1;
                    }
                    bare(Status::Served)
                },
            }
        },
    }
}

} // verus!
