use smart_house::admin::{
    add_device, add_room, connect_socket, get_report, get_rooms, mount_receiver, remove_device,
    remove_room, switch_socket, Body, JsonError, Response, Room, RoomDevice, Status,
};
use smart_house::connection::{ConnectError, IoError, IoErrorKind};
use smart_house::house::House;

fn failure(message: &str) -> ConnectError {
    ConnectError::Io(IoError {
        kind: IoErrorKind::Other,
        message: message.to_string(),
    })
}

fn complaint_of(response: &Response) -> &str {
    match &response.body {
        Body::Error(e) => e.get_error(),
        other => panic!("no complaint: {:?}", other),
    }
}

fn is_bare(response: &Response) -> bool {
    matches!(response.body, Body::Empty)
}

#[test]
fn status_numbers() {
    assert_eq!(Status::Served.code(), 200);
    assert_eq!(Status::Created.code(), 201);
    assert_eq!(Status::NoContent.code(), 204);
    assert_eq!(Status::BadRequest.code(), 400);
    assert_eq!(Status::NotFound.code(), 404);
    assert_eq!(Status::ServerError.code(), 500);
}

#[test]
fn listed_values_keep_what_they_were_given() {
    assert_eq!(JsonError::new("wrong".to_string()).get_error(), "wrong");
    let device = RoomDevice::new("lamp", "by the door");
    assert_eq!(device.get_name(), "lamp");
    assert_eq!(device.get_description(), "by the door");
    let room = Room::new("hall", vec![device]);
    assert_eq!(room.get_name(), "hall");
    assert_eq!(room.get_devices().len(), 1);
}

#[test]
fn rooms_are_added_and_removed() {
    let mut house = House::new("home");
    let created = add_room(&mut house, "kitchen");
    assert_eq!(created.status, Status::Created);
    assert!(is_bare(&created));
    let again = add_room(&mut house, "kitchen");
    assert_eq!(again.status, Status::BadRequest);
    assert_eq!(complaint_of(&again), "room \"kitchen\" already exists");
    let removed = remove_room(&mut house, "kitchen");
    assert_eq!(removed.status, Status::NoContent);
    assert!(is_bare(&removed));
    let missing = remove_room(&mut house, "kitchen");
    assert_eq!(missing.status, Status::BadRequest);
    assert_eq!(complaint_of(&missing), "room \"kitchen\" not found");
    assert!(house.get_room("kitchen").is_none());
}

#[test]
fn devices_are_added_and_removed() {
    let mut house = House::new("home");
    add_room(&mut house, "kitchen");
    let nowhere = add_device(&mut house, "attic", "socket", "kettle", "");
    assert_eq!(nowhere.status, Status::NotFound);
    assert!(is_bare(&nowhere));
    let unknown = add_device(&mut house, "kitchen", "toaster", "kettle", "");
    assert_eq!(unknown.status, Status::BadRequest);
    assert_eq!(complaint_of(&unknown), "unknown device type");
    let socket = add_device(&mut house, "kitchen", "socket", "kettle", "boils");
    assert_eq!(socket.status, Status::Created);
    assert!(is_bare(&socket));
    let thermometer = add_device(&mut house, "kitchen", "thermometer", "oven", "bakes");
    assert_eq!(thermometer.status, Status::Created);
    let taken = add_device(&mut house, "kitchen", "thermometer", "kettle", "");
    assert_eq!(taken.status, Status::BadRequest);
    assert_eq!(complaint_of(&taken), "device \"kettle\" already exists");
    {
        let room = house.get_room("kitchen").unwrap();
        assert!(room.get_socket("kettle").is_some());
        assert!(room.get_thermometer("oven").is_some());
        assert_eq!(room.get_devices().len(), 2);
    }
    let nowhere = remove_device(&mut house, "attic", "kettle");
    assert_eq!(nowhere.status, Status::NotFound);
    let removed = remove_device(&mut house, "kitchen", "kettle");
    assert_eq!(removed.status, Status::NoContent);
    assert!(is_bare(&removed));
    let missing = remove_device(&mut house, "kitchen", "kettle");
    assert_eq!(missing.status, Status::BadRequest);
    assert_eq!(complaint_of(&missing), "device \"kettle\" not found");
    assert_eq!(house.get_room("kitchen").unwrap().get_devices().len(), 1);
}

#[test]
fn rooms_are_listed_with_their_devices() {
    let mut house = House::new("home");
    let empty = get_rooms(&house);
    assert_eq!(empty.status, Status::Served);
    match &empty.body {
        Body::Rooms(rooms) => assert!(rooms.is_empty()),
        other => panic!("no listing: {:?}", other),
    }
    add_room(&mut house, "kitchen");
    add_room(&mut house, "hall");
    add_device(&mut house, "kitchen", "socket", "kettle", "boils");
    add_device(&mut house, "kitchen", "thermometer", "oven", "bakes");
    let listing = get_rooms(&house);
    assert_eq!(listing.status, Status::Served);
    match &listing.body {
        Body::Rooms(rooms) => {
            assert_eq!(rooms.len(), 2);
            assert_eq!(rooms[0].get_name(), "kitchen");
            assert_eq!(rooms[1].get_name(), "hall");
            assert!(rooms[1].get_devices().is_empty());
            let devices = rooms[0].get_devices();
            assert_eq!(devices.len(), 2);
            assert_eq!(devices[0].get_name(), "kettle");
            assert_eq!(devices[0].get_description(), "boils");
            assert_eq!(devices[1].get_name(), "oven");
            assert_eq!(devices[1].get_description(), "bakes");
        }
        other => panic!("no listing: {:?}", other),
    }
}

#[test]
fn report_is_the_json_summary() {
    let mut house = House::new("home");
    let empty = get_report(&house);
    assert_eq!(empty.status, Status::Served);
    match &empty.body {
        Body::Report(text) => assert_eq!(text, "[]"),
        other => panic!("no report: {:?}", other),
    }
    add_room(&mut house, "kitchen");
    add_device(&mut house, "kitchen", "thermometer", "oven", "");
    match &get_report(&house).body {
        Body::Report(text) => assert_eq!(
            text,
            "[{\"room\": \"kitchen\", \"device\": \"oven\", \"summary\": \"0°C\"}]"
        ),
        other => panic!("no report: {:?}", other),
    }
}

#[test]
fn mounting_wires_the_thermometers_of_the_room() {
    let mut house = House::new("home");
    add_room(&mut house, "kitchen");
    add_room(&mut house, "hall");
    add_device(&mut house, "kitchen", "thermometer", "oven", "");
    add_device(&mut house, "kitchen", "socket", "kettle", "");
    add_device(&mut house, "kitchen", "thermometer", "fridge", "");
    add_device(&mut house, "hall", "thermometer", "door", "");

    let nowhere = mount_receiver(&mut house, "attic", "127.0.0.1:11701", Ok(()));
    assert_eq!(nowhere.status, Status::NotFound);
    let failed = mount_receiver(
        &mut house,
        "kitchen",
        "127.0.0.1:11701",
        Err(failure("address in use")),
    );
    assert_eq!(failed.status, Status::ServerError);
    assert_eq!(complaint_of(&failed), "IO error: address in use");
    house.get_room_mut("kitchen").unwrap().ingest("oven:\t180");
    match &get_report(&house).body {
        Body::Report(text) => assert!(text.contains("\"summary\": \"0°C\"")),
        other => panic!("no report: {:?}", other),
    }

    let mounted = mount_receiver(&mut house, "kitchen", "127.0.0.1:11701", Ok(()));
    assert_eq!(mounted.status, Status::Served);
    assert!(is_bare(&mounted));
    let room = house.get_room_mut("kitchen").unwrap();
    room.ingest("oven:\t180");
    room.ingest("fridge:\t4");
    room.ingest("door:\t12");
    house.get_room_mut("hall").unwrap().ingest("door:\t12");
    match &get_report(&house).body {
        Body::Report(text) => assert_eq!(
            text,
            "[{\"room\": \"kitchen\", \"device\": \"oven\", \"summary\": \"180°C\"}, {\"room\": \"kitchen\", \"device\": \"kettle\", \"summary\": \"turned off (0W)\"}, {\"room\": \"kitchen\", \"device\": \"fridge\", \"summary\": \"4°C\"}, {\"room\": \"hall\", \"device\": \"door\", \"summary\": \"0°C\"}]"
        ),
        other => panic!("no report: {:?}", other),
    }
}

#[test]
fn outlets_are_connected_and_switched() {
    let mut house = House::new("home");
    add_room(&mut house, "kitchen");
    add_device(&mut house, "kitchen", "socket", "kettle", "");
    add_device(&mut house, "kitchen", "thermometer", "oven", "");

    let no_room = connect_socket(&mut house, "attic", "kettle", "127.0.0.1:10701", Ok(()));
    assert_eq!(no_room.status, Status::NotFound);
    let no_socket = connect_socket(&mut house, "kitchen", "oven", "127.0.0.1:10701", Ok(()));
    assert_eq!(no_socket.status, Status::NotFound);
    let absent = connect_socket(&mut house, "kitchen", "toaster", "127.0.0.1:10701", Ok(()));
    assert_eq!(absent.status, Status::NotFound);

    let unconnected = switch_socket(&house, "kitchen", "kettle", Ok("OK\r\n".to_string()));
    assert_eq!(unconnected.status, Status::ServerError);
    assert_eq!(
        complaint_of(&unconnected),
        "IO error: no connection established to kettle"
    );

    let refused = connect_socket(
        &mut house,
        "kitchen",
        "kettle",
        "127.0.0.1:10701",
        Err(failure("connection refused")),
    );
    assert_eq!(refused.status, Status::ServerError);
    assert_eq!(complaint_of(&refused), "IO error: connection refused");
    assert!(house
        .get_room("kitchen")
        .unwrap()
        .get_socket("kettle")
        .unwrap()
        .check_connection()
        .is_err());

    let connected = connect_socket(&mut house, "kitchen", "kettle", "127.0.0.1:10701", Ok(()));
    assert_eq!(connected.status, Status::Served);
    assert!(is_bare(&connected));

    let switched = switch_socket(&house, "kitchen", "kettle", Ok("OK\r\n".to_string()));
    assert_eq!(switched.status, Status::Served);
    assert!(is_bare(&switched));
    let broken = switch_socket(&house, "kitchen", "kettle", Err(failure("broken pipe")));
    assert_eq!(broken.status, Status::ServerError);
    assert_eq!(complaint_of(&broken), "IO error: broken pipe");
    let no_room = switch_socket(&house, "attic", "kettle", Ok("OK\r\n".to_string()));
    assert_eq!(no_room.status, Status::NotFound);
    let no_socket = switch_socket(&house, "kitchen", "oven", Ok("OK\r\n".to_string()));
    assert_eq!(no_socket.status, Status::NotFound);
}
