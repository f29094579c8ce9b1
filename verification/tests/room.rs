use smart_house::connection::{ConnectError, IoError, IoErrorKind};
use smart_house::devices::device::Device;
use smart_house::devices::smartsocket::SmartSocket;
use smart_house::devices::thermometer::Thermometer;
use smart_house::devices::types::DeviceType;
use smart_house::errors::HouseUpdateErr;
use smart_house::room::Room;

#[test]
fn test_add_remove_device() {
    let mut room = Room::new("bedroom");

    let name = "socket near the bed";
    room.add_device(DeviceType::SmartSocket(SmartSocket::new(name, "")))
        .unwrap();
    assert!(room.get_socket(name).is_some());

    room.remove_device(name).unwrap();
    assert!(room.get_socket(name).is_none());
}

#[test]
fn test_error_on_remove_not_existing_device() {
    let mut room = Room::new("bedroom");
    let name = "socket near the bed";

    if let Err(HouseUpdateErr::DeviceNotFoundError(_)) = room.remove_device(name) {
        return;
    }
    panic!("remove not existing device from the room")
}

#[test]
fn test_iterate_all_devices() {
    let mut room = Room::new("bedroom");
    let socket = "socket near the bed";
    let thermometer = "thermometer on the wall";

    room.add_device(DeviceType::SmartSocket(SmartSocket::new(socket, "")))
        .unwrap();
    room.add_device(DeviceType::Thermometer(Thermometer::new(thermometer, "")))
        .unwrap();

    let mut has_socket = false;
    let mut has_thermometer = false;
    for device in room.get_devices() {
        match device.get_name() {
            "socket near the bed" => has_socket = true,
            "thermometer on the wall" => has_thermometer = true,
            _ => panic!("unexpected device in the room"),
        }
    }

    assert!(has_socket);
    assert!(has_thermometer);
}

#[test]
fn add_present_device_fails_and_changes_nothing() {
    let mut room = Room::new("bedroom");
    room.add_device(DeviceType::SmartSocket(SmartSocket::new("lamp", "first")))
        .unwrap();
    match room.add_device(DeviceType::Thermometer(Thermometer::new("lamp", "second"))) {
        Err(HouseUpdateErr::DeviceAlreadyExistsError(name)) => assert_eq!(name, "lamp"),
        other => panic!("unexpected outcome: {:?}", other),
    }
    assert_eq!(room.get_devices().len(), 1);
    assert_eq!(room.get_socket("lamp").unwrap().get_description(), "first");
    assert!(room.get_thermometer("lamp").is_none());
}

#[test]
fn typed_lookup_tells_the_kinds_apart() {
    let mut room = Room::new("bedroom");
    room.add_device(DeviceType::SmartSocket(SmartSocket::new("s", "")))
        .unwrap();
    room.add_device(DeviceType::Thermometer(Thermometer::new("t", "")))
        .unwrap();
    assert!(room.get_socket("s").is_some());
    assert!(room.get_socket("t").is_none());
    assert!(room.get_socket("x").is_none());
    assert!(room.get_thermometer("t").is_some());
    assert!(room.get_thermometer("s").is_none());
    assert!(room.get_thermometer("x").is_none());
    assert!(room.get_socket_mut("t").is_none());
    assert!(room.get_thermometer_mut("s").is_none());
    assert!(room.get_socket_mut("s").is_some());
    assert!(room.get_thermometer_mut("t").is_some());
    assert_eq!(room.get_devices().len(), 2);
}

#[test]
fn devices_can_be_changed_where_they_stand() {
    let mut room = Room::new("bedroom");
    room.add_device(DeviceType::SmartSocket(SmartSocket::new("s", "")))
        .unwrap();
    for device in room.get_devices_mut() {
        if let DeviceType::SmartSocket(s) = device {
            s.connect("127.0.0.1:1", Ok(())).unwrap();
        }
    }
    assert!(room.get_socket("s").unwrap().check_connection().is_ok());
}

#[test]
fn mounting_fails_with_the_failure_to_bind() {
    let mut room = Room::new("bedroom");
    let failure = ConnectError::Io(IoError {
        kind: IoErrorKind::Other,
        message: "address in use".to_string(),
    });
    match room.mount_receiver("127.0.0.1:11701", Err(failure)) {
        Err(e) => assert_eq!(e.to_string(), "IO error: address in use"),
        Ok(()) => panic!("mounted without a socket"),
    }
    room.add_device(DeviceType::Thermometer(Thermometer::new("t", "")))
        .unwrap();
    room.connect_device_to_receiver("t");
    room.ingest("t:\t21");
    let receiver = None;
    assert_eq!(room.get_thermometer("t").unwrap().get_temperature(&receiver), 0);
    assert_eq!(room.report_items().len(), 5);
}

#[test]
fn wiring_needs_a_receiver_and_a_thermometer() {
    let mut room = Room::new("bedroom");
    room.add_device(DeviceType::Thermometer(Thermometer::new("early", "")))
        .unwrap();
    room.add_device(DeviceType::Thermometer(Thermometer::new("late", "")))
        .unwrap();
    room.add_device(DeviceType::SmartSocket(SmartSocket::new("s", "")))
        .unwrap();
    // no receiver yet: nothing happens
    room.connect_device_to_receiver("early");
    room.mount_receiver("127.0.0.1:11701", Ok(())).unwrap();
    room.connect_device_to_receiver("late");
    room.connect_device_to_receiver("s");
    room.connect_device_to_receiver("nobody");
    room.ingest("early:\t17");
    room.ingest("late:\t19");
    let mut house = smart_house::house::House::new("home");
    house.add_room("holder").unwrap();
    let items = room.report_items();
    let text = smart_house::report::HouseReport::new(
        items,
        Box::new(smart_house::formatter::PlainTextFormatter {}),
    )
    .summary();
    assert_eq!(
        text,
        "room: bedroom, device: early, summary: 0°C\nroom: bedroom, device: late, summary: 19°C\nroom: bedroom, device: s, summary: turned off (0W)\n"
    );
}

#[test]
fn devices_are_walked_one_at_a_time() {
    let mut room = Room::new("bedroom");
    let empty: Vec<&str> = Vec::new();
    let mut walk = room.iter_devices();
    assert!(walk.next().is_none());
    assert!(walk.next().is_none());
    assert!(empty.is_empty());
    room.add_device(DeviceType::SmartSocket(SmartSocket::new("s", "")))
        .unwrap();
    room.add_device(DeviceType::Thermometer(Thermometer::new("t", "")))
        .unwrap();
    let mut walk = room.iter_devices();
    let mut names = Vec::new();
    while let Some(device) = walk.next() {
        names.push(device.get_name());
    }
    assert_eq!(names, vec!["s", "t"]);
    assert!(walk.next().is_none());
}
