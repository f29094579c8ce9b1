use smart_house::devices::device::{Device, Summary};
use smart_house::devices::smartsocket::SmartSocket;
use smart_house::devices::thermometer::Thermometer;
use smart_house::devices::types::DeviceType;
use smart_house::errors::HouseUpdateErr;
use smart_house::formatter::{JsonFormatter, PlainTextFormatter};
use smart_house::house::House;
use smart_house::outlet::SmartSocketState;
use smart_house::protocol::ProtocolCommand;
use smart_house::sender::Sender;

#[test]
fn test_add_remove_room() {
    let mut house = House::new("home");

    let name = "living room";
    house.add_room(name).unwrap();
    assert!(house.get_room(name).is_some());

    house.remove_room(name).unwrap();
    assert!(house.get_room(name).is_none());
}

#[test]
fn test_error_on_adding_existing_room() {
    let mut house = House::new("home");
    let name = "living room";

    house.add_room(name).unwrap();
    if let Err(HouseUpdateErr::RoomAlreadyExistsError(_)) = house.add_room(name) {
        return;
    }
    panic!("adding already existing room to the house")
}

#[test]
fn test_iterate_all_rooms() {
    let mut house = House::new("home");
    let living_room = "living room";
    let kitchen = "kitchen";

    house.add_room(living_room).unwrap();
    house.add_room(kitchen).unwrap();

    let mut has_living_room = false;
    let mut has_kitchen = false;
    for room in house.get_rooms() {
        match room.get_name() {
            "living room" => has_living_room = true,
            "kitchen" => has_kitchen = true,
            _ => panic!("unexpected room in the house"),
        }
    }

    assert!(has_living_room);
    assert!(has_kitchen);
}

#[test]
fn test_change_room_in_iter_mut() {
    let mut house = House::new("home");
    let living_room = "living room";
    let socket = "socket near the bed";

    house.add_room(living_room).unwrap();

    for room in house.get_rooms_mut() {
        room.add_device(DeviceType::SmartSocket(SmartSocket::new(socket, "")))
            .unwrap();
    }

    let room = house.get_room(living_room).unwrap();
    let device = room.get_socket(socket).unwrap();
    assert_eq!(device.get_name(), socket);
}

#[test]
fn test_get_report() {
    let mut server = SmartSocketState::default();
    let sender = Sender::new(
        "127.0.0.1:11602".to_string(),
        "127.0.0.1:11702".to_string(),
        "thermometer on the wall".to_string(),
        23,
    );

    let mut house = House::new("home");
    let living_room = "living room";
    let socket = "socket near the bed";
    let thermometer = "thermometer on the wall";

    house.add_room(living_room).unwrap();
    let room = house.get_room_mut(living_room).unwrap();
    room.mount_receiver("127.0.0.1:11702", Ok(())).unwrap();

    room.add_device(DeviceType::SmartSocket(SmartSocket::new(socket, "")))
        .unwrap();
    room.add_device(DeviceType::Thermometer(Thermometer::new(thermometer, "")))
        .unwrap();
    room.connect_device_to_receiver(thermometer);

    let socket_ = room.get_socket_mut(socket).unwrap();
    socket_.connect("127.0.0.1:10702", Ok(())).unwrap();
    let request = socket_.request(ProtocolCommand::Switch).unwrap();
    let (ack, _) = server.serve(&request);
    socket_.switch(Ok(ack)).unwrap();

    room.ingest(&sender.payload());

    let socket_ = room.get_socket_mut(socket).unwrap();
    let request = socket_.request(ProtocolCommand::Status).unwrap();
    let (reply, _) = server.serve(&request);
    socket_.get_status(Ok(reply)).unwrap();

    let summary = house.summary();
    assert!(
        summary == "room: living room, device: socket near the bed, summary: turned on (2W)\nroom: living room, device: thermometer on the wall, summary: 23°C\n"
        || summary == "room: living room, device: thermometer on the wall, summary: 23°C\nroom: living room, device: socket near the bed, summary: turned on (2W)\n"
    );
}

#[test]
fn empty_house_has_empty_reports() {
    let house = House::new("home");
    assert_eq!(house.summary(), "");
    assert_eq!(house.summary_fmt(Box::new(PlainTextFormatter {})), "");
    assert_eq!(house.summary_fmt(Box::new(JsonFormatter {})), "[]");
}

#[test]
fn house_with_empty_rooms_has_empty_reports() {
    let mut house = House::new("home");
    house.add_room("a").unwrap();
    house.add_room("b").unwrap();
    assert_eq!(house.summary(), "");
    assert_eq!(house.summary_fmt(Box::new(JsonFormatter {})), "[]");
}

#[test]
fn single_thermometer_without_receiver_reads_zero() {
    let mut house = House::new("home");
    house.add_room("r").unwrap();
    house
        .get_room_mut("r")
        .unwrap()
        .add_device(DeviceType::Thermometer(Thermometer::new("t", "")))
        .unwrap();
    let summary = house.summary_fmt(Box::new(PlainTextFormatter {}));
    assert!(summary.contains("room: r, device: t, summary: 0°C\n"));
    assert_eq!(summary, "room: r, device: t, summary: 0°C\n");
}

#[test]
fn remove_absent_room_fails_and_changes_nothing() {
    let mut house = House::new("home");
    house.add_room("kitchen").unwrap();
    match house.remove_room("attic") {
        Err(HouseUpdateErr::RoomNotFoundError(name)) => assert_eq!(name, "attic"),
        other => panic!("unexpected outcome: {:?}", other),
    }
    assert_eq!(house.get_rooms().len(), 1);
    assert!(house.get_room("kitchen").is_some());
}

#[test]
fn add_present_room_keeps_its_devices() {
    let mut house = House::new("home");
    house.add_room("kitchen").unwrap();
    house
        .get_room_mut("kitchen")
        .unwrap()
        .add_device(DeviceType::SmartSocket(SmartSocket::new("kettle", "")))
        .unwrap();
    match house.add_room("kitchen") {
        Err(HouseUpdateErr::RoomAlreadyExistsError(name)) => assert_eq!(name, "kitchen"),
        other => panic!("unexpected outcome: {:?}", other),
    }
    assert_eq!(house.get_rooms().len(), 1);
    assert!(house.get_room("kitchen").unwrap().get_socket("kettle").is_some());
}

#[test]
fn rooms_are_walked_in_the_order_of_their_adding() {
    let mut house = House::new("home");
    house.add_room("c").unwrap();
    house.add_room("a").unwrap();
    house.add_room("b").unwrap();
    house.remove_room("a").unwrap();
    let names: Vec<&str> = house.get_rooms().iter().map(|r| r.get_name()).collect();
    assert_eq!(names, vec!["c", "b"]);
    assert!(house.get_room_mut("a").is_none());
}

#[test]
fn json_report_of_two_rooms_is_a_list_of_two_objects() {
    let mut house = House::new("home");
    house.add_room("bedroom").unwrap();
    house.add_room("kitchen").unwrap();
    house
        .get_room_mut("bedroom")
        .unwrap()
        .add_device(DeviceType::SmartSocket(SmartSocket::new("socket", "")))
        .unwrap();
    house
        .get_room_mut("kitchen")
        .unwrap()
        .add_device(DeviceType::Thermometer(Thermometer::new("thermometer", "")))
        .unwrap();
    let text = house.summary_fmt(Box::new(JsonFormatter {}));
    assert_eq!(
        text,
        "[{\"room\": \"bedroom\", \"device\": \"socket\", \"summary\": \"turned off (0W)\"}, {\"room\": \"kitchen\", \"device\": \"thermometer\", \"summary\": \"0°C\"}]"
    );
    let parsed: serde_json::Value = serde_json::from_str(&text).unwrap();
    let objects = parsed.as_array().unwrap();
    assert_eq!(objects.len(), 2);
    for object in objects {
        let object = object.as_object().unwrap();
        assert_eq!(object.len(), 3);
        assert!(object.contains_key("room"));
        assert!(object.contains_key("device"));
        assert!(object.contains_key("summary"));
    }
    assert_eq!(objects[0]["room"], "bedroom");
    assert_eq!(objects[1]["device"], "thermometer");
    let first = &text[..text.find('}').unwrap()];
    let room = first.find("\"room\"").unwrap();
    let device = first.find("\"device\"").unwrap();
    let summary = first.find("\"summary\"").unwrap();
    assert!(room < device && device < summary);
}

#[test]
fn outlet_off_then_switch_then_summary() {
    let mut server = SmartSocketState::default();
    let mut house = House::new("home");
    house.add_room("r").unwrap();
    let room = house.get_room_mut("r").unwrap();
    room.add_device(DeviceType::SmartSocket(SmartSocket::new("s", "")))
        .unwrap();
    let socket = room.get_socket_mut("s").unwrap();
    socket.connect("127.0.0.1:10701", Ok(())).unwrap();
    let request = socket.request(ProtocolCommand::Switch).unwrap();
    let (ack, _) = server.serve(&request);
    assert_eq!(ack.len(), 4);
    socket.switch(Ok(ack)).unwrap();
    let request = socket.request(ProtocolCommand::Status).unwrap();
    let (reply, _) = server.serve(&request);
    socket.get_status(Ok(reply)).unwrap();
    assert_eq!(socket.summary(), "turned on (2W)");
    assert_eq!(
        house.summary_fmt(Box::new(PlainTextFormatter {})),
        "room: r, device: s, summary: turned on (2W)\n"
    );
}
