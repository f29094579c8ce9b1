use std::cell::Cell;
use std::rc::Rc;

use smart_house::connection::{ConnectError, ConnectResult, IoError, IoErrorKind};
use smart_house::devices::device::{Device, Summary, Switcher, Unrecorded};
use smart_house::devices::recorded::Recorded;
use smart_house::devices::retriable_switcher::Retry;
use smart_house::devices::smartsocket::{
    reply_is_whole, SmartSocket, SocketState, STATUS_PATTERN, STATUS_REPLY_SIZE, SWITCH_REPLY_SIZE,
};
use smart_house::devices::thermometer::Thermometer;
use smart_house::devices::types::DeviceType;
use smart_house::outlet::SmartSocketState;
use smart_house::protocol::ProtocolCommand;
use smart_house::receiver::Receiver;
use smart_house::sender::Sender;

fn ask_is_on(socket: &mut SmartSocket, server: &mut SmartSocketState) -> ConnectResult<bool> {
    let request = socket.request(ProtocolCommand::Status)?;
    let (reply, _) = server.serve(&request);
    socket.is_on(Ok(reply))
}

fn ask_switch(socket: &mut SmartSocket, server: &mut SmartSocketState) -> ConnectResult<()> {
    let request = socket.request(ProtocolCommand::Switch)?;
    let (ack, _) = server.serve(&request);
    socket.switch(Ok(ack))
}

fn broken_pipe() -> ConnectError {
    ConnectError::Io(IoError {
        kind: IoErrorKind::Other,
        message: "broken pipe".to_string(),
    })
}

#[test]
fn test_switch_socket() {
    let mut server = SmartSocketState::default();
    let mut socket = SmartSocket::new("socket", "description");
    socket.connect("127.0.0.1:10703", Ok(())).unwrap();

    assert!(!ask_is_on(&mut socket, &mut server).unwrap());
    ask_switch(&mut socket, &mut server).unwrap();
    assert!(ask_is_on(&mut socket, &mut server).unwrap());
    ask_switch(&mut socket, &mut server).unwrap();
    assert!(!ask_is_on(&mut socket, &mut server).unwrap());
}

#[test]
fn test_get_temperature() {
    let thermometer = Thermometer::new("t", "description");
    assert!((thermometer.get_temperature(&None) as f64) < f64::EPSILON);
}

#[test]
fn test_get_temperature_from_receiver() {
    let sender = Sender::new(
        "127.0.0.1:11601".to_string(),
        "127.0.0.1:11701".to_string(),
        "thermometer on the wall".to_string(),
        25,
    );
    let mut thermometer = Thermometer::new("thermometer on the wall", "");
    let mut receiver = Receiver::new("127.0.0.1:11701");
    thermometer.add_receiver();
    receiver.ingest(&sender.payload());
    let receiver = Some(receiver);
    assert!((thermometer.get_temperature(&receiver) as f64 - 25.0).abs() < f64::EPSILON);
    assert_eq!(thermometer.summary(&receiver), "25°C");
}

#[test]
fn unwired_thermometer_reads_zero_beside_a_receiver() {
    let thermometer = Thermometer::new("t", "on the wall");
    let mut receiver = Receiver::new("127.0.0.1:11701");
    receiver.ingest("t:\t31");
    let receiver = Some(receiver);
    assert_eq!(thermometer.get_temperature(&receiver), 0);
    assert_eq!(thermometer.summary(&receiver), "0°C");
    assert_eq!(thermometer.get_name(), "t");
    assert_eq!(thermometer.get_description(), "on the wall");
}

#[test]
fn wired_thermometer_reads_zero_until_it_is_heard() {
    let mut thermometer = Thermometer::new("t", "");
    thermometer.add_receiver();
    assert_eq!(thermometer.get_temperature(&None), 0);
    let mut receiver = Receiver::new("127.0.0.1:11701");
    receiver.ingest("other:\t31");
    let receiver = Some(receiver);
    assert_eq!(thermometer.get_temperature(&receiver), 0);
}

#[test]
fn device_type_hands_on_to_its_variant() {
    let socket = DeviceType::SmartSocket(SmartSocket::new("s", "an outlet"));
    let thermometer = DeviceType::Thermometer(Thermometer::new("t", "a sensor"));
    assert_eq!(socket.get_name(), "s");
    assert_eq!(socket.get_description(), "an outlet");
    assert_eq!(thermometer.get_name(), "t");
    assert_eq!(thermometer.get_description(), "a sensor");
    assert_eq!(socket.summary(&None), "turned off (0W)");
    assert_eq!(thermometer.summary(&None), "0°C");
}

#[test]
fn unconnected_outlet_fails_not_connected() {
    let mut socket = SmartSocket::new("lamp", "");
    match socket.check_connection() {
        Err(ConnectError::Io(e)) => {
            assert_eq!(e.kind, IoErrorKind::NotConnected);
            assert_eq!(e.message, "no connection established to lamp");
        }
        Ok(()) => panic!("connected without connecting"),
    }
    assert!(socket.request(ProtocolCommand::Status).is_err());
    match socket.switch(Ok("OK\r\n".to_string())) {
        Err(e) => assert_eq!(e.to_string(), "IO error: no connection established to lamp"),
        Ok(()) => panic!("switched without a connection"),
    }
    assert!(socket.is_on(Ok("is on (2W)\r\n".to_string())).is_err());
    assert!(socket
        .get_consumed_power(Ok("is on (2W)\r\n".to_string()))
        .is_err());
    assert!(socket.get_status(Ok("is on (2W)\r\n".to_string())).is_err());
    assert_eq!(socket.summary(), "turned off (0W)");
}

#[test]
fn failed_dial_leaves_the_outlet_unconnected() {
    let mut socket = SmartSocket::new("lamp", "");
    match socket.connect("127.0.0.1:1", Err(broken_pipe())) {
        Err(e) => assert_eq!(e.to_string(), "IO error: broken pipe"),
        Ok(()) => panic!("connected on a failure"),
    }
    assert!(socket.check_connection().is_err());
    socket.connect("127.0.0.1:1", Ok(())).unwrap();
    assert!(socket.check_connection().is_ok());
    socket.connect("127.0.0.1:2", Err(broken_pipe())).unwrap_err();
    assert!(socket.check_connection().is_ok());
}

#[test]
fn socket_failures_are_handed_on() {
    let mut socket = SmartSocket::new("lamp", "");
    socket.connect("127.0.0.1:1", Ok(())).unwrap();
    assert_eq!(
        socket.request(ProtocolCommand::Status).unwrap(),
        "status\r\n"
    );
    assert_eq!(
        socket.request(ProtocolCommand::Switch).unwrap(),
        "switch\r\n"
    );
    assert_eq!(
        socket.get_status(Ok("is on (7W)\r\n".to_string())).unwrap(),
        SocketState {
            is_on: true,
            power_consumption: 7
        }
    );
    match socket.get_status(Err(broken_pipe())) {
        Err(e) => assert_eq!(e.to_string(), "IO error: broken pipe"),
        Ok(_) => panic!("a status without an answer"),
    }
    // the failure has not touched the status that was heard last
    assert_eq!(socket.summary(), "turned on (7W)");
    match socket.switch(Err(broken_pipe())) {
        Err(e) => assert_eq!(e.to_string(), "IO error: broken pipe"),
        Ok(()) => panic!("a switch without an acknowledgement"),
    }
    // the acknowledgement is four bytes, whatever they are
    socket.switch(Ok("nope".to_string())).unwrap();
    assert_eq!(
        socket.get_consumed_power(Ok("is on (15W)\r\n".to_string())).unwrap(),
        15
    );
    assert!(!socket.is_on(Ok("is off\r\n".to_string())).unwrap());
    assert_eq!(socket.summary(), "turned off (0W)");
}

#[test]
fn status_lines_are_read_back() {
    assert_eq!(
        SocketState::parse("is on (2W)\r\n"),
        SocketState {
            is_on: true,
            power_consumption: 2
        }
    );
    assert_eq!(
        SocketState::parse("is on (12345W)\r\n"),
        SocketState {
            is_on: true,
            power_consumption: 12345
        }
    );
    assert_eq!(
        SocketState::parse("is on (0W)\r\n"),
        SocketState {
            is_on: true,
            power_consumption: 0
        }
    );
    assert_eq!(SocketState::parse("is off\r\n"), SocketState::default());
    let mut server = SmartSocketState::default();
    assert_eq!(SocketState::parse(&server.status()), SocketState::default());
    server.switch();
    assert_eq!(
        SocketState::parse(&server.status()),
        SocketState {
            is_on: true,
            power_consumption: 2
        }
    );
}

#[test]
fn unparseable_status_means_off() {
    let off = SocketState {
        is_on: false,
        power_consumption: 0,
    };
    assert_eq!(SocketState::parse(""), off);
    assert_eq!(SocketState::parse("garbage"), off);
    assert_eq!(SocketState::parse("is on (2W)"), off);
    assert_eq!(SocketState::parse("is on (W)\r\n"), off);
    assert_eq!(SocketState::parse("is on (-2W)\r\n"), off);
    assert_eq!(SocketState::parse("Unknown command: x\r\n"), off);
    // digits that are no ASCII digits, and a power that no usize holds
    assert_eq!(SocketState::parse("is on (\u{0663}W)\r\n"), off);
    assert_eq!(
        SocketState::parse("is on (99999999999999999999999999W)\r\n"),
        off
    );
}

#[test]
fn status_from_what_the_search_found() {
    assert_eq!(SocketState::from_capture(None), SocketState::default());
    assert_eq!(
        SocketState::from_capture(Some("42".to_string())),
        SocketState {
            is_on: true,
            power_consumption: 42
        }
    );
    assert_eq!(
        SocketState::from_capture(Some("007".to_string())),
        SocketState {
            is_on: true,
            power_consumption: 7
        }
    );
    assert_eq!(
        SocketState::from_capture(Some("".to_string())),
        SocketState::default()
    );
    assert_eq!(
        SocketState::from_capture(Some("4 2".to_string())),
        SocketState::default()
    );
}

#[test]
fn status_summary_words() {
    let on = SocketState {
        is_on: true,
        power_consumption: 2,
    };
    assert_eq!(on.summary(), "turned on (2W)");
    assert_eq!(SocketState::default().summary(), "turned off (0W)");
    let big = SocketState {
        is_on: true,
        power_consumption: 1500,
    };
    assert_eq!(big.summary(), "turned on (1500W)");
}

struct Flaky {
    succeeds_on: usize,
    calls: Rc<Cell<usize>>,
}

impl Unrecorded for Flaky {
    fn switch(&mut self) -> ConnectResult<()> {
        let call = self.calls.get() + 1;
        self.calls.set(call);
        if call >= self.succeeds_on {
            Ok(())
        } else {
            Err(ConnectError::Io(IoError {
                kind: IoErrorKind::Other,
                message: format!("failure {}", call),
            }))
        }
    }
}

fn retry_run(succeeds_on: usize, attempts: usize) -> (ConnectResult<()>, usize) {
    let calls = Rc::new(Cell::new(0));
    let flaky = Flaky {
        succeeds_on,
        calls: calls.clone(),
    };
    let mut retry = Retry::new(Box::new(Recorded::new(flaky)), attempts);
    let outcome = retry.switch();
    (outcome, calls.get())
}

#[test]
fn retry_stops_at_the_first_success() {
    for k in 1..=5 {
        let (outcome, calls) = retry_run(k, 5);
        assert!(outcome.is_ok());
        assert_eq!(calls, k);
    }
    let (outcome, calls) = retry_run(1, 1);
    assert!(outcome.is_ok());
    assert_eq!(calls, 1);
}

#[test]
fn retry_hands_back_the_last_failure() {
    let (outcome, calls) = retry_run(4, 3);
    assert_eq!(calls, 3);
    match outcome {
        Err(e) => assert_eq!(e.to_string(), "IO error: failure 3"),
        Ok(()) => panic!("success without a success"),
    }
    let (outcome, calls) = retry_run(100, 1);
    assert_eq!(calls, 1);
    assert_eq!(outcome.unwrap_err().to_string(), "IO error: failure 1");
}

#[test]
fn retry_without_attempts_asks_nothing() {
    let (outcome, calls) = retry_run(1, 0);
    assert!(outcome.is_ok());
    assert_eq!(calls, 0);
}

#[test]
fn retries_can_be_nested() {
    let calls = Rc::new(Cell::new(0));
    let flaky = Flaky {
        succeeds_on: 5,
        calls: calls.clone(),
    };
    let inner = Retry::new(Box::new(Recorded::new(flaky)), 2);
    let mut outer = Retry::new(Box::new(inner), 3);
    assert!(outer.switch().is_ok());
    assert_eq!(calls.get(), 5);
}

#[test]
fn status_reply_is_whole_at_its_line_end() {
    assert!(!reply_is_whole(b""));
    assert!(!reply_is_whole(b"is o"));
    assert!(!reply_is_whole(b"is off\r"));
    assert!(!reply_is_whole(b"\n"));
    assert!(reply_is_whole(b"\r\n"));
    assert!(reply_is_whole(b"is off\r\n"));
    assert!(reply_is_whole(b"is on (2W)\r\n"));
    assert!(!reply_is_whole(b"is on (12345W)\r"));
    assert!(reply_is_whole(b"is on (12345W)\r\n"));
    assert!(reply_is_whole(b"0123456789abcdef"));
    assert!(reply_is_whole(b"0123456789abcdefg"));
    assert_eq!(STATUS_REPLY_SIZE, 16);
    assert_eq!(SWITCH_REPLY_SIZE, 4);
    assert_eq!(STATUS_PATTERN, "is on \\((\\d+)W\\)\\r\\n");
}

#[test]
fn connection_errors_are_named_beside_the_outlet_too() {
    let e: smart_house::devices::smartsocket::ConnectError = broken_pipe();
    let outcome: smart_house::devices::smartsocket::ConnectResult<()> = Err(e);
    assert_eq!(outcome.unwrap_err().to_string(), "IO error: broken pipe");
}

#[test]
fn status_of_every_power_reads_back() {
    for power in [0usize, 1, 2, 9, 10, 99, 100, 2000, 65535] {
        let line = format!("is on ({}W)\r\n", power);
        assert!(line.len() <= STATUS_REPLY_SIZE);
        assert_eq!(
            SocketState::parse(&line),
            SocketState {
                is_on: true,
                power_consumption: power
            }
        );
    }
}

struct ThirdTimeLucky {
    calls: Rc<Cell<usize>>,
}

impl Unrecorded for ThirdTimeLucky {
    fn switch(&mut self) -> ConnectResult<()> {
        let n = self.calls.get() + 1;
        self.calls.set(n);
        if n < 3 {
            Err(ConnectError::Io(IoError {
                kind: IoErrorKind::Other,
                message: n.to_string(),
            }))
        } else {
            Ok(())
        }
    }
}

#[test]
fn retry_of_a_switcher_that_fails_twice() {
    let calls = Rc::new(Cell::new(0));
    let inner = ThirdTimeLucky {
        calls: calls.clone(),
    };
    let mut r3 = Retry::new(Box::new(Recorded::new(inner)), 3);
    assert!(r3.switch().is_ok());
    assert_eq!(calls.get(), 3);

    let calls = Rc::new(Cell::new(0));
    let inner = ThirdTimeLucky {
        calls: calls.clone(),
    };
    let mut r2 = Retry::new(Box::new(Recorded::new(inner)), 2);
    match r2.switch() {
        Err(ConnectError::Io(e)) => assert_eq!(e.message, "2"),
        Ok(()) => panic!("success after two failures"),
    }
    assert_eq!(calls.get(), 2);
}

#[test]
fn one_attempt_asks_once_and_hands_the_answer_back() {
    let (outcome, calls) = retry_run(1, 1);
    assert!(outcome.is_ok());
    assert_eq!(calls, 1);
    let (outcome, calls) = retry_run(2, 1);
    assert_eq!(outcome.unwrap_err().to_string(), "IO error: failure 1");
    assert_eq!(calls, 1);
}

#[test]
fn a_record_hands_its_switcher_back() {
    let calls = Rc::new(Cell::new(0));
    let mut recorded = Recorded::new(Flaky {
        succeeds_on: 2,
        calls: calls.clone(),
    });
    assert!(recorded.switch().is_err());
    assert!(recorded.switch().is_ok());
    let mut flaky = recorded.into_inner();
    assert!(Unrecorded::switch(&mut flaky).is_ok());
    assert_eq!(calls.get(), 3);
}
