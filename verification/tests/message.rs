use ipc_broker::message::{command_payload, command_target, Message, MsgType};

#[test]
fn new_message_keeps_fields_and_stamps_time() {
    let m = Message::new("device_1", MsgType::Telemetry, "temp=21.5C rpm=1035").unwrap();
    assert_eq!(m.device_id, "device_1");
    assert_eq!(m.msg_type, MsgType::Telemetry);
    assert_eq!(m.payload, "temp=21.5C rpm=1035");
    assert!(m.timestamp > 1_600_000_000);
}

#[test]
fn column_labels() {
    assert_eq!(MsgType::Telemetry.column_label(), "TELEMETRY");
    assert_eq!(MsgType::Heartbeat.column_label(), "HEARTBEAT");
    assert_eq!(MsgType::Fault.column_label(), "FAULT    ");
    assert_eq!(MsgType::Command.column_label(), "COMMAND  ");
}

#[test]
fn payload_of_command() {
    assert_eq!(command_payload("device_1", "reboot"), "target=device_1 cmd=reboot");
    assert_eq!(command_payload("", "x y"), "target= cmd=x y");
}

#[test]
fn target_of_payload() {
    assert_eq!(command_target("target=device_1 cmd=reboot"), Some("device_1".to_string()));
    assert_eq!(command_target("cmd=x  target=dev2"), Some("dev2".to_string()));
    assert_eq!(command_target("\ttarget=a\u{3000}target=b"), Some("a".to_string()));
    assert_eq!(command_target("target="), Some(String::new()));
}

#[test]
fn payload_without_target() {
    assert_eq!(command_target("register"), None);
    assert_eq!(command_target(""), None);
    assert_eq!(command_target("xtarget=a target"), None);
    assert_eq!(command_target("   "), None);
}

#[test]
fn routing_round_trip() {
    for (t, c) in [("device_1", "reboot"), ("c_sensor_1", "set rate 5"), ("x", "")] {
        let p = command_payload(t, c);
        assert_eq!(command_target(&p), Some(t.to_string()));
    }
}

#[test]
fn message_at_given_time() {
    let m = Message::new_at("device_1", MsgType::Telemetry, "temp=21.5C rpm=1035", 1_712_345_678);
    assert_eq!(m.device_id, "device_1");
    assert_eq!(m.msg_type, MsgType::Telemetry);
    assert_eq!(m.timestamp, 1_712_345_678);
    assert_eq!(m.payload, "temp=21.5C rpm=1035");
    assert_eq!(Message::new_at("monitor", MsgType::Command, "register", 0).timestamp, 0);
}
