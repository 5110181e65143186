use ipc_broker::broker::{BrokerState, Dispatch, Session};
use ipc_broker::health::{DeviceHealth, DeviceState, HealthChange};
use ipc_broker::message::{command_payload, Message, MsgType};

/// Milliseconds as nanosecond readings of the broker's clock.
fn ms(v: u64) -> u64 {
    v * 1_000_000
}

fn msg(id: &str, t: MsgType, payload: &str) -> Message {
    Message { device_id: id.to_string(), msg_type: t, timestamp: 1_712_345_678, payload: payload.to_string() }
}

fn session(conn: u64) -> Session {
    Session { conn, device_id: None }
}

#[test]
fn empty_broker() {
    let b = BrokerState::new();
    assert_eq!(b.msg_count(), 0);
    assert!(b.monitors().is_empty());
    assert_eq!(b.health_of("device_1"), None);
    assert_eq!(b.route_of("device_1"), None);
}

#[test]
fn first_message_adds_nominal_record() {
    let mut b = BrokerState::new();
    assert_eq!(b.record_message_at("device_1", MsgType::Telemetry, ms(5_000)), None);
    assert_eq!(
        b.health_of("device_1"),
        Some(DeviceHealth { state: DeviceState::Nominal, last_heartbeat: ms(5_000), fault_count: 0 })
    );
    assert_eq!(b.msg_count(), 1);
}

#[test]
fn telemetry_keeps_heartbeat_time() {
    let mut b = BrokerState::new();
    b.record_message_at("d", MsgType::Heartbeat, ms(1_000));
    b.record_message_at("d", MsgType::Telemetry, ms(2_500));
    assert_eq!(b.health_of("d").unwrap().last_heartbeat, ms(1_000));
    assert_eq!(b.msg_count(), 2);
}

#[test]
fn record_with_clock() {
    let mut b = BrokerState::new();
    assert_eq!(b.record_message("d", MsgType::Heartbeat), None);
    assert_eq!(b.health_of("d").unwrap().state, DeviceState::Nominal);
    assert_eq!(b.msg_count(), 1);
    let reports = b.run_watchdog();
    assert!(reports.is_empty());
}

#[test]
fn watchdog_reports_in_table_order() {
    let mut b = BrokerState::new();
    b.record_message_at("a", MsgType::Heartbeat, ms(0));
    b.record_message_at("b", MsgType::Heartbeat, ms(2_000));
    b.record_message_at("c", MsgType::Heartbeat, ms(500));
    let reports = b.run_watchdog_at(ms(4_000));
    assert_eq!(reports.len(), 2);
    assert_eq!(reports[0].device_id, "a");
    assert_eq!(reports[0].change, HealthChange::Degraded { silent_secs: 4 });
    assert_eq!(reports[1].device_id, "c");
    assert_eq!(reports[1].change, HealthChange::Degraded { silent_secs: 3 });
    assert_eq!(b.health_of("b").unwrap().state, DeviceState::Nominal);
    assert_eq!(b.msg_count(), 3);
}

#[test]
fn silence_then_heartbeat() {
    let mut b = BrokerState::new();
    b.record_message_at("d", MsgType::Heartbeat, ms(0));
    assert_eq!(b.run_watchdog_at(ms(3_000))[0].change, HealthChange::Degraded { silent_secs: 3 });
    assert!(b.run_watchdog_at(ms(4_000)).is_empty());
    assert_eq!(b.health_of("d").unwrap().state, DeviceState::Degraded { missed: 2 });
    assert_eq!(b.run_watchdog_at(ms(6_000))[0].change, HealthChange::Faulted { fault_count: 1 });
    assert_eq!(b.run_watchdog_at(ms(7_000))[0].change, HealthChange::Recovering);
    assert!(b.run_watchdog_at(ms(60_000)).is_empty());
    assert_eq!(b.record_message_at("d", MsgType::Heartbeat, ms(61_000)), Some(DeviceState::Recovering));
    assert_eq!(
        b.health_of("d"),
        Some(DeviceHealth { state: DeviceState::Nominal, last_heartbeat: ms(61_000), fault_count: 1 })
    );
}

#[test]
fn watchdog_can_run_checks_counters() {
    let mut b = BrokerState::new();
    b.record_message_at("d", MsgType::Heartbeat, ms(0));
    assert!(b.watchdog_can_run());
    b.run_watchdog_at(ms(3_000));
    assert!(b.watchdog_can_run());
}

#[test]
fn monitor_registration() {
    let mut b = BrokerState::new();
    let mut s = session(4);
    let d = b.handle_message_at(&mut s, &msg("monitor", MsgType::Command, "register"), ms(0));
    assert!(matches!(d, Dispatch::MonitorRegistered));
    assert_eq!(b.monitors(), &vec![4]);
    assert_eq!(s.device_id, None);
    assert_eq!(b.msg_count(), 0);
}

#[test]
fn monitor_registration_from_constructor() {
    let mut b = BrokerState::new();
    let mut s = session(9);
    let m = Message::new("monitor", MsgType::Command, "register").unwrap();
    assert!(matches!(b.handle_message(&mut s, &m), Dispatch::MonitorRegistered));
    assert_eq!(b.monitors(), &vec![9]);
}

#[test]
fn device_registers_on_first_message() {
    let mut b = BrokerState::new();
    let mut s = session(2);
    let d = b.handle_message_at(&mut s, &msg("device_1", MsgType::Telemetry, "temp=21.5C"), ms(100));
    assert!(matches!(d, Dispatch::Device { registered: true, recovered_from: None }));
    assert_eq!(s.device_id, Some("device_1".to_string()));
    assert_eq!(b.route_of("device_1"), Some(2));
    let d = b.handle_message_at(&mut s, &msg("device_1", MsgType::Heartbeat, "alive"), ms(200));
    assert!(matches!(d, Dispatch::Device { registered: false, recovered_from: None }));
    assert_eq!(b.msg_count(), 2);
    assert_eq!(b.health_of("device_1").unwrap().last_heartbeat, ms(200));
}

#[test]
fn later_sender_name_is_recorded_but_not_routed() {
    let mut b = BrokerState::new();
    let mut s = session(2);
    b.handle_message_at(&mut s, &msg("a", MsgType::Telemetry, ""), ms(0));
    b.handle_message_at(&mut s, &msg("b", MsgType::Telemetry, ""), ms(0));
    assert_eq!(b.route_of("a"), Some(2));
    assert_eq!(b.route_of("b"), None);
    assert!(b.health_of("b").is_some());
}

#[test]
fn command_routed_to_device() {
    let mut b = BrokerState::new();
    let mut dev = session(3);
    b.handle_message_at(&mut dev, &msg("device_1", MsgType::Heartbeat, "alive"), ms(0));
    let mut mon = session(5);
    b.handle_message_at(&mut mon, &msg("monitor", MsgType::Command, "register"), ms(0));
    let payload = command_payload("device_1", "reboot");
    let d = b.handle_message_at(&mut mon, &msg("monitor", MsgType::Command, &payload), ms(0));
    match d {
        Dispatch::Command { target, route } => {
            assert_eq!(target, Some("device_1".to_string()));
            assert_eq!(route, Some(3));
        }
        _ => panic!("not a command"),
    }
    assert_eq!(b.msg_count(), 1);
}

#[test]
fn command_for_unknown_device() {
    let mut b = BrokerState::new();
    let mut mon = session(5);
    let d = b.handle_message_at(&mut mon, &msg("monitor", MsgType::Command, "target=ghost cmd=x"), ms(0));
    match d {
        Dispatch::Command { target, route } => {
            assert_eq!(target, Some("ghost".to_string()));
            assert_eq!(route, None);
        }
        _ => panic!("not a command"),
    }
    let d = b.handle_message_at(&mut mon, &msg("monitor", MsgType::Command, "cmd=x"), ms(0));
    assert!(matches!(d, Dispatch::Command { target: None, route: None }));
}

#[test]
fn reregistration_moves_route() {
    let mut b = BrokerState::new();
    let mut first = session(1);
    let mut second = session(2);
    b.handle_message_at(&mut first, &msg("d", MsgType::Telemetry, ""), ms(0));
    b.handle_message_at(&mut second, &msg("d", MsgType::Telemetry, ""), ms(0));
    assert_eq!(b.route_of("d"), Some(2));
    assert_eq!(b.close_session(&first), Some("d".to_string()));
    assert_eq!(b.route_of("d"), None);
}

#[test]
fn closing_sessions() {
    let mut b = BrokerState::new();
    let mut s = session(1);
    b.handle_message_at(&mut s, &msg("d", MsgType::Telemetry, ""), ms(0));
    b.handle_message_at(&mut session(7), &msg("e", MsgType::Telemetry, ""), ms(0));
    assert_eq!(b.close_session(&s), Some("d".to_string()));
    assert_eq!(b.route_of("d"), None);
    assert_eq!(b.route_of("e"), Some(7));
    assert!(b.health_of("d").is_some());
    assert_eq!(b.close_session(&session(8)), None);
    assert_eq!(b.route_of("e"), Some(7));
}

#[test]
fn failed_monitors_dropped() {
    let mut b = BrokerState::new();
    for c in [10u64, 11, 12, 13] {
        b.handle_message_at(&mut session(c), &msg("monitor", MsgType::Command, "register"), ms(0));
    }
    b.retain_monitors(&vec![true, false, true, false]);
    assert_eq!(b.monitors(), &vec![10, 12]);
    b.retain_monitors(&vec![true, true]);
    assert_eq!(b.monitors(), &vec![10, 12]);
}

#[test]
fn status_report_lines() {
    let mut b = BrokerState::new();
    b.handle_message_at(&mut session(1), &msg("monitor", MsgType::Command, "register"), ms(0));
    b.record_message_at("device_1", MsgType::Heartbeat, ms(0));
    b.record_message_at("a_very_long_device", MsgType::Heartbeat, ms(0));
    b.run_watchdog_at(ms(3_000));
    b.run_watchdog_at(ms(4_000));
    let lines = b.status_report();
    assert_eq!(
        lines,
        vec![
            "=== Broker Status ===".to_string(),
            "  Messages routed : 2".to_string(),
            "  Monitors connected : 1".to_string(),
            "  Device device_1     : DEGRADED(missed=2)".to_string(),
            "  Device a_very_long_device : DEGRADED(missed=2)".to_string(),
            "=====================".to_string(),
        ]
    );
}

#[test]
fn status_report_empty() {
    let b = BrokerState::new();
    assert_eq!(
        b.status_report(),
        vec![
            "=== Broker Status ===".to_string(),
            "  Messages routed : 0".to_string(),
            "  Monitors connected : 0".to_string(),
            "=====================".to_string(),
        ]
    );
}

#[test]
fn watchdog_keeps_heartbeats_routes_and_count() {
    let mut b = BrokerState::new();
    let mut s = session(6);
    b.handle_message_at(&mut s, &msg("d", MsgType::Heartbeat, "alive"), ms(1_000));
    b.handle_message_at(&mut session(1), &msg("monitor", MsgType::Command, "register"), ms(0));
    for now in [2_000u64, 4_000, 7_000, 8_000, 9_000] {
        b.run_watchdog_at(ms(now));
        assert_eq!(b.health_of("d").unwrap().last_heartbeat, ms(1_000));
        assert_eq!(b.route_of("d"), Some(6));
        assert_eq!(b.monitors(), &vec![1]);
        assert_eq!(b.msg_count(), 1);
    }
    assert_eq!(b.health_of("d").unwrap().state, DeviceState::Recovering);
    assert_eq!(b.health_of("d").unwrap().fault_count, 1);
}

#[test]
fn status_report_pads_by_characters() {
    let mut b = BrokerState::new();
    b.record_message_at("dév", MsgType::Telemetry, ms(0));
    let lines = b.status_report();
    assert_eq!(lines[3], "  Device dév          : NOMINAL");
    assert_eq!(lines[3], format!("  Device {:12} : {}", "dév", "NOMINAL"));
}

#[test]
fn silence_counts_whole_seconds_of_nanoseconds() {
    let mut b = BrokerState::new();
    b.record_message_at("d", MsgType::Heartbeat, 600_000);
    assert!(b.run_watchdog_at(3_000_100_000).is_empty());
    assert_eq!(b.health_of("d").unwrap().state, DeviceState::Nominal);
    let reports = b.run_watchdog_at(3_000_600_000);
    assert_eq!(reports[0].change, HealthChange::Degraded { silent_secs: 3 });
}
