use ipc_broker::client::{device_tick, parse_command_line, DeviceConfig, TickPlan};

fn args(v: &[&str]) -> Vec<String> {
    v.iter().map(|s| s.to_string()).collect()
}

#[test]
fn config_defaults() {
    let c = DeviceConfig::from_args(&args(&["device"]));
    assert_eq!(c.device_id, "device_1");
    assert!(!c.simulate_fault);
    let c = DeviceConfig::from_args(&args(&[]));
    assert_eq!(c.device_id, "device_1");
    assert!(!c.simulate_fault);
}

#[test]
fn config_named_with_fault() {
    let c = DeviceConfig::from_args(&args(&["device", "device_2", "--fault"]));
    assert_eq!(c.device_id, "device_2");
    assert!(c.simulate_fault);
    let c = DeviceConfig::from_args(&args(&["device", "--fault"]));
    assert_eq!(c.device_id, "--fault");
    assert!(c.simulate_fault);
}

#[test]
fn tick_reports() {
    assert_eq!(device_tick(1, false), TickPlan::Report { rpm: 1007, heartbeat: false });
    assert_eq!(device_tick(2, false), TickPlan::Report { rpm: 1014, heartbeat: true });
    assert_eq!(device_tick(100, false), TickPlan::Report { rpm: 1200, heartbeat: true });
    assert_eq!(device_tick(8, true), TickPlan::Report { rpm: 1056, heartbeat: true });
}

#[test]
fn tick_silent_after_fault() {
    assert_eq!(device_tick(9, true), TickPlan::Silent);
    assert_eq!(device_tick(u32::MAX, true), TickPlan::Silent);
    assert_eq!(device_tick(9, false), TickPlan::Report { rpm: 1063, heartbeat: false });
}

#[test]
fn command_line_accepted() {
    assert_eq!(
        parse_command_line("cmd device_1 reboot"),
        Some(("device_1".to_string(), "reboot".to_string()))
    );
    assert_eq!(
        parse_command_line("  cmd device_1 set rate 5 \n"),
        Some(("device_1".to_string(), "set rate 5".to_string()))
    );
    assert_eq!(parse_command_line("cmd  x"), Some((String::new(), "x".to_string())));
}

#[test]
fn command_line_refused() {
    assert_eq!(parse_command_line("cmd device_1"), None);
    assert_eq!(parse_command_line("send device_1 reboot"), None);
    assert_eq!(parse_command_line(""), None);
    assert_eq!(parse_command_line("cmd\tdevice_1 reboot"), None);
    assert_eq!(parse_command_line("cmdx device_1 reboot"), None);
}
