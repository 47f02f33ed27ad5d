use luminaire::app_state::{AppState, MAX_CONSECUTIVE_ERRORS};
use luminaire::commands::{
    connected_status, disconnected_status, on_connect_failed, on_connected, on_disconnect,
    on_light_state, on_request_failed, restore_command, toggle_target,
};
use luminaire::config::Config;
use luminaire::keylight::{KeyLightError, LightCommand, LightState};

fn light(on: bool, brightness: i32, kelvin: i32) -> LightState {
    LightState { on, brightness, temperature_kelvin: kelvin }
}

#[test]
fn restore_plans() {
    assert!(matches!(
        restore_command(40, 5000, true),
        Some(LightCommand::State { on: true, brightness: 40, kelvin: 5000 })
    ));
    assert!(matches!(restore_command(40, -1, false), Some(LightCommand::Brightness(40))));
    assert!(matches!(restore_command(-1, 3000, false), Some(LightCommand::Temperature(3000))));
    assert!(restore_command(-1, -1, true).is_none());
    assert!(matches!(restore_command(0, 0, false), Some(LightCommand::State { .. })));
}

#[test]
fn connect_success_marks_connected_and_plans_restore() {
    let mut state = AppState::default();
    state.begin_connect("192.168.1.20");
    let config = Config { ip_address: "192.168.1.20".to_string(), brightness: 70, temperature: -1 };
    let out = on_connected(&mut state, "192.168.1.20", &light(true, 30, 4000), &config);
    assert!(state.connected);
    assert!(state.light_on);
    assert_eq!(state.brightness, 30);
    assert_eq!(state.temperature, 4000);
    assert_eq!(out.succeeded.ip, "192.168.1.20");
    assert!(out.received.on);
    assert_eq!(out.received.brightness, 30);
    assert_eq!(out.received.temperature, 4000);
    assert!(matches!(out.restore, Some(LightCommand::Brightness(70))));
}

#[test]
fn connect_failure_reports_error() {
    let mut state = AppState::default();
    state.begin_connect("10.1.1.1");
    let p = on_connect_failed(&mut state, &KeyLightError::Network("refused".to_string()));
    assert_eq!(p.message, "Network error: refused");
    assert_eq!(p.consecutive_errors, 1);
    assert!(!p.disconnected);

    let mut worn = AppState::default();
    worn.consecutive_errors = 2;
    let p = on_connect_failed(&mut worn, &KeyLightError::NoLights);
    assert!(p.disconnected);
    assert_eq!(p.consecutive_errors, MAX_CONSECUTIVE_ERRORS);
}

#[test]
fn request_failures_disconnect_on_third() {
    let mut state = AppState::default();
    state.mark_connected();
    let e = KeyLightError::InvalidJson("bad".to_string());
    let p1 = on_request_failed(&mut state, &e);
    let p2 = on_request_failed(&mut state, &e);
    let p3 = on_request_failed(&mut state, &e);
    assert_eq!((p1.consecutive_errors, p1.disconnected), (1, false));
    assert_eq!((p2.consecutive_errors, p2.disconnected), (2, false));
    assert_eq!((p3.consecutive_errors, p3.disconnected), (3, true));
    assert_eq!(p3.message, "Invalid JSON: bad");
    assert!(!state.connected);
}

#[test]
fn state_report_after_errors_restores_status() {
    let mut state = AppState::default();
    state.begin_connect("192.168.0.5");
    state.mark_connected();
    state.on_error();
    let u = on_light_state(&mut state, &light(false, 12, 3100), true).unwrap();
    let status = u.status.unwrap();
    assert_eq!(status.text, "Connected to 192.168.0.5");
    assert_eq!(status.color, "green");
    assert_eq!(u.received.brightness, 12);
    assert_eq!(state.consecutive_errors, 0);
    let u = on_light_state(&mut state, &light(true, 13, 3100), true).unwrap();
    assert!(u.status.is_none());
    assert!(state.light_on);
}

#[test]
fn stale_reply_after_disconnect_is_dropped() {
    let mut state = AppState::default();
    state.mark_connected();
    let status = on_disconnect(&mut state);
    assert_eq!(status.text, "Disconnected");
    assert_eq!(status.color, "gray");
    assert!(on_light_state(&mut state, &light(true, 99, 6000), true).is_none());
    assert!(!state.light_on);
    assert_eq!(state.brightness, 50);
    // the periodic poll takes its result regardless
    assert!(on_light_state(&mut state, &light(true, 99, 6000), false).is_some());
    assert_eq!(state.brightness, 99);
}

#[test]
fn toggle_only_when_connected() {
    let mut state = AppState::default();
    assert_eq!(toggle_target(&state), None);
    state.mark_connected();
    assert_eq!(toggle_target(&state), Some(true));
    state.light_on = true;
    assert_eq!(toggle_target(&state), Some(false));
}

#[test]
fn status_payloads() {
    assert_eq!(connected_status("1.2.3.4").text, "Connected to 1.2.3.4");
    assert_eq!(disconnected_status().text, "Disconnected");
}
