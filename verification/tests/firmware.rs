use esp_cam_tank::tank::camera::{uptime_seconds, SensorModel, TelemetryClock};
use esp_cam_tank::tank::config::env_or;
use esp_cam_tank::tank::proto::Direction;
use esp_cam_tank::tank::tasks::Priority;
use esp_cam_tank::tank::ws::{handle_event, EventNote, EventOutcome, WsEvent};

#[test]
fn uptime_from_timer() {
    assert_eq!(uptime_seconds(-5), 0);
    assert_eq!(uptime_seconds(0), 0);
    assert_eq!(uptime_seconds(999_999), 0);
    assert_eq!(uptime_seconds(2_500_000), 2);
    assert_eq!(uptime_seconds(i64::MAX), (i64::MAX / 1_000_000) as u64);
}

#[test]
fn telemetry_once_per_second() {
    let mut clock = TelemetryClock::new();
    assert!(clock.due(0));
    assert!(!clock.due(100_000));
    assert!(!clock.due(999_999));
    assert!(clock.due(1_000_000));
    assert!(!clock.due(1_500_000));
    assert!(clock.due(2_100_000));
}

#[test]
fn telemetry_clock_going_backwards() {
    let mut clock = TelemetryClock::new();
    assert!(clock.due(5_000_000));
    assert!(!clock.due(1_000));
}

#[test]
fn sensor_names() {
    assert_eq!(SensorModel::Ov2640.name(), "ov2640");
    assert_eq!(SensorModel::Ov3660.name(), "ov3660");
    assert_eq!(SensorModel::Unknown.name(), "unknown");
    assert!(SensorModel::Ov3660.needs_tuning());
    assert!(!SensorModel::Ov2640.needs_tuning());
    assert!(!SensorModel::Unknown.needs_tuning());
}

#[test]
fn priority_levels() {
    assert_eq!(Priority::WsClient.level(), 14);
    assert_eq!(Priority::Motor.level(), 12);
    assert_eq!(Priority::WsTx.level(), 8);
    assert_eq!(Priority::Camera.level(), 6);
}

#[test]
fn build_settings() {
    assert_eq!(env_or("WS_URL", Some("ws://h/ws/device")).ok(), Some("ws://h/ws/device"));
    let err = env_or("WIFI_SSID", None).err().unwrap();
    assert_eq!(err.name, "WIFI_SSID");
    assert_eq!(err.message(), "WIFI_SSID not set at build time");
}

#[test]
fn events_drive_or_stop() {
    assert_eq!(
        handle_event(&WsEvent::Text(br#"{"dir":"down"}"#)),
        EventOutcome { command: Some(Direction::Down), note: EventNote::Nothing }
    );
    assert_eq!(
        handle_event(&WsEvent::Text(b"hello")),
        EventOutcome { command: None, note: EventNote::Unparsed }
    );
    assert_eq!(
        handle_event(&WsEvent::Connected),
        EventOutcome { command: None, note: EventNote::Connected }
    );
    assert_eq!(
        handle_event(&WsEvent::Disconnected),
        EventOutcome { command: Some(Direction::Stop), note: EventNote::Disconnected }
    );
    assert_eq!(
        handle_event(&WsEvent::Closed),
        EventOutcome { command: Some(Direction::Stop), note: EventNote::Disconnected }
    );
    assert_eq!(
        handle_event(&WsEvent::Failed),
        EventOutcome { command: None, note: EventNote::Failed }
    );
    assert_eq!(
        handle_event(&WsEvent::Other),
        EventOutcome { command: None, note: EventNote::Nothing }
    );
}
