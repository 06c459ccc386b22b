use esp_cam_tank::remote::protocol::{device_event_json, telemetry_event_json, Direction, MoveCmd, UiEvent};
use esp_cam_tank::remote::server::{Delivery, Disconnect, Move, Registry, Role};
use esp_cam_tank::remote::ws::{device_telemetry, session_step, SessionAction, SessionEvent};
use esp_cam_tank::tank::proto::Direction as TankDirection;

fn frames(ds: &[Delivery]) -> Vec<(usize, String)> {
    let mut v: Vec<(usize, String)> = ds.iter().map(|d| (d.to, d.frame.0.clone())).collect();
    v.sort();
    v
}

#[test]
fn move_command_json() {
    assert_eq!(MoveCmd { dir: Direction::Up }.to_json(), r#"{"dir":"up"}"#);
    assert_eq!(MoveCmd { dir: Direction::Right }.to_json(), r#"{"dir":"right"}"#);
    assert_eq!(Direction::Stop.name(), "stop");
}

#[test]
fn move_commands_reach_the_tank() {
    let pairs = [
        (Direction::Up, TankDirection::Up),
        (Direction::Down, TankDirection::Down),
        (Direction::Left, TankDirection::Left),
        (Direction::Right, TankDirection::Right),
        (Direction::Stop, TankDirection::Stop),
    ];
    for (remote, tank) in pairs {
        let text = MoveCmd { dir: remote }.to_json();
        assert_eq!(TankDirection::parse(text.as_bytes()), Some(tank));
    }
}

#[test]
fn ui_event_json() {
    assert_eq!(device_event_json(true), r#"{"evt":"device","online":true}"#);
    assert_eq!(device_event_json(false), r#"{"evt":"device","online":false}"#);
    assert_eq!(
        UiEvent::Device { online: true }.to_json().unwrap(),
        r#"{"evt":"device","online":true}"#
    );
    assert_eq!(telemetry_event_json(r#"{"heap":1}"#), r#"{"evt":"telemetry","data":{"heap":1}}"#);
}

#[test]
fn browser_hello_reflects_devices() {
    let mut reg = Registry::new();
    let (ui, ds) = reg.handle_connect(Role::Ui);
    assert_eq!(ui, 0);
    assert_eq!(frames(&ds), vec![(0, r#"{"evt":"device","online":false}"#.to_string())]);
    let (dev, ds) = reg.handle_connect(Role::Device);
    assert_eq!(dev, 1);
    assert_eq!(frames(&ds), vec![(0, r#"{"evt":"device","online":true}"#.to_string())]);
    let (ui2, ds) = reg.handle_connect(Role::Ui);
    assert_eq!(ui2, 2);
    assert_eq!(frames(&ds), vec![(2, r#"{"evt":"device","online":true}"#.to_string())]);
}

#[test]
fn device_leaving_is_announced() {
    let mut reg = Registry::new();
    let (ui, _) = reg.handle_connect(Role::Ui);
    let (d1, _) = reg.handle_connect(Role::Device);
    let (d2, _) = reg.handle_connect(Role::Device);
    let ds = reg.handle_disconnect(Disconnect { role: Role::Device, id: d1 });
    assert_eq!(frames(&ds), vec![(ui, r#"{"evt":"device","online":true}"#.to_string())]);
    let ds = reg.handle_disconnect(Disconnect { role: Role::Device, id: d2 });
    assert_eq!(frames(&ds), vec![(ui, r#"{"evt":"device","online":false}"#.to_string())]);
    let ds = reg.handle_disconnect(Disconnect { role: Role::Device, id: d2 });
    assert!(ds.is_empty());
}

#[test]
fn unknown_or_browser_disconnect_is_silent() {
    let mut reg = Registry::new();
    let (ui, _) = reg.handle_connect(Role::Ui);
    let (_dev, _) = reg.handle_connect(Role::Device);
    assert!(reg.handle_disconnect(Disconnect { role: Role::Device, id: 77 }).is_empty());
    assert!(reg.handle_disconnect(Disconnect { role: Role::Device, id: ui }).is_empty());
    assert!(reg.handle_disconnect(Disconnect { role: Role::Ui, id: ui }).is_empty());
    let ds = reg.handle_telemetry(device_telemetry(r#"{"heap":5}"#).unwrap());
    assert!(ds.is_empty());
}

#[test]
fn moves_go_to_every_device_only() {
    let mut reg = Registry::new();
    let (_ui, _) = reg.handle_connect(Role::Ui);
    let (d1, _) = reg.handle_connect(Role::Device);
    let (d2, _) = reg.handle_connect(Role::Device);
    let ds = reg.handle_move(Move { dir: Direction::Left });
    assert_eq!(
        frames(&ds),
        vec![(d1, r#"{"dir":"left"}"#.to_string()), (d2, r#"{"dir":"left"}"#.to_string())]
    );
}

#[test]
fn moves_without_devices_go_nowhere() {
    let mut reg = Registry::new();
    let (_ui, _) = reg.handle_connect(Role::Ui);
    assert!(reg.handle_move(Move { dir: Direction::Up }).is_empty());
}

#[test]
fn telemetry_goes_to_every_browser() {
    let mut reg = Registry::new();
    let (u1, _) = reg.handle_connect(Role::Ui);
    let (_d, _) = reg.handle_connect(Role::Device);
    let (u2, _) = reg.handle_connect(Role::Ui);
    let t = device_telemetry(r#"{ "uptime_s": 3, "heap": 100 }"#).unwrap();
    let ds = reg.handle_telemetry(t);
    let expected = r#"{"evt":"telemetry","data":{"heap":100,"uptime_s":3}}"#.to_string();
    assert_eq!(frames(&ds), vec![(u1, expected.clone()), (u2, expected)]);
}

#[test]
fn non_json_device_text_is_dropped() {
    assert!(device_telemetry("not json").is_none());
    assert!(device_telemetry("{\"a\":").is_none());
    assert!(device_telemetry("").is_none());
    assert!(device_telemetry("42").is_some());
}

#[test]
fn connect_then_disconnect_restores() {
    let mut reg = Registry::new();
    let (ui, _) = reg.handle_connect(Role::Ui);
    let (d, _) = reg.handle_connect(Role::Device);
    reg.handle_disconnect(Disconnect { role: Role::Device, id: d });
    let (d2, ds) = reg.handle_connect(Role::Device);
    assert!(d2 > d);
    assert_eq!(frames(&ds), vec![(ui, r#"{"evt":"device","online":true}"#.to_string())]);
    assert!(reg.can_connect());
}

#[test]
fn session_reactions() {
    assert_eq!(session_step(SessionEvent::Heartbeat), SessionAction::SendPing);
    assert_eq!(session_step(SessionEvent::Text), SessionAction::HandleText);
    assert_eq!(session_step(SessionEvent::Ping), SessionAction::SendPong);
    assert_eq!(session_step(SessionEvent::Close), SessionAction::CloseAndEnd);
    assert_eq!(session_step(SessionEvent::OtherMessage), SessionAction::Continue);
    assert_eq!(session_step(SessionEvent::StreamEnd), SessionAction::End);
}

#[test]
fn kth_connection_gets_k() {
    let mut reg = Registry::new();
    let mut expected = 0usize;
    for round in 0..5 {
        let role = if round % 2 == 0 { Role::Device } else { Role::Ui };
        let (id, _) = reg.handle_connect(role);
        assert_eq!(id, expected);
        expected += 1;
        reg.handle_disconnect(Disconnect { role, id });
        reg.handle_move(Move { dir: Direction::Stop });
        let (id, _) = reg.handle_connect(Role::Ui);
        assert_eq!(id, expected);
        expected += 1;
    }
}

#[test]
fn browsers_never_get_moves_and_devices_never_get_telemetry() {
    let mut reg = Registry::new();
    let (u, _) = reg.handle_connect(Role::Ui);
    let (d, _) = reg.handle_connect(Role::Device);
    let moves = reg.handle_move(Move { dir: Direction::Up });
    assert!(moves.iter().all(|x| x.to == d && x.to != u));
    let t = reg.handle_telemetry(device_telemetry("[1,2]").unwrap());
    assert_eq!(frames(&t), vec![(u, r#"{"evt":"telemetry","data":[1,2]}"#.to_string())]);
}
