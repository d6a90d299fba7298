use camloc::common::hosts::{ClientData, Command};
use camloc::position::Position;
use camloc::service::{handle_waiting, ClientEntry, Endpoint, Outcome, PlacedCamera, ServiceCore, WaitOutcome, NAN_BITS};

fn ep(last: u8) -> Endpoint {
    Endpoint::V4 { ip: u32::from_be_bytes([10, 0, 0, last]), port: 0xdddd }
}

fn cam(x: f64) -> PlacedCamera {
    PlacedCamera::new(Position::new(x.to_bits(), 0, 0), 1.0f64.to_bits())
}

fn connect(core: &mut ServiceCore, last: u8, at: i64) {
    let out = core.handle(Ok(Command::Connect { position: cam(last as f64).position, fov: 1.0f64.to_bits() }), ep(last), format!("10.0.0.{last}"), at, at);
    assert!(matches!(out, Outcome::Connected(a, _) if a == ep(last)));
}

#[test]
fn waiting_server_answers_and_starts() {
    assert!(matches!(handle_waiting(Ok(Command::Ping)), WaitOutcome::Reply(0xc0)));
    assert!(matches!(handle_waiting(Ok(Command::StartServer { cube: [1, 2, 3, 4] })), WaitOutcome::Start([1, 2, 3, 4])));
    assert!(matches!(handle_waiting(Ok(Command::Stop)), WaitOutcome::Ignore));
    assert!(matches!(handle_waiting(Err(())), WaitOutcome::Ignore));
}

#[test]
fn running_server_answers_ping_and_stop() {
    let mut core = ServiceCore::new(vec![], 500);
    assert!(matches!(core.handle(Ok(Command::Ping), ep(1), "10.0.0.1".into(), 0, 0), Outcome::Reply(0xe0)));
    assert!(matches!(core.handle(Ok(Command::Stop), ep(1), "10.0.0.1".into(), 0, 0), Outcome::Stop));
    assert!(matches!(core.handle(Err(()), ep(1), "10.0.0.1".into(), 0, 0), Outcome::Ignore));
}

#[test]
fn connect_adds_an_expired_client() {
    let mut core = ServiceCore::new(vec![], 500);
    connect(&mut core, 1, 1000);
    assert_eq!(core.client_addresses(), vec![ep(1)]);
}

#[test]
fn reading_from_the_oldest_client_computes_position() {
    let mut core = ServiceCore::new(vec![], 500);
    connect(&mut core, 1, 1000);
    connect(&mut core, 2, 1000);
    let d = ClientData::new(4, 0.5f64.to_bits());
    match core.handle(Ok(Command::ValueUpdate(d)), ep(1), "10.0.0.1".into(), 2000, 2000) {
        Outcome::ComputePosition(v) => {
            assert_eq!(v.len(), 2);
            assert_eq!(v[0].0, Some(d));
            assert_eq!(v[1].0, None);
        }
        other => panic!("unexpected {other:?}"),
    }
    let e = ClientData::new(5, 0.25f64.to_bits());
    assert!(matches!(core.handle(Ok(Command::ValueUpdate(e)), ep(2), "10.0.0.2".into(), 2100, 2100), Outcome::Ignore));
    match core.handle(Ok(Command::ValueUpdate(d)), ep(1), "10.0.0.1".into(), 2200, 2200) {
        Outcome::ComputePosition(v) => {
            assert_eq!(v[0].0, Some(d));
            assert_eq!(v[1].0, Some(e));
        }
        other => panic!("unexpected {other:?}"),
    }
    match core.handle(Ok(Command::ValueUpdate(d)), ep(1), "10.0.0.1".into(), 2700, 2700) {
        Outcome::ComputePosition(v) => assert_eq!(v[1].0, None),
        other => panic!("unexpected {other:?}"),
    }
}

#[test]
fn client_with_data_older_than_start_is_the_oldest() {
    let mut core = ServiceCore::new(vec![], 500);
    connect(&mut core, 1, 1000);
    connect(&mut core, 2, 100);
    let d = ClientData::new(1, 0);
    assert!(matches!(core.handle(Ok(Command::ValueUpdate(d)), ep(1), "10.0.0.1".into(), 1200, 1200), Outcome::Ignore));
    assert!(matches!(core.handle(Ok(Command::ValueUpdate(d)), ep(2), "10.0.0.2".into(), 1300, 1300), Outcome::ComputePosition(_)));
}

#[test]
fn reading_from_unknown_client_is_ignored() {
    let mut core = ServiceCore::new(vec![], 500);
    connect(&mut core, 1, 10);
    let d = ClientData::new(1, 0);
    assert!(matches!(core.handle(Ok(Command::ValueUpdate(d)), ep(9), "10.0.0.9".into(), 20, 20), Outcome::Ignore));
}

#[test]
fn info_update_changes_camera_of_matching_ip() {
    let mut core = ServiceCore::new(vec![], 500);
    connect(&mut core, 1, 10);
    let p = Position::new(7.0f64.to_bits(), 8.0f64.to_bits(), 0);
    match core.handle(Ok(Command::InfoUpdate { client_ip: "10.0.0.1", position: p, fov: None }), ep(3), "10.0.0.3".into(), 20, 20) {
        Outcome::InfoUpdated(a, c) => {
            assert_eq!(a, ep(1));
            assert_eq!(c.position, p);
            assert_eq!(f64::from_bits(c.fov), 1.0);
        }
        other => panic!("unexpected {other:?}"),
    }
    assert!(matches!(core.handle(Ok(Command::InfoUpdate { client_ip: "1.1.1.1", position: p, fov: None }), ep(3), "x".into(), 20, 20), Outcome::Ignore));
}

#[test]
fn disconnect_names_the_next_client() {
    let mut core = ServiceCore::new(vec![], 500);
    connect(&mut core, 1, 10);
    connect(&mut core, 2, 10);
    assert!(core.disconnect_would_abort(ep(2)));
    assert!(!core.disconnect_would_abort(ep(1)));
    assert!(!core.disconnect_would_abort(ep(7)));
    assert!(matches!(core.handle(Ok(Command::ClientDisconnect), ep(1), "10.0.0.1".into(), 20, 20), Outcome::Disconnected(a) if a == ep(2)));
    assert_eq!(core.client_addresses(), vec![ep(2)]);
    assert!(matches!(core.handle(Ok(Command::ClientDisconnect), ep(5), "10.0.0.5".into(), 20, 20), Outcome::Ignore));
}

#[test]
fn initial_clients_are_kept() {
    let entry = ClientEntry {
        data: ClientData::new(255, NAN_BITS),
        changed_at: -5,
        camera: cam(0.0),
        address: ep(4),
        ip_text: "10.0.0.4".into(),
    };
    let core = ServiceCore::new(vec![entry], 10);
    assert_eq!(core.client_addresses(), vec![ep(4)]);
    assert!(f64::from_bits(NAN_BITS).is_nan());
}
