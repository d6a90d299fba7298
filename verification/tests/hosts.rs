use camloc::hosts::constants::status_reply::{host_type, masks, state};
use camloc::hosts::constants::{MAIN_PORT, ORGANIZER_STARTER_PORT, UDP_MAX_MESSAGE_LENGTH};
use camloc::hosts::{ClientData, Command, HostInfo, HostState, HostType};
use camloc::position::Position;

fn pos(x: f64, y: f64, r: f64) -> Position {
    Position::new(x.to_bits(), y.to_bits(), r.to_bits())
}

#[test]
fn constants_have_their_values() {
    assert_eq!(MAIN_PORT, 0xdddd);
    assert_eq!(ORGANIZER_STARTER_PORT, 0xdddb);
    assert_eq!(UDP_MAX_MESSAGE_LENGTH, 65507);
    assert_eq!(host_type::CLIENT | host_type::CONFIGLESS, host_type::SERVER);
    assert_eq!(masks::HOST_TYPE, 0xc0);
    assert_eq!(state::RUNNING, masks::STATE);
    assert_eq!(masks::CALIBRATED, 0x10);
}

#[test]
fn status_byte_of_each_host_kind() {
    let b = |t, s| HostInfo { host_type: t, host_state: s }.try_into();
    assert_eq!(b(HostType::Server, HostState::Running), Ok(0xe0));
    assert_eq!(b(HostType::Server, HostState::Idle), Ok(0xc0));
    assert_eq!(b(HostType::ConfiglessClient, HostState::Idle), Ok(0x80));
    assert_eq!(b(HostType::Client { calibrated: true }, HostState::Running), Ok(0x70));
    assert_eq!(b(HostType::Client { calibrated: false }, HostState::Idle), Ok(0x40));
    assert_eq!(b(HostType::Server, HostState::Unreachable), Err(()));
}

#[test]
fn status_byte_reads_back() {
    for t in [
        HostType::Server,
        HostType::ConfiglessClient,
        HostType::Client { calibrated: true },
        HostType::Client { calibrated: false },
    ] {
        for s in [HostState::Running, HostState::Idle] {
            let info = HostInfo { host_type: t, host_state: s };
            let byte = info.try_into().unwrap();
            assert_eq!(HostInfo::try_from(byte), Ok(info));
        }
    }
}

#[test]
fn status_byte_without_type_is_refused() {
    assert_eq!(HostInfo::try_from(0x00), Err(()));
    assert_eq!(HostInfo::try_from(0x3f), Err(()));
}

#[test]
fn status_byte_ignores_low_bits() {
    assert_eq!(
        HostInfo::try_from(0x9f),
        Ok(HostInfo { host_type: HostType::ConfiglessClient, host_state: HostState::Idle })
    );
    assert_eq!(
        HostInfo::try_from(0x5a),
        Ok(HostInfo { host_type: HostType::Client { calibrated: true }, host_state: HostState::Idle })
    );
}

#[test]
fn single_byte_commands() {
    assert_eq!(Command::Ping.into_bytes(), vec![0x0b]);
    assert_eq!(Command::Disconnect.into_bytes(), vec![0xdc]);
    assert_eq!(Command::Start.into_bytes(), vec![0x60]);
    assert_eq!(Command::Stop.into_bytes(), vec![0xcd]);
    assert_eq!(Command::RequestImage.into_bytes(), vec![0x17]);
    assert_eq!(Command::ImagesDone.into_bytes(), vec![0x1d]);
    assert!(matches!(Command::try_from(&[0x0b]), Ok(Command::Ping)));
    assert!(matches!(Command::try_from(&[0x0b, 0]), Err(())));
    assert!(matches!(Command::try_from(&[]), Err(())));
    assert!(matches!(Command::try_from(&[0x42]), Err(())));
}

#[test]
fn connect_layout() {
    let p = pos(1.0, -2.5, 0.5);
    let bytes = Command::Connect { position: p, fov: 1.25f64.to_bits() }.into_bytes();
    assert_eq!(bytes.len(), 33);
    assert_eq!(bytes[0], 0xcc);
    assert_eq!(&bytes[1..9], &1.0f64.to_be_bytes());
    assert_eq!(&bytes[9..17], &(-2.5f64).to_be_bytes());
    assert_eq!(&bytes[17..25], &0.5f64.to_be_bytes());
    assert_eq!(&bytes[25..33], &1.25f64.to_be_bytes());
    match Command::try_from(&bytes) {
        Ok(Command::Connect { position, fov }) => {
            assert_eq!(position, p);
            assert_eq!(f64::from_bits(fov), 1.25);
        }
        other => panic!("unexpected {other:?}"),
    }
    assert!(Command::try_from(&bytes[..32]).is_err());
}

#[test]
fn value_update_roundtrip() {
    let d = ClientData::new(7, 0.25f64.to_bits(), (1.0f64.to_bits(), 2.0f64.to_bits(), 3.0f64.to_bits()));
    let bytes = Command::ValueUpdate(d).into_bytes();
    assert_eq!(bytes.len(), 34);
    assert_eq!(&bytes[..2], &[0x21, 7]);
    match Command::try_from(&bytes) {
        Ok(Command::ValueUpdate(e)) => {
            assert_eq!(e.marker_id, 7);
            assert_eq!(f64::from_bits(e.target_x_position), 0.25);
            assert_eq!(f64::from_bits(e.rotation.2), 3.0);
        }
        other => panic!("unexpected {other:?}"),
    }
}

#[test]
fn info_update_roundtrip() {
    let p = pos(3.0, 4.0, 5.0);
    let bytes = Command::InfoUpdate { position: p, fov: 2.0f64.to_bits() }.into_bytes();
    assert_eq!(bytes[0], 0x1f);
    assert!(matches!(Command::try_from(&bytes), Ok(Command::InfoUpdate { position, .. }) if position == p));
}

#[test]
fn start_server_layout() {
    let bytes = Command::StartServer { cube: [1, 2, 3, 4] }.into_bytes();
    assert_eq!(bytes, vec![0x55, 1, 2, 3, 4]);
    assert!(matches!(Command::try_from(&bytes), Ok(Command::StartServer { cube: [1, 2, 3, 4] })));
    assert!(Command::try_from(&[0x55, 1, 2, 3]).is_err());
}

#[test]
fn start_configless_layout() {
    let bytes = Command::StartConfigless { ip: "10.0.0.1" }.into_bytes();
    assert_eq!(&bytes[..3], &[0x6c, 0, 8]);
    assert_eq!(&bytes[3..], b"10.0.0.1");
    assert!(matches!(Command::try_from(&bytes), Ok(Command::StartConfigless { ip: "10.0.0.1" })));
}

#[test]
fn start_configless_refuses_bad_text_and_lengths() {
    assert!(Command::try_from(&[0x6c, 0, 2, 0xff, 0xfe]).is_err());
    assert!(Command::try_from(&[0x6c, 0, 3, b'a', b'b']).is_err());
    assert!(Command::try_from(&[0x6c, 0, 1, b'a', b'b']).is_err());
    assert!(Command::try_from(&[0x6c, 0]).is_err());
    let multibyte = Command::StartConfigless { ip: "ü" }.into_bytes();
    assert_eq!(multibyte, vec![0x6c, 0, 2, 0xc3, 0xbc]);
    assert!(matches!(Command::try_from(&multibyte), Ok(Command::StartConfigless { ip: "ü" })));
}

#[test]
fn position_bytes_roundtrip() {
    let p = pos(-0.0, f64::INFINITY, 1e300);
    let b = p.to_be_bytes();
    assert_eq!(&b[8..16], &f64::INFINITY.to_be_bytes());
    assert_eq!(Position::from_be_bytes(&b), p);
}
