use camloc::common::hosts::{ClientData, Command};
use camloc::position::Position;

fn pos(x: f64, y: f64, r: f64) -> Position {
    Position::new(x.to_bits(), y.to_bits(), r.to_bits())
}

#[test]
fn shared_single_byte_commands_accept_trailing_bytes() {
    assert_eq!(Command::ClientDisconnect.into_bytes(), vec![0xdc]);
    assert!(matches!(Command::try_from(&[0xdc]), Ok(Command::ClientDisconnect)));
    assert!(matches!(Command::try_from(&[0x0b, 1, 2]), Ok(Command::Ping)));
    assert!(matches!(Command::try_from(&[0x60, 9]), Ok(Command::Start)));
    assert!(Command::try_from(&[]).is_err());
}

#[test]
fn shared_value_update() {
    let bytes = Command::ValueUpdate(ClientData::new(3, 0.5f64.to_bits())).into_bytes();
    assert_eq!(bytes.len(), 10);
    assert_eq!(&bytes[..2], &[0x21, 3]);
    assert_eq!(&bytes[2..], &0.5f64.to_be_bytes());
    match Command::try_from(&bytes) {
        Ok(Command::ValueUpdate(d)) => assert_eq!(d, ClientData::new(3, 0.5f64.to_bits())),
        other => panic!("unexpected {other:?}"),
    }
    assert!(Command::try_from(&bytes[..9]).is_err());
}

#[test]
fn shared_connect_and_start_server() {
    let p = pos(1.0, 2.0, 3.0);
    let bytes = Command::Connect { position: p, fov: 0.75f64.to_bits() }.into_bytes();
    assert_eq!(bytes.len(), 33);
    assert!(matches!(Command::try_from(&bytes), Ok(Command::Connect { position, .. }) if position == p));
    let cube = Command::StartServer { cube: [9, 8, 7, 6] }.into_bytes();
    assert_eq!(cube, vec![0x55, 9, 8, 7, 6]);
    let mut longer = cube.clone();
    longer.push(1);
    assert!(matches!(Command::try_from(&longer), Ok(Command::StartServer { cube: [9, 8, 7, 6] })));
}

#[test]
fn shared_start_configless() {
    let bytes = Command::StartConfigless { ip: "192.168.1.2" }.into_bytes();
    assert_eq!(&bytes[..3], &[0x6c, 0, 11]);
    assert!(matches!(Command::try_from(&bytes), Ok(Command::StartConfigless { ip: "192.168.1.2" })));
    assert!(Command::try_from(&[0x6c, 0, 2, 0xc3, 0x28]).is_err());
}

#[test]
fn shared_info_update_layout_and_never_read() {
    let p = pos(1.0, 1.0, 1.0);
    let with_fov = Command::InfoUpdate { client_ip: "1.2.3.4", position: p, fov: Some(2.0f64.to_bits()) }.into_bytes();
    assert_eq!(&with_fov[..2], &[0, 7]);
    assert_eq!(&with_fov[2..9], b"1.2.3.4");
    assert_eq!(with_fov[9], 0x1f);
    assert_eq!(with_fov[34], 1);
    assert_eq!(with_fov.len(), 43);
    let without = Command::InfoUpdate { client_ip: "1.2.3.4", position: p, fov: None }.into_bytes();
    assert_eq!(without.len(), 35);
    assert_eq!(without[34], 0);
    assert!(Command::try_from(&with_fov).is_err());
    let mut framed = vec![0x1f];
    framed.extend_from_slice(&with_fov);
    assert!(!Command::parse_aborts(&framed));
    assert!(Command::try_from(&framed).is_err());
}

#[test]
fn shared_info_update_with_bad_text_aborts() {
    let buf = [0x1f, 0, 1, 0xff, 0, 0];
    assert!(Command::parse_aborts(&buf));
    assert!(!Command::parse_aborts(&[0x1f, 0, 9, 0xff]));
    assert!(!Command::parse_aborts(&[0x0b, 0, 1, 0xff]));
}
