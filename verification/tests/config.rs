use camloc::config::{config_header_bytes, parse_config_header};
use camloc::position::Position;

#[test]
fn config_header_roundtrip() {
    let p = Position::new(1.5f64.to_bits(), (-3.0f64).to_bits(), 0.25f64.to_bits());
    let b = config_header_bytes(&p, "192.168.0.10");
    assert_eq!(b.len(), 26 + 12);
    assert_eq!(&b[..8], &1.5f64.to_be_bytes());
    let head: [u8; 26] = b[..26].try_into().unwrap();
    let (q, n) = parse_config_header(&head);
    assert_eq!(q, p);
    assert_eq!(n, 12);
    assert_eq!(&b[26..], b"192.168.0.10");
}
