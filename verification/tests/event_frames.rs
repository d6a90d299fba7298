use camloc::event_frames::{connect_frame, disconnect_frame, info_update_frame, position_frame};
use camloc::position::Position;
use camloc::service::PlacedCamera;

fn pose(x: f64, y: f64, r: f64) -> Position {
    Position::new(x.to_bits(), y.to_bits(), r.to_bits())
}

fn pose_bytes(x: f64, y: f64, r: f64) -> Vec<u8> {
    [x.to_be_bytes(), y.to_be_bytes(), r.to_be_bytes()].concat()
}

#[test]
fn position_frame_is_tag_and_pose() {
    let expected = [&0i32.to_be_bytes()[..], &pose_bytes(1.5, -2.0, 0.25)].concat();
    assert_eq!(position_frame(&pose(1.5, -2.0, 0.25)), expected);
    assert_eq!(position_frame(&pose(1.5, -2.0, 0.25)).len(), 28);
}

#[test]
fn connect_frame_carries_address_and_camera() {
    let camera = PlacedCamera::new(pose(0.0, 3.0, 1.0), 1.2f64.to_bits());
    let address = "10.0.0.7:5678";
    let expected = [
        &1i32.to_be_bytes()[..],
        &(address.len() as u16).to_be_bytes(),
        address.as_bytes(),
        &pose_bytes(0.0, 3.0, 1.0),
        &1.2f64.to_be_bytes(),
    ]
    .concat();
    assert_eq!(connect_frame(address, &camera), expected);
}

#[test]
fn disconnect_frame_carries_address() {
    assert_eq!(disconnect_frame("1.2.3.4:1"), vec![0, 0, 0, 2, 0, 9, b'1', b'.', b'2', b'.', b'3', b'.', b'4', b':', b'1']);
    assert_eq!(disconnect_frame(""), vec![0, 0, 0, 2, 0, 0]);
}

#[test]
fn info_update_frame_has_its_own_tag() {
    let camera = PlacedCamera::new(pose(4.0, 5.0, 6.0), 0.5f64.to_bits());
    let connect = connect_frame("a", &camera);
    let update = info_update_frame("a", &camera);
    assert_eq!(update[3], 3);
    assert_eq!(connect[4..], update[4..]);
}
