use camloc::extrapolations::{LinearExtrapolation, TimedPosition};
use camloc::position::Position;
use std::time::Instant;

fn tp(x: f64, t: Instant) -> TimedPosition {
    TimedPosition { position: Position::new(x.to_bits(), 0, 0), extrapolated_by: None, time: t, start_time: t }
}

#[test]
fn keeps_the_last_two_positions() {
    let t = Instant::now();
    let mut e = LinearExtrapolation::new();
    assert!(e.endpoints().is_none());
    e.add_datapoint(tp(1.0, t));
    assert!(e.endpoints().is_none());
    assert!(e.get_last_datapoint().is_none());
    e.add_datapoint(tp(2.0, t));
    let (a, b) = e.endpoints().unwrap();
    assert_eq!(f64::from_bits(a.position.x), 1.0);
    assert_eq!(f64::from_bits(b.position.x), 2.0);
    e.add_datapoint(tp(3.0, t));
    let (a, b) = e.endpoints().unwrap();
    assert_eq!(f64::from_bits(a.position.x), 2.0);
    assert_eq!(f64::from_bits(b.position.x), 3.0);
    assert_eq!(f64::from_bits(e.get_last_datapoint().unwrap().position.x), 2.0);
}
