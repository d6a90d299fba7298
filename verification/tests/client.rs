use camloc::client::{bounding_to_rect, rect_center, Rect, find_cube_marker, on_config_message, on_running_message, on_waiting_message, ConfigStep, RunAction, WaitAction};
use camloc::common::hosts::Command;

#[test]
fn waiting_client_answers_pings_and_starts() {
    assert_eq!(on_waiting_message(Ok(Command::Ping), false), WaitAction::Reply(0x40));
    assert_eq!(on_waiting_message(Ok(Command::Ping), true), WaitAction::Reply(0x50));
    assert_eq!(on_waiting_message(Ok(Command::Start), true), WaitAction::Start);
    assert_eq!(on_waiting_message(Ok(Command::Stop), true), WaitAction::Ignore);
    assert_eq!(on_waiting_message(Err(()), false), WaitAction::Ignore);
}

#[test]
fn configured_client_sends_images_until_done() {
    assert_eq!(on_config_message(Ok(Command::RequestImage)), ConfigStep::SendImage);
    assert_eq!(on_config_message(Ok(Command::ImagesDone)), ConfigStep::Done);
    assert_eq!(on_config_message(Ok(Command::Ping)), ConfigStep::Ignore);
    assert_eq!(on_config_message(Err(())), ConfigStep::Ignore);
}

#[test]
fn running_client_stops_and_reports_who_stopped_it() {
    assert_eq!(on_running_message(Ok(Command::Ping), true), RunAction::Reply(0x70));
    assert_eq!(on_running_message(Ok(Command::Stop), true), RunAction::Stop { by_server: true });
    assert_eq!(on_running_message(Ok(Command::Stop), false), RunAction::Stop { by_server: false });
    assert_eq!(on_running_message(Ok(Command::Start), false), RunAction::Ignore);
}

#[test]
fn parsed_bytes_drive_the_client() {
    let ping: &[u8] = &[0x0b];
    assert_eq!(on_waiting_message(Command::try_from(ping), true), WaitAction::Reply(0x50));
    let start: &[u8] = &[0x60];
    assert_eq!(on_waiting_message(Command::try_from(start), true), WaitAction::Start);
    let request: &[u8] = &[0x17];
    assert_eq!(on_config_message(Command::try_from(request)), ConfigStep::SendImage);
}

#[test]
fn first_marker_on_the_cube_is_picked() {
    let cube = [3u8, 7, 11, 15];
    assert_eq!(find_cube_marker(&[1, 2, 11, 3], &cube), Some((2, 11)));
    assert_eq!(find_cube_marker(&[0, 4, 5], &cube), None);
    assert_eq!(find_cube_marker(&[], &cube), None);
    // ids are read as bytes: 259 is 3 modulo 256
    assert_eq!(find_cube_marker(&[259, 7], &cube), Some((0, 3)));
}

#[test]
fn rectangle_centre_rounds_toward_zero() {
    assert_eq!(rect_center(&Rect { x: 10, y: 20, width: 5, height: 8 }), (12, 24));
    assert_eq!(rect_center(&Rect { x: 0, y: 0, width: -3, height: -4 }), (-1, -2));
}

#[test]
fn bounding_rectangle_spans_the_points() {
    let r = bounding_to_rect(&[4, 10, 7, 2], &[5, 1, 9, 3], 0);
    assert_eq!(r, Rect { x: 2, y: 1, width: 8, height: 8 });
    let grown = bounding_to_rect(&[4, 10], &[5, 1], 2);
    assert_eq!(grown, Rect { x: 2, y: -1, width: 10, height: 8 });
}
