//! The decisions of a camera client: how it answers the organizer while it
//! waits to be started, while it is being configured, and while it sends
//! readings to the server. The camera work and the sockets stay outside.
use vstd::prelude::*;
use crate::common::hosts::{Command, HostInfo, HostState, HostType};
use crate::hosts::host_info_byte;

verus! {

/// What a waiting client does with a message.
#[derive(Debug, Clone, Copy, PartialEq, Eq, Structural)]
pub enum WaitAction {
    /// Nothing.
    Ignore,
    /// Answer the sender with this status byte.
    Reply(u8),
    /// The sender is the organizer starting this client: connect to it.
    Start,
}

/// What a client being configured does with a byte from the organizer.
#[derive(Debug, Clone, Copy, PartialEq, Eq, Structural)]
pub enum ConfigStep {
    /// Nothing; wait for the next byte.
    Ignore,
    /// Capture an image and send it.
    SendImage,
    /// The images are done: the configuration follows.
    Done,
}

/// What a running client does with a message.
#[derive(Debug, Clone, Copy, PartialEq, Eq, Structural)]
pub enum RunAction {
    /// Nothing; go on reading the camera.
    Ignore,
    /// Answer the sender with this status byte.
    Reply(u8),
    /// Stop sending readings. Unless the server itself asked for it, the
    /// client tells the server it disconnects.
    Stop { by_server: bool },
}

/// The status byte of a client in the given state.
fn client_status(calibrated: bool, host_state: HostState) -> (r: u8)
    requires
        host_state != HostState::Unreachable,
    ensures
        Some(r) == host_info_byte(HostInfo { host_type: HostType::Client { calibrated }, host_state }),
{
    match (HostInfo { host_type: HostType::Client { calibrated }, host_state }).try_into() {
        Ok(b) => b,
        Err(_) => 0,
    }
}

/// A waiting client answers a ping as idle, calibrated when it holds a
/// calibration, and is started by a start request; it ignores the rest.
pub fn on_waiting_message(msg: Result<Command, ()>, calibrated: bool) -> (r: WaitAction)
    ensures
        r == match msg {
            Ok(Command::Start) => WaitAction::Start,
            Ok(Command::Ping) => WaitAction::Reply(if calibrated { 0x50u8 } else { 0x40u8 }),
            _ => WaitAction::Ignore,
        },
{
    match msg {
        Ok(Command::Start) => WaitAction::Start,
        Ok(Command::Ping) => WaitAction::Reply(client_status(calibrated, HostState::Idle)),
        _ => WaitAction::Ignore,
    }
}

/// While it is configured, a client sends an image for each image request
/// and stops sending images when they are done; other bytes are skipped.
pub fn on_config_message(msg: Result<Command, ()>) -> (r: ConfigStep)
    ensures
        r == match msg {
            Ok(Command::RequestImage) => ConfigStep::SendImage,
            Ok(Command::ImagesDone) => ConfigStep::Done,
            _ => ConfigStep::Ignore,
        },
{
    match msg {
        Ok(Command::RequestImage) => ConfigStep::SendImage,
        Ok(Command::ImagesDone) => ConfigStep::Done,
        _ => ConfigStep::Ignore,
    }
}

/// A running client answers a ping as a running calibrated client and stops
/// on a stop request, noting whether it came from the server (`from_server`);
/// it ignores the rest.
pub fn on_running_message(msg: Result<Command, ()>, from_server: bool) -> (r: RunAction)
    ensures
        r == match msg {
            Ok(Command::Stop) => RunAction::Stop { by_server: from_server },
            Ok(Command::Ping) => RunAction::Reply(0x70u8),
            _ => RunAction::Ignore,
        },
{
    match msg {
        Ok(Command::Stop) => RunAction::Stop { by_server: from_server },
        Ok(Command::Ping) => RunAction::Reply(client_status(true, HostState::Running)),
        _ => RunAction::Ignore,
    }
}

/// Whether the marker id, read as a byte, is one of the cube's.
pub open spec fn on_cube(cube: Seq<u8>, id: i32) -> bool {
    cube.contains(id as u8)
}

/// Whether the cube holds the marker id read as a byte.
fn cube_holds(cube: &[u8; 4], id: i32) -> (r: bool)
    ensures
        r == on_cube(cube@, id),
{
    let b = #[verifier::truncate] (id as u8);
    let mut k: usize = 0;
    while k < 4
        invariant
            k <= 4,
            b == #[verifier::truncate] (id as u8),
            forall|j: int| 0 <= j < k ==> cube@[j] != b,
        decreases 4 - k,
    {
        if cube[k] == b {
            assert(cube@[k as int] == b);
            assert(cube@.contains(b));
            return true;
        }
        k += 1;
    }
    false
}

/// The first of the detected markers that is on the cube: its index among
/// the detections and its id as a byte.
pub fn find_cube_marker(ids: &[i32], cube: &[u8; 4]) -> (r: Option<(usize, u8)>)
    ensures
        match r {
            Some((i, id)) => {
                &&& i < ids@.len()
                &&& id == ids@[i as int] as u8
                &&& on_cube(cube@, ids@[i as int])
                &&& forall|j: int| 0 <= j < i ==> !on_cube(cube@, #[trigger] ids@[j])
            },
            None => forall|j: int| 0 <= j < ids@.len() ==> !on_cube(cube@, #[trigger] ids@[j]),
        },
{
    let mut i: usize = 0;
    while i < ids.len()
        invariant
            i <= ids@.len(),
            forall|j: int| 0 <= j < i ==> !on_cube(cube@, #[trigger] ids@[j]),
        decreases ids@.len() - i,
    {
        if cube_holds(cube, ids[i]) {
            return Some((i, #[verifier::truncate] (ids[i] as u8)));
        }
        i += 1;
    }
    None
}

/// A rectangle of pixels: its top left corner and its size.
#[derive(Debug, Clone, Copy, PartialEq, Eq, Structural)]
pub struct Rect {
    pub x: i32,
    pub y: i32,
    pub width: i32,
    pub height: i32,
}

/// Half of `v`, rounded toward zero as integer division does.
pub open spec fn half(v: int) -> int {
    if v >= 0 {
        v / 2
    } else {
        -((-v) / 2)
    }
}

/// The centre of a rectangle: its corner plus half its size.
pub fn rect_center(r: &Rect) -> (c: (i32, i32))
    requires
        i32::MIN <= r.x + half(r.width as int) <= i32::MAX,
        i32::MIN <= r.y + half(r.height as int) <= i32::MAX,
    ensures
        c.0 == r.x + half(r.width as int),
        c.1 == r.y + half(r.height as int),
{
    (r.x + r.width / 2, r.y + r.height / 2)
}

/// The smallest of the first `n` coordinates (`i32::MAX` for none).
pub open spec fn lowest(v: Seq<i32>, n: nat) -> int
    decreases n,
{
    if n == 0 {
        i32::MAX as int
    } else {
        let m = lowest(v, (n - 1) as nat);
        if v[n - 1] < m {
            v[n - 1] as int
        } else {
            m
        }
    }
}

/// The largest of the first `n` coordinates (`i32::MIN` for none).
pub open spec fn highest(v: Seq<i32>, n: nat) -> int
    decreases n,
{
    if n == 0 {
        i32::MIN as int
    } else {
        let m = highest(v, (n - 1) as nat);
        if v[n - 1] > m {
            v[n - 1] as int
        } else {
            m
        }
    }
}

/// The rectangle around the points (given by their coordinates `xs` and
/// `ys`), grown by `offset` on every side: from the smallest coordinates
/// minus `offset` to the largest plus `offset`.
pub fn bounding_to_rect(xs: &[i32], ys: &[i32], offset: i32) -> (r: Rect)
    requires
        xs@.len() == ys@.len(),
        ({
            let (lx, ly) = (lowest(xs@, xs@.len()), lowest(ys@, ys@.len()));
            let (hx, hy) = (highest(xs@, xs@.len()), highest(ys@, ys@.len()));
            &&& i32::MIN <= lx - offset <= i32::MAX
            &&& i32::MIN <= ly - offset <= i32::MAX
            &&& i32::MIN <= hx - lx <= i32::MAX
            &&& i32::MIN <= hy - ly <= i32::MAX
            &&& i32::MIN <= 2 * offset <= i32::MAX
            &&& i32::MIN <= hx - lx + 2 * offset <= i32::MAX
            &&& i32::MIN <= hy - ly + 2 * offset <= i32::MAX
        }),
    ensures
        r.x == lowest(xs@, xs@.len()) - offset,
        r.y == lowest(ys@, ys@.len()) - offset,
        r.width == highest(xs@, xs@.len()) - lowest(xs@, xs@.len()) + 2 * offset,
        r.height == highest(ys@, ys@.len()) - lowest(ys@, ys@.len()) + 2 * offset,
{
    let (mut sx, mut sy, mut ex, mut ey) = (i32::MAX, i32::MAX, i32::MIN, i32::MIN);
    let mut i: usize = 0;
    while i < xs.len()
        invariant
            xs@.len() == ys@.len(),
            i <= xs@.len(),
            sx == lowest(xs@, i as nat),
            sy == lowest(ys@, i as nat),
            ex == highest(xs@, i as nat),
            ey == highest(ys@, i as nat),
        decreases xs@.len() - i,
    {
        if xs[i] < sx {
            sx = xs[i];
        }
        if ys[i] < sy {
            sy = ys[i];
        }
        if xs[i] > ex {
            ex = xs[i];
        }
        if ys[i] > ey {
            ey = ys[i];
        }
        i += 1;
    }
    Rect { x: sx - offset, y: sy - offset, width: ex - sx + (2 * offset), height: ey - sy + (2 * offset) }
}

} // verus!
