//! The decisions of the location server: what each message it receives
//! does to its list of clients and what the server does in response. The
//! server's event loop (sockets, timers, the position arithmetic) runs
//! outside and feeds every received message through [`ServiceCore::handle`].
//!
//! Points in time are nanoseconds relative to the start of the service.
use vstd::prelude::*;
use crate::common::hosts::{ClientData, Command, HostInfo, HostState, HostType};
use crate::position::Position;

verus! {

/// A socket address as plain numbers.
#[derive(Debug, Clone, Copy, PartialEq, Eq, Structural)]
#[allow(inconsistent_fields)]
pub enum Endpoint {
    V4 { ip: u32, port: u16 },
    V6 { ip: u128, port: u16, flowinfo: u32, scope_id: u32 },
}

/// A camera placed in the room: its pose and its horizontal field of view
/// (an `f64` bit pattern).
#[derive(Debug, Clone, Copy)]
pub struct PlacedCamera {
    pub position: Position,
    pub fov: u64,
}

impl PlacedCamera {
    /// A camera from its pose and field of view.
    pub fn new(position: Position, fov: u64) -> (r: PlacedCamera)
        ensures
            r == (PlacedCamera { position, fov }),
    {
        PlacedCamera { position, fov }
    }
}

/// The bit pattern of `f64::NAN`, the reading of a client that has sent none.
pub const NAN_BITS: u64 = 0x7ff8_0000_0000_0000;

/// A connected client: its last reading and when it arrived, its camera, its
/// address and the text of its IP address.
#[derive(Debug)]
pub struct ClientEntry {
    pub data: ClientData,
    pub changed_at: i128,
    pub camera: PlacedCamera,
    pub address: Endpoint,
    pub ip_text: String,
}

/// What the server does after a message.
#[derive(Debug)]
pub enum Outcome {
    /// Nothing.
    Ignore,
    /// Answer the sender with this status byte.
    Reply(u8),
    /// A client connected from this address with this camera.
    Connected(Endpoint, PlacedCamera),
    /// The camera of the client at this address changed.
    InfoUpdated(Endpoint, PlacedCamera),
    /// A client disconnected; the event names this address.
    Disconnected(Endpoint),
    /// Compute the position from these readings (`None` where a client's
    /// reading has expired) with each client's camera.
    ComputePosition(Vec<(Option<ClientData>, PlacedCamera)>),
    /// Stop: tell every client to stop and end the service.
    Stop,
}

/// What the server does with a message before it was started.
#[derive(Debug, Clone, Copy)]
pub enum WaitOutcome {
    /// Nothing.
    Ignore,
    /// Answer the sender with this status byte.
    Reply(u8),
    /// Start serving with the ids of the markers on the cube.
    Start([u8; 4]),
}

/// The status byte of a server in the given state.
fn server_status(host_state: HostState) -> (r: u8)
    requires
        host_state != HostState::Unreachable,
    ensures
        Some(r) == crate::hosts::host_info_byte(HostInfo { host_type: HostType::Server, host_state }),
{
    match (HostInfo { host_type: HostType::Server, host_state }).try_into() {
        Ok(b) => b,
        Err(_) => 0,
    }
}

/// Before it is started the server answers pings as idle and starts on a
/// start request; everything else is ignored.
pub fn handle_waiting(msg: Result<Command, ()>) -> (r: WaitOutcome)
    ensures
        r == match msg {
            Ok(Command::Ping) => WaitOutcome::Reply(0xc0),
            Ok(Command::StartServer { cube }) => WaitOutcome::Start(cube),
            _ => WaitOutcome::Ignore,
        },
{
    match msg {
        Ok(Command::StartServer { cube }) => WaitOutcome::Start(cube),
        Ok(Command::Ping) => WaitOutcome::Reply(server_status(HostState::Idle)),
        _ => WaitOutcome::Ignore,
    }
}

/// The oldest time of change among the first `n` clients that is earlier than
/// the start of the service, with the index of the first client holding it
/// (the start and index 0 when there is none).
pub open spec fn oldest(cs: Seq<ClientEntry>, n: nat) -> (i128, int)
    decreases n,
{
    if n == 0 {
        (0, 0)
    } else {
        let (a, i) = oldest(cs, (n - 1) as nat);
        if cs[n - 1].changed_at < a {
            (cs[n - 1].changed_at, n - 1)
        } else {
            (a, i)
        }
    }
}

/// The index of the last of the first `n` clients at address `from`.
pub open spec fn last_at(cs: Seq<ClientEntry>, from: Endpoint, n: nat) -> Option<int>
    decreases n,
{
    if n == 0 {
        None
    } else if cs[n - 1].address == from {
        Some(n - 1)
    } else {
        last_at(cs, from, (n - 1) as nat)
    }
}

/// The index of the first client among `cs[k..]` at address `from`.
pub open spec fn first_at(cs: Seq<ClientEntry>, from: Endpoint, k: nat) -> Option<int>
    decreases cs.len() - k,
{
    if k >= cs.len() {
        None
    } else if cs[k as int].address == from {
        Some(k as int)
    } else {
        first_at(cs, from, k + 1)
    }
}

/// The index of the first client among `cs[k..]` whose IP address reads `ip`.
pub open spec fn first_with_ip(cs: Seq<ClientEntry>, ip: Seq<char>, k: nat) -> Option<int>
    decreases cs.len() - k,
{
    if k >= cs.len() {
        None
    } else if cs[k as int].ip_text@ == ip {
        Some(k as int)
    } else {
        first_with_ip(cs, ip, k + 1)
    }
}

/// The last client at an address lies among the clients looked at.
proof fn lemma_last_at_range(cs: Seq<ClientEntry>, from: Endpoint, n: nat)
    ensures
        last_at(cs, from, n) matches Some(k) ==> 0 <= k < n,
    decreases n,
{
    if n > 0 {
        lemma_last_at_range(cs, from, (n - 1) as nat);
    }
}

/// The first client at an address lies among the clients looked at and has
/// that address.
proof fn lemma_first_at_range(cs: Seq<ClientEntry>, from: Endpoint, k: nat)
    ensures
        first_at(cs, from, k) matches Some(i) ==> k <= i < cs.len() && cs[i].address == from,
    decreases cs.len() - k,
{
    if k < cs.len() {
        lemma_first_at_range(cs, from, k + 1);
    }
}

/// The first client with an IP address lies among the clients looked at.
proof fn lemma_first_with_ip_range(cs: Seq<ClientEntry>, ip: Seq<char>, k: nat)
    ensures
        first_with_ip(cs, ip, k) matches Some(i) ==> k <= i < cs.len(),
    decreases cs.len() - k,
{
    if k < cs.len() {
        lemma_first_with_ip_range(cs, ip, k + 1);
    }
}

/// Whether a reading changed at `changed_at` is still valid at `now`.
pub open spec fn is_fresh(changed_at: i128, now: i64, validity: u64) -> bool {
    now - changed_at <= validity
}

/// The client `c` after its reading became `d` at `t`.
pub open spec fn with_reading(c: ClientEntry, d: ClientData, t: i64) -> ClientEntry {
    ClientEntry { data: d, changed_at: t as i128, camera: c.camera, address: c.address, ip_text: c.ip_text }
}

/// The clients after a reading `d` arrived from `from` at `t`: every client at
/// that address takes it.
pub open spec fn after_reading(cs: Seq<ClientEntry>, from: Endpoint, d: ClientData, t: i64) -> Seq<ClientEntry> {
    Seq::new(cs.len(), |i: int| if cs[i].address == from { with_reading(cs[i], d, t) } else { cs[i] })
}

/// What each client contributes to a position: the new reading for the
/// sender, the last reading of any other client while it is fresh.
pub open spec fn readings(cs: Seq<ClientEntry>, from: Endpoint, d: ClientData, now: i64, validity: u64) -> Seq<(Option<ClientData>, PlacedCamera)> {
    Seq::new(
        cs.len(),
        |i: int|
            (if cs[i].address == from {
                Some(d)
            } else if is_fresh(cs[i].changed_at, now, validity) {
                Some(cs[i].data)
            } else {
                None
            }, cs[i].camera),
    )
}

/// The camera `c` after an information update.
pub open spec fn updated_camera(c: PlacedCamera, position: Position, fov: Option<u64>) -> PlacedCamera {
    PlacedCamera {
        position,
        fov: match fov {
            Some(f) => f,
            None => c.fov,
        },
    }
}

/// An information update moves the camera to the given pose and, when it
/// carries a field of view, gives the camera that field of view; without one
/// the camera keeps its own.
pub proof fn law_info_update_camera(c: PlacedCamera, position: Position, fov: Option<u64>)
    ensures
        updated_camera(c, position, fov).position == position,
        fov matches Some(f) ==> updated_camera(c, position, fov).fov == f,
        fov is None ==> updated_camera(c, position, fov).fov == c.fov,
{
}

/// The smallest time of change a client can hold.
pub open spec fn min_time() -> int {
    i64::MIN - u64::MAX
}

/// The state of a running server: its clients and how long readings stay valid.
pub struct ServiceCore {
    clients: Vec<ClientEntry>,
    data_validity: u64,
}

impl ServiceCore {
    /// The connected clients, in the order they connected.
    pub closed spec fn clients(&self) -> Seq<ClientEntry> {
        self.clients@
    }

    /// How long, in nanoseconds, a reading stays valid.
    pub closed spec fn validity(&self) -> u64 {
        self.data_validity
    }

    /// Every time of change lies between the earliest a connection can record
    /// and the latest time of a message.
    pub open spec fn wf(&self) -> bool {
        forall|i: int|
            0 <= i < self.clients().len() ==> min_time() <= #[trigger] self.clients()[i].changed_at
                <= i64::MAX
    }

    /// A server with the given clients, keeping readings valid for
    /// `data_validity` nanoseconds.
    pub fn new(clients: Vec<ClientEntry>, data_validity: u64) -> (r: ServiceCore)
        requires
            forall|i: int|
                0 <= i < clients@.len() ==> min_time() <= #[trigger] clients@[i].changed_at
                    <= i64::MAX,
        ensures
            r.wf(),
            r.clients() == clients@,
            r.validity() == data_validity,
    {
        ServiceCore { clients, data_validity }
    }

    /// The addresses of the connected clients, in order.
    pub fn client_addresses(&self) -> (r: Vec<Endpoint>)
        ensures
            r@ == self.clients().map_values(|c: ClientEntry| c.address),
    {
        let mut r: Vec<Endpoint> = Vec::new();
        let mut i: usize = 0;
        while i < self.clients.len()
            invariant
                i <= self.clients@.len(),
                r@ == self.clients@.take(i as int).map_values(|c: ClientEntry| c.address),
            decreases self.clients@.len() - i,
        {
            r.push(self.clients[i].address);
            i += 1;
            assert(r@ =~= self.clients@.take(i as int).map_values(|c: ClientEntry| c.address));
        }
        assert(self.clients@.take(i as int) =~= self.clients@);
        r
    }

    /// Whether a disconnect request from `from` stops the program: the first
    /// client at that address is the last client, and the event for the
    /// disconnect names the client after the removed one.
    pub open spec fn disconnect_aborts(&self, from: Endpoint) -> bool {
        first_at(self.clients(), from, 0) == Some((self.clients().len() - 1) as int)
    }

    /// Whether a disconnect request from `from` stops the program.
    pub fn disconnect_would_abort(&self, from: Endpoint) -> (r: bool)
        ensures
            r == self.disconnect_aborts(from),
    {
        match self.find_address(from) {
            Some(i) => i == self.clients.len() - 1,
            None => false,
        }
    }

    /// The index of the first client at address `from`.
    fn find_address(&self, from: Endpoint) -> (r: Option<usize>)
        ensures
            r matches Some(i) ==> first_at(self.clients(), from, 0) == Some(i as int) && i
                < self.clients().len(),
            r is None ==> first_at(self.clients(), from, 0) is None,
    {
        proof {
            lemma_first_at_range(self.clients@, from, 0);
        }
        let mut i: usize = 0;
        while i < self.clients.len()
            invariant
                i <= self.clients@.len(),
                first_at(self.clients@, from, 0) == first_at(self.clients@, from, i as nat),
            decreases self.clients@.len() - i,
        {
            if self.clients[i].address == from {
                return Some(i);
            }
            i += 1;
        }
        None
    }

    /// The index of the first client whose IP address reads `ip`.
    fn find_ip(&self, ip: &str) -> (r: Option<usize>)
        ensures
            r matches Some(i) ==> first_with_ip(self.clients(), ip@, 0) == Some(i as int) && i
                < self.clients().len(),
            r is None ==> first_with_ip(self.clients(), ip@, 0) is None,
    {
        proof {
            lemma_first_with_ip_range(self.clients@, ip@, 0);
        }
        let target = ip.to_owned();
        let mut i: usize = 0;
        while i < self.clients.len()
            invariant
                i <= self.clients@.len(),
                target@ == ip@,
                first_with_ip(self.clients@, ip@, 0) == first_with_ip(self.clients@, ip@, i as nat),
            decreases self.clients@.len() - i,
        {
            if self.clients[i].ip_text == target {
                return Some(i);
            }
            i += 1;
        }
        None
    }

    /// A reading `d` arrived from `from` at `recv_time`. Every client at that
    /// address takes the reading. When the last of them is the client whose
    /// reading was the oldest, the position is computed from the readings.
    fn take_reading(&mut self, from: Endpoint, d: ClientData, recv_time: i64, now: i64) -> (r: Outcome)
        requires
            old(self).wf(),
        ensures
            final(self).wf(),
            final(self).validity() == old(self).validity(),
            final(self).clients() == after_reading(old(self).clients(), from, d, recv_time),
            ({
                let cs = old(self).clients();
                let n = cs.len();
                match last_at(cs, from, n) {
                    Some(ci) if oldest(cs, n).1 == ci => r matches Outcome::ComputePosition(v) && v@
                        == readings(cs, from, d, now, old(self).validity()),
                    _ => r is Ignore,
                }
            }),
    {
        let ghost cs = self.clients@;
        let validity = self.data_validity;
        let mut oldest_age: i128 = 0;
        let mut oldest_index: usize = 0;
        let mut updated: Option<usize> = None;
        let mut data: Vec<(Option<ClientData>, PlacedCamera)> = Vec::new();
        let mut next: Vec<ClientEntry> = Vec::new();
        let n = self.clients.len();
        let mut i: usize = 0;
        while i < n
            invariant
                n == cs.len(),
                cs == self.clients@,
                validity == self.data_validity,
                old(self).wf(),
                cs == old(self).clients(),
                i <= n,
                (oldest_age, oldest_index as int) == oldest(cs, i as nat),
                updated == match last_at(cs, from, i as nat) {
                    Some(k) => Some(k as usize),
                    None => None::<usize>,
                },
                data@ == readings(cs, from, d, now, validity).take(i as int),
                next@ == after_reading(cs, from, d, recv_time).take(i as int),
            decreases n - i,
        {
            let c = &self.clients[i];
            let age = c.changed_at;
            if age < oldest_age {
                oldest_age = age;
                oldest_index = i;
            }
            let reading = if c.address == from {
                updated = Some(i);
                next.push(ClientEntry { data: d, changed_at: recv_time as i128, camera: c.camera, address: c.address, ip_text: c.ip_text.clone() });
                Some(d)
            } else {
                next.push(ClientEntry { data: c.data, changed_at: c.changed_at, camera: c.camera, address: c.address, ip_text: c.ip_text.clone() });
                assert(min_time() <= cs[i as int].changed_at <= i64::MAX);
                if (now as i128) - c.changed_at <= validity as i128 {
                    Some(c.data)
                } else {
                    None
                }
            };
            data.push((reading, c.camera));
            i += 1;
            assert(data@ =~= readings(cs, from, d, now, validity).take(i as int));
            assert(next@ =~= after_reading(cs, from, d, recv_time).take(i as int));
        }
        assert(data@ =~= readings(cs, from, d, now, validity));
        assert(next@ =~= after_reading(cs, from, d, recv_time));
        proof {
            lemma_last_at_range(cs, from, n as nat);
        }
        self.clients = next;
        match updated {
            Some(ci) => {
                if oldest_index == ci {
                    Outcome::ComputePosition(data)
                } else {
                    Outcome::Ignore
                }
            },
            None => Outcome::Ignore,
        }
    }

    /// Handles one message of a running server, received from `from` (whose
    /// IP address reads `from_ip_text`) at `recv_time`; `now` is when the
    /// freshness of other clients' readings is judged.
    pub fn handle(&mut self, msg: Result<Command, ()>, from: Endpoint, from_ip_text: String, recv_time: i64, now: i64) -> (r: Outcome)
        requires
            old(self).wf(),
            msg matches Ok(Command::ClientDisconnect) ==> !old(self).disconnect_aborts(from),
        ensures
            final(self).wf(),
            final(self).validity() == old(self).validity(),
            ({
                let cs = old(self).clients();
                let n = cs.len();
                match msg {
                    Ok(Command::Ping) => {
                        &&& r matches Outcome::Reply(b) && b == 0xe0
                        &&& final(self).clients() == cs
                    },
                    Ok(Command::ValueUpdate(d)) => {
                        &&& final(self).clients() == after_reading(cs, from, d, recv_time)
                        &&& match last_at(cs, from, n) {
                            Some(ci) if oldest(cs, n).1 == ci => r matches Outcome::ComputePosition(v)
                                && v@ == readings(cs, from, d, now, old(self).validity()),
                            _ => r is Ignore,
                        }
                    },
                    Ok(Command::Connect { position, fov }) => {
                        &&& r matches Outcome::Connected(a, c) && a == from && c == PlacedCamera {
                            position,
                            fov,
                        }
                        &&& final(self).clients() == cs.push(
                            ClientEntry {
                                data: ClientData { marker_id: 255, x_position: NAN_BITS },
                                changed_at: (recv_time - old(self).validity()) as i128,
                                camera: PlacedCamera { position, fov },
                                address: from,
                                ip_text: from_ip_text,
                            },
                        )
                    },
                    Ok(Command::InfoUpdate { client_ip, position, fov }) => match first_with_ip(
                        cs,
                        client_ip@,
                        0,
                    ) {
                        Some(i) => {
                            let cam = updated_camera(cs[i].camera, position, fov);
                            &&& r matches Outcome::InfoUpdated(a, c) && a == cs[i].address && c == cam
                            &&& final(self).clients() == cs.update(
                                i,
                                ClientEntry {
                                    data: cs[i].data,
                                    changed_at: cs[i].changed_at,
                                    camera: cam,
                                    address: cs[i].address,
                                    ip_text: cs[i].ip_text,
                                },
                            )
                        },
                        None => r is Ignore && final(self).clients() == cs,
                    },
                    Ok(Command::Stop) => r is Stop && final(self).clients() == cs,
                    Ok(Command::ClientDisconnect) => match first_at(cs, from, 0) {
                        Some(i) => {
                            &&& final(self).clients() == cs.remove(i)
                            &&& r matches Outcome::Disconnected(a) && a == cs[i + 1].address
                        },
                        None => r is Ignore && final(self).clients() == cs,
                    },
                    _ => r is Ignore && final(self).clients() == cs,
                }
            }),
    {
        match msg {
            Ok(Command::Ping) => Outcome::Reply(server_status(HostState::Running)),
            Ok(Command::ValueUpdate(d)) => self.take_reading(from, d, recv_time, now),
            Ok(Command::Connect { position, fov }) => {
                let camera = PlacedCamera::new(position, fov);
                let changed_at = recv_time as i128 - self.data_validity as i128;
                self.clients.push(
                    ClientEntry {
                        data: ClientData::new(255, NAN_BITS),
                        changed_at,
                        camera,
                        address: from,
                        ip_text: from_ip_text,
                    },
                );
                Outcome::Connected(from, camera)
            },
            Ok(Command::InfoUpdate { client_ip, position, fov }) => {
                match self.find_ip(client_ip) {
                    Some(i) => {
                        let c = &self.clients[i];
                        let camera = PlacedCamera {
                            position,
                            fov: match fov {
                                Some(f) => f,
                                None => c.camera.fov,
                            },
                        };
                        let entry = ClientEntry {
                            data: c.data,
                            changed_at: c.changed_at,
                            camera,
                            address: c.address,
                            ip_text: c.ip_text.clone(),
                        };
                        let address = c.address;
                        self.clients.set(i, entry);
                        Outcome::InfoUpdated(address, camera)
                    },
                    None => Outcome::Ignore,
                }
            },
            Ok(Command::Stop) => Outcome::Stop,
            Ok(Command::ClientDisconnect) => {
                match self.find_address(from) {
                    Some(i) => {
                        self.clients.remove(i);
                        Outcome::Disconnected(self.clients[i].address)
                    },
                    None => Outcome::Ignore,
                }
            },
            _ => Outcome::Ignore,
        }
    }
}

} // verus!
