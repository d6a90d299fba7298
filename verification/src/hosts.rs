//! What hosts report about themselves and the commands they exchange.
use vstd::prelude::*;

pub mod constants;

use constants::status_reply::host_type::{CLIENT, CONFIGLESS, SERVER};
use constants::status_reply::masks;
use constants::status_reply::state::{IDLE, RUNNING};
use crate::bytes::{
    be_u16, be_u64, lemma_u16_bytes_roundtrip, lemma_u16_value_roundtrip,
    lemma_u64_bytes_roundtrip, lemma_u64_value_roundtrip, push_u16_be, push_u64_be, read_u16_be,
    read_u64_be, u16_from_be, u64_from_be,
};
use crate::position::{
    lemma_position_bytes_roundtrip, lemma_position_value_roundtrip, position_bytes,
    position_from_bytes, push_position, read_position, Position,
};
use vstd::string::StringSliceAdditionalSpecFns;
use vstd::utf8::{encode_utf8_valid_utf8, valid_utf8};

verus! {

/// The kind of a host on the network.
#[derive(Debug, Clone, Copy, PartialEq, Eq, Structural)]
pub enum HostType {
    ConfiglessClient,
    Server,
    Client { calibrated: bool },
}

/// What a host is doing.
#[derive(Debug, Clone, Copy, PartialEq, Eq, Structural)]
pub enum HostState {
    Unreachable,
    Running,
    Idle,
}

/// The type and state of a host, as carried by its status byte.
#[derive(Debug, Clone, Copy, PartialEq, Eq, Structural)]
pub struct HostInfo {
    pub host_type: HostType,
    pub host_state: HostState,
}

/// The bits 7-4 of the status byte for a host type.
pub open spec fn host_type_bits(t: HostType) -> int {
    match t {
        HostType::Client { calibrated } => if calibrated { 0x50 } else { 0x40 },
        HostType::ConfiglessClient => 0x80,
        HostType::Server => 0xc0,
    }
}

/// The status byte announcing `info`; there is none for an unreachable host.
pub open spec fn host_info_byte(info: HostInfo) -> Option<u8> {
    match info.host_state {
        HostState::Unreachable => None,
        HostState::Running => Some((host_type_bits(info.host_type) + 0x20) as u8),
        HostState::Idle => Some(host_type_bits(info.host_type) as u8),
    }
}

/// The host information a status byte announces: bits 7-6 select the type
/// (none for `00`), bit 5 the state and, for a client, bit 4 the calibration.
pub open spec fn host_info_of_byte(v: u8) -> Option<HostInfo> {
    let kind = v / 64;
    let host_state = if (v / 32) % 2 == 1 { HostState::Running } else { HostState::Idle };
    if kind == 0 {
        None
    } else {
        let host_type = if kind == 1 {
            HostType::Client { calibrated: (v / 16) % 2 == 1 }
        } else if kind == 2 {
            HostType::ConfiglessClient
        } else {
            HostType::Server
        };
        Some(HostInfo { host_type, host_state })
    }
}

impl HostInfo {
    /// The status byte a host answers a ping with; `Err` for an unreachable host.
    pub fn try_into(self) -> (r: Result<u8, ()>)
        ensures
            r matches Ok(b) ==> host_info_byte(self) == Some(b),
            r is Err ==> host_info_byte(self) is None,
    {
        let t: u8 = match self.host_type {
            HostType::Client { calibrated } => {
                CLIENT | (if calibrated {
                    masks::CALIBRATED & masks::ONES
                } else {
                    0
                })
            },
            HostType::ConfiglessClient => CONFIGLESS,
            HostType::Server => SERVER,
        };
        let s: u8 = match self.host_state {
            HostState::Unreachable => {
                return Err(());
            },
            HostState::Running => RUNNING,
            HostState::Idle => IDLE,
        };
        assert((0x40u8 | (0x10u8 & 0xffu8)) == 0x50u8) by (bit_vector);
        assert((0x40u8 | 0u8) == 0x40u8) by (bit_vector);
        assert(t == host_type_bits(self.host_type));
        assert(t | 0u8 == t) by (bit_vector);
        assert((t == 0x40 || t == 0x50 || t == 0x80 || t == 0xc0) ==> (t | 0x20u8) == t + 0x20)
            by (bit_vector);
        Ok(t | s)
    }

    /// Reads a status byte; `Err` when its type bits are `00`.
    pub fn try_from(v: u8) -> (r: Result<HostInfo, ()>)
        ensures
            r matches Ok(i) ==> host_info_of_byte(v) == Some(i),
            r is Err ==> host_info_of_byte(v) is None,
    {
        let t = v & masks::HOST_TYPE;
        assert(t == (v & 0xc0u8));
        assert((v & 0xc0u8) == 0x80u8 <==> v / 64 == 2) by (bit_vector);
        assert((v & 0xc0u8) == 0x40u8 <==> v / 64 == 1) by (bit_vector);
        assert((v & 0xc0u8) == 0xc0u8 <==> v / 64 == 3) by (bit_vector);
        assert(((v & 0x10u8) != 0) <==> (v / 16) % 2 == 1) by (bit_vector);
        assert((v & 0x20u8) == 0x20u8 <==> (v / 32) % 2 == 1) by (bit_vector);
        assert((v & 0x20u8) == 0x20u8 || (v & 0x20u8) == 0u8) by (bit_vector);
        let host_type = if t == CONFIGLESS {
            HostType::ConfiglessClient
        } else if t == CLIENT {
            let calibrated = (v & masks::CALIBRATED) != 0;
            HostType::Client { calibrated }
        } else if t == SERVER {
            HostType::Server
        } else {
            return Err(());
        };
        let s = v & masks::STATE;
        let host_state = if s == RUNNING {
            HostState::Running
        } else if s == IDLE {
            HostState::Idle
        } else {
            return Err(());
        };
        Ok(HostInfo { host_type, host_state })
    }
}

/// A host that is not unreachable announces itself with a status byte, and
/// reading that byte back gives the same host information.
pub proof fn law_host_info_roundtrip(info: HostInfo)
    requires
        info.host_state != HostState::Unreachable,
    ensures
        host_info_byte(info) is Some,
        host_info_of_byte(host_info_byte(info).unwrap()) == Some(info),
{
}

/// Every status byte with nonzero type bits is read as some host information,
/// and announcing that information again gives the byte with its four low bits
/// (and, for a non-client, the calibration bit) cleared.
pub proof fn law_host_info_byte_canonical(v: u8)
    ensures
        host_info_of_byte(v) is Some <==> v / 64 != 0,
        host_info_of_byte(v) matches Some(i) ==> host_info_byte(i) == Some(
            (if v / 64 == 1 { (v / 16) * 16 } else { (v / 32) * 32 }) as u8,
        ),
{
}


/// One reading of a client: the marker it sees, where the marker is across
/// the image, and the marker's rotation. The three rotation angles and the
/// position are `f64` bit patterns.
#[derive(Debug, Clone, Copy)]
pub struct ClientData {
    pub marker_id: u8,
    pub target_x_position: u64,
    pub rotation: (u64, u64, u64),
}

impl ClientData {
    /// A reading from its parts.
    pub fn new(marker_id: u8, target_x_position: u64, rotation: (u64, u64, u64)) -> (r: ClientData)
        ensures
            r == (ClientData { marker_id, target_x_position, rotation }),
    {
        ClientData { marker_id, target_x_position, rotation }
    }
}

/// A message between the organizer, the clients and the server. Field of
/// view values are `f64` bit patterns.
#[derive(Debug, Clone, Copy)]
pub enum Command<'a> {
    Ping,
    Connect { position: Position, fov: u64 },
    Disconnect,
    Start,
    StartServer { cube: [u8; 4] },
    StartConfigless { ip: &'a str },
    Stop,
    RequestImage,
    ImagesDone,
    ValueUpdate(ClientData),
    InfoUpdate { position: Position, fov: u64 },
}

/// The mathematical content of a [`Command`]: byte arrays and strings are
/// sequences of bytes (a string by its UTF-8 encoding).
pub enum CommandModel {
    Ping,
    Connect { position: Position, fov: u64 },
    Disconnect,
    Start,
    StartServer { cube: Seq<u8> },
    StartConfigless { ip: Seq<u8> },
    Stop,
    RequestImage,
    ImagesDone,
    ValueUpdate(ClientData),
    InfoUpdate { position: Position, fov: u64 },
}

impl<'a> View for Command<'a> {
    type V = CommandModel;

    open spec fn view(&self) -> CommandModel {
        match *self {
            Command::Ping => CommandModel::Ping,
            Command::Connect { position, fov } => CommandModel::Connect { position, fov },
            Command::Disconnect => CommandModel::Disconnect,
            Command::Start => CommandModel::Start,
            Command::StartServer { cube } => CommandModel::StartServer { cube: cube@ },
            Command::StartConfigless { ip } => CommandModel::StartConfigless { ip: ip.spec_bytes() },
            Command::Stop => CommandModel::Stop,
            Command::RequestImage => CommandModel::RequestImage,
            Command::ImagesDone => CommandModel::ImagesDone,
            Command::ValueUpdate(d) => CommandModel::ValueUpdate(d),
            Command::InfoUpdate { position, fov } => CommandModel::InfoUpdate { position, fov },
        }
    }
}

impl Command<'_> {
    pub const PING: u8 = 0x0b;
    pub const CONNECT: u8 = 0xcc;
    pub const DISCONNECT: u8 = 0xdc;
    pub const START: u8 = 0x60;
    pub const START_SERVER: u8 = 0x55;
    pub const START_CONFIGLESS: u8 = 0x6c;
    pub const STOP: u8 = 0xcd;
    pub const REQUEST_IMAGE: u8 = 0x17;
    pub const IMAGES_DONE: u8 = 0x1d;
    pub const VALUE_UPDATE: u8 = 0x21;
    pub const INFO_UPDATE: u8 = 0x1f;
}

/// The wire bytes of a command: its command byte followed by its fields, all
/// numbers big-endian. A configless start carries the byte length of the
/// address as a 16-bit number (the length modulo 65536).
pub open spec fn command_bytes(m: CommandModel) -> Seq<u8> {
    match m {
        CommandModel::Ping => seq![0x0bu8],
        CommandModel::Connect { position, fov } => seq![0xccu8] + position_bytes(position) + be_u64(
            fov,
        ),
        CommandModel::Disconnect => seq![0xdcu8],
        CommandModel::Start => seq![0x60u8],
        CommandModel::StartServer { cube } => seq![0x55u8] + cube,
        CommandModel::StartConfigless { ip } => seq![0x6cu8] + be_u16(ip.len() as u16) + ip,
        CommandModel::Stop => seq![0xcdu8],
        CommandModel::RequestImage => seq![0x17u8],
        CommandModel::ImagesDone => seq![0x1du8],
        CommandModel::ValueUpdate(d) => seq![0x21u8, d.marker_id] + be_u64(d.target_x_position)
            + be_u64(d.rotation.0) + be_u64(d.rotation.1) + be_u64(d.rotation.2),
        CommandModel::InfoUpdate { position, fov } => seq![0x1fu8] + position_bytes(position)
            + be_u64(fov),
    }
}

/// The command that the bytes `b` hold, if any: the first byte selects the
/// command and the rest must have exactly that command's length; a configless
/// start's address must be valid UTF-8 and exactly as long as it says.
pub open spec fn parse_command(b: Seq<u8>) -> Option<CommandModel> {
    if b.len() < 1 {
        None
    } else {
        let cmd = b[0];
        let rest = b.subrange(1, b.len() as int);
        let len = rest.len();
        if cmd == 0x0b && len == 0 {
            Some(CommandModel::Ping)
        } else if cmd == 0x60 && len == 0 {
            Some(CommandModel::Start)
        } else if cmd == 0xcd && len == 0 {
            Some(CommandModel::Stop)
        } else if cmd == 0x17 && len == 0 {
            Some(CommandModel::RequestImage)
        } else if cmd == 0x1d && len == 0 {
            Some(CommandModel::ImagesDone)
        } else if cmd == 0xdc && len == 0 {
            Some(CommandModel::Disconnect)
        } else if cmd == 0x21 && len == 33 {
            Some(
                CommandModel::ValueUpdate(
                    ClientData {
                        marker_id: rest[0],
                        target_x_position: u64_from_be(rest.subrange(1, 9)),
                        rotation: (
                            u64_from_be(rest.subrange(9, 17)),
                            u64_from_be(rest.subrange(17, 25)),
                            u64_from_be(rest.subrange(25, 33)),
                        ),
                    },
                ),
            )
        } else if cmd == 0xcc && len == 32 {
            Some(
                CommandModel::Connect {
                    position: position_from_bytes(rest.subrange(0, 24)),
                    fov: u64_from_be(rest.subrange(24, 32)),
                },
            )
        } else if cmd == 0x1f && len == 32 {
            Some(
                CommandModel::InfoUpdate {
                    position: position_from_bytes(rest.subrange(0, 24)),
                    fov: u64_from_be(rest.subrange(24, 32)),
                },
            )
        } else if cmd == 0x6c && len >= 2 {
            let ip = rest.subrange(2, len as int);
            if len == 2 + u16_from_be(rest.subrange(0, 2)) && valid_utf8(ip) {
                Some(CommandModel::StartConfigless { ip })
            } else {
                None
            }
        } else if cmd == 0x55 && len == 4 {
            Some(CommandModel::StartServer { cube: rest })
        } else {
            None
        }
    }
}

/// `std::str::from_utf8`: the bytes as a string slice when they are valid
/// UTF-8, and then the slice holds exactly these bytes; `None` otherwise.
#[verifier::external_body]
pub(crate) fn str_from_utf8<'a>(v: &'a [u8]) -> (r: Option<&'a str>)
    ensures
        r is Some <==> valid_utf8(v@),
        r matches Some(s) ==> s.spec_bytes() == v@,
{
    std::str::from_utf8(v).ok()
}

impl<'a> Command<'a> {
    /// The wire bytes of the command.
    pub fn into_bytes(self) -> (r: Vec<u8>)
        ensures
            r@ == command_bytes(self@),
    {
        let mut out: Vec<u8> = Vec::new();
        match self {
            Command::Ping => out.push(Self::PING),
            Command::Connect { position, fov } => {
                out.push(Self::CONNECT);
                push_position(&mut out, &position);
                push_u64_be(&mut out, fov);
            },
            Command::Disconnect => out.push(Self::DISCONNECT),
            Command::Start => out.push(Self::START),
            Command::StartServer { cube } => {
                out.push(Self::START_SERVER);
                out.push(cube[0]);
                out.push(cube[1]);
                out.push(cube[2]);
                out.push(cube[3]);
            },
            Command::StartConfigless { ip } => {
                out.push(Self::START_CONFIGLESS);
                let ip_bytes = ip.as_bytes();
                push_u16_be(&mut out, ip_bytes.len() as u16);
                let ghost before = out@;
                out.extend_from_slice(ip_bytes);
                assert(out@ =~= before + ip_bytes@);
            },
            Command::Stop => out.push(Self::STOP),
            Command::RequestImage => out.push(Self::REQUEST_IMAGE),
            Command::ImagesDone => out.push(Self::IMAGES_DONE),
            Command::ValueUpdate(d) => {
                out.push(Self::VALUE_UPDATE);
                out.push(d.marker_id);
                push_u64_be(&mut out, d.target_x_position);
                push_u64_be(&mut out, d.rotation.0);
                push_u64_be(&mut out, d.rotation.1);
                push_u64_be(&mut out, d.rotation.2);
            },
            Command::InfoUpdate { position, fov } => {
                out.push(Self::INFO_UPDATE);
                push_position(&mut out, &position);
                push_u64_be(&mut out, fov);
            },
        }
        assert(out@ =~= command_bytes(self@));
        out
    }

    /// Reads a command from its wire bytes; `Err` when they hold none.
    pub fn try_from(buf: &'a [u8]) -> (r: Result<Command<'a>, ()>)
        ensures
            r matches Ok(c) ==> parse_command(buf@) == Some(c@),
            r is Err ==> parse_command(buf@) is None,
    {
        let n = buf.len();
        if n < 1 {
            return Err(());
        }
        let cmd = buf[0];
        let len = n - 1;
        let ghost rest = buf@.subrange(1, n as int);
        if cmd == Self::PING && len == 0 {
            Ok(Command::Ping)
        } else if cmd == Self::START && len == 0 {
            Ok(Command::Start)
        } else if cmd == Self::STOP && len == 0 {
            Ok(Command::Stop)
        } else if cmd == Self::REQUEST_IMAGE && len == 0 {
            Ok(Command::RequestImage)
        } else if cmd == Self::IMAGES_DONE && len == 0 {
            Ok(Command::ImagesDone)
        } else if cmd == Self::DISCONNECT && len == 0 {
            Ok(Command::Disconnect)
        } else if cmd == Self::VALUE_UPDATE && len == 33 {
            assert(rest.subrange(1, 9) =~= buf@.subrange(2, 10));
            assert(rest.subrange(9, 17) =~= buf@.subrange(10, 18));
            assert(rest.subrange(17, 25) =~= buf@.subrange(18, 26));
            assert(rest.subrange(25, 33) =~= buf@.subrange(26, 34));
            let d = ClientData {
                marker_id: buf[1],
                target_x_position: read_u64_be(buf, 2),
                rotation: (read_u64_be(buf, 10), read_u64_be(buf, 18), read_u64_be(buf, 26)),
            };
            Ok(Command::ValueUpdate(d))
        } else if cmd == Self::CONNECT && len == 32 {
            assert(rest.subrange(0, 24) =~= buf@.subrange(1, 25));
            assert(rest.subrange(24, 32) =~= buf@.subrange(25, 33));
            Ok(Command::Connect { position: read_position(buf, 1), fov: read_u64_be(buf, 25) })
        } else if cmd == Self::INFO_UPDATE && len == 32 {
            assert(rest.subrange(0, 24) =~= buf@.subrange(1, 25));
            assert(rest.subrange(24, 32) =~= buf@.subrange(25, 33));
            Ok(Command::InfoUpdate { position: read_position(buf, 1), fov: read_u64_be(buf, 25) })
        } else if cmd == Self::START_CONFIGLESS && len >= 2 {
            assert(rest.subrange(0, 2) =~= buf@.subrange(1, 3));
            let ip_len = read_u16_be(buf, 1) as usize;
            if len != 2 + ip_len {
                return Err(());
            }
            let ip_bytes = &buf[3..3 + ip_len];
            assert(ip_bytes@ =~= rest.subrange(2, len as int));
            match str_from_utf8(ip_bytes) {
                Some(ip) => Ok(Command::StartConfigless { ip }),
                None => Err(()),
            }
        } else if cmd == Self::START_SERVER && len == 4 {
            let cube = [buf[1], buf[2], buf[3], buf[4]];
            assert(cube@ =~= rest);
            Ok(Command::StartServer { cube })
        } else {
            Err(())
        }
    }
}

/// Parsing the wire bytes of a command gives the command back, for every
/// command whose configless start address (if it is one) is at most 65535
/// bytes long.
pub proof fn law_command_roundtrip(c: Command)
    requires
        c matches Command::StartConfigless { ip } ==> ip.spec_bytes().len() <= 0xffff,
    ensures
        parse_command(command_bytes(c@)) == Some(c@),
{
    let b = command_bytes(c@);
    match c {
        Command::Connect { position, fov } | Command::InfoUpdate { position, fov } => {
            lemma_position_value_roundtrip(position);
            lemma_u64_value_roundtrip(fov);
            let rest = b.subrange(1, b.len() as int);
            assert(rest.subrange(0, 24) =~= position_bytes(position));
            assert(rest.subrange(24, 32) =~= be_u64(fov));
        },
        Command::StartServer { cube } => {
            assert(b.subrange(1, b.len() as int) =~= cube@);
        },
        Command::StartConfigless { ip } => {
            let bytes = ip.spec_bytes();
            encode_utf8_valid_utf8(ip@);
            lemma_u16_value_roundtrip(bytes.len() as u16);
            let rest = b.subrange(1, b.len() as int);
            assert(rest.subrange(0, 2) =~= be_u16(bytes.len() as u16));
            assert(rest.subrange(2, rest.len() as int) =~= bytes);
        },
        Command::ValueUpdate(d) => {
            lemma_u64_value_roundtrip(d.target_x_position);
            lemma_u64_value_roundtrip(d.rotation.0);
            lemma_u64_value_roundtrip(d.rotation.1);
            lemma_u64_value_roundtrip(d.rotation.2);
            let rest = b.subrange(1, b.len() as int);
            assert(rest.subrange(1, 9) =~= be_u64(d.target_x_position));
            assert(rest.subrange(9, 17) =~= be_u64(d.rotation.0));
            assert(rest.subrange(17, 25) =~= be_u64(d.rotation.1));
            assert(rest.subrange(25, 33) =~= be_u64(d.rotation.2));
        },
        _ => {},
    }
}

/// Bytes that hold a command are exactly the wire bytes of that command:
/// nothing is ignored and nothing is read two ways.
pub proof fn law_parse_then_serialize(b: Seq<u8>)
    requires
        parse_command(b) is Some,
    ensures
        command_bytes(parse_command(b).unwrap()) == b,
{
    let rest = b.subrange(1, b.len() as int);
    let cmd = b[0];
    if cmd == 0x21 {
        lemma_u64_bytes_roundtrip(rest.subrange(1, 9));
        lemma_u64_bytes_roundtrip(rest.subrange(9, 17));
        lemma_u64_bytes_roundtrip(rest.subrange(17, 25));
        lemma_u64_bytes_roundtrip(rest.subrange(25, 33));
        assert(command_bytes(parse_command(b).unwrap()) =~= b);
    } else if cmd == 0xcc || cmd == 0x1f {
        lemma_position_bytes_roundtrip(rest.subrange(0, 24));
        lemma_u64_bytes_roundtrip(rest.subrange(24, 32));
        assert(command_bytes(parse_command(b).unwrap()) =~= b);
    } else if cmd == 0x6c {
        lemma_u16_bytes_roundtrip(rest.subrange(0, 2));
        let ip = rest.subrange(2, rest.len() as int);
        assert(ip.len() as u16 == u16_from_be(rest.subrange(0, 2)));
        assert(command_bytes(parse_command(b).unwrap()) =~= b);
    } else {
        assert(command_bytes(parse_command(b).unwrap()) =~= b);
    }
}

/// The 34 bytes of a reading: the command byte, the marker id, then the
/// position across the image and the three rotation angles in order, eight
/// bytes each; and 34 bytes holding a reading give these fields back from the
/// same places.
pub proof fn law_value_update_layout(d: ClientData, b: Seq<u8>)
    ensures
        ({
            let c = command_bytes(CommandModel::ValueUpdate(d));
            &&& c.len() == 34
            &&& c[0] == 0x21
            &&& c[1] == d.marker_id
            &&& c.subrange(2, 10) == be_u64(d.target_x_position)
            &&& c.subrange(10, 18) == be_u64(d.rotation.0)
            &&& c.subrange(18, 26) == be_u64(d.rotation.1)
            &&& c.subrange(26, 34) == be_u64(d.rotation.2)
        }),
        b.len() == 34 && b[0] == 0x21 ==> parse_command(b) == Some(
            CommandModel::ValueUpdate(
                ClientData {
                    marker_id: b[1],
                    target_x_position: u64_from_be(b.subrange(2, 10)),
                    rotation: (
                        u64_from_be(b.subrange(10, 18)),
                        u64_from_be(b.subrange(18, 26)),
                        u64_from_be(b.subrange(26, 34)),
                    ),
                },
            ),
        ),
{
    let c = command_bytes(CommandModel::ValueUpdate(d));
    lemma_u64_value_roundtrip(d.target_x_position);
    lemma_u64_value_roundtrip(d.rotation.0);
    lemma_u64_value_roundtrip(d.rotation.1);
    lemma_u64_value_roundtrip(d.rotation.2);
    assert(c.subrange(2, 10) =~= be_u64(d.target_x_position));
    assert(c.subrange(10, 18) =~= be_u64(d.rotation.0));
    assert(c.subrange(18, 26) =~= be_u64(d.rotation.1));
    assert(c.subrange(26, 34) =~= be_u64(d.rotation.2));
    if b.len() == 34 && b[0] == 0x21 {
        let rest = b.subrange(1, b.len() as int);
        assert(rest.subrange(1, 9) =~= b.subrange(2, 10));
        assert(rest.subrange(9, 17) =~= b.subrange(10, 18));
        assert(rest.subrange(17, 25) =~= b.subrange(18, 26));
        assert(rest.subrange(25, 33) =~= b.subrange(26, 34));
    }
}

/// The 33 bytes of a connect request or an information update: the command
/// byte, the pose as x, y and rotation, then the field of view, eight bytes
/// each; and 33 such bytes give these fields back from the same places.
pub proof fn law_pose_command_layout(position: Position, fov: u64, b: Seq<u8>)
    ensures
        ({
            let c = command_bytes(CommandModel::Connect { position, fov });
            let u = command_bytes(CommandModel::InfoUpdate { position, fov });
            &&& c.len() == 33 && u.len() == 33
            &&& c[0] == 0xcc && u[0] == 0x1f
            &&& c.subrange(1, 33) == u.subrange(1, 33)
            &&& c.subrange(1, 9) == be_u64(position.x)
            &&& c.subrange(9, 17) == be_u64(position.y)
            &&& c.subrange(17, 25) == be_u64(position.rotation)
            &&& c.subrange(25, 33) == be_u64(fov)
        }),
        b.len() == 33 && b[0] == 0xcc ==> parse_command(b) == Some(
            CommandModel::Connect {
                position: Position {
                    x: u64_from_be(b.subrange(1, 9)),
                    y: u64_from_be(b.subrange(9, 17)),
                    rotation: u64_from_be(b.subrange(17, 25)),
                },
                fov: u64_from_be(b.subrange(25, 33)),
            },
        ),
        b.len() == 33 && b[0] == 0x1f ==> parse_command(b) == Some(
            CommandModel::InfoUpdate {
                position: Position {
                    x: u64_from_be(b.subrange(1, 9)),
                    y: u64_from_be(b.subrange(9, 17)),
                    rotation: u64_from_be(b.subrange(17, 25)),
                },
                fov: u64_from_be(b.subrange(25, 33)),
            },
        ),
{
    let c = command_bytes(CommandModel::Connect { position, fov });
    let u = command_bytes(CommandModel::InfoUpdate { position, fov });
    lemma_u64_value_roundtrip(position.x);
    lemma_u64_value_roundtrip(position.y);
    lemma_u64_value_roundtrip(position.rotation);
    lemma_u64_value_roundtrip(fov);
    assert(c.subrange(1, 33) =~= u.subrange(1, 33));
    assert(c.subrange(1, 9) =~= be_u64(position.x));
    assert(c.subrange(9, 17) =~= be_u64(position.y));
    assert(c.subrange(17, 25) =~= be_u64(position.rotation));
    assert(c.subrange(25, 33) =~= be_u64(fov));
    if b.len() == 33 {
        let rest = b.subrange(1, b.len() as int);
        let p = rest.subrange(0, 24);
        assert(p.subrange(0, 8) =~= b.subrange(1, 9));
        assert(p.subrange(8, 16) =~= b.subrange(9, 17));
        assert(p.subrange(16, 24) =~= b.subrange(17, 25));
        assert(rest.subrange(24, 32) =~= b.subrange(25, 33));
    }
}

} // verus!
