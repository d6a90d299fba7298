//! The command set of the shared crate: the organizer, the clients and the
//! server exchange these messages. The host status byte is the same as in
//! [`crate::hosts`].
use vstd::prelude::*;

pub use crate::hosts::{HostInfo, HostState, HostType};
use crate::hosts::str_from_utf8;
use crate::bytes::{
    be_u16, be_u64, lemma_u16_bytes_roundtrip, lemma_u16_value_roundtrip,
    lemma_u64_bytes_roundtrip, lemma_u64_value_roundtrip, push_u16_be, push_u64_be, read_u16_be,
    read_u64_be, u16_from_be, u64_from_be,
};
use crate::position::{
    lemma_position_bytes_roundtrip, lemma_position_value_roundtrip, position_bytes,
    position_from_bytes, push_position, read_position, Position,
};
use vstd::string::StringSliceAdditionalSpecFns;
use vstd::utf8::{encode_utf8_valid_utf8, valid_utf8};

verus! {

/// One reading of a client: the marker it sees and where the marker is
/// across the image (an `f64` bit pattern).
#[derive(Debug, Clone, Copy, PartialEq, Eq, Structural)]
pub struct ClientData {
    pub marker_id: u8,
    pub x_position: u64,
}

impl ClientData {
    /// A reading from its parts.
    pub fn new(marker_id: u8, x_position: u64) -> (r: ClientData)
        ensures
            r == (ClientData { marker_id, x_position }),
    {
        ClientData { marker_id, x_position }
    }
}

/// A message between the organizer, the clients and the server. Field of
/// view values are `f64` bit patterns.
#[derive(Debug, Clone, Copy)]
#[allow(inconsistent_fields)]
pub enum Command<'a> {
    Ping,
    Connect { position: Position, fov: u64 },
    ClientDisconnect,
    Start,
    StartServer { cube: [u8; 4] },
    StartConfigless { ip: &'a str },
    Stop,
    RequestImage,
    ImagesDone,
    ValueUpdate(ClientData),
    InfoUpdate { client_ip: &'a str, position: Position, fov: Option<u64> },
}

/// The mathematical content of a [`Command`]: byte arrays and strings are
/// sequences of bytes (a string by its UTF-8 encoding).
#[allow(inconsistent_fields)]
pub enum CommandModel {
    Ping,
    Connect { position: Position, fov: u64 },
    ClientDisconnect,
    Start,
    StartServer { cube: Seq<u8> },
    StartConfigless { ip: Seq<u8> },
    Stop,
    RequestImage,
    ImagesDone,
    ValueUpdate(ClientData),
    InfoUpdate { client_ip: Seq<u8>, position: Position, fov: Option<u64> },
}

impl<'a> View for Command<'a> {
    type V = CommandModel;

    open spec fn view(&self) -> CommandModel {
        match *self {
            Command::Ping => CommandModel::Ping,
            Command::Connect { position, fov } => CommandModel::Connect { position, fov },
            Command::ClientDisconnect => CommandModel::ClientDisconnect,
            Command::Start => CommandModel::Start,
            Command::StartServer { cube } => CommandModel::StartServer { cube: cube@ },
            Command::StartConfigless { ip } => CommandModel::StartConfigless { ip: ip.spec_bytes() },
            Command::Stop => CommandModel::Stop,
            Command::RequestImage => CommandModel::RequestImage,
            Command::ImagesDone => CommandModel::ImagesDone,
            Command::ValueUpdate(d) => CommandModel::ValueUpdate(d),
            Command::InfoUpdate { client_ip, position, fov } => CommandModel::InfoUpdate {
                client_ip: client_ip.spec_bytes(),
                position,
                fov,
            },
        }
    }
}

impl Command<'_> {
    pub const PING: u8 = 0x0b;
    pub const CONNECT: u8 = 0xcc;
    pub const CLIENT_DISCONNECT: u8 = 0xdc;
    pub const START: u8 = 0x60;
    pub const START_SERVER: u8 = 0x55;
    pub const START_CONFIGLESS: u8 = 0x6c;
    pub const STOP: u8 = 0xcd;
    pub const REQUEST_IMAGE: u8 = 0x17;
    pub const IMAGES_DONE: u8 = 0x1d;
    pub const VALUE_UPDATE: u8 = 0x21;
    pub const INFO_UPDATE: u8 = 0x1f;
}

/// The wire bytes of a command. All numbers are big-endian; string lengths
/// are 16-bit (the byte length modulo 65536). An info update starts with
/// the client address and only then has its command byte, followed by the
/// pose, a flag byte (1 when a field of view follows) and the field of view.
pub open spec fn command_bytes(m: CommandModel) -> Seq<u8> {
    match m {
        CommandModel::Ping => seq![0x0bu8],
        CommandModel::Connect { position, fov } => seq![0xccu8] + position_bytes(position) + be_u64(
            fov,
        ),
        CommandModel::ClientDisconnect => seq![0xdcu8],
        CommandModel::Start => seq![0x60u8],
        CommandModel::StartServer { cube } => seq![0x55u8] + cube,
        CommandModel::StartConfigless { ip } => seq![0x6cu8] + be_u16(ip.len() as u16) + ip,
        CommandModel::Stop => seq![0xcdu8],
        CommandModel::RequestImage => seq![0x17u8],
        CommandModel::ImagesDone => seq![0x1du8],
        CommandModel::ValueUpdate(d) => seq![0x21u8, d.marker_id] + be_u64(d.x_position),
        CommandModel::InfoUpdate { client_ip, position, fov } => be_u16(client_ip.len() as u16)
            + client_ip + seq![0x1fu8] + position_bytes(position) + match fov {
            Some(f) => seq![1u8] + be_u64(f),
            None => seq![0u8],
        },
    }
}

/// Whether reading the bytes stops the program: an info update whose address
/// field is in range but not valid UTF-8.
pub open spec fn parse_aborts(b: Seq<u8>) -> bool {
    &&& b.len() >= 3
    &&& b[0] == 0x1f
    &&& {
        let rest = b.subrange(1, b.len() as int);
        let ip_len = u16_from_be(rest.subrange(0, 2)) as int;
        2 + ip_len <= rest.len() && !valid_utf8(rest.subrange(2, 2 + ip_len))
    }
}

/// The command that the bytes `b` hold, if any. The first byte selects the
/// command and its fields are read from the bytes after it; bytes beyond the
/// fields are ignored. An info update is never read (its pose field is read
/// from 26 bytes into 24).
pub open spec fn parse_command(b: Seq<u8>) -> Option<CommandModel> {
    if b.len() < 1 {
        None
    } else {
        let cmd = b[0];
        let rest = b.subrange(1, b.len() as int);
        let len = rest.len();
        if cmd == 0x0b {
            Some(CommandModel::Ping)
        } else if cmd == 0x60 {
            Some(CommandModel::Start)
        } else if cmd == 0xcd {
            Some(CommandModel::Stop)
        } else if cmd == 0x17 {
            Some(CommandModel::RequestImage)
        } else if cmd == 0x1d {
            Some(CommandModel::ImagesDone)
        } else if cmd == 0xdc {
            Some(CommandModel::ClientDisconnect)
        } else if cmd == 0x21 {
            if len >= 9 {
                Some(
                    CommandModel::ValueUpdate(
                        ClientData {
                            marker_id: rest[0],
                            x_position: u64_from_be(rest.subrange(1, 9)),
                        },
                    ),
                )
            } else {
                None
            }
        } else if cmd == 0xcc {
            if len >= 32 {
                Some(
                    CommandModel::Connect {
                        position: position_from_bytes(rest.subrange(0, 24)),
                        fov: u64_from_be(rest.subrange(24, 32)),
                    },
                )
            } else {
                None
            }
        } else if cmd == 0x6c {
            if len >= 2 {
                let ip_len = u16_from_be(rest.subrange(0, 2)) as int;
                let ip = rest.subrange(2, 2 + ip_len);
                if 2 + ip_len <= len && valid_utf8(ip) {
                    Some(CommandModel::StartConfigless { ip })
                } else {
                    None
                }
            } else {
                None
            }
        } else if cmd == 0x55 {
            if len >= 4 {
                Some(CommandModel::StartServer { cube: rest.subrange(0, 4) })
            } else {
                None
            }
        } else {
            None
        }
    }
}

/// Appends the bytes of `s` to `out`.
fn push_str_bytes(out: &mut Vec<u8>, s: &str)
    ensures
        final(out)@ == old(out)@ + s.spec_bytes(),
{
    let b = s.as_bytes();
    out.extend_from_slice(b);
    assert(out@ =~= old(out)@ + b@);
}

impl<'a> Command<'a> {
    /// The wire bytes of the command.
    pub fn into_bytes(self) -> (r: Vec<u8>)
        ensures
            r@ == command_bytes(self@),
    {
        let mut out: Vec<u8> = Vec::new();
        match self {
            Command::Ping => out.push(Self::PING),
            Command::Connect { position, fov } => {
                out.push(Self::CONNECT);
                push_position(&mut out, &position);
                push_u64_be(&mut out, fov);
            },
            Command::ClientDisconnect => out.push(Self::CLIENT_DISCONNECT),
            Command::Start => out.push(Self::START),
            Command::StartServer { cube } => {
                out.push(Self::START_SERVER);
                out.push(cube[0]);
                out.push(cube[1]);
                out.push(cube[2]);
                out.push(cube[3]);
            },
            Command::StartConfigless { ip } => {
                out.push(Self::START_CONFIGLESS);
                let n = ip.as_bytes().len();
                push_u16_be(&mut out, n as u16);
                push_str_bytes(&mut out, ip);
            },
            Command::Stop => out.push(Self::STOP),
            Command::RequestImage => out.push(Self::REQUEST_IMAGE),
            Command::ImagesDone => out.push(Self::IMAGES_DONE),
            Command::ValueUpdate(d) => {
                out.push(Self::VALUE_UPDATE);
                out.push(d.marker_id);
                push_u64_be(&mut out, d.x_position);
            },
            Command::InfoUpdate { client_ip, position, fov } => {
                let n = client_ip.as_bytes().len();
                push_u16_be(&mut out, n as u16);
                push_str_bytes(&mut out, client_ip);
                out.push(Self::INFO_UPDATE);
                push_position(&mut out, &position);
                match fov {
                    Some(f) => {
                        out.push(1u8);
                        push_u64_be(&mut out, f);
                    },
                    None => out.push(0u8),
                }
            },
        }
        assert(out@ =~= command_bytes(self@));
        out
    }

    /// Whether [`Self::try_from`] would stop the program on these bytes.
    pub fn parse_aborts(buf: &[u8]) -> (r: bool)
        ensures
            r == parse_aborts(buf@),
    {
        let n = buf.len();
        if n < 3 || buf[0] != Self::INFO_UPDATE {
            return false;
        }
        let ghost rest = buf@.subrange(1, n as int);
        assert(rest.subrange(0, 2) =~= buf@.subrange(1, 3));
        let ip_len = read_u16_be(buf, 1) as usize;
        if 2 + ip_len > n - 1 {
            return false;
        }
        let ip_bytes = &buf[3..3 + ip_len];
        assert(ip_bytes@ =~= rest.subrange(2, 2 + ip_len));
        str_from_utf8(ip_bytes).is_none()
    }

    /// Reads a command from its wire bytes; `Err` when they hold none. The
    /// bytes must not be ones on which reading stops the program.
    pub fn try_from(buf: &'a [u8]) -> (r: Result<Command<'a>, ()>)
        requires
            !parse_aborts(buf@),
        ensures
            r matches Ok(c) ==> parse_command(buf@) == Some(c@),
            r is Err ==> parse_command(buf@) is None,
    {
        let n = buf.len();
        if n < 1 {
            return Err(());
        }
        let cmd = buf[0];
        let len = n - 1;
        let ghost rest = buf@.subrange(1, n as int);
        if cmd == Self::PING {
            Ok(Command::Ping)
        } else if cmd == Self::START {
            Ok(Command::Start)
        } else if cmd == Self::STOP {
            Ok(Command::Stop)
        } else if cmd == Self::REQUEST_IMAGE {
            Ok(Command::RequestImage)
        } else if cmd == Self::IMAGES_DONE {
            Ok(Command::ImagesDone)
        } else if cmd == Self::CLIENT_DISCONNECT {
            Ok(Command::ClientDisconnect)
        } else if cmd == Self::VALUE_UPDATE {
            if len < 9 {
                return Err(());
            }
            assert(rest.subrange(1, 9) =~= buf@.subrange(2, 10));
            Ok(Command::ValueUpdate(ClientData { marker_id: buf[1], x_position: read_u64_be(buf, 2) }))
        } else if cmd == Self::CONNECT {
            if len < 32 {
                return Err(());
            }
            assert(rest.subrange(0, 24) =~= buf@.subrange(1, 25));
            assert(rest.subrange(24, 32) =~= buf@.subrange(25, 33));
            Ok(Command::Connect { position: read_position(buf, 1), fov: read_u64_be(buf, 25) })
        } else if cmd == Self::START_CONFIGLESS {
            if len < 2 {
                return Err(());
            }
            assert(rest.subrange(0, 2) =~= buf@.subrange(1, 3));
            let ip_len = read_u16_be(buf, 1) as usize;
            if 2 + ip_len > len {
                return Err(());
            }
            let ip_bytes = &buf[3..3 + ip_len];
            assert(ip_bytes@ =~= rest.subrange(2, 2 + ip_len));
            match str_from_utf8(ip_bytes) {
                Some(ip) => Ok(Command::StartConfigless { ip }),
                None => Err(()),
            }
        } else if cmd == Self::START_SERVER {
            if len < 4 {
                return Err(());
            }
            let cube = [buf[1], buf[2], buf[3], buf[4]];
            assert(cube@ =~= rest.subrange(0, 4));
            Ok(Command::StartServer { cube })
        } else {
            Err(())
        }
    }
}

/// Parsing the wire bytes of a command gives the command back, for every
/// command but an info update (whose bytes do not start with its command
/// byte) whose strings are at most 65535 bytes long.
pub proof fn law_command_roundtrip(c: Command)
    requires
        !(c is InfoUpdate),
        c matches Command::StartConfigless { ip } ==> ip.spec_bytes().len() <= 0xffff,
    ensures
        parse_command(command_bytes(c@)) == Some(c@),
{
    let b = command_bytes(c@);
    match c {
        Command::Connect { position, fov } => {
            lemma_position_value_roundtrip(position);
            lemma_u64_value_roundtrip(fov);
            let rest = b.subrange(1, b.len() as int);
            assert(rest.subrange(0, 24) =~= position_bytes(position));
            assert(rest.subrange(24, 32) =~= be_u64(fov));
        },
        Command::StartServer { cube } => {
            assert(b.subrange(1, b.len() as int).subrange(0, 4) =~= cube@);
        },
        Command::StartConfigless { ip } => {
            let bytes = ip.spec_bytes();
            encode_utf8_valid_utf8(ip@);
            lemma_u16_value_roundtrip(bytes.len() as u16);
            let rest = b.subrange(1, b.len() as int);
            assert(rest.subrange(0, 2) =~= be_u16(bytes.len() as u16));
            assert(rest.subrange(2, 2 + bytes.len() as int) =~= bytes);
        },
        Command::ValueUpdate(d) => {
            lemma_u64_value_roundtrip(d.x_position);
            let rest = b.subrange(1, b.len() as int);
            assert(rest.subrange(1, 9) =~= be_u64(d.x_position));
        },
        _ => {},
    }
}

/// The wire bytes of a command that bytes hold are a prefix of those bytes:
/// reading takes exactly the command's fields and ignores the rest.
pub proof fn law_parse_then_serialize(b: Seq<u8>)
    requires
        parse_command(b) is Some,
    ensures
        command_bytes(parse_command(b).unwrap()).len() <= b.len(),
        command_bytes(parse_command(b).unwrap()) == b.subrange(
            0,
            command_bytes(parse_command(b).unwrap()).len() as int,
        ),
{
    let rest = b.subrange(1, b.len() as int);
    let cmd = b[0];
    let m = parse_command(b).unwrap();
    if cmd == 0x21 {
        lemma_u64_bytes_roundtrip(rest.subrange(1, 9));
        assert(command_bytes(m) =~= b.subrange(0, 10));
    } else if cmd == 0xcc {
        lemma_position_bytes_roundtrip(rest.subrange(0, 24));
        lemma_u64_bytes_roundtrip(rest.subrange(24, 32));
        assert(command_bytes(m) =~= b.subrange(0, 33));
    } else if cmd == 0x6c {
        lemma_u16_bytes_roundtrip(rest.subrange(0, 2));
        let ip_len = u16_from_be(rest.subrange(0, 2)) as int;
        assert(command_bytes(m) =~= b.subrange(0, 3 + ip_len));
    } else if cmd == 0x55 {
        assert(command_bytes(m) =~= b.subrange(0, 5));
    } else {
        assert(command_bytes(m) =~= b.subrange(0, 1));
    }
}

/// No bytes are read as an info update.
pub proof fn law_info_update_never_parsed(b: Seq<u8>)
    ensures
        !(parse_command(b) matches Some(CommandModel::InfoUpdate { .. })),
{
}

/// The bytes of an info update: the client address's byte length (16 bits)
/// and the address, the command byte, the pose as x, y and rotation (eight
/// bytes each), then a flag byte, 1 with the field of view after it or 0
/// without one.
pub proof fn law_info_update_layout(client_ip: Seq<u8>, position: Position, fov: Option<u64>)
    ensures
        ({
            let b = command_bytes(CommandModel::InfoUpdate { client_ip, position, fov });
            let n = client_ip.len() as int;
            &&& b.subrange(0, 2) == be_u16(client_ip.len() as u16)
            &&& b.subrange(2, 2 + n) == client_ip
            &&& b[2 + n] == 0x1f
            &&& b.subrange(3 + n, 11 + n) == be_u64(position.x)
            &&& b.subrange(11 + n, 19 + n) == be_u64(position.y)
            &&& b.subrange(19 + n, 27 + n) == be_u64(position.rotation)
            &&& match fov {
                Some(f) => b.len() == 36 + n && b[27 + n] == 1 && b.subrange(28 + n, 36 + n) == be_u64(f),
                None => b.len() == 28 + n && b[27 + n] == 0,
            }
        }),
{
    let b = command_bytes(CommandModel::InfoUpdate { client_ip, position, fov });
    let n = client_ip.len() as int;
    lemma_u16_value_roundtrip(client_ip.len() as u16);
    lemma_u64_value_roundtrip(position.x);
    lemma_u64_value_roundtrip(position.y);
    lemma_u64_value_roundtrip(position.rotation);
    assert(b.subrange(0, 2) =~= be_u16(client_ip.len() as u16));
    assert(b.subrange(2, 2 + n) =~= client_ip);
    assert(b.subrange(3 + n, 11 + n) =~= be_u64(position.x));
    assert(b.subrange(11 + n, 19 + n) =~= be_u64(position.y));
    assert(b.subrange(19 + n, 27 + n) =~= be_u64(position.rotation));
    match fov {
        Some(f) => {
            lemma_u64_value_roundtrip(f);
            assert(b.subrange(28 + n, 36 + n) =~= be_u64(f));
        },
        None => {},
    }
}

/// The bytes of a connect request: the command byte, the pose as x, y and
/// rotation, then the field of view, eight bytes each; and bytes holding a
/// connect request give these fields back from the same places.
pub proof fn law_connect_layout(position: Position, fov: u64, b: Seq<u8>)
    ensures
        ({
            let c = command_bytes(CommandModel::Connect { position, fov });
            &&& c.len() == 33
            &&& c[0] == 0xcc
            &&& c.subrange(1, 9) == be_u64(position.x)
            &&& c.subrange(9, 17) == be_u64(position.y)
            &&& c.subrange(17, 25) == be_u64(position.rotation)
            &&& c.subrange(25, 33) == be_u64(fov)
        }),
        b.len() >= 33 && b[0] == 0xcc ==> parse_command(b) == Some(
            CommandModel::Connect {
                position: Position {
                    x: u64_from_be(b.subrange(1, 9)),
                    y: u64_from_be(b.subrange(9, 17)),
                    rotation: u64_from_be(b.subrange(17, 25)),
                },
                fov: u64_from_be(b.subrange(25, 33)),
            },
        ),
{
    let c = command_bytes(CommandModel::Connect { position, fov });
    lemma_u64_value_roundtrip(position.x);
    lemma_u64_value_roundtrip(position.y);
    lemma_u64_value_roundtrip(position.rotation);
    lemma_u64_value_roundtrip(fov);
    assert(c.subrange(1, 9) =~= be_u64(position.x));
    assert(c.subrange(9, 17) =~= be_u64(position.y));
    assert(c.subrange(17, 25) =~= be_u64(position.rotation));
    assert(c.subrange(25, 33) =~= be_u64(fov));
    if b.len() >= 33 && b[0] == 0xcc {
        let rest = b.subrange(1, b.len() as int);
        let p = rest.subrange(0, 24);
        assert(p.subrange(0, 8) =~= b.subrange(1, 9));
        assert(p.subrange(8, 16) =~= b.subrange(9, 17));
        assert(p.subrange(16, 24) =~= b.subrange(17, 25));
        assert(rest.subrange(24, 32) =~= b.subrange(25, 33));
    }
}

/// The bytes of a reading: the command byte, the marker id, then the
/// position across the image (eight bytes); and bytes holding a reading give
/// these fields back from the same places (any bytes after them are ignored).
pub proof fn law_value_update_layout(d: ClientData, b: Seq<u8>)
    ensures
        ({
            let c = command_bytes(CommandModel::ValueUpdate(d));
            &&& c.len() == 10
            &&& c[0] == 0x21
            &&& c[1] == d.marker_id
            &&& c.subrange(2, 10) == be_u64(d.x_position)
        }),
        b.len() >= 10 && b[0] == 0x21 ==> parse_command(b) == Some(
            CommandModel::ValueUpdate(
                ClientData { marker_id: b[1], x_position: u64_from_be(b.subrange(2, 10)) },
            ),
        ),
{
    let c = command_bytes(CommandModel::ValueUpdate(d));
    lemma_u64_value_roundtrip(d.x_position);
    assert(c.subrange(2, 10) =~= be_u64(d.x_position));
    if b.len() >= 10 && b[0] == 0x21 {
        let rest = b.subrange(1, b.len() as int);
        assert(rest.subrange(1, 9) =~= b.subrange(2, 10));
    }
}

} // verus!
