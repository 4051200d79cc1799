//! The request frames exchanged between a locker client and the locker
//! service: one command byte followed by the client's lock identity as a
//! big-endian `u32`. The service answers by echoing the command byte.
use vstd::prelude::*;

verus! {

/// A request to the locker service.
#[derive(Clone, Copy, Debug, PartialEq, Eq, Structural)]
pub enum Command {
    /// Acquire (or downgrade to) a shared lock: byte `b'r'`.
    Read,
    /// Acquire (or upgrade to) the exclusive lock: byte `b'w'`.
    Write,
    /// Release whatever the client holds: byte `b'u'`.
    Unlock,
}

/// Number of bytes in a request frame.
pub const FRAME_LEN: usize = 5;

/// The byte that encodes a command on the wire.
pub open spec fn command_byte(c: Command) -> u8 {
    match c {
        Command::Read => 114u8,
        Command::Write => 119u8,
        Command::Unlock => 117u8,
    }
}

/// The command that a byte encodes, if any.
pub open spec fn byte_command(b: u8) -> Option<Command> {
    if b == 114 {
        Some(Command::Read)
    } else if b == 119 {
        Some(Command::Write)
    } else if b == 117 {
        Some(Command::Unlock)
    } else {
        None
    }
}

/// The four big-endian bytes of `x`, most significant first.
pub open spec fn be_bytes(x: u32) -> Seq<u8> {
    seq![
        (x / 0x100_0000) as u8,
        ((x / 0x1_0000) % 0x100) as u8,
        ((x / 0x100) % 0x100) as u8,
        (x % 0x100) as u8,
    ]
}

/// The number that four big-endian bytes stand for.
pub open spec fn be_value(b0: u8, b1: u8, b2: u8, b3: u8) -> int {
    b0 * 0x100_0000 + b1 * 0x1_0000 + b2 * 0x100 + b3
}

/// The frame that carries `cmd` for client `id`.
pub open spec fn frame(cmd: Command, id: u32) -> Seq<u8> {
    seq![command_byte(cmd)] + be_bytes(id)
}

/// What a frame decodes to: `None` unless it is exactly five bytes long and
/// starts with a command byte.
pub open spec fn decoded(bytes: Seq<u8>) -> Option<(Command, u32)> {
    if bytes.len() != FRAME_LEN {
        None
    } else {
        match byte_command(bytes[0]) {
            Some(c) => Some((c, be_value(bytes[1], bytes[2], bytes[3], bytes[4]) as u32)),
            None => None,
        }
    }
}

impl Command {
    /// The byte that stands for this command on the wire.
    pub fn to_byte(self) -> (b: u8)
        ensures
            b == command_byte(self),
            self == Command::Read ==> b == 114,
            self == Command::Write ==> b == 119,
            self == Command::Unlock ==> b == 117,
    {
        match self {
            Command::Read => 114u8,
            Command::Write => 119u8,
            Command::Unlock => 117u8,
        }
    }

    /// The command that `b` stands for; `None` for any other byte.
    pub fn from_byte(b: u8) -> (c: Option<Command>)
        ensures
            c == byte_command(b),
    {
        if b == 114 {
            Some(Command::Read)
        } else if b == 119 {
            Some(Command::Write)
        } else if b == 117 {
            Some(Command::Unlock)
        } else {
            None
        }
    }
}

/// Decodes a lock identity from its four big-endian bytes.
pub fn decode_lock_id(b0: u8, b1: u8, b2: u8, b3: u8) -> (id: u32)
    ensures
        id == be_value(b0, b1, b2, b3),
{
    (b0 as u32) * 0x100_0000 + (b1 as u32) * 0x1_0000 + (b2 as u32) * 0x100 + (b3 as u32)
}

/// Builds the request frame that asks the locker to perform `cmd` for the
/// client `id`.
pub fn encode_request(cmd: Command, id: u32) -> (bytes: Vec<u8>)
    ensures
        bytes@ == frame(cmd, id),
        bytes@.len() == FRAME_LEN,
        bytes@[0] == command_byte(cmd),
        bytes@[1] * 0x100_0000 + bytes@[2] * 0x1_0000 + bytes@[3] * 0x100 + bytes@[4] == id,
{
    let mut bytes: Vec<u8> = Vec::new();
    bytes.push(cmd.to_byte());
    bytes.push((id / 0x100_0000) as u8);
    bytes.push(((id / 0x1_0000) % 0x100) as u8);
    bytes.push(((id / 0x100) % 0x100) as u8);
    bytes.push((id % 0x100) as u8);
    assert(bytes@ =~= frame(cmd, id));
    bytes
}

/// Reads a request frame; `None` when `bytes` is not five bytes long or its
/// first byte names no command.
pub fn decode_request(bytes: &[u8]) -> (r: Option<(Command, u32)>)
    ensures
        r == decoded(bytes@),
        r matches Some((c, id)) ==> bytes@.len() == 5 && bytes@[0] == command_byte(c) && id == bytes@[1]
            * 0x100_0000 + bytes@[2] * 0x1_0000 + bytes@[3] * 0x100 + bytes@[4],
        bytes@.len() == 5 && byte_command(bytes@[0]) is Some ==> r is Some,
{
    if bytes.len() != FRAME_LEN {
        return None;
    }
    match Command::from_byte(bytes[0]) {
        Some(c) => Some((c, decode_lock_id(bytes[1], bytes[2], bytes[3], bytes[4]))),
        None => None,
    }
}

/// Every command survives the trip to a byte and back.
pub proof fn lemma_command_byte_roundtrip(c: Command)
    ensures
        byte_command(command_byte(c)) == Some(c),
{
}

/// A byte that decodes to a command is the byte of that command.
pub proof fn lemma_byte_command_roundtrip(b: u8)
    ensures
        byte_command(b) matches Some(c) ==> command_byte(c) == b,
{
}

/// Decoding a frame built by `encode_request` gives back the command and the
/// lock identity that went in.
pub proof fn lemma_frame_roundtrip(cmd: Command, id: u32)
    ensures
        decoded(frame(cmd, id)) == Some((cmd, id)),
{
    let f = frame(cmd, id);
    assert(f.len() == FRAME_LEN);
    assert(f[0] == command_byte(cmd));
    assert(be_value(f[1], f[2], f[3], f[4]) == id);
}

} // verus!
