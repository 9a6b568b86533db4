use vstd::prelude::*;
use vstd::utf8::{decode_utf8, decode_utf8_encode_utf8, encode_utf8, encode_utf8_decode_utf8, valid_utf8};

verus! {

/// Where a player steers during a tick. On the wire it is one byte:
/// straight 0, right 1, left 2.
#[derive(Clone, Copy, Debug, PartialEq, Eq, Structural)]
pub enum Direction {
    Straight,
    Right,
    Left,
}

impl Direction {
    /// The byte that stands for the direction on the wire.
    pub open spec fn spec_code(self) -> u8 {
        match self {
            Direction::Straight => 0,
            Direction::Right => 1,
            Direction::Left => 2,
        }
    }

    pub fn code(self) -> (r: u8)
        ensures
            r == self.spec_code(),
    {
        match self {
            Direction::Straight => 0,
            Direction::Right => 1,
            Direction::Left => 2,
        }
    }

    /// The direction a byte stands for, if any.
    pub fn from_code(b: u8) -> (r: Option<Direction>)
        ensures
            r is Some <==> b <= 2,
            r matches Some(d) ==> d.spec_code() == b,
    {
        if b == 0 {
            Some(Direction::Straight)
        } else if b == 1 {
            Some(Direction::Right)
        } else if b == 2 {
            Some(Direction::Left)
        } else {
            None
        }
    }

    /// Resolves the two steering keys: one held alone turns that way, both or
    /// neither go straight.
    pub fn from_left_right_down(left_down: bool, right_down: bool) -> (r: Self)
        ensures
            r == (if left_down == right_down {
                Direction::Straight
            } else if left_down {
                Direction::Left
            } else {
                Direction::Right
            }),
    {
        match (left_down, right_down) {
            (true, true) | (false, false) => Direction::Straight,
            (true, false) => Direction::Left,
            (false, true) => Direction::Right,
        }
    }
}

/// Little-endian bytes of a `u16`.
pub open spec fn u16_bytes(v: u16) -> Seq<u8> {
    seq![v as u8, (v >> 8u16) as u8]
}

/// The `u16` whose little-endian bytes are `b0, b1`.
pub open spec fn u16_of(b0: u8, b1: u8) -> u16 {
    (b0 as u16) | ((b1 as u16) << 8u16)
}

/// Little-endian bytes of a `u64`.
pub open spec fn u64_bytes(v: u64) -> Seq<u8> {
    seq![
        v as u8,
        (v >> 8u64) as u8,
        (v >> 16u64) as u8,
        (v >> 24u64) as u8,
        (v >> 32u64) as u8,
        (v >> 40u64) as u8,
        (v >> 48u64) as u8,
        (v >> 56u64) as u8,
    ]
}

/// The `u64` whose little-endian bytes start at `b[at]`.
pub open spec fn u64_of(b: Seq<u8>, at: int) -> u64 {
    (b[at] as u64) | ((b[at + 1] as u64) << 8u64) | ((b[at + 2] as u64) << 16u64) | ((b[at + 3] as u64)
        << 24u64) | ((b[at + 4] as u64) << 32u64) | ((b[at + 5] as u64) << 40u64) | ((b[at + 6] as u64)
        << 48u64) | ((b[at + 7] as u64) << 56u64)
}

proof fn lemma_u16_round_trip(v: u16, b0: u8, b1: u8)
    ensures
        u16_of(v as u8, (v >> 8u16) as u8) == v,
        u16_bytes(u16_of(b0, b1)) == seq![b0, b1],
{
    assert(((v as u8) as u16) | ((((v >> 8u16) as u8) as u16) << 8u16) == v) by (bit_vector);
    let w = (b0 as u16) | ((b1 as u16) << 8u16);
    assert(w as u8 == b0 && (w >> 8u16) as u8 == b1) by (bit_vector)
        requires
            w == (b0 as u16) | ((b1 as u16) << 8u16),
    ;
}

proof fn lemma_u64_of_bytes(v: u64)
    ensures
        u64_of(u64_bytes(v), 0) == v,
{
    let b = u64_bytes(v);
    assert(((v as u8) as u64) | ((((v >> 8u64) as u8) as u64) << 8u64) | ((((v >> 16u64) as u8) as u64)
        << 16u64) | ((((v >> 24u64) as u8) as u64) << 24u64) | ((((v >> 32u64) as u8) as u64) << 32u64)
        | ((((v >> 40u64) as u8) as u64) << 40u64) | ((((v >> 48u64) as u8) as u64) << 48u64) | ((((v
        >> 56u64) as u8) as u64) << 56u64) == v) by (bit_vector);
}

proof fn lemma_bytes_of_u64(b: Seq<u8>, at: int)
    requires
        0 <= at,
        at + 8 <= b.len(),
    ensures
        u64_bytes(u64_of(b, at)) == b.subrange(at, at + 8),
{
    let (b0, b1, b2, b3, b4, b5, b6, b7) = (
        b[at],
        b[at + 1],
        b[at + 2],
        b[at + 3],
        b[at + 4],
        b[at + 5],
        b[at + 6],
        b[at + 7],
    );
    let w = u64_of(b, at);
    assert(w as u8 == b0 && (w >> 8u64) as u8 == b1 && (w >> 16u64) as u8 == b2 && (w >> 24u64) as u8
        == b3 && (w >> 32u64) as u8 == b4 && (w >> 40u64) as u8 == b5 && (w >> 48u64) as u8 == b6 && (w
        >> 56u64) as u8 == b7) by (bit_vector)
        requires
            w == (b0 as u64) | ((b1 as u64) << 8u64) | ((b2 as u64) << 16u64) | ((b3 as u64) << 24u64)
                | ((b4 as u64) << 32u64) | ((b5 as u64) << 40u64) | ((b6 as u64) << 48u64) | ((b7 as u64)
                << 56u64),
    ;
    assert(u64_bytes(w) =~= b.subrange(at, at + 8));
}

/// Why bytes from a remote control could not be read as an event.
#[derive(Clone, Copy, Debug, PartialEq, Eq, Structural)]
pub enum DecodeError {
    /// The bytes end before the event does.
    UnexpectedEnd,
    /// The first byte names no event.
    UnknownType(u8),
    /// An input event names no direction.
    UnknownDirection(u8),
    /// A new name is not UTF-8.
    InvalidName,
}

/// Why an event could not be written.
#[derive(Clone, Copy, Debug, PartialEq, Eq, Structural)]
pub enum EncodeError {
    /// A name takes more bytes than a 16-bit length can count.
    NameTooLong,
    /// A player list is longer than a 16-bit length can count.
    TooManyPlayers,
}

/// A request from a remote control to the game.
#[derive(Debug)]
pub enum ClientEvent {
    SyncPlayers,
    Input { player_id: u16, dir: Direction },
    AddPlayer { request_id: u64 },
    Rename { player_id: u16, name: String },
    PrevColor { player_id: u16 },
    NextColor { player_id: u16 },
    Restart,
    Pause,
    Share,
    Help,
}

pub const TYPE_SYNC_PLAYERS: u8 = 1;
pub const TYPE_INPUT: u8 = 2;
pub const TYPE_ADD_PLAYER: u8 = 3;
pub const TYPE_RENAME: u8 = 4;
pub const TYPE_PREV_COLOR: u8 = 5;
pub const TYPE_NEXT_COLOR: u8 = 6;
pub const TYPE_RESTART: u8 = 7;
pub const TYPE_PAUSE: u8 = 8;
pub const TYPE_SHARE: u8 = 9;
pub const TYPE_HELP: u8 = 10;

/// A string on the wire: its UTF-8 length as a little-endian `u16`, then
/// its UTF-8 bytes.
pub open spec fn string_bytes(s: Seq<char>) -> Seq<u8> {
    u16_bytes(encode_utf8(s).len() as u16) + encode_utf8(s)
}

/// A string fits the wire format.
pub open spec fn fits_wire(s: Seq<char>) -> bool {
    encode_utf8(s).len() <= u16::MAX
}

impl ClientEvent {
    /// The bytes that stand for the event on the wire: its type byte, then
    /// its fields in order.
    pub open spec fn spec_bytes(&self) -> Seq<u8> {
        match self {
            ClientEvent::SyncPlayers => seq![TYPE_SYNC_PLAYERS],
            ClientEvent::Input { player_id, dir } => seq![TYPE_INPUT] + u16_bytes(*player_id) + seq![
                dir.spec_code(),
            ],
            ClientEvent::AddPlayer { request_id } => seq![TYPE_ADD_PLAYER] + u64_bytes(*request_id),
            ClientEvent::Rename { player_id, name } => seq![TYPE_RENAME] + u16_bytes(*player_id)
                + string_bytes(name@),
            ClientEvent::PrevColor { player_id } => seq![TYPE_PREV_COLOR] + u16_bytes(*player_id),
            ClientEvent::NextColor { player_id } => seq![TYPE_NEXT_COLOR] + u16_bytes(*player_id),
            ClientEvent::Restart => seq![TYPE_RESTART],
            ClientEvent::Pause => seq![TYPE_PAUSE],
            ClientEvent::Share => seq![TYPE_SHARE],
            ClientEvent::Help => seq![TYPE_HELP],
        }
    }

    /// The event can be written: a new name fits the wire format.
    pub open spec fn encodable(&self) -> bool {
        match self {
            ClientEvent::Rename { name, .. } => fits_wire(name@),
            _ => true,
        }
    }

    /// The two events say the same.
    pub open spec fn same_as(&self, o: &ClientEvent) -> bool {
        match (self, o) {
            (ClientEvent::Rename { player_id: a, name: n }, ClientEvent::Rename { player_id: b, name: m }) => a
                == b && n@ == m@,
            (ClientEvent::Rename { .. }, _) => false,
            (_, ClientEvent::Rename { .. }) => false,
            _ => self == o,
        }
    }

    /// Appends the event's bytes to `out`, or fails, leaving `out` as it
    /// was, when a new name is too long for the wire.
    pub fn encode(&self, out: &mut Vec<u8>) -> (r: Result<(), EncodeError>)
        ensures
            r is Ok <==> self.encodable(),
            r is Ok ==> final(out)@ == old(out)@ + self.spec_bytes(),
            r is Err ==> final(out)@ == old(out)@,
    {
        match self {
            ClientEvent::SyncPlayers => {
                out.push(TYPE_SYNC_PLAYERS);
            },
            ClientEvent::Input { player_id, dir } => {
                out.push(TYPE_INPUT);
                write_u16(out, *player_id);
                out.push(dir.code());
            },
            ClientEvent::AddPlayer { request_id } => {
                out.push(TYPE_ADD_PLAYER);
                write_u64(out, *request_id);
            },
            ClientEvent::Rename { player_id, name } => {
                let bytes = name.as_str().as_bytes();
                if bytes.len() > u16::MAX as usize {
                    return Err(EncodeError::NameTooLong);
                }
                out.push(TYPE_RENAME);
                write_u16(out, *player_id);
                write_u16(out, bytes.len() as u16);
                write_bytes(out, bytes);
            },
            ClientEvent::PrevColor { player_id } => {
                out.push(TYPE_PREV_COLOR);
                write_u16(out, *player_id);
            },
            ClientEvent::NextColor { player_id } => {
                out.push(TYPE_NEXT_COLOR);
                write_u16(out, *player_id);
            },
            ClientEvent::Restart => {
                out.push(TYPE_RESTART);
            },
            ClientEvent::Pause => {
                out.push(TYPE_PAUSE);
            },
            ClientEvent::Share => {
                out.push(TYPE_SHARE);
            },
            ClientEvent::Help => {
                out.push(TYPE_HELP);
            },
        }
        proof {
            assert(final(out)@ =~= old(out)@ + self.spec_bytes());
        }
        Ok(())
    }
}

/// Appends the little-endian bytes of `v`.
pub fn write_u16(out: &mut Vec<u8>, v: u16)
    ensures
        final(out)@ == old(out)@ + u16_bytes(v),
{
    out.push(v as u8);
    out.push((v >> 8u16) as u8);
    proof {
        assert(final(out)@ =~= old(out)@ + u16_bytes(v));
    }
}

/// Appends the little-endian bytes of `v`.
pub fn write_u64(out: &mut Vec<u8>, v: u64)
    ensures
        final(out)@ == old(out)@ + u64_bytes(v),
{
    out.push(v as u8);
    out.push((v >> 8u64) as u8);
    out.push((v >> 16u64) as u8);
    out.push((v >> 24u64) as u8);
    out.push((v >> 32u64) as u8);
    out.push((v >> 40u64) as u8);
    out.push((v >> 48u64) as u8);
    out.push((v >> 56u64) as u8);
    proof {
        assert(final(out)@ =~= old(out)@ + u64_bytes(v));
    }
}

/// Appends `b`.
fn write_bytes(out: &mut Vec<u8>, b: &[u8])
    ensures
        final(out)@ == old(out)@ + b@,
{
    let mut i: usize = 0;
    while i < b.len()
        invariant
            i <= b@.len(),
            out@ == old(out)@ + b@.take(i as int),
        decreases b@.len() - i,
    {
        out.push(b[i]);
        i = i + 1;
        proof {
            assert(b@.take(i as int) =~= b@.take(i - 1).push(b@[i - 1]));
        }
    }
    proof {
        assert(b@.take(i as int) =~= b@);
    }
}

/// Appends `name` in the wire format of strings, or fails, leaving `out`
/// as it was, when it is too long for it.
pub fn write_string(out: &mut Vec<u8>, name: &str) -> (r: Result<(), EncodeError>)
    ensures
        r is Ok <==> fits_wire(name@),
        r is Ok ==> final(out)@ == old(out)@ + string_bytes(name@),
        r is Err ==> final(out)@ == old(out)@,
{
    let bytes = name.as_bytes();
    if bytes.len() > u16::MAX as usize {
        return Err(EncodeError::NameTooLong);
    }
    write_u16(out, bytes.len() as u16);
    write_bytes(out, bytes);
    proof {
        assert(final(out)@ =~= old(out)@ + string_bytes(name@));
    }
    Ok(())
}

/// Relies on `String::from_utf8`: it accepts exactly the valid UTF-8 byte
/// strings, and the string it returns holds the characters they encode.
#[verifier::external_body]
fn string_from_utf8(b: Vec<u8>) -> (r: Option<String>)
    ensures
        r is Some <==> valid_utf8(b@),
        r matches Some(s) ==> s@ == decode_utf8(b@),
{
    String::from_utf8(b).ok()
}

/// The byte at `pos`, if there is one.
pub fn read_u8(b: &[u8], pos: usize) -> (r: Option<u8>)
    ensures
        r is Some <==> pos < b@.len(),
        r matches Some(v) ==> v == b@[pos as int],
{
    if pos < b.len() {
        Some(b[pos])
    } else {
        None
    }
}

/// The little-endian `u16` at `pos`, if the bytes reach that far.
pub fn read_u16(b: &[u8], pos: usize) -> (r: Option<u16>)
    ensures
        r is Some <==> pos + 2 <= b@.len(),
        r matches Some(v) ==> u16_bytes(v) == b@.subrange(pos as int, pos + 2),
{
    if pos > b.len() || b.len() - pos < 2 {
        return None;
    }
    let v = (b[pos] as u16) | ((b[pos + 1] as u16) << 8u16);
    proof {
        lemma_u16_round_trip(v, b@[pos as int], b@[pos + 1]);
        assert(u16_bytes(v) =~= b@.subrange(pos as int, pos + 2));
    }
    Some(v)
}

/// The little-endian `u64` at `pos`, if the bytes reach that far.
pub fn read_u64(b: &[u8], pos: usize) -> (r: Option<u64>)
    ensures
        r is Some <==> pos + 8 <= b@.len(),
        r matches Some(v) ==> u64_bytes(v) == b@.subrange(pos as int, pos + 8),
{
    if pos > b.len() || b.len() - pos < 8 {
        return None;
    }
    let v = (b[pos] as u64) | ((b[pos + 1] as u64) << 8u64) | ((b[pos + 2] as u64) << 16u64) | ((b[pos
        + 3] as u64) << 24u64) | ((b[pos + 4] as u64) << 32u64) | ((b[pos + 5] as u64) << 40u64) | ((b[pos
        + 6] as u64) << 48u64) | ((b[pos + 7] as u64) << 56u64);
    proof {
        lemma_bytes_of_u64(b@, pos as int);
    }
    Some(v)
}

/// What goes wrong reading a string in the wire format at `pos`, if
/// anything does.
pub open spec fn string_error(b: Seq<u8>, pos: int) -> Option<DecodeError> {
    if pos + 2 > b.len() {
        Some(DecodeError::UnexpectedEnd)
    } else {
        let n = u16_of(b[pos], b[pos + 1]) as int;
        if pos + 2 + n > b.len() {
            Some(DecodeError::UnexpectedEnd)
        } else if !valid_utf8(b.subrange(pos + 2, pos + 2 + n)) {
            Some(DecodeError::InvalidName)
        } else {
            None
        }
    }
}

/// Reads a string in the wire format at `pos`; returns it with the number
/// of bytes it took.
pub fn read_string(b: &[u8], pos: usize) -> (r: Result<(String, usize), DecodeError>)
    requires
        pos <= b@.len(),
    ensures
        match r {
            Ok((s, n)) => string_error(b@, pos as int) is None && pos + n <= b@.len()
                && string_bytes(s@) == b@.subrange(pos as int, pos + n) && fits_wire(s@),
            Err(e) => string_error(b@, pos as int) == Some(e),
        },
{
    let len = match read_u16(b, pos) {
        Some(len) => len,
        None => {
            return Err(DecodeError::UnexpectedEnd);
        },
    };
    proof {
        lemma_u16_round_trip(len, b@[pos as int], b@[pos + 1]);
        assert(u16_of(b@[pos as int], b@[pos + 1]) == len);
    }
    let blen = b.len();
    assert(pos + 2 <= blen);
    let start = pos + 2;
    if b.len() - start < len as usize {
        return Err(DecodeError::UnexpectedEnd);
    }
    let end = start + len as usize;
    let mut buf: Vec<u8> = Vec::new();
    let mut i: usize = start;
    while i < end
        invariant
            start <= i <= end,
            end <= b@.len(),
            buf@ == b@.subrange(start as int, i as int),
        decreases end - i,
    {
        buf.push(b[i]);
        i = i + 1;
        proof {
            assert(buf@ =~= b@.subrange(start as int, i as int));
        }
    }
    let ghost raw = buf@;
    match string_from_utf8(buf) {
        Some(s) => {
            proof {
                decode_utf8_encode_utf8(raw);
                assert(string_bytes(s@) =~= b@.subrange(pos as int, end as int));
            }
            Ok((s, 2 + len as usize))
        },
        None => Err(DecodeError::InvalidName),
    }
}

/// What goes wrong reading an event from `b`, if anything does.
pub open spec fn decode_error(b: Seq<u8>) -> Option<DecodeError> {
    if b.len() == 0 {
        Some(DecodeError::UnexpectedEnd)
    } else {
        let t = b[0];
        if t == TYPE_SYNC_PLAYERS || t == TYPE_RESTART || t == TYPE_PAUSE || t == TYPE_SHARE || t
            == TYPE_HELP {
            None
        } else if t == TYPE_INPUT {
            if b.len() < 4 {
                Some(DecodeError::UnexpectedEnd)
            } else if b[3] > 2 {
                Some(DecodeError::UnknownDirection(b[3]))
            } else {
                None
            }
        } else if t == TYPE_ADD_PLAYER {
            if b.len() < 9 {
                Some(DecodeError::UnexpectedEnd)
            } else {
                None
            }
        } else if t == TYPE_RENAME {
            if b.len() < 3 {
                Some(DecodeError::UnexpectedEnd)
            } else {
                string_error(b, 3)
            }
        } else if t == TYPE_PREV_COLOR || t == TYPE_NEXT_COLOR {
            if b.len() < 3 {
                Some(DecodeError::UnexpectedEnd)
            } else {
                None
            }
        } else {
            Some(DecodeError::UnknownType(t))
        }
    }
}

impl ClientEvent {
    /// Reads the event at the start of `b`; returns it with the number of
    /// bytes it took, or why there is none.
    pub fn decode(b: &[u8]) -> (r: Result<(ClientEvent, usize), DecodeError>)
        ensures
            match r {
                Ok((e, n)) => decode_error(b@) is None && n <= b@.len() && e.spec_bytes() == b@.take(
                    n as int,
                ) && e.encodable(),
                Err(err) => decode_error(b@) == Some(err),
            },
    {
        let ty = match read_u8(b, 0) {
            Some(t) => t,
            None => {
                return Err(DecodeError::UnexpectedEnd);
            },
        };
        if ty == TYPE_SYNC_PLAYERS || ty == TYPE_RESTART || ty == TYPE_PAUSE || ty == TYPE_SHARE || ty
            == TYPE_HELP {
            let e = if ty == TYPE_SYNC_PLAYERS {
                ClientEvent::SyncPlayers
            } else if ty == TYPE_RESTART {
                ClientEvent::Restart
            } else if ty == TYPE_PAUSE {
                ClientEvent::Pause
            } else if ty == TYPE_SHARE {
                ClientEvent::Share
            } else {
                ClientEvent::Help
            };
            proof {
                assert(e.spec_bytes() =~= b@.take(1));
            }
            Ok((e, 1))
        } else if ty == TYPE_INPUT {
            let player_id = match read_u16(b, 1) {
                Some(v) => v,
                None => {
                    return Err(DecodeError::UnexpectedEnd);
                },
            };
            let code = match read_u8(b, 3) {
                Some(c) => c,
                None => {
                    return Err(DecodeError::UnexpectedEnd);
                },
            };
            match Direction::from_code(code) {
                Some(dir) => {
                    let e = ClientEvent::Input { player_id, dir };
                    proof {
                        assert(e.spec_bytes() =~= b@.take(4));
                    }
                    Ok((e, 4))
                },
                None => Err(DecodeError::UnknownDirection(code)),
            }
        } else if ty == TYPE_ADD_PLAYER {
            match read_u64(b, 1) {
                Some(request_id) => {
                    let e = ClientEvent::AddPlayer { request_id };
                    proof {
                        assert(e.spec_bytes() =~= b@.take(9));
                    }
                    Ok((e, 9))
                },
                None => Err(DecodeError::UnexpectedEnd),
            }
        } else if ty == TYPE_RENAME {
            let player_id = match read_u16(b, 1) {
                Some(v) => v,
                None => {
                    return Err(DecodeError::UnexpectedEnd);
                },
            };
            let blen = b.len();
            assert(3 <= blen);
            let (name, n) = read_string(b, 3)?;
            let e = ClientEvent::Rename { player_id, name };
            proof {
                assert(e.spec_bytes() =~= b@.take(3 + n));
            }
            Ok((e, 3 + n))
        } else if ty == TYPE_PREV_COLOR || ty == TYPE_NEXT_COLOR {
            match read_u16(b, 1) {
                Some(player_id) => {
                    let e = if ty == TYPE_PREV_COLOR {
                        ClientEvent::PrevColor { player_id }
                    } else {
                        ClientEvent::NextColor { player_id }
                    };
                    proof {
                        assert(e.spec_bytes() =~= b@.take(3));
                    }
                    Ok((e, 3))
                },
                None => Err(DecodeError::UnexpectedEnd),
            }
        } else {
            Err(DecodeError::UnknownType(ty))
        }
    }
}

/// What `encode` writes for an event, `decode` reads back: the bytes are
/// accepted whatever follows them, and any event whose bytes start the input
/// says the same as the original and takes exactly as many bytes.
pub proof fn lemma_client_event_round_trip(e: ClientEvent, rest: Seq<u8>, d: ClientEvent, n: int)
    requires
        e.encodable(),
        d.encodable(),
        0 <= n <= e.spec_bytes().len() + rest.len(),
        d.spec_bytes() == (e.spec_bytes() + rest).take(n),
    ensures
        decode_error(e.spec_bytes() + rest) is None,
        d.same_as(&e),
        n == e.spec_bytes().len(),
{
    let b = e.spec_bytes() + rest;
    let db = d.spec_bytes();
    assert(b[0] == e.spec_bytes()[0]);
    assert(db.len() == n);
    assert(db[0] == b[0]);
    match e {
        ClientEvent::Input { player_id, dir } => {
            assert(b[3] == dir.spec_code());
            if let ClientEvent::Input { player_id: p2, dir: d2 } = d {
                lemma_u16_round_trip(player_id, 0, 0);
                lemma_u16_round_trip(p2, 0, 0);
                assert(db[1] == b[1] && db[2] == b[2] && db[3] == b[3]);
            }
        },
        ClientEvent::AddPlayer { request_id } => {
            if let ClientEvent::AddPlayer { request_id: r2 } = d {
                assert(db.subrange(1, 9) =~= u64_bytes(r2));
                assert(b.subrange(1, 9) =~= u64_bytes(request_id));
                assert(db.subrange(1, 9) =~= b.subrange(1, 9));
                lemma_u64_of_bytes(r2);
                lemma_u64_of_bytes(request_id);
            }
        },
        ClientEvent::PrevColor { player_id } | ClientEvent::NextColor { player_id } => {
            match d {
                ClientEvent::PrevColor { player_id: p2 } | ClientEvent::NextColor { player_id: p2 } => {
                    lemma_u16_round_trip(player_id, 0, 0);
                    lemma_u16_round_trip(p2, 0, 0);
                    assert(db[1] == b[1] && db[2] == b[2]);
                },
                _ => {},
            }
        },
        ClientEvent::Rename { player_id, name } => {
            let u = encode_utf8(name@);
            let len = u.len() as u16;
            lemma_u16_round_trip(len, 0, 0);
            lemma_u16_round_trip(player_id, 0, 0);
            assert(b[3] == len as u8 && b[4] == (len >> 8u16) as u8);
            assert(u16_of(b[3], b[4]) == len);
            assert(b.subrange(5, 5 + u.len() as int) =~= u);
            vstd::utf8::encode_utf8_valid_utf8(name@);
            if let ClientEvent::Rename { player_id: p2, name: n2 } = d {
                let u2 = encode_utf8(n2@);
                let len2 = u2.len() as u16;
                lemma_u16_round_trip(len2, 0, 0);
                lemma_u16_round_trip(p2, 0, 0);
                assert(db[1] == b[1] && db[2] == b[2] && db[3] == b[3] && db[4] == b[4]);
                assert(len2 == len);
                assert(db.subrange(5, 5 + u2.len() as int) =~= u2);
                assert(u2 =~= u);
                encode_utf8_decode_utf8(name@);
                encode_utf8_decode_utf8(n2@);
            }
        },
        _ => {},
    }
}

/// The two players say the same.
pub open spec fn same_player(a: Player, b: Player) -> bool {
    a.id == b.id && a.color == b.color && a.name@ == b.name@
}

impl GameEvent {
    /// The two events say the same.
    pub open spec fn same_as(&self, o: &GameEvent) -> bool {
        match (self, o) {
            (GameEvent::Exit, GameEvent::Exit) => true,
            (GameEvent::PlayerSync { players: a }, GameEvent::PlayerSync { players: b }) => a@.len()
                == b@.len() && forall|i: int| 0 <= i < a@.len() ==> same_player(#[trigger] a@[i], b@[i]),
            (
                GameEvent::PlayerAdded { request_id: r, player: a },
                GameEvent::PlayerAdded { request_id: q, player: b },
            ) => r == q && same_player(*a, *b),
            _ => false,
        }
    }
}

/// A player's bytes are read back as the same player, whatever follows
/// them; and any player whose bytes start there is that player.
proof fn lemma_player_round_trip(a: Player, q: Player, b: Seq<u8>, pos: int, n: int)
    requires
        fits_wire(a.name@),
        fits_wire(q.name@),
        0 <= pos,
        pos + player_bytes(a).len() <= b.len(),
        b.subrange(pos, pos + player_bytes(a).len()) == player_bytes(a),
        0 <= n,
        pos + n <= b.len(),
        b.subrange(pos, pos + n) == player_bytes(q),
    ensures
        player_error(b, pos) is None,
        player_end(b, pos) == pos + player_bytes(a).len(),
        same_player(a, q),
        n == player_bytes(a).len(),
{
    let la = player_bytes(a).len() as int;
    let u = encode_utf8(a.name@);
    let len = u.len() as u16;
    assert(player_bytes(a).len() == 8 + u.len());
    lemma_u16_round_trip(len, 0, 0);
    assert(b.subrange(pos, pos + la)[6] == b[pos + 6]);
    assert(b.subrange(pos, pos + la)[7] == b[pos + 7]);
    assert(u16_of(b[pos + 6], b[pos + 7]) == len);
    assert(b.subrange(pos + 8, pos + 8 + u.len()) =~= u) by {
        assert forall|i: int| 0 <= i < u.len() implies b.subrange(pos + 8, pos + 8 + u.len())[i] == u[i] by {
            assert(b.subrange(pos, pos + la)[8 + i] == b[pos + 8 + i]);
            assert(player_bytes(a)[8 + i] == u[i]);
        }
    }
    vstd::utf8::encode_utf8_valid_utf8(a.name@);
    lemma_player_end(b, pos, a, la);
    lemma_player_end(b, pos, q, n);
    let v = encode_utf8(q.name@);
    assert(player_bytes(q).len() == 8 + v.len());
    assert(v.len() == u.len());
    assert(v =~= u) by {
        assert forall|i: int| 0 <= i < v.len() implies v[i] == u[i] by {
            assert(player_bytes(q)[8 + i] == v[i]);
            assert(b.subrange(pos, pos + n)[8 + i] == b[pos + 8 + i]);
            assert(player_bytes(a)[8 + i] == u[i]);
        }
    }
    encode_utf8_decode_utf8(a.name@);
    encode_utf8_decode_utf8(q.name@);
    lemma_u16_round_trip(a.id, 0, 0);
    lemma_u16_round_trip(q.id, 0, 0);
    assert(player_bytes(q)[4] == b[pos + 4] && player_bytes(a)[4] == b[pos + 4]);
    assert(player_bytes(q)[5] == b[pos + 5] && player_bytes(a)[5] == b[pos + 5]);
    assert(player_bytes(q)[0] == player_bytes(a)[0]);
    assert(player_bytes(q)[1] == player_bytes(a)[1]);
    assert(player_bytes(q)[2] == player_bytes(a)[2]);
    assert(player_bytes(q)[3] == player_bytes(a)[3]);
    assert(q.color =~= a.color);
}

/// The bytes of the first `k` players start the bytes of them all.
proof fn lemma_players_bytes_prefix(ps: Seq<Player>, k: int)
    requires
        0 <= k <= ps.len(),
    ensures
        players_bytes(ps.take(k)).len() as int <= players_bytes(ps).len() as int,
        players_bytes(ps).subrange(0, players_bytes(ps.take(k)).len() as int) == players_bytes(ps.take(k)),
        k < ps.len() ==> players_bytes(ps.take(k + 1)) == players_bytes(ps.take(k)) + player_bytes(ps[k]),
    decreases ps.len(),
{
    if k < ps.len() {
        assert(ps.take(k + 1).drop_last() =~= ps.take(k));
    }
    if k == ps.len() {
        assert(ps.take(k) =~= ps);
    } else {
        lemma_players_bytes_prefix(ps.drop_last(), k);
        assert(ps.drop_last().take(k) =~= ps.take(k));
        let a = players_bytes(ps.drop_last());
        assert(players_bytes(ps) == a + player_bytes(ps.last()));
        assert(players_bytes(ps).subrange(0, players_bytes(ps.take(k)).len() as int) =~= a.subrange(
            0,
            players_bytes(ps.take(k)).len() as int,
        ));
    }
}

/// What `encode` writes for a game event, `decode` reads back: the bytes
/// are accepted whatever follows them, and any event whose bytes start the
/// input says the same as the original and takes exactly as many bytes.
pub proof fn lemma_game_event_round_trip(e: GameEvent, rest: Seq<u8>, d: GameEvent, n: int)
    requires
        e.encodable(),
        d.encodable(),
        0 <= n <= e.spec_bytes().len() + rest.len(),
        d.spec_bytes() == (e.spec_bytes() + rest).take(n),
    ensures
        game_decode_error(e.spec_bytes() + rest) is None,
        d.same_as(&e),
        n == e.spec_bytes().len(),
{
    let b = e.spec_bytes() + rest;
    let db = d.spec_bytes();
    assert(b[0] == e.spec_bytes()[0]);
    assert(db.len() == n);
    assert(db[0] == b[0]);
    match e {
        GameEvent::PlayerAdded { request_id, player } => {
            let pb = player_bytes(player);
            assert(b.subrange(9, 9 + pb.len() as int) =~= pb);
            assert(b.subrange(1, 9) =~= u64_bytes(request_id));
            if let GameEvent::PlayerAdded { request_id: r2, player: q } = d {
                let qb = player_bytes(q);
                assert(db.subrange(1, 9) =~= u64_bytes(r2));
                assert(db.subrange(1, 9) =~= b.subrange(1, 9));
                lemma_u64_of_bytes(r2);
                lemma_u64_of_bytes(request_id);
                assert(db.subrange(9, n) =~= qb);
                assert(b.subrange(9, n) =~= db.subrange(9, n));
                lemma_player_round_trip(player, q, b, 9, n - 9);
            } else {
                lemma_player_round_trip(player, player, b, 9, pb.len() as int);
            }
        },
        GameEvent::PlayerSync { players } => {
            let ps = players@;
            let cnt = ps.len() as u16;
            lemma_u16_round_trip(cnt, 0, 0);
            assert(b[1] == cnt as u8 && b[2] == (cnt >> 8u16) as u8);
            assert(u16_of(b[1], b[2]) == cnt);
            assert(b.subrange(3, 3 + players_bytes(ps).len() as int) =~= players_bytes(ps));
            lemma_players_walk(ps, b, ps.len() as int);
            assert(ps.take(ps.len() as int) =~= ps);
            if let GameEvent::PlayerSync { players: qs } = d {
                let q = qs@;
                let c2 = q.len() as u16;
                lemma_u16_round_trip(c2, 0, 0);
                assert(db[1] == b[1] && db[2] == b[2]);
                assert(c2 == cnt);
                assert(db.subrange(3, db.len() as int) =~= players_bytes(q));
                lemma_players_same(ps, q, b, db, ps.len() as int);
                assert(q.take(q.len() as int) =~= q);
            }
        },
        _ => {},
    }
}

/// Walking over the first `k` players of a list written after a type byte
/// and a count ends where their bytes end.
proof fn lemma_players_walk(ps: Seq<Player>, b: Seq<u8>, k: int)
    requires
        names_fit(ps),
        0 <= k <= ps.len(),
        3 + players_bytes(ps).len() as int <= b.len(),
        b.subrange(3, 3 + players_bytes(ps).len() as int) == players_bytes(ps),
    ensures
        players_result(b, 3, k as nat) == Ok::<int, DecodeError>(3 + players_bytes(ps.take(k)).len() as int),
    decreases k,
{
    if k == 0 {
        assert(ps.take(0) =~= Seq::<Player>::empty());
    } else {
        lemma_players_walk(ps, b, k - 1);
        lemma_players_bytes_prefix(ps, k - 1);
        lemma_players_bytes_prefix(ps, k);
        let start = 3 + players_bytes(ps.take(k - 1)).len() as int;
        let a = ps[k - 1];
        let ab = player_bytes(a);
        assert(b.subrange(start, start + ab.len() as int) =~= ab) by {
            assert forall|i: int| 0 <= i < ab.len() implies b.subrange(start, start + ab.len() as int)[i] == ab[i] by {
                let off = players_bytes(ps.take(k - 1)).len() as int + i;
                assert(players_bytes(ps.take(k))[off] == ab[i]);
                assert(players_bytes(ps).subrange(0, players_bytes(ps.take(k)).len() as int)[off] == ab[i]);
                assert(b.subrange(3, 3 + players_bytes(ps).len() as int)[off] == b[3 + off]);
            }
        }
        assert(fits_wire(ps[k - 1].name@));
        lemma_player_round_trip(a, a, b, start, ab.len() as int);
    }
}

/// Two lists of players whose bytes follow the same count in the same input
/// hold the same players, as far as `k`.
proof fn lemma_players_same(ps: Seq<Player>, qs: Seq<Player>, b: Seq<u8>, db: Seq<u8>, k: int)
    requires
        names_fit(ps),
        names_fit(qs),
        ps.len() == qs.len(),
        0 <= k <= ps.len(),
        3 + players_bytes(ps).len() as int <= b.len(),
        b.subrange(3, 3 + players_bytes(ps).len() as int) == players_bytes(ps),
        3 + players_bytes(qs).len() as int == db.len(),
        db.len() <= b.len(),
        db.subrange(3, db.len() as int) == players_bytes(qs),
        db == b.take(db.len() as int),
    ensures
        players_bytes(qs.take(k)).len() as int == players_bytes(ps.take(k)).len() as int,
        forall|i: int| 0 <= i < k ==> same_player(#[trigger] ps[i], qs[i]),
        k == ps.len() ==> db.len() == 3 + players_bytes(ps).len() as int,
    decreases k,
{
    if k == 0 {
        assert(ps.take(0) =~= Seq::<Player>::empty());
        assert(qs.take(0) =~= Seq::<Player>::empty());
    } else {
        lemma_players_same(ps, qs, b, db, k - 1);
        lemma_players_bytes_prefix(ps, k - 1);
        lemma_players_bytes_prefix(ps, k);
        lemma_players_bytes_prefix(qs, k - 1);
        lemma_players_bytes_prefix(qs, k);
        let start = 3 + players_bytes(ps.take(k - 1)).len() as int;
        let a = ps[k - 1];
        let q = qs[k - 1];
        let ab = player_bytes(a);
        let qb = player_bytes(q);
        assert(b.subrange(start, start + ab.len() as int) =~= ab) by {
            assert forall|i: int| 0 <= i < ab.len() implies b.subrange(start, start + ab.len() as int)[i] == ab[i] by {
                let off = players_bytes(ps.take(k - 1)).len() as int + i;
                assert(players_bytes(ps.take(k))[off] == ab[i]);
                assert(players_bytes(ps).subrange(0, players_bytes(ps.take(k)).len() as int)[off] == ab[i]);
                assert(b.subrange(3, 3 + players_bytes(ps).len() as int)[off] == b[3 + off]);
            }
        }
        assert(b.subrange(start, start + qb.len() as int) =~= qb) by {
            assert forall|i: int| 0 <= i < qb.len() implies b.subrange(start, start + qb.len() as int)[i] == qb[i] by {
                let off = players_bytes(qs.take(k - 1)).len() as int + i;
                assert(players_bytes(qs.take(k))[off] == qb[i]);
                assert(players_bytes(qs).subrange(0, players_bytes(qs.take(k)).len() as int)[off] == qb[i]);
                assert(db.subrange(3, db.len() as int)[off] == db[3 + off]);
                assert(db[3 + off] == b[3 + off]);
            }
        }
        assert(fits_wire(a.name@));
        assert(fits_wire(q.name@));
        lemma_player_round_trip(a, q, b, start, qb.len() as int);
        if k == ps.len() {
            assert(ps.take(k) =~= ps);
            assert(qs.take(k) =~= qs);
        }
    }
}

/// A message of the first remote control: the input of one player.
#[derive(Clone, Copy, Debug, PartialEq, Eq, Structural)]
pub enum ServerEvent {
    Input { player_idx: u8, left_down: bool, right_down: bool },
}

/// Type byte of an input message of the first remote control.
pub const INPUT_EVENT_TYPE: u8 = 1;

/// Reads a message of the first remote control: exactly four bytes, the
/// input type, the player's index, and whether the left and the right key
/// are down (any byte but zero).
pub fn parse_msg(msg: &[u8]) -> (r: Option<ServerEvent>)
    ensures
        r is Some <==> (msg@.len() == 4 && msg@[0] == INPUT_EVENT_TYPE),
        r matches Some(ServerEvent::Input { player_idx, left_down, right_down }) ==> player_idx
            == msg@[1] && left_down == (msg@[2] != 0) && right_down == (msg@[3] != 0),
{
    if msg.len() == 4 && msg[0] == INPUT_EVENT_TYPE {
        Some(ServerEvent::Input { player_idx: msg[1], left_down: msg[2] != 0, right_down: msg[3] != 0 })
    } else {
        None
    }
}

/// A player as the game announces it to remote controls.
#[derive(Clone, Debug)]
pub struct Player {
    pub id: u16,
    pub color: [u8; 4],
    pub name: String,
}

/// A message from the game to the remote controls.
#[derive(Clone, Debug)]
pub enum GameEvent {
    Exit,
    PlayerSync { players: Vec<Player> },
    /// Answer to `ClientEvent::AddPlayer`.
    PlayerAdded { request_id: u64, player: Player },
}

pub const TYPE_EXIT: u8 = 1;
pub const TYPE_PLAYER_LIST: u8 = 2;
pub const TYPE_PLAYER_ADDED: u8 = 3;

/// A player on the wire: the four colour bytes, the id, then the name.
pub open spec fn player_bytes(p: Player) -> Seq<u8> {
    seq![p.color[0], p.color[1], p.color[2], p.color[3]] + u16_bytes(p.id) + string_bytes(p.name@)
}

/// Players one after the other on the wire.
pub open spec fn players_bytes(s: Seq<Player>) -> Seq<u8>
    decreases s.len(),
{
    if s.len() == 0 {
        Seq::empty()
    } else {
        players_bytes(s.drop_last()) + player_bytes(s.last())
    }
}

/// Every player of `s` has a name that fits the wire format.
pub open spec fn names_fit(s: Seq<Player>) -> bool {
    forall|i: int| 0 <= i < s.len() ==> fits_wire(#[trigger] s[i].name@)
}

impl Player {
    pub fn new(id: u16, color: [u8; 4], name: String) -> (r: Self)
        ensures
            r.id == id,
            r.color == color,
            r.name == name,
    {
        Player { id, color, name }
    }

    /// Appends the player's bytes to `out`, or fails, leaving `out` as it
    /// was, when the name is too long for the wire.
    pub fn encode(&self, out: &mut Vec<u8>) -> (r: Result<(), EncodeError>)
        ensures
            r is Ok <==> fits_wire(self.name@),
            r is Ok ==> final(out)@ == old(out)@ + player_bytes(*self),
            r is Err ==> final(out)@ == old(out)@,
    {
        if self.name.as_str().as_bytes().len() > u16::MAX as usize {
            return Err(EncodeError::NameTooLong);
        }
        out.push(self.color[0]);
        out.push(self.color[1]);
        out.push(self.color[2]);
        out.push(self.color[3]);
        write_u16(out, self.id);
        let _ = write_string(out, self.name.as_str());
        proof {
            assert(final(out)@ =~= old(out)@ + player_bytes(*self));
        }
        Ok(())
    }

    /// Reads a player at `pos`; returns them with the number of bytes they
    /// took.
    pub fn decode(b: &[u8], pos: usize) -> (r: Result<(Player, usize), DecodeError>)
        requires
            pos <= b@.len(),
        ensures
            match r {
                Ok((p, n)) => player_error(b@, pos as int) is None && pos + n <= b@.len()
                    && player_bytes(p) == b@.subrange(pos as int, pos + n) && fits_wire(p.name@),
                Err(e) => player_error(b@, pos as int) == Some(e),
            },
    {
        let blen = b.len();
        if blen - pos < 6 {
            return Err(DecodeError::UnexpectedEnd);
        }
        let color = [b[pos], b[pos + 1], b[pos + 2], b[pos + 3]];
        let id = match read_u16(b, pos + 4) {
            Some(v) => v,
            None => {
                return Err(DecodeError::UnexpectedEnd);
            },
        };
        let (name, n) = read_string(b, pos + 6)?;
        let p = Player { id, color, name };
        proof {
            assert(player_bytes(p) =~= b@.subrange(pos as int, pos + 6 + n));
        }
        Ok((p, 6 + n))
    }
}

/// What goes wrong reading a player at `pos`, if anything does.
pub open spec fn player_error(b: Seq<u8>, pos: int) -> Option<DecodeError> {
    if pos + 6 > b.len() {
        Some(DecodeError::UnexpectedEnd)
    } else {
        string_error(b, pos + 6)
    }
}

/// Where the player read at `pos` ends.
pub open spec fn player_end(b: Seq<u8>, pos: int) -> int {
    pos + 8 + u16_of(b[pos + 6], b[pos + 7])
}

/// Reading `k` players from `pos` on: where they end, or what goes wrong.
pub open spec fn players_result(b: Seq<u8>, pos: int, k: nat) -> Result<int, DecodeError>
    decreases k,
{
    if k == 0 {
        Ok(pos)
    } else {
        match players_result(b, pos, (k - 1) as nat) {
            Ok(p) => match player_error(b, p) {
                None => Ok(player_end(b, p)),
                Some(e) => Err(e),
            },
            Err(e) => Err(e),
        }
    }
}

/// What goes wrong reading a game event from `b`, if anything does.
pub open spec fn game_decode_error(b: Seq<u8>) -> Option<DecodeError> {
    if b.len() == 0 {
        Some(DecodeError::UnexpectedEnd)
    } else {
        let t = b[0];
        if t == TYPE_EXIT {
            None
        } else if t == TYPE_PLAYER_LIST {
            if b.len() < 3 {
                Some(DecodeError::UnexpectedEnd)
            } else {
                match players_result(b, 3, u16_of(b[1], b[2]) as nat) {
                    Ok(_) => None,
                    Err(e) => Some(e),
                }
            }
        } else if t == TYPE_PLAYER_ADDED {
            if b.len() < 9 {
                Some(DecodeError::UnexpectedEnd)
            } else {
                player_error(b, 9)
            }
        } else {
            Some(DecodeError::UnknownType(t))
        }
    }
}

impl GameEvent {
    /// The bytes that stand for the event on the wire: its type byte, then
    /// its fields in order; a player list starts with its length.
    pub open spec fn spec_bytes(&self) -> Seq<u8> {
        match self {
            GameEvent::Exit => seq![TYPE_EXIT],
            GameEvent::PlayerSync { players } => seq![TYPE_PLAYER_LIST] + u16_bytes(
                players@.len() as u16,
            ) + players_bytes(players@),
            GameEvent::PlayerAdded { request_id, player } => seq![TYPE_PLAYER_ADDED] + u64_bytes(
                *request_id,
            ) + player_bytes(*player),
        }
    }

    /// The event can be written: a player list has at most `u16::MAX`
    /// players, and every name fits the wire format.
    pub open spec fn encodable(&self) -> bool {
        match self {
            GameEvent::Exit => true,
            GameEvent::PlayerSync { players } => players@.len() <= u16::MAX && names_fit(players@),
            GameEvent::PlayerAdded { player, .. } => fits_wire(player.name@),
        }
    }

    /// Appends the event's bytes to `out`, or fails, leaving `out` as it
    /// was, when it cannot be written.
    pub fn encode(&self, out: &mut Vec<u8>) -> (r: Result<(), EncodeError>)
        ensures
            r is Ok <==> self.encodable(),
            r is Ok ==> final(out)@ == old(out)@ + self.spec_bytes(),
            r is Err ==> final(out)@ == old(out)@,
            r matches Err(e) ==> e == if self matches GameEvent::PlayerSync { players } && players@.len()
                > u16::MAX {
                EncodeError::TooManyPlayers
            } else {
                EncodeError::NameTooLong
            },
    {
        match self {
            GameEvent::Exit => {
                out.push(TYPE_EXIT);
                proof {
                    assert(final(out)@ =~= old(out)@ + self.spec_bytes());
                }
                Ok(())
            },
            GameEvent::PlayerSync { players } => {
                if players.len() > u16::MAX as usize {
                    return Err(EncodeError::TooManyPlayers);
                }
                let mut i: usize = 0;
                while i < players.len()
                    invariant
                        i <= players@.len(),
                        players@.len() <= u16::MAX,
                        self.encodable() == names_fit(players@),
                        !(self matches GameEvent::PlayerSync { players: ps } && ps@.len() > u16::MAX),
                        forall|j: int| 0 <= j < i ==> fits_wire(#[trigger] players@[j].name@),
                    decreases players@.len() - i,
                {
                    if players[i].name.as_str().as_bytes().len() > u16::MAX as usize {
                        assert(!fits_wire(players@[i as int].name@));
                        return Err(EncodeError::NameTooLong);
                    }
                    i = i + 1;
                }
                let mut bytes: Vec<u8> = Vec::new();
                bytes.push(TYPE_PLAYER_LIST);
                write_u16(&mut bytes, players.len() as u16);
                let mut k: usize = 0;
                while k < players.len()
                    invariant
                        k <= players@.len(),
                        names_fit(players@),
                        bytes@ == seq![TYPE_PLAYER_LIST] + u16_bytes(players@.len() as u16)
                            + players_bytes(players@.take(k as int)),
                    decreases players@.len() - k,
                {
                    let _ = players[k].encode(&mut bytes);
                    proof {
                        assert(players@.take(k + 1).drop_last() =~= players@.take(k as int));
                        assert(bytes@ =~= seq![TYPE_PLAYER_LIST] + u16_bytes(players@.len() as u16)
                            + players_bytes(players@.take(k + 1)));
                    }
                    k = k + 1;
                }
                proof {
                    assert(players@.take(k as int) =~= players@);
                }
                write_bytes(out, bytes.as_slice());
                proof {
                    assert(final(out)@ =~= old(out)@ + self.spec_bytes());
                }
                Ok(())
            },
            GameEvent::PlayerAdded { request_id, player } => {
                if player.name.as_str().as_bytes().len() > u16::MAX as usize {
                    return Err(EncodeError::NameTooLong);
                }
                out.push(TYPE_PLAYER_ADDED);
                write_u64(out, *request_id);
                let _ = player.encode(out);
                proof {
                    assert(final(out)@ =~= old(out)@ + self.spec_bytes());
                }
                Ok(())
            },
        }
    }

    /// Reads the event at the start of `b`; returns it with the number of
    /// bytes it took, or why there is none.
    pub fn decode(b: &[u8]) -> (r: Result<(GameEvent, usize), DecodeError>)
        ensures
            match r {
                Ok((e, n)) => game_decode_error(b@) is None && n <= b@.len() && e.spec_bytes()
                    == b@.take(n as int) && e.encodable(),
                Err(err) => game_decode_error(b@) == Some(err),
            },
    {
        let ty = match read_u8(b, 0) {
            Some(t) => t,
            None => {
                return Err(DecodeError::UnexpectedEnd);
            },
        };
        if ty == TYPE_EXIT {
            let e = GameEvent::Exit;
            proof {
                assert(e.spec_bytes() =~= b@.take(1));
            }
            Ok((e, 1))
        } else if ty == TYPE_PLAYER_LIST {
            let count = match read_u16(b, 1) {
                Some(v) => v,
                None => {
                    return Err(DecodeError::UnexpectedEnd);
                },
            };
            proof {
                lemma_u16_round_trip(count, b@[1], b@[2]);
                assert(u16_bytes(count)[0] == b@[1] && u16_bytes(count)[1] == b@[2]);
                assert(u16_of(b@[1], b@[2]) == count);
            }
            let blen = b.len();
            let mut players: Vec<Player> = Vec::new();
            let mut pos: usize = 3;
            let mut i: u16 = 0;
            while i < count
                invariant
                    i <= count,
                    b@.len() >= 3,
                    b@[0] == TYPE_PLAYER_LIST,
                    count == u16_of(b@[1], b@[2]),
                    3 <= pos <= b@.len(),
                    blen == b@.len(),
                    players@.len() == i,
                    names_fit(players@),
                    players_result(b@, 3, i as nat) == Ok::<int, DecodeError>(pos as int),
                    b@.subrange(3, pos as int) == players_bytes(players@),
                decreases count - i,
            {
                let (p, n) = match Player::decode(b, pos) {
                    Ok(x) => x,
                    Err(e) => {
                        proof {
                            lemma_players_result_fails(b@, i as nat, count as nat, e);
                        }
                        return Err(e);
                    },
                };
                proof {
                    lemma_player_end(b@, pos as int, p, n as int);
                    assert(b@.subrange(3, pos + n) =~= b@.subrange(3, pos as int) + b@.subrange(
                        pos as int,
                        pos + n,
                    ));
                    assert(players@.push(p).drop_last() =~= players@);
                    assert(forall|j: int| 0 <= j < players@.len() ==> players@.push(p)[j] == players@[j]);
                }
                players.push(p);
                pos = pos + n;
                i = i + 1;
            }
            let e = GameEvent::PlayerSync { players };
            proof {
                assert(e.spec_bytes() =~= b@.take(pos as int));
            }
            Ok((e, pos))
        } else if ty == TYPE_PLAYER_ADDED {
            let request_id = match read_u64(b, 1) {
                Some(v) => v,
                None => {
                    return Err(DecodeError::UnexpectedEnd);
                },
            };
            let blen = b.len();
            let (player, n) = Player::decode(b, 9)?;
            let e = GameEvent::PlayerAdded { request_id, player };
            proof {
                assert(e.spec_bytes() =~= b@.take(9 + n));
            }
            Ok((e, 9 + n))
        } else {
            Err(DecodeError::UnknownType(ty))
        }
    }
}

/// A player read at `pos` ends where `player_end` says.
proof fn lemma_player_end(b: Seq<u8>, pos: int, p: Player, n: int)
    requires
        0 <= pos,
        0 <= n,
        pos + n <= b.len(),
        fits_wire(p.name@),
        player_bytes(p) == b.subrange(pos, pos + n),
    ensures
        player_end(b, pos) == pos + n,
{
    let len = encode_utf8(p.name@).len() as u16;
    let sb = string_bytes(p.name@);
    assert(sb.len() == 2 + encode_utf8(p.name@).len());
    assert(player_bytes(p).len() == 6 + sb.len());
    assert(player_bytes(p).len() == n);
    assert(player_bytes(p)[6] == sb[0]);
    assert(player_bytes(p)[7] == sb[1]);
    assert(b.subrange(pos, pos + n)[6] == b[pos + 6]);
    assert(b.subrange(pos, pos + n)[7] == b[pos + 7]);
    lemma_u16_round_trip(len, b[pos + 6], b[pos + 7]);
    assert(sb[0] == len as u8);
    assert(sb[1] == (len >> 8u16) as u8);
    assert(u16_of(b[pos + 6], b[pos + 7]) == len);
}

/// Once reading the players fails, it fails the same way for more players.
proof fn lemma_players_result_fails(b: Seq<u8>, i: nat, count: nat, e: DecodeError)
    requires
        i < count,
        players_result(b, 3, i) is Ok,
        player_error(b, players_result(b, 3, i)->Ok_0) == Some(e),
    ensures
        players_result(b, 3, count) == Err::<int, DecodeError>(e),
    decreases count - i,
{
    if i + 1 < count {
        assert(players_result(b, 3, i + 1) == Err::<int, DecodeError>(e));
        lemma_players_result_stays_failed(b, i + 1, count, e);
    }
}

proof fn lemma_players_result_stays_failed(b: Seq<u8>, i: nat, count: nat, e: DecodeError)
    requires
        i <= count,
        players_result(b, 3, i) == Err::<int, DecodeError>(e),
    ensures
        players_result(b, 3, count) == Err::<int, DecodeError>(e),
    decreases count - i,
{
    if i < count {
        lemma_players_result_stays_failed(b, i + 1, count, e);
    }
}

} // verus!
