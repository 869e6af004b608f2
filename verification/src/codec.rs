//! Wire codec: fixed nine-byte request frames and four-byte responses.
//!
//! A request frame is one tag byte followed by two signed 32-bit integers in
//! big-endian order. A response is a single signed 32-bit integer in
//! big-endian order. There are no delimiters and no length prefixes.

use vstd::prelude::*;

verus! {

/// Number of bytes in a request frame.
pub const FRAME_LEN: usize = 9;

/// Number of bytes in a response.
pub const RESPONSE_LEN: usize = 4;

/// Tag byte of an insert frame, ASCII `I`.
pub const TAG_INSERT: u8 = 0x49;

/// Tag byte of a query frame, ASCII `Q`.
pub const TAG_QUERY: u8 = 0x51;

/// A decoded request.
#[derive(Debug, Clone, Copy, PartialEq, Eq, Structural)]
pub enum ReceiveMessage {
    /// Record `price` as observed at `timestamp`.
    Insert { timestamp: i32, price: i32 },
    /// Ask for the mean price over `mintime..=maxtime`.
    Query { mintime: i32, maxtime: i32 },
}

/// Why a frame could not be decoded.
#[derive(Debug, Clone, Copy, PartialEq, Eq, Structural)]
pub enum DecodeError {
    /// The tag byte is neither `I` nor `Q`.
    InvalidMessageType,
}

impl DecodeError {
    /// A short description of the error, for logs and error values.
    pub fn message(&self) -> (text: String)
        ensures
            text@ == "Invalid message type"@,
    {
        match self {
            DecodeError::InvalidMessageType => "Invalid message type".to_owned(),
        }
    }
}

/// The unsigned number that four bytes spell in big-endian order.
pub open spec fn be_u32(b: Seq<u8>) -> int
    recommends
        b.len() == 4,
{
    b[0] * 0x100_0000 + b[1] * 0x1_0000 + b[2] * 0x100 + b[3]
}

/// Two's-complement reading of a 32-bit pattern `u` in `0..2^32`.
pub open spec fn as_signed32(u: int) -> int
    recommends
        0 <= u < 0x1_0000_0000,
{
    if u < 0x8000_0000 {
        u
    } else {
        u - 0x1_0000_0000
    }
}

/// The 32-bit pattern of a signed value, as a number in `0..2^32`.
pub open spec fn as_unsigned32(x: int) -> int
    recommends
        -0x8000_0000 <= x < 0x8000_0000,
{
    if x < 0 {
        x + 0x1_0000_0000
    } else {
        x
    }
}

/// The signed number that four bytes spell in big-endian order.
pub open spec fn be_i32(b: Seq<u8>) -> int
    recommends
        b.len() == 4,
{
    as_signed32(be_u32(b))
}

/// The four bytes that spell `x` in big-endian order.
pub open spec fn be_bytes(x: i32) -> Seq<u8> {
    let u = as_unsigned32(x as int);
    seq![
        (u / 0x100_0000) as u8,
        (u / 0x1_0000 % 0x100) as u8,
        (u / 0x100 % 0x100) as u8,
        (u % 0x100) as u8,
    ]
}

/// What a nine-byte frame means.
pub open spec fn decode(frame: Seq<u8>) -> Result<ReceiveMessage, DecodeError>
    recommends
        frame.len() == 9,
{
    let first = be_i32(frame.subrange(1, 5)) as i32;
    let second = be_i32(frame.subrange(5, 9)) as i32;
    if frame[0] == TAG_INSERT {
        Ok(ReceiveMessage::Insert { timestamp: first, price: second })
    } else if frame[0] == TAG_QUERY {
        Ok(ReceiveMessage::Query { mintime: first, maxtime: second })
    } else {
        Err(DecodeError::InvalidMessageType)
    }
}

/// The frame that carries `message`.
pub open spec fn encode(message: ReceiveMessage) -> Seq<u8> {
    match message {
        ReceiveMessage::Insert { timestamp, price } => seq![TAG_INSERT] + be_bytes(timestamp)
            + be_bytes(price),
        ReceiveMessage::Query { mintime, maxtime } => seq![TAG_QUERY] + be_bytes(mintime)
            + be_bytes(maxtime),
    }
}

/// Reads four bytes, most significant first, as a signed 32-bit integer.
fn read_be_i32(b0: u8, b1: u8, b2: u8, b3: u8) -> (value: i32)
    ensures
        value == be_i32(seq![b0, b1, b2, b3]),
{
    let pattern: u32 = (b0 as u32) * 0x100_0000 + (b1 as u32) * 0x1_0000 + (b2 as u32) * 0x100 + (
    b3 as u32);
    if pattern < 0x8000_0000 {
        pattern as i32
    } else {
        (pattern as i64 - 0x1_0000_0000) as i32
    }
}

/// Writes a signed 32-bit integer as four bytes, most significant first.
fn write_be_i32(value: i32) -> (bytes: [u8; 4])
    ensures
        bytes@ == be_bytes(value),
        be_i32(bytes@) == value,
{
    let pattern: u32 = if value < 0 {
        (value as i64 + 0x1_0000_0000) as u32
    } else {
        value as u32
    };
    assert(pattern == as_unsigned32(value as int));
    let b0: u8 = (pattern / 0x100_0000) as u8;
    let b1: u8 = (pattern / 0x1_0000 % 0x100) as u8;
    let b2: u8 = (pattern / 0x100 % 0x100) as u8;
    let b3: u8 = (pattern % 0x100) as u8;
    let bytes: [u8; 4] = [b0, b1, b2, b3];
    proof {
        assert(bytes@ =~= seq![b0, b1, b2, b3]);
        assert(bytes@ =~= be_bytes(value));
        law_response_round_trip(value);
    }
    bytes
}

/// Decodes one request frame.
///
/// Succeeds exactly when the tag byte is `I` or `Q`; the two integers are
/// then the big-endian readings of bytes 1 to 4 and 5 to 8.
pub fn parse_message(data: &[u8; 9]) -> (result: Result<ReceiveMessage, DecodeError>)
    ensures
        result == decode(data@),
        result is Ok <==> data@[0] == TAG_INSERT || data@[0] == TAG_QUERY,
{
    let message_type = data[0];
    let first_number = read_be_i32(data[1], data[2], data[3], data[4]);
    let second_number = read_be_i32(data[5], data[6], data[7], data[8]);
    assert(data@.subrange(1, 5) =~= seq![data@[1], data@[2], data@[3], data@[4]]);
    assert(data@.subrange(5, 9) =~= seq![data@[5], data@[6], data@[7], data@[8]]);
    if message_type == TAG_INSERT {
        Ok(ReceiveMessage::Insert { timestamp: first_number, price: second_number })
    } else if message_type == TAG_QUERY {
        Ok(ReceiveMessage::Query { mintime: first_number, maxtime: second_number })
    } else {
        Err(DecodeError::InvalidMessageType)
    }
}

/// Encodes the answer to a query: the four bytes whose big-endian signed
/// reading is `mean`.
pub fn encode_response(mean: i32) -> (bytes: [u8; 4])
    ensures
        bytes@ == be_bytes(mean),
        be_i32(bytes@) == mean,
{
    write_be_i32(mean)
}

/// Decodes the answer to a query, as a client does.
pub fn decode_response(bytes: &[u8; 4]) -> (mean: i32)
    ensures
        mean == be_i32(bytes@),
{
    assert(bytes@ =~= seq![bytes@[0], bytes@[1], bytes@[2], bytes@[3]]);
    read_be_i32(bytes[0], bytes[1], bytes[2], bytes[3])
}

/// Builds the frame that carries `message`, as a client does.
pub fn encode_message(message: &ReceiveMessage) -> (frame: [u8; 9])
    ensures
        frame@ == encode(*message),
        decode(frame@) == Ok::<ReceiveMessage, DecodeError>(*message),
{
    let (tag, first, second) = match *message {
        ReceiveMessage::Insert { timestamp, price } => (TAG_INSERT, timestamp, price),
        ReceiveMessage::Query { mintime, maxtime } => (TAG_QUERY, mintime, maxtime),
    };
    let a = write_be_i32(first);
    let b = write_be_i32(second);
    let frame: [u8; 9] = [tag, a[0], a[1], a[2], a[3], b[0], b[1], b[2], b[3]];
    assert(frame@ =~= encode(*message));
    assert(frame@.subrange(1, 5) =~= a@);
    assert(frame@.subrange(5, 9) =~= b@);
    frame
}

/// Round trip of a response: reading back the four bytes written for `x`
/// yields `x`, for every 32-bit `x`.
pub proof fn law_response_round_trip(x: i32)
    ensures
        be_bytes(x).len() == 4,
        be_i32(be_bytes(x)) == x,
{
}

/// Writing the value read from four bytes yields the same four bytes, so no
/// two byte strings spell the same value.
pub proof fn law_bytes_round_trip(b: Seq<u8>)
    requires
        b.len() == 4,
    ensures
        -0x8000_0000 <= be_i32(b) < 0x8000_0000,
        be_bytes(be_i32(b) as i32) =~= b,
{
    let u = be_u32(b);
    lemma_split_joined(b[0] as int, b[1] as int, b[2] as int, b[3] as int);
    assert(as_unsigned32(as_signed32(u)) == u);
}

/// Splitting the number joined from four byte values gives those values back.
proof fn lemma_split_joined(b0: int, b1: int, b2: int, b3: int)
    requires
        0 <= b0 < 0x100,
        0 <= b1 < 0x100,
        0 <= b2 < 0x100,
        0 <= b3 < 0x100,
    ensures
        ({
            let u = b0 * 0x100_0000 + b1 * 0x1_0000 + b2 * 0x100 + b3;
            &&& 0 <= u < 0x1_0000_0000
            &&& u / 0x100_0000 == b0
            &&& u / 0x1_0000 % 0x100 == b1
            &&& u / 0x100 % 0x100 == b2
            &&& u % 0x100 == b3
        }),
{
    let u = b0 * 0x100_0000 + b1 * 0x1_0000 + b2 * 0x100 + b3;
    let hi = b0 * 0x100 + b1;
    let mid = hi * 0x100 + b2;
    assert(u == mid * 0x100 + b3);
    assert(u / 0x100 == mid && u % 0x100 == b3);
    assert(mid % 0x100 == b2 && mid / 0x100 == hi);
    assert(u == hi * 0x1_0000 + (b2 * 0x100 + b3));
    assert(u / 0x1_0000 == hi);
    assert(hi % 0x100 == b1 && hi / 0x100 == b0);
    assert(u == b0 * 0x100_0000 + (b1 * 0x1_0000 + b2 * 0x100 + b3));
    assert(u / 0x100_0000 == b0);
}

/// Every message survives encoding followed by decoding.
pub proof fn law_message_round_trip(message: ReceiveMessage)
    ensures
        encode(message).len() == 9,
        decode(encode(message)) == Ok::<ReceiveMessage, DecodeError>(message),
{
    let frame = encode(message);
    match message {
        ReceiveMessage::Insert { timestamp, price } => {
            law_response_round_trip(timestamp);
            law_response_round_trip(price);
            assert(frame.subrange(1, 5) =~= be_bytes(timestamp));
            assert(frame.subrange(5, 9) =~= be_bytes(price));
        },
        ReceiveMessage::Query { mintime, maxtime } => {
            law_response_round_trip(mintime);
            law_response_round_trip(maxtime);
            assert(frame.subrange(1, 5) =~= be_bytes(mintime));
            assert(frame.subrange(5, 9) =~= be_bytes(maxtime));
        },
    }
}

} // verus!
