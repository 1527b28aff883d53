//! The wire protocol: `[type: 1 byte] [length: 4 bytes, big endian] [payload]`.

use crate::text::push_hex_byte;
use vstd::prelude::*;
use vstd::slice::slice_subrange;
use vstd::slice::slice_to_vec;

verus! {

/// Bytes in front of every payload: the type byte and the length field.
pub const HEADER_LEN: usize = 5;

/// Why a byte string is not a frame.
#[derive(Debug)]
pub enum ProtocolError {
    /// The bytes end before the header or the announced payload does.
    InsufficientData,
    /// The first byte stands for no frame type.
    UnknownFrameType(u8),
}

impl ProtocolError {
    /// The text that describes the error to a person.
    pub open spec fn text(self) -> Seq<char> {
        match self {
            ProtocolError::InsufficientData => "insufficient data"@,
            ProtocolError::UnknownFrameType(t) => "unknown frame type: 0x"@ + crate::text::hex_byte(t),
        }
    }

    pub fn to_string(&self) -> (s: String)
        ensures
            s@ == self.text(),
    {
        match self {
            ProtocolError::InsufficientData => "insufficient data".to_owned(),
            ProtocolError::UnknownFrameType(t) => {
                let mut s = "unknown frame type: 0x".to_owned();
                push_hex_byte(&mut s, *t);
                s
            },
        }
    }
}

#[derive(Debug, Clone, Copy, PartialEq, Eq, Structural)]
pub enum FrameType {
    /// Terminal bytes.
    Data,
    /// A new window size.
    Resize,
    Heartbeat,
    HeartbeatAck,
    /// The peer asks for the session to end.
    Close,
}

impl FrameType {
    /// The byte that stands for each frame type on the wire.
    pub open spec fn spec_code(self) -> u8 {
        match self {
            FrameType::Data => 0x01u8,
            FrameType::Resize => 0x02u8,
            FrameType::Heartbeat => 0x03u8,
            FrameType::HeartbeatAck => 0x04u8,
            FrameType::Close => 0x05u8,
        }
    }

    /// The frame type that a wire byte stands for, if it stands for one.
    pub open spec fn of_code(value: u8) -> Result<FrameType, ProtocolError> {
        if value == 0x01 {
            Ok(FrameType::Data)
        } else if value == 0x02 {
            Ok(FrameType::Resize)
        } else if value == 0x03 {
            Ok(FrameType::Heartbeat)
        } else if value == 0x04 {
            Ok(FrameType::HeartbeatAck)
        } else if value == 0x05 {
            Ok(FrameType::Close)
        } else {
            Err(ProtocolError::UnknownFrameType(value))
        }
    }

    /// The byte that stands for this frame type on the wire.
    #[verifier::when_used_as_spec(spec_code)]
    pub fn code(self) -> (value: u8)
        ensures
            value == self.code(),
    {
        match self {
            FrameType::Data => 0x01,
            FrameType::Resize => 0x02,
            FrameType::Heartbeat => 0x03,
            FrameType::HeartbeatAck => 0x04,
            FrameType::Close => 0x05,
        }
    }
}

impl vstd::std_specs::convert::TryFromSpecImpl<u8> for FrameType {
    open spec fn obeys_try_from_spec() -> bool {
        true
    }

    open spec fn try_from_spec(v: u8) -> Result<Self, ProtocolError> {
        FrameType::of_code(v)
    }
}

impl TryFrom<u8> for FrameType {
    type Error = ProtocolError;

    fn try_from(value: u8) -> (result: Result<Self, ProtocolError>) {
        match value {
            0x01 => Ok(FrameType::Data),
            0x02 => Ok(FrameType::Resize),
            0x03 => Ok(FrameType::Heartbeat),
            0x04 => Ok(FrameType::HeartbeatAck),
            0x05 => Ok(FrameType::Close),
            _ => Err(ProtocolError::UnknownFrameType(value)),
        }
    }
}

/// The two low-order bytes of a number, most significant first.
pub open spec fn be16(n: int) -> Seq<u8> {
    seq![(n / 0x100 % 0x100) as u8, (n % 0x100) as u8]
}

/// The four low-order bytes of a number, most significant first.
pub open spec fn be32(n: int) -> Seq<u8> {
    seq![
        (n / 0x100_0000 % 0x100) as u8,
        (n / 0x1_0000 % 0x100) as u8,
        (n / 0x100 % 0x100) as u8,
        (n % 0x100) as u8,
    ]
}

/// The number that a byte string writes in base 256, most significant byte first.
pub open spec fn be_value(bytes: Seq<u8>) -> int
    decreases bytes.len(),
{
    if bytes.len() == 0 {
        0
    } else {
        be_value(bytes.drop_last()) * 0x100 + bytes.last()
    }
}

proof fn be_value_2(b: Seq<u8>)
    requires
        b.len() == 2,
    ensures
        be_value(b) == b[0] * 0x100 + b[1],
{
    reveal_with_fuel(be_value, 3);
}

proof fn be_value_4(b: Seq<u8>)
    requires
        b.len() == 4,
    ensures
        be_value(b) == b[0] * 0x100_0000 + b[1] * 0x1_0000 + b[2] * 0x100 + b[3],
{
    reveal_with_fuel(be_value, 5);
}

/// What a frame holds: its type and its payload bytes.
#[verifier::ext_equal]
pub struct FrameModel {
    pub frame_type: FrameType,
    pub payload: Seq<u8>,
}

impl FrameModel {
    /// The bytes of the frame on the wire. The length field holds the four low-order bytes
    /// of the payload's length.
    pub open spec fn wire(self) -> Seq<u8> {
        seq![self.frame_type.code()] + be32(self.payload.len() as int) + self.payload
    }

    /// The `(cols, rows)` of a resize frame; the bytes behind the first four count for nothing.
    pub open spec fn window(self) -> Option<(u16, u16)> {
        if self.frame_type == FrameType::Resize && self.payload.len() >= 4 {
            Some(
                (
                    be_value(self.payload.subrange(0, 2)) as u16,
                    be_value(self.payload.subrange(2, 4)) as u16,
                ),
            )
        } else {
            None
        }
    }

    /// The frame that asks for a window of `cols` by `rows`.
    pub open spec fn resize(cols: u16, rows: u16) -> FrameModel {
        FrameModel { frame_type: FrameType::Resize, payload: be16(cols as int) + be16(rows as int) }
    }
}

/// The payload length that a header announces.
pub open spec fn announced_len(data: Seq<u8>) -> int
    recommends
        data.len() >= HEADER_LEN,
{
    be_value(data.subrange(1, HEADER_LEN as int))
}

/// The frame at the front of a byte string. What follows the announced payload is not looked at.
/// A string shorter than a header is incomplete whatever its first byte; the type byte is judged
/// before the length field.
pub open spec fn parsed(data: Seq<u8>) -> Result<FrameModel, ProtocolError> {
    if data.len() < HEADER_LEN {
        Err(ProtocolError::InsufficientData)
    } else {
        match FrameType::of_code(data[0]) {
            Err(e) => Err(e),
            Ok(frame_type) => if data.len() < HEADER_LEN + announced_len(data) {
                Err(ProtocolError::InsufficientData)
            } else {
                Ok(
                    FrameModel {
                        frame_type,
                        payload: data.subrange(
                            HEADER_LEN as int,
                            HEADER_LEN + announced_len(data),
                        ),
                    },
                )
            },
        }
    }
}

/// One message of the protocol.
#[derive(Debug, Clone)]
pub struct Frame {
    pub frame_type: FrameType,
    pub payload: Vec<u8>,
}

impl View for Frame {
    type V = FrameModel;

    open spec fn view(&self) -> FrameModel {
        FrameModel { frame_type: self.frame_type, payload: self.payload@ }
    }
}

impl Frame {
    pub fn new(frame_type: FrameType, payload: Vec<u8>) -> (frame: Self)
        ensures
            frame.frame_type == frame_type,
            frame.payload == payload,
    {
        Frame { frame_type, payload }
    }

    pub fn new_data(data: &[u8]) -> (frame: Self)
        ensures
            frame@ == (FrameModel { frame_type: FrameType::Data, payload: data@ }),
    {
        Frame::new(FrameType::Data, slice_to_vec(data))
    }

    pub fn new_resize(cols: u16, rows: u16) -> (frame: Self)
        ensures
            frame@ == FrameModel::resize(cols, rows),
    {
        let mut payload: Vec<u8> = Vec::with_capacity(4);
        payload.push((cols / 0x100) as u8);
        payload.push((cols % 0x100) as u8);
        payload.push((rows / 0x100) as u8);
        payload.push((rows % 0x100) as u8);
        assert(payload@ =~= be16(cols as int) + be16(rows as int));
        Frame::new(FrameType::Resize, payload)
    }

    pub fn heartbeat() -> (frame: Self)
        ensures
            frame@ == (FrameModel { frame_type: FrameType::Heartbeat, payload: Seq::empty() }),
    {
        Frame::new(FrameType::Heartbeat, Vec::new())
    }

    pub fn heartbeat_ack() -> (frame: Self)
        ensures
            frame@ == (FrameModel { frame_type: FrameType::HeartbeatAck, payload: Seq::empty() }),
    {
        Frame::new(FrameType::HeartbeatAck, Vec::new())
    }

    pub fn close() -> (frame: Self)
        ensures
            frame@ == (FrameModel { frame_type: FrameType::Close, payload: Seq::empty() }),
    {
        Frame::new(FrameType::Close, Vec::new())
    }

    /// The bytes of this frame on the wire.
    pub fn encode(&self) -> (buf: Vec<u8>)
        ensures
            buf@ == self@.wire(),
    {
        let len: u64 = self.payload.len() as u64;
        let mut buf: Vec<u8> = Vec::with_capacity(self.payload.len());
        buf.push(self.frame_type.code());
        buf.push((len / 0x100_0000 % 0x100) as u8);
        buf.push((len / 0x1_0000 % 0x100) as u8);
        buf.push((len / 0x100 % 0x100) as u8);
        buf.push((len % 0x100) as u8);
        buf.extend_from_slice(self.payload.as_slice());
        assert(buf@ =~= self@.wire());
        buf
    }

    /// Reads the frame at the front of `data`.
    pub fn decode(data: &[u8]) -> (result: Result<Self, ProtocolError>)
        ensures
            match result {
                Ok(frame) => parsed(data@) == Ok::<FrameModel, ProtocolError>(frame@),
                Err(e) => parsed(data@) == Err::<FrameModel, ProtocolError>(e),
            },
    {
        if data.len() < HEADER_LEN {
            return Err(ProtocolError::InsufficientData);
        }
        let frame_type = match FrameType::try_from(data[0]) {
            Ok(frame_type) => frame_type,
            Err(e) => return Err(e),
        };
        let len: u32 = data[1] as u32 * 0x100_0000 + data[2] as u32 * 0x1_0000 + data[3] as u32
            * 0x100 + data[4] as u32;
        proof {
            be_value_4(data@.subrange(1, HEADER_LEN as int));
            assert(len == announced_len(data@));
        }
        let len: usize = len as usize;
        if data.len() - HEADER_LEN < len {
            return Err(ProtocolError::InsufficientData);
        }
        Ok(Frame {
            frame_type,
            payload: slice_to_vec(slice_subrange(data, HEADER_LEN, HEADER_LEN + len)),
        })
    }

    /// The `(cols, rows)` of a resize frame.
    pub fn parse_resize(&self) -> (window: Option<(u16, u16)>)
        ensures
            window == self@.window(),
    {
        if self.frame_type != FrameType::Resize || self.payload.len() < 4 {
            return None;
        }
        let cols: u16 = self.payload[0] as u16 * 0x100 + self.payload[1] as u16;
        let rows: u16 = self.payload[2] as u16 * 0x100 + self.payload[3] as u16;
        proof {
            be_value_2(self.payload@.subrange(0, 2));
            be_value_2(self.payload@.subrange(2, 4));
        }
        Some((cols, rows))
    }
}

/// A wire byte and a frame type name each other: every type is read back from its byte, and a
/// byte is a type's or is refused by name.
pub proof fn frame_type_codes(frame_type: FrameType, value: u8)
    ensures
        FrameType::of_code(frame_type.code()) == Ok::<FrameType, ProtocolError>(frame_type),
        match FrameType::of_code(value) {
            Ok(t) => t.code() == value,
            Err(e) => e == ProtocolError::UnknownFrameType(value),
        },
        FrameType::of_code(value) is Ok <==> 1 <= value <= 5,
{
}

proof fn be32_value(n: int)
    requires
        0 <= n <= u32::MAX,
    ensures
        be_value(be32(n)) == n,
{
    be_value_4(be32(n));
}

#[verifier::spinoff_prover]
proof fn be32_of_value(b: Seq<u8>)
    requires
        b.len() == 4,
    ensures
        0 <= be_value(b) <= u32::MAX,
        be32(be_value(b)) == b,
{
    be_value_4(b);
    let n = be_value(b);
    let high = b[0] * 0x1_0000 + b[1] * 0x100 + b[2];
    assert(n == high * 0x100 + b[3]);
    assert(n / 0x100 == high && n % 0x100 == b[3]);
    let higher = b[0] * 0x100 + b[1];
    assert(high / 0x100 == higher && high % 0x100 == b[2]);
    assert(higher / 0x100 == b[0] && higher % 0x100 == b[1]);
    assert(n / 0x1_0000 == n / 0x100 / 0x100);
    assert(n / 0x100_0000 == n / 0x100 / 0x100 / 0x100);
    assert(be32(n) =~= b);
}

/// What is encoded is decoded again, whatever bytes follow it, as long as the payload's length
/// fits the length field.
pub proof fn frame_round_trip(frame: FrameModel, rest: Seq<u8>)
    requires
        frame.payload.len() <= u32::MAX,
    ensures
        parsed(frame.wire() + rest) == Ok::<FrameModel, ProtocolError>(frame),
        parsed(frame.wire()) == Ok::<FrameModel, ProtocolError>(frame),
{
    let n = frame.payload.len() as int;
    be32_value(n);
    frame_type_codes(frame.frame_type, 0);
    let data = frame.wire() + rest;
    assert(data.subrange(1, 5) =~= be32(n));
    assert(data.subrange(5, 5 + n) =~= frame.payload);
    assert(frame.wire().subrange(1, 5) =~= be32(n));
    assert(frame.wire().subrange(5, 5 + n) =~= frame.payload);
}

/// A frame that has not arrived in full is reported as incomplete, at every cut.
pub proof fn truncated_frame_is_incomplete(frame: FrameModel, cut: int)
    requires
        frame.payload.len() <= u32::MAX,
        0 <= cut < frame.wire().len(),
    ensures
        parsed(frame.wire().subrange(0, cut)) == Err::<FrameModel, ProtocolError>(
            ProtocolError::InsufficientData,
        ),
{
    let n = frame.payload.len() as int;
    be32_value(n);
    frame_type_codes(frame.frame_type, 0);
    let data = frame.wire().subrange(0, cut);
    if cut >= 5 {
        assert(data.subrange(1, 5) =~= be32(n));
    }
}

/// Decoding accepts one spelling of each frame only: the bytes that were read are the bytes that
/// encoding the result writes, and what was read fits the length field.
pub proof fn decoded_bytes_are_canonical(data: Seq<u8>, frame: FrameModel)
    requires
        parsed(data) == Ok::<FrameModel, ProtocolError>(frame),
    ensures
        frame.payload.len() <= u32::MAX,
        frame.wire().len() <= data.len(),
        data.subrange(0, frame.wire().len() as int) == frame.wire(),
{
    frame_type_codes(frame.frame_type, data[0]);
    be32_of_value(data.subrange(1, 5));
    assert(frame.payload.len() == announced_len(data));
    assert(data.subrange(0, frame.wire().len() as int) =~= frame.wire());
}

/// No frame's bytes start with another frame's bytes, so a stream of frames splits in one way.
pub proof fn wire_is_prefix_free(a: FrameModel, b: FrameModel)
    requires
        a.payload.len() <= u32::MAX,
        b.payload.len() <= u32::MAX,
        a.wire().is_prefix_of(b.wire()),
    ensures
        a == b,
{
    let rest = b.wire().subrange(a.wire().len() as int, b.wire().len() as int);
    assert(b.wire() =~= a.wire() + rest);
    frame_round_trip(a, rest);
    frame_round_trip(b, Seq::empty());
}

/// The window size that goes into a resize frame comes out of it, before and after the wire.
pub proof fn resize_round_trip(cols: u16, rows: u16)
    ensures
        FrameModel::resize(cols, rows).window() == Some((cols, rows)),
        parsed(FrameModel::resize(cols, rows).wire()) == Ok::<FrameModel, ProtocolError>(
            FrameModel::resize(cols, rows),
        ),
{
    let p = FrameModel::resize(cols, rows).payload;
    be_value_2(p.subrange(0, 2));
    be_value_2(p.subrange(2, 4));
    frame_round_trip(FrameModel::resize(cols, rows), Seq::empty());
}

/// The five types have the bytes one to five, each its own, and no other byte is read as a type.
pub proof fn type_bytes(
    frame_type: FrameType,
    code: u8,
    byte: u8,
    read: Result<FrameType, ProtocolError>,
)
    requires
        call_ensures(FrameType::code, (frame_type,), code),
        call_ensures(<FrameType as TryFrom<u8>>::try_from, (byte,), read),
    ensures
        frame_type is Data <==> code == 1,
        frame_type is Resize <==> code == 2,
        frame_type is Heartbeat <==> code == 3,
        frame_type is HeartbeatAck <==> code == 4,
        frame_type is Close <==> code == 5,
        1 <= byte <= 5 ==> (read matches Ok(t) && (t is Data <==> byte == 1) && (t is Resize <==> byte
            == 2) && (t is Heartbeat <==> byte == 3) && (t is HeartbeatAck <==> byte == 4) && (
        t is Close <==> byte == 5)),
        !(1 <= byte <= 5) ==> (read matches Err(e) && (e matches ProtocolError::UnknownFrameType(b)
            && b == byte)),
{
}

/// A frame's bytes stand on the wire one by one in their order: the type's byte, four bytes that
/// write the payload's length in base 256, and the payload.
pub proof fn wire_is_in_order(frame: FrameModel)
    ensures
        frame.wire().len() == 5 + frame.payload.len(),
        frame.frame_type is Data <==> frame.wire()[0] == 1,
        frame.frame_type is Resize <==> frame.wire()[0] == 2,
        frame.frame_type is Heartbeat <==> frame.wire()[0] == 3,
        frame.frame_type is HeartbeatAck <==> frame.wire()[0] == 4,
        frame.frame_type is Close <==> frame.wire()[0] == 5,
        frame.wire()[1] * 0x100_0000 + frame.wire()[2] * 0x1_0000 + frame.wire()[3] * 0x100
            + frame.wire()[4] == frame.payload.len() as int % 0x1_0000_0000,
        forall|i: int|
            0 <= i < frame.payload.len() ==> frame.wire()[5 + i] == #[trigger] frame.payload[i],
{
    base_256(frame.payload.len() as int);
}

/// The four low-order digits of a number in base 256.
#[verifier::spinoff_prover]
proof fn base_256(n: int)
    requires
        0 <= n,
    ensures
        (n / 0x100_0000 % 0x100) * 0x100_0000 + (n / 0x1_0000 % 0x100) * 0x1_0000 + (n / 0x100
            % 0x100) * 0x100 + n % 0x100 == n % 0x1_0000_0000,
{
    let a = n / 0x100;
    let b = a / 0x100;
    let c = b / 0x100;
    let d = c / 0x100;
    assert(n / 0x1_0000 == b);
    assert(n / 0x100_0000 == c);
    assert(n / 0x1_0000_0000 == d);
    assert(n == a * 0x100 + n % 0x100);
    assert(a == b * 0x100 + a % 0x100);
    assert(b == c * 0x100 + b % 0x100);
    assert(c == d * 0x100 + c % 0x100);
    assert(n == d * 0x1_0000_0000 + n % 0x1_0000_0000);
}

/// What `encode` writes for a frame: each of its bytes at its place.
pub proof fn encoded_in_order(frame: &Frame, buf: Vec<u8>)
    requires
        call_ensures(Frame::encode, (frame,), buf),
    ensures
        buf@.len() == 5 + frame.payload@.len(),
        frame.frame_type is Data <==> buf@[0] == 1,
        frame.frame_type is Resize <==> buf@[0] == 2,
        frame.frame_type is Heartbeat <==> buf@[0] == 3,
        frame.frame_type is HeartbeatAck <==> buf@[0] == 4,
        frame.frame_type is Close <==> buf@[0] == 5,
        buf@[1] * 0x100_0000 + buf@[2] * 0x1_0000 + buf@[3] * 0x100 + buf@[4]
            == frame.payload@.len() as int % 0x1_0000_0000,
        forall|i: int|
            0 <= i < frame.payload@.len() ==> buf@[5 + i] == #[trigger] frame.payload@[i],
{
    wire_is_in_order(frame@);
}

/// Parsing reads the bytes in their order: it fails for want of bytes or by the first byte, and
/// otherwise the payload is as long as the four length bytes say and stands behind them.
pub proof fn parsed_in_order(data: Seq<u8>)
    ensures
        data.len() < 5 ==> (parsed(data) matches Err(e) && e is InsufficientData),
        data.len() >= 5 && !(1 <= data[0] <= 5) ==> (parsed(data) matches Err(e) && (
        e matches ProtocolError::UnknownFrameType(b) && b == data[0])),
        data.len() >= 5 && 1 <= data[0] <= 5 ==> {
            let n = data[1] * 0x100_0000 + data[2] * 0x1_0000 + data[3] * 0x100 + data[4];
            &&& data.len() < 5 + n ==> (parsed(data) matches Err(e) && e is InsufficientData)
            &&& data.len() >= 5 + n ==> {
                &&& parsed(data) matches Ok(frame)
                &&& frame.frame_type is Data <==> data[0] == 1
                &&& frame.frame_type is Resize <==> data[0] == 2
                &&& frame.frame_type is Heartbeat <==> data[0] == 3
                &&& frame.frame_type is HeartbeatAck <==> data[0] == 4
                &&& frame.frame_type is Close <==> data[0] == 5
                &&& frame.payload.len() == n
                &&& forall|i: int| 0 <= i < n ==> #[trigger] frame.payload[i] == data[5 + i]
            }
        },
{
    if data.len() >= 5 {
        be_value_4(data.subrange(1, 5));
    }
}

/// What `decode` reads from bytes: each byte of the frame from its place.
pub proof fn decoded_in_order(data: &[u8], result: Result<Frame, ProtocolError>)
    requires
        call_ensures(Frame::decode, (data,), result),
    ensures
        data@.len() < 5 ==> (result matches Err(e) && e is InsufficientData),
        data@.len() >= 5 && !(1 <= data@[0] <= 5) ==> (result matches Err(e) && (
        e matches ProtocolError::UnknownFrameType(b) && b == data@[0])),
        data@.len() >= 5 && 1 <= data@[0] <= 5 ==> {
            let n = data@[1] * 0x100_0000 + data@[2] * 0x1_0000 + data@[3] * 0x100 + data@[4];
            &&& data@.len() < 5 + n ==> (result matches Err(e) && e is InsufficientData)
            &&& data@.len() >= 5 + n ==> {
                &&& result matches Ok(frame)
                &&& frame.frame_type is Data <==> data@[0] == 1
                &&& frame.frame_type is Resize <==> data@[0] == 2
                &&& frame.frame_type is Heartbeat <==> data@[0] == 3
                &&& frame.frame_type is HeartbeatAck <==> data@[0] == 4
                &&& frame.frame_type is Close <==> data@[0] == 5
                &&& frame.payload@.len() == n
                &&& forall|i: int| 0 <= i < n ==> #[trigger] frame.payload@[i] == data@[5 + i]
            }
        },
{
    parsed_in_order(data@);
}

/// A frame is built with the type and the payload that it was asked for with, and its model says
/// what its fields hold.
pub proof fn built_frame(frame_type: FrameType, payload: Vec<u8>, frame: Frame)
    requires
        call_ensures(Frame::new, (frame_type, payload), frame),
    ensures
        frame.frame_type == frame_type,
        frame.payload@ == payload@,
        frame@.frame_type == frame_type,
        frame@.payload == payload@,
{
}

/// The frames that the library builds by itself: data frames hold the data as it is, and the
/// frames without content are empty.
pub proof fn ready_made_frames(
    data: &[u8],
    of_data: Frame,
    heartbeat: Frame,
    ack: Frame,
    close: Frame,
)
    requires
        call_ensures(Frame::new_data, (data,), of_data),
        call_ensures(Frame::heartbeat, (), heartbeat),
        call_ensures(Frame::heartbeat_ack, (), ack),
        call_ensures(Frame::close, (), close),
    ensures
        of_data.frame_type is Data && of_data.payload@ == data@,
        heartbeat.frame_type is Heartbeat && heartbeat.payload@.len() == 0,
        ack.frame_type is HeartbeatAck && ack.payload@.len() == 0,
        close.frame_type is Close && close.payload@.len() == 0,
{
}

/// A resize frame holds the columns and then the rows, each in two bytes, the high one first.
pub proof fn resize_payload(cols: u16, rows: u16, frame: Frame)
    requires
        call_ensures(Frame::new_resize, (cols, rows), frame),
    ensures
        frame.frame_type is Resize,
        frame.payload@.len() == 4,
        frame.payload@[0] * 0x100 + frame.payload@[1] == cols,
        frame.payload@[2] * 0x100 + frame.payload@[3] == rows,
{
}

/// A window size is read from every resize frame with four bytes or more, from the first four, and
/// from no other frame.
pub proof fn resize_window(frame: &Frame, window: Option<(u16, u16)>)
    requires
        call_ensures(Frame::parse_resize, (frame,), window),
    ensures
        window is Some <==> frame.frame_type is Resize && frame.payload@.len() >= 4,
        window matches Some((cols, rows)) ==> {
            &&& cols == frame.payload@[0] * 0x100 + frame.payload@[1]
            &&& rows == frame.payload@[2] * 0x100 + frame.payload@[3]
        },
{
    if frame.payload@.len() >= 4 {
        be_value_2(frame.payload@.subrange(0, 2));
        be_value_2(frame.payload@.subrange(2, 4));
    }
}

/// What each error says; an unknown type is named by the two hexadecimal digits of its byte.
pub proof fn error_texts(error: &ProtocolError, text: String)
    requires
        call_ensures(ProtocolError::to_string, (error,), text),
    ensures
        error is InsufficientData ==> text@ == "insufficient data"@,
        error matches ProtocolError::UnknownFrameType(b) ==> text@ == "unknown frame type: 0x"@
            + seq!["0123456789abcdef"@[b as int / 16], "0123456789abcdef"@[b as int % 16]],
{
    if let ProtocolError::UnknownFrameType(b) = *error {
        crate::text::hex_digits(b as int / 16);
        crate::text::hex_digits(b as int % 16);
    }
}

/// The window of a frame is in the first four bytes of its payload, where it is a resize frame
/// that has them.
pub proof fn window_bytes(frame: FrameModel)
    ensures
        frame.window() is Some <==> frame.frame_type is Resize && frame.payload.len() >= 4,
        frame.window() matches Some((cols, rows)) ==> {
            &&& cols == frame.payload[0] * 0x100 + frame.payload[1]
            &&& rows == frame.payload[2] * 0x100 + frame.payload[3]
        },
{
    if frame.payload.len() >= 4 {
        be_value_2(frame.payload.subrange(0, 2));
        be_value_2(frame.payload.subrange(2, 4));
    }
}

} // verus!
