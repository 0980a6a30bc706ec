//! The wire format: one frame per message.
//!
//! ```text
//! offset  size     field
//!  0      8        request id
//!  8      1        status (0 marks a request)
//!  9      1        operation
//! 10      8        length of the payload bytes
//! 18      4        length of the key
//! 22      key      key bytes
//! 22+key  4        payload tag     (only with payload bytes)
//! 26+key  payload  payload bytes   (only with payload bytes)
//! ```
//!
//! All numbers are big-endian. [`frame_bytes`] says what the frame of a
//! message is, [`frame_complete`] and [`decode_message`] say what a buffer
//! decodes to, and the laws at the end relate the two.
use vstd::prelude::*;
use vstd::slice::{slice_subrange, slice_to_vec};
use bytes::BytesMut;
use crate::bigendian::{
    be_u32, be_u64, get_u32, get_u64, lemma_be_u32_of_be, lemma_be_u64_of_be, lemma_u32_of_be_u32,
    lemma_u64_of_be_u64, put_u32, put_u64, u32_of_be, u64_of_be,
};
use crate::buffer::{buffered, contents, extend, split_to};
use crate::error::{Error, ErrorKind};
use crate::message::{payload, Code, Message, MessageView, Op, PayloadView};

verus! {

/// The length of what stands in front of the key.
pub const HEADER_LEN: usize = 22;

/// The bytes of the key: none for a response.
pub open spec fn key_bytes(m: MessageView) -> Seq<u8> {
    match m.key() {
        Some(key) => key,
        None => Seq::empty(),
    }
}

/// The bytes of the payload: none without a payload.
pub open spec fn payload_bytes(m: MessageView) -> Seq<u8> {
    match m.payload() {
        Some(p) => p.data,
        None => Seq::empty(),
    }
}

/// The tag and the bytes of the payload as they stand at the end of the
/// frame: nothing at all when there are no payload bytes.
pub open spec fn payload_field(m: MessageView) -> Seq<u8> {
    match m.payload() {
        Some(p) => if p.data.len() > 0 {
            be_u32(p.type_id) + p.data
        } else {
            Seq::empty()
        },
        None => Seq::empty(),
    }
}

/// The frame of a message sent under `request_id`. The length of the key
/// is written in 32 bits, so of a longer key only the low 32 bits of its
/// length are written.
pub open spec fn frame_bytes(request_id: u64, m: MessageView) -> Seq<u8> {
    be_u64(request_id) + seq![m.code().spec_byte(), m.op().spec_byte()] + be_u64(
        payload_bytes(m).len() as u64,
    ) + be_u32((key_bytes(m).len() % 0x1_0000_0000) as u32) + key_bytes(m) + payload_field(m)
}

/// A message that its frame gives back: the key's length fits in 32 bits,
/// the payload's in 64, a payload that is there has bytes, and a response
/// has another status than `Req`.
pub open spec fn valid_message(m: MessageView) -> bool {
    &&& key_bytes(m).len() <= u32::MAX
    &&& payload_bytes(m).len() <= u64::MAX
    &&& m.payload() is Some ==> payload_bytes(m).len() > 0
    &&& m is Response ==> m.code() != Code::Req
}

/// The length of the payload bytes that the header announces.
pub open spec fn header_payload_len(bytes: Seq<u8>) -> nat
    recommends
        bytes.len() >= HEADER_LEN,
{
    u64_of_be(bytes.subrange(10, 18)) as nat
}

/// The length of the key that the header announces.
pub open spec fn header_key_len(bytes: Seq<u8>) -> nat
    recommends
        bytes.len() >= HEADER_LEN,
{
    u32_of_be(bytes.subrange(18, 22)) as nat
}

/// The length of the frame that the header announces.
pub open spec fn frame_len(bytes: Seq<u8>) -> nat
    recommends
        bytes.len() >= HEADER_LEN,
{
    HEADER_LEN as nat + header_key_len(bytes) + if header_payload_len(bytes) > 0 {
        4 + header_payload_len(bytes)
    } else {
        0
    }
}

/// The buffer holds a whole frame at its front: the header, and as many
/// bytes as the header announces.
pub open spec fn frame_complete(bytes: Seq<u8>) -> bool {
    bytes.len() >= HEADER_LEN && bytes.len() >= frame_len(bytes)
}

/// The request id of the frame at the front of the buffer.
pub open spec fn frame_request_id(bytes: Seq<u8>) -> u64
    recommends
        frame_complete(bytes),
{
    u64_of_be(bytes.subrange(0, 8))
}

/// The payload of the frame at the front of the buffer.
pub open spec fn frame_payload(bytes: Seq<u8>) -> Option<PayloadView>
    recommends
        frame_complete(bytes),
{
    let at = HEADER_LEN as int + header_key_len(bytes);
    if header_payload_len(bytes) > 0 {
        Some(
            PayloadView {
                type_id: u32_of_be(bytes.subrange(at, at + 4)),
                data: bytes.subrange(at + 4, at + 4 + header_payload_len(bytes)),
            },
        )
    } else {
        None
    }
}

/// The key of the frame at the front of the buffer.
pub open spec fn frame_key(bytes: Seq<u8>) -> Seq<u8>
    recommends
        frame_complete(bytes),
{
    bytes.subrange(HEADER_LEN as int, HEADER_LEN as int + header_key_len(bytes))
}

/// What the frame at the front of the buffer decodes to. The operation is
/// looked at first, then the status: a status of 0 makes a request, any
/// other known status a response, which has no key.
pub open spec fn decode_message(bytes: Seq<u8>) -> Result<MessageView, ErrorKind>
    recommends
        frame_complete(bytes),
{
    match Op::of_byte(bytes[9]) {
        None => Err(ErrorKind::UnknownOp),
        Some(op) => if bytes[8] == 0 {
            Ok(MessageView::Request(op, frame_key(bytes), frame_payload(bytes)))
        } else {
            match Code::of_byte(bytes[8]) {
                None => Err(ErrorKind::InvalidData),
                Some(code) => Ok(MessageView::Response(op, code, frame_payload(bytes))),
            }
        },
    }
}

/// The description that goes with each kind of error that decoding gives.
pub open spec fn refusal(kind: ErrorKind) -> Seq<char> {
    match kind {
        ErrorKind::UnknownOp => "got an unknown op code"@,
        _ => "unknown code"@,
    }
}

/// Builds the frame of a message.
pub fn encode_frame(request_id: u64, msg: &Message) -> (frame: Vec<u8>)
    ensures
        frame@ == frame_bytes(request_id, msg@),
{
    let mut frame: Vec<u8> = Vec::new();
    put_u64(&mut frame, request_id);
    frame.push(msg.code().byte());
    frame.push(msg.op().byte());
    let payload = msg.payload();
    let key = msg.key();
    let payload_len: usize = match payload {
        Some(p) => p.data().len(),
        None => 0,
    };
    let key_len: usize = match key {
        Some(k) => k.len(),
        None => 0,
    };
    put_u64(&mut frame, payload_len as u64);
    put_u32(&mut frame, (key_len as u64 % 0x1_0000_0000) as u32);
    match key {
        Some(k) => {
            append(&mut frame, k);
        },
        None => {},
    }
    assert(frame@ =~= be_u64(request_id) + seq![msg@.code().spec_byte(), msg@.op().spec_byte()]
        + be_u64(payload_bytes(msg@).len() as u64) + be_u32(
        (key_bytes(msg@).len() % 0x1_0000_0000) as u32,
    ) + key_bytes(msg@));
    match payload {
        Some(p) => {
            if payload_len > 0 {
                put_u32(&mut frame, p.type_id());
                append(&mut frame, p.data());
            }
        },
        None => {},
    }
    assert(frame@ =~= frame_bytes(request_id, msg@));
    frame
}

/// Appends a slice to a vector.
fn append(out: &mut Vec<u8>, bytes: &[u8])
    ensures
        final(out)@ == old(out)@ + bytes@,
{
    out.extend_from_slice(bytes);
    assert(out@ =~= old(out)@ + bytes@);
}

/// Whether the buffer holds a whole frame at its front, and how long that
/// frame is.
pub fn complete_frame_len(bytes: &[u8]) -> (len: Option<usize>)
    ensures
        match len {
            Some(len) => frame_complete(bytes@) && len == frame_len(bytes@),
            None => !frame_complete(bytes@),
        },
{
    if bytes.len() < HEADER_LEN {
        return None;
    }
    let payload_len = get_u64(bytes, 10);
    let key_len = get_u32(bytes, 18);
    let tail: u128 = if payload_len > 0 {
        payload_len as u128 + 4
    } else {
        0
    };
    let total: u128 = HEADER_LEN as u128 + key_len as u128 + tail;
    if (bytes.len() as u128) < total {
        None
    } else {
        Some(total as usize)
    }
}

/// Decodes a buffer that holds exactly one frame.
fn decode_frame(frame: &[u8]) -> (r: Result<(u64, Message), Error>)
    requires
        frame_complete(frame@),
        frame@.len() == frame_len(frame@),
    ensures
        match r {
            Ok((request_id, msg)) => request_id == frame_request_id(frame@) && decode_message(
                frame@,
            ) == Ok::<MessageView, ErrorKind>(msg@),
            Err(e) => decode_message(frame@) == Err::<MessageView, ErrorKind>(e.spec_kind())
                && e.spec_description() == refusal(e.spec_kind()),
        },
{
    let request_id = get_u64(frame, 0);
    let code = frame[8];
    let op = frame[9];
    let payload_len = get_u64(frame, 10);
    let key_len = get_u32(frame, 18) as usize;
    let key_end: usize = HEADER_LEN + key_len;
    let key = slice_to_vec(slice_subrange(frame, HEADER_LEN, key_end));
    let payload = if payload_len > 0 {
        let type_id = get_u32(frame, key_end);
        let data = slice_to_vec(slice_subrange(frame, key_end + 4, frame.len()));
        Some(payload(type_id, data))
    } else {
        None
    };
    let op = match Op::try_from(op) {
        Ok(op) => op,
        Err(e) => {
            return Err(e);
        },
    };
    if code == 0 {
        Ok((request_id, Message::Request(op, key, payload)))
    } else {
        match Code::try_from(code) {
            Ok(code) => Ok((request_id, Message::Response(op, code, payload))),
            Err(e) => Err(e),
        }
    }
}

/// The codec: it turns messages into frames at the end of a buffer, and the
/// frames at the front of a buffer into messages. It keeps no state.
pub struct CacheCodec;

impl CacheCodec {
    /// Appends the frame of `msg.1`, sent under the request id `msg.0`, to
    /// the buffer. Room for the whole frame is reserved before any of it is
    /// written. A frame that would make the buffer longer than any
    /// allocation can be is refused, and the buffer is left as it was.
    pub fn encode(&mut self, msg: (u64, Message), buf: &mut BytesMut) -> (r: Result<(), Error>)
        ensures
            match r {
                Ok(()) => {
                    &&& buffered(*old(buf)).len() + frame_bytes(msg.0, msg.1@).len() <= isize::MAX
                    &&& buffered(*final(buf)) == buffered(*old(buf)) + frame_bytes(msg.0, msg.1@)
                },
                Err(e) => {
                    &&& buffered(*old(buf)).len() + frame_bytes(msg.0, msg.1@).len() > isize::MAX
                    &&& buffered(*final(buf)) == buffered(*old(buf))
                    &&& e.spec_kind() == ErrorKind::Other
                    &&& e.spec_description() == "frame too large for the buffer"@
                },
            },
    {
        let (request_id, msg) = msg;
        let frame = encode_frame(request_id, &msg);
        let held = contents(buf).len();
        let limit: usize = isize::MAX as usize;
        if held > limit || frame.len() > limit - held {
            return Err(Error::new(ErrorKind::Other, "frame too large for the buffer"));
        }
        extend(buf, frame.as_slice());
        Ok(())
    }

    /// Takes the frame at the front of the buffer, if a whole one is there,
    /// and decodes it.
    ///
    /// Without a whole frame the answer is `Ok(None)` and the buffer is left
    /// as it was: more input is needed. With one, exactly its bytes leave
    /// the buffer, and the answer is the request id and the message, or the
    /// error that [`decode_message`] names.
    pub fn decode(&mut self, buf: &mut BytesMut) -> (r: Result<Option<(u64, Message)>, Error>)
        ensures
            !frame_complete(buffered(*old(buf))) ==> {
                &&& r matches Ok(None)
                &&& buffered(*final(buf)) == buffered(*old(buf))
            },
            frame_complete(buffered(*old(buf))) ==> {
                &&& buffered(*final(buf)) == buffered(*old(buf)).skip(
                    frame_len(buffered(*old(buf))) as int,
                )
                &&& match decode_message(buffered(*old(buf))) {
                    Ok(m) => {
                        &&& r matches Ok(Some((request_id, msg)))
                        &&& request_id == frame_request_id(buffered(*old(buf)))
                        &&& msg@ == m
                    },
                    Err(kind) => {
                        &&& r matches Err(e)
                        &&& e.spec_kind() == kind
                        &&& e.spec_description() == refusal(kind)
                    },
                }
            },
    {
        let len = complete_frame_len(contents(buf));
        match len {
            None => Ok(None),
            Some(len) => {
                proof {
                    lemma_frame_alone(buffered(*buf));
                }
                let head = split_to(buf, len);
                match decode_frame(contents(&head)) {
                    Ok(decoded) => Ok(Some(decoded)),
                    Err(e) => Err(e),
                }
            },
        }
    }
}

/// The length of a frame: the header, the key, and with payload bytes four
/// more for the tag and the bytes themselves.
pub proof fn lemma_frame_length(request_id: u64, m: MessageView)
    ensures
        frame_bytes(request_id, m).len() == HEADER_LEN + key_bytes(m).len() + if payload_bytes(
            m,
        ).len() > 0 {
            4 + payload_bytes(m).len()
        } else {
            0
        },
{
}

/// A frame decodes alike at the front of a buffer and on its own.
pub proof fn lemma_frame_alone(bytes: Seq<u8>)
    requires
        frame_complete(bytes),
    ensures
        frame_complete(bytes.take(frame_len(bytes) as int)),
        frame_len(bytes.take(frame_len(bytes) as int)) == frame_len(bytes),
        frame_request_id(bytes.take(frame_len(bytes) as int)) == frame_request_id(bytes),
        decode_message(bytes.take(frame_len(bytes) as int)) == decode_message(bytes),
{
    let frame = bytes.take(frame_len(bytes) as int);
    let key_len = header_key_len(bytes) as int;
    let payload_len = header_payload_len(bytes) as int;
    assert(frame.subrange(10, 18) =~= bytes.subrange(10, 18));
    assert(frame.subrange(18, 22) =~= bytes.subrange(18, 22));
    assert(frame.subrange(0, 8) =~= bytes.subrange(0, 8));
    assert(frame.subrange(22, 22 + key_len) =~= bytes.subrange(22, 22 + key_len));
    if payload_len > 0 {
        assert(frame.subrange(22 + key_len, 26 + key_len) =~= bytes.subrange(
            22 + key_len,
            26 + key_len,
        ));
        assert(frame.subrange(26 + key_len, 26 + key_len + payload_len) =~= bytes.subrange(
            26 + key_len,
            26 + key_len + payload_len,
        ));
    }
}

/// Round trip, message first: the frame of a valid message, with whatever
/// follows it in the buffer, is a whole frame of exactly the frame's length,
/// and it decodes to the same request id and the same message.
pub proof fn lemma_decode_encode(request_id: u64, m: MessageView, rest: Seq<u8>)
    requires
        valid_message(m),
    ensures
        frame_complete(frame_bytes(request_id, m) + rest),
        frame_len(frame_bytes(request_id, m) + rest) == frame_bytes(request_id, m).len(),
        frame_request_id(frame_bytes(request_id, m) + rest) == request_id,
        decode_message(frame_bytes(request_id, m) + rest) == Ok::<MessageView, ErrorKind>(m),
        (frame_bytes(request_id, m) + rest).skip(frame_bytes(request_id, m).len() as int) == rest,
{
    let frame = frame_bytes(request_id, m);
    let bytes = frame + rest;
    let key = key_bytes(m);
    let data = payload_bytes(m);
    let key_len = key.len() as int;
    let data_len = data.len() as int;
    lemma_u64_of_be_u64(request_id);
    lemma_u64_of_be_u64(data_len as u64);
    lemma_u32_of_be_u32(key_len as u32);
    assert(bytes.subrange(0, 8) =~= be_u64(request_id));
    assert(bytes.subrange(10, 18) =~= be_u64(data_len as u64));
    assert(bytes.subrange(18, 22) =~= be_u32(key_len as u32));
    assert(bytes.subrange(22, 22 + key_len) =~= key);
    assert(bytes[8] == m.code().spec_byte());
    assert(bytes[9] == m.op().spec_byte());
    assert(Op::of_byte(m.op().spec_byte()) == Some(m.op()));
    assert(Code::of_byte(m.code().spec_byte()) == Some(m.code()));
    if data_len > 0 {
        let p = m.payload()->0;
        lemma_u32_of_be_u32(p.type_id);
        assert(bytes.subrange(22 + key_len, 26 + key_len) =~= be_u32(p.type_id));
        assert(bytes.subrange(26 + key_len, 26 + key_len + data_len) =~= data);
    }
    assert(bytes.skip(frame.len() as int) =~= rest);
}

/// More input is needed for every proper prefix of the frame of a valid
/// message: none of them is a whole frame.
pub proof fn lemma_prefix_incomplete(request_id: u64, m: MessageView, n: int)
    requires
        valid_message(m),
        0 <= n < frame_bytes(request_id, m).len(),
    ensures
        !frame_complete(frame_bytes(request_id, m).take(n)),
{
    let frame = frame_bytes(request_id, m);
    let prefix = frame.take(n);
    lemma_decode_encode(request_id, m, Seq::empty());
    assert(frame + Seq::<u8>::empty() =~= frame);
    if n >= HEADER_LEN {
        assert(prefix.subrange(10, 18) =~= frame.subrange(10, 18));
        assert(prefix.subrange(18, 22) =~= frame.subrange(18, 22));
    }
}

/// Round trip, frame first: where the frame at the front of a buffer decodes
/// to a message, the frame of that message under the same request id is
/// that frame, byte for byte. A response frame has to announce an empty key
/// for this, since a response keeps none.
pub proof fn lemma_encode_decode(bytes: Seq<u8>, m: MessageView)
    requires
        frame_complete(bytes),
        decode_message(bytes) == Ok::<MessageView, ErrorKind>(m),
        m is Response ==> header_key_len(bytes) == 0,
    ensures
        valid_message(m),
        frame_bytes(frame_request_id(bytes), m) == bytes.take(frame_len(bytes) as int),
{
    let frame = bytes.take(frame_len(bytes) as int);
    let key_len = header_key_len(bytes) as int;
    let payload_len = header_payload_len(bytes) as int;
    lemma_be_u64_of_be(bytes.subrange(0, 8));
    lemma_be_u64_of_be(bytes.subrange(10, 18));
    lemma_be_u32_of_be(bytes.subrange(18, 22));
    assert(key_bytes(m).len() == key_len);
    assert(payload_bytes(m).len() == payload_len);
    if payload_len > 0 {
        lemma_be_u32_of_be(bytes.subrange(22 + key_len, 26 + key_len));
    }
    let op = Op::of_byte(bytes[9])->0;
    assert(op.spec_byte() == bytes[9]);
    assert(m.code().spec_byte() == bytes[8]);
    assert(frame_bytes(frame_request_id(bytes), m) =~= frame);
}

} // verus!
