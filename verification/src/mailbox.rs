//! The remote mailbox / stream service protocol.
//!
//! Stream clients and the mailbox service exchange the requests and
//! responses of [`StreamProtocol`] as bytes, so the protocol needs a
//! canonical encoding: [`StreamProtocol::encode`] writes it (a tag byte,
//! then the fields, every length and count a 64-bit little-endian value,
//! strings as UTF-8) and [`StreamProtocol::parse`] reads it back. The codec
//! is exact in both directions: whatever `parse` accepts re-encodes to
//! exactly the bytes it read, and every buffer that is the encoding of some
//! message is accepted.

use vstd::prelude::*;

use crate::change_events::{push_bytes, push_u64_le, spec_encode_bytes, spec_u64_le};
use crate::error::Error;
use vstd::utf8::{decode_utf8, encode_utf8, valid_utf8};

verus! {

/// A stream message with a mailbox index.
#[derive(Clone, Debug, PartialEq, Eq)]
pub struct StreamMessage {
    /// Index of the message in the stream.
    pub index: usize,
    /// Encoded data of the message.
    pub data: Vec<u8>,
}

/// Basic protocol definitions for the mailbox service.
#[derive(Clone, Debug, PartialEq, Eq)]
pub enum StreamProtocol {
    /// Request a new mailbox to be created.
    CreateStreamRequest {
        /// The name the client asks for, if any.
        stream_name: Option<String>,
    },
    /// Response to a `CreateStreamRequest`.
    Init {
        /// The name the service settled on.
        stream_name: String,
    },
    /// Push a message into the mailbox.
    PushRequest {
        /// Matches the confirmation to the request.
        request_id: usize,
        /// The message to store.
        data: Vec<u8>,
    },
    /// Confirm a push operation on the mailbox.
    PushConfirm {
        /// Matches the confirmation to the request.
        request_id: usize,
        /// Whether the push was stored.
        status: Option<()>,
    },
    /// Pull messages from the mailbox.
    PullRequest {
        /// Matches the response to the request.
        request_id: usize,
        /// The first index asked for.
        index: usize,
        /// How many messages at most.
        limit: usize,
    },
    /// Response to a `PullRequest`.
    PullResponse {
        /// Matches the response to the request.
        request_id: usize,
        /// The messages pulled.
        messages: Vec<StreamMessage>,
    },
}

/// Index protocol messages for the mailbox service.
#[derive(Clone, Debug, PartialEq, Eq)]
pub enum IndexProtocol {
    /// Get the index for a particular mailbox.
    GetIndex {
        /// The mailbox.
        stream_name: String,
        /// Whose index.
        client_id: String,
    },
    /// Reply to a `GetIndex`.
    Index {
        /// The mailbox.
        stream_name: String,
        /// Whose index.
        client_id: String,
        /// The index itself.
        index: usize,
    },
    /// Update the index.
    SaveIndex {
        /// The mailbox.
        stream_name: String,
        /// Whose index.
        client_id: String,
        /// The index to record.
        index: usize,
    },
}

/// A string in the canonical encoding: its UTF-8 bytes, length-prefixed.
pub open spec fn spec_encode_string(s: Seq<char>) -> Seq<u8> {
    spec_encode_bytes(encode_utf8(s))
}

/// An optional string: a presence byte, then the string if present.
pub open spec fn spec_encode_opt_string(s: Option<String>) -> Seq<u8> {
    match s {
        None => seq![0u8],
        Some(x) => seq![1u8] + spec_encode_string(x@),
    }
}

/// The presence byte of a push confirmation's status.
pub open spec fn spec_confirm_status_byte(st: Option<()>) -> u8 {
    match st {
        Some(_) => 1u8,
        None => 0u8,
    }
}

/// One stream message: its index, then its data.
pub open spec fn spec_encode_stream_message(m: StreamMessage) -> Seq<u8> {
    spec_u64_le(m.index as u64) + spec_encode_bytes(m.data@)
}

/// A list of stream messages, one after the other.
pub open spec fn spec_encode_messages(ms: Seq<StreamMessage>) -> Seq<u8>
    decreases ms.len(),
{
    if ms.len() == 0 {
        Seq::empty()
    } else {
        spec_encode_stream_message(ms.first()) + spec_encode_messages(ms.drop_first())
    }
}

/// The canonical encoding of a stream protocol message.
pub open spec fn spec_encode_stream(p: StreamProtocol) -> Seq<u8> {
    match p {
        StreamProtocol::CreateStreamRequest { stream_name } => seq![0u8] + spec_encode_opt_string(
            stream_name,
        ),
        StreamProtocol::Init { stream_name } => seq![1u8] + spec_encode_string(stream_name@),
        StreamProtocol::PushRequest { request_id, data } => seq![2u8] + spec_u64_le(
            request_id as u64,
        ) + spec_encode_bytes(data@),
        StreamProtocol::PushConfirm { request_id, status } => seq![3u8] + spec_u64_le(
            request_id as u64,
        ) + seq![spec_confirm_status_byte(status)],
        StreamProtocol::PullRequest { request_id, index, limit } => seq![4u8] + spec_u64_le(
            request_id as u64,
        ) + spec_u64_le(index as u64) + spec_u64_le(limit as u64),
        StreamProtocol::PullResponse { request_id, messages } => seq![5u8] + spec_u64_le(
            request_id as u64,
        ) + spec_u64_le(messages@.len() as u64) + spec_encode_messages(messages@),
    }
}

/// Append a length-prefixed string.
fn push_string(out: &mut Vec<u8>, s: &String)
    ensures
        final(out)@ == old(out)@ + spec_encode_string(s@),
{
    push_bytes(out, s.as_str().as_bytes());
}

impl StreamProtocol {
    /// Canonically encode this message.
    pub fn encode(&self) -> (r: Vec<u8>)
        ensures
            r@ == spec_encode_stream(*self),
    {
        let mut out: Vec<u8> = Vec::new();
        match self {
            StreamProtocol::CreateStreamRequest { stream_name } => {
                out.push(0u8);
                match stream_name {
                    None => out.push(0u8),
                    Some(x) => {
                        out.push(1u8);
                        push_string(&mut out, x);
                    },
                }
            },
            StreamProtocol::Init { stream_name } => {
                out.push(1u8);
                push_string(&mut out, stream_name);
            },
            StreamProtocol::PushRequest { request_id, data } => {
                out.push(2u8);
                push_u64_le(&mut out, *request_id as u64);
                push_bytes(&mut out, data.as_slice());
            },
            StreamProtocol::PushConfirm { request_id, status } => {
                out.push(3u8);
                push_u64_le(&mut out, *request_id as u64);
                match status {
                    Some(_) => out.push(1u8),
                    None => out.push(0u8),
                }
            },
            StreamProtocol::PullRequest { request_id, index, limit } => {
                out.push(4u8);
                push_u64_le(&mut out, *request_id as u64);
                push_u64_le(&mut out, *index as u64);
                push_u64_le(&mut out, *limit as u64);
            },
            StreamProtocol::PullResponse { request_id, messages } => {
                out.push(5u8);
                push_u64_le(&mut out, *request_id as u64);
                push_u64_le(&mut out, messages.len() as u64);
                let n = messages.len();
                let mut i: usize = 0;
                let ghost head = out@;
                while i < n
                    invariant
                        0 <= i <= n,
                        n == messages@.len(),
                        out@ == head + spec_encode_messages(messages@.take(i as int)),
                    decreases n - i,
                {
                    let m = &messages[i];
                    push_u64_le(&mut out, m.index as u64);
                    push_bytes(&mut out, m.data.as_slice());
                    proof {
                        lemma_encode_messages_take_step(messages@, i as int);
                    }
                    i = i + 1;
                }
                proof {
                    assert(messages@.take(n as int) =~= messages@);
                }
            },
        }
        proof {
            assert(out@ =~= spec_encode_stream(*self));
        }
        out
    }
}

/// Encoding the first `i + 1` messages appends the encoding of message `i`
/// to the encoding of the first `i`.
proof fn lemma_encode_messages_take_step(ms: Seq<StreamMessage>, i: int)
    requires
        0 <= i < ms.len(),
    ensures
        spec_encode_messages(ms.take(i + 1)) == spec_encode_messages(ms.take(i))
            + spec_encode_stream_message(ms[i]),
    decreases i,
{
    if i == 0 {
        assert(ms.take(1).first() == ms[0]);
        assert(ms.take(1).drop_first() =~= ms.take(0));
        assert(spec_encode_messages(ms.take(0)) == Seq::<u8>::empty());
        assert(spec_encode_messages(ms.take(1)) =~= spec_encode_messages(ms.take(0))
            + spec_encode_stream_message(ms[0]));
    } else {
        lemma_encode_messages_take_step(ms.drop_first(), i - 1);
        assert(ms.take(i + 1).first() == ms[0]);
        assert(ms.take(i + 1).drop_first() =~= ms.drop_first().take(i));
        assert(ms.take(i).first() == ms[0]);
        assert(ms.take(i).drop_first() =~= ms.drop_first().take(i - 1));
        assert(ms.drop_first()[i - 1] == ms[i]);
        assert(spec_encode_messages(ms.take(i + 1)) == spec_encode_stream_message(ms[0])
            + spec_encode_messages(ms.drop_first().take(i)));
        assert(spec_encode_messages(ms.take(i)) == spec_encode_stream_message(ms[0])
            + spec_encode_messages(ms.drop_first().take(i - 1)));
        assert(spec_encode_messages(ms.take(i + 1)) =~= spec_encode_messages(ms.take(i))
            + spec_encode_stream_message(ms[i]));
    }
}

/// Relies on String::from_utf8: it succeeds exactly on valid UTF-8 and
/// returns the string decoded from the input bytes.
#[verifier::external_body]
fn utf8_to_string(bytes: Vec<u8>) -> (r: Option<String>)
    ensures
        match r {
            Some(s) => s@ == decode_utf8(bytes@) && valid_utf8(bytes@),
            None => !valid_utf8(bytes@),
        },
{
    match String::from_utf8(bytes) {
        Ok(s) => Some(s),
        Err(_) => None,
    }
}

/// Read one byte.
fn read_u8(b: &[u8], pos: usize) -> (r: Option<(u8, usize)>)
    requires
        pos <= b@.len(),
    ensures
        match r {
            Some((v, end)) => end == pos + 1 && pos + 1 <= b@.len() && seq![v] == b@.subrange(
                pos as int,
                pos + 1,
            ),
            None => b@.len() == pos,
        },
{
    if b.len() - pos < 1 {
        return None;
    }
    let v = b[pos];
    proof {
        assert(seq![v] =~= b@.subrange(pos as int, pos + 1));
    }
    Some((v, pos + 1))
}

/// Read a 64-bit little-endian value.
fn read_u64(b: &[u8], pos: usize) -> (r: Option<(u64, usize)>)
    requires
        pos <= b@.len(),
    ensures
        match r {
            Some((n, end)) => end == pos + 8 && pos + 8 <= b@.len() && spec_u64_le(n)
                == b@.subrange(pos as int, pos + 8),
            None => b@.len() < pos + 8,
        },
{
    if b.len() - pos < 8 {
        return None;
    }
    let x0 = b[pos] as u64;
    let x1 = b[pos + 1] as u64;
    let x2 = b[pos + 2] as u64;
    let x3 = b[pos + 3] as u64;
    let x4 = b[pos + 4] as u64;
    let x5 = b[pos + 5] as u64;
    let x6 = b[pos + 6] as u64;
    let x7 = b[pos + 7] as u64;
    let n = x0 | (x1 << 8) | (x2 << 16) | (x3 << 24) | (x4 << 32) | (x5 << 40) | (x6 << 48) | (x7
        << 56);
    proof {
        assert((n & 0xff) == x0 && ((n >> 8) & 0xff) == x1 && ((n >> 16) & 0xff) == x2 && ((n >> 24)
            & 0xff) == x3 && ((n >> 32) & 0xff) == x4 && ((n >> 40) & 0xff) == x5 && ((n >> 48)
            & 0xff) == x6 && ((n >> 56) & 0xff) == x7) by (bit_vector)
            requires
                n == x0 | (x1 << 8) | (x2 << 16) | (x3 << 24) | (x4 << 32) | (x5 << 40) | (x6 << 48)
                    | (x7 << 56),
                x0 < 256 && x1 < 256 && x2 < 256 && x3 < 256 && x4 < 256 && x5 < 256 && x6 < 256
                    && x7 < 256,
        ;
        assert(spec_u64_le(n) =~= b@.subrange(pos as int, pos + 8));
    }
    Some((n, pos + 8))
}

/// Read a 64-bit count that must fit the platform's word.
fn read_usize(b: &[u8], pos: usize) -> (r: Option<(usize, usize)>)
    requires
        pos <= b@.len(),
    ensures
        match r {
            Some((v, end)) => end == pos + 8 && pos + 8 <= b@.len() && spec_u64_le(v as u64)
                == b@.subrange(pos as int, pos + 8),
            None => b@.len() < pos + 8 || (forall|v: usize|
                #[trigger] spec_u64_le(v as u64) != b@.subrange(pos as int, pos + 8)),
        },
{
    match read_u64(b, pos) {
        None => None,
        Some((n, end)) => {
            if n > usize::MAX as u64 {
                proof {
                    assert forall|v: usize| #[trigger] spec_u64_le(v as u64) != b@.subrange(
                        pos as int,
                        pos + 8,
                    ) by {
                        if spec_u64_le(v as u64) == b@.subrange(pos as int, pos + 8) {
                            crate::change_events::lemma_u64_le_injective(v as u64, n);
                        }
                    }
                }
                None
            } else {
                Some((n as usize, end))
            }
        },
    }
}

/// Whether a length-prefixed byte string carrying `x` sits at `pos` of `b`.
pub open spec fn spec_bytes_at(b: Seq<u8>, pos: int, x: Seq<u8>) -> bool {
    &&& pos + 8 + x.len() <= b.len()
    &&& b.subrange(pos, pos + 8 + x.len()) == spec_encode_bytes(x)
}

/// Read a length-prefixed byte string. Succeeds on every well-formed
/// length-prefixed byte string that fits the buffer.
fn read_bytes(b: &[u8], pos: usize) -> (r: Option<(Vec<u8>, usize)>)
    requires
        pos <= b@.len(),
    ensures
        match r {
            Some((v, end)) => pos <= end <= b@.len() && end == pos + 8 + v@.len()
                && spec_encode_bytes(v@) == b@.subrange(pos as int, end as int),
            None => true,
        },
        forall|x: Seq<u8>| spec_bytes_at(b@, pos as int, x) ==> r is Some,
{
    match read_u64(b, pos) {
        None => {
            proof {
                assert forall|x: Seq<u8>| !spec_bytes_at(b@, pos as int, x) by {}
            }
            None
        },
        Some((n, mid)) => {
            if n > (b.len() - mid) as u64 {
                proof {
                    assert forall|x: Seq<u8>| !spec_bytes_at(b@, pos as int, x) by {
                        if spec_bytes_at(b@, pos as int, x) {
                            assert(spec_u64_le(x.len() as u64) =~= b@.subrange(pos as int, pos + 8));
                            crate::change_events::lemma_u64_le_injective(x.len() as u64, n);
                        }
                    }
                }
                return None;
            }
            let len = n as usize;
            let end = mid + len;
            let v = vstd::slice::slice_to_vec(vstd::slice::slice_subrange(b, mid, end));
            proof {
                assert(v@ == b@.subrange(mid as int, end as int));
                assert(v@.len() == len);
                assert(spec_encode_bytes(v@) =~= b@.subrange(pos as int, end as int));
            }
            Some((v, end))
        },
    }
}

/// Whether a length-prefixed encoding of the string `s` sits at `pos` of `b`.
pub open spec fn spec_string_at(b: Seq<u8>, pos: int, s: Seq<char>) -> bool {
    spec_bytes_at(b, pos, encode_utf8(s))
}

/// Read a length-prefixed UTF-8 string. Succeeds on every well-formed
/// encoded string that fits the buffer.
fn read_string(b: &[u8], pos: usize) -> (r: Option<(String, usize)>)
    requires
        pos <= b@.len(),
    ensures
        match r {
            Some((s, end)) => pos <= end <= b@.len() && end == pos + 8 + encode_utf8(s@).len()
                && spec_encode_string(s@) == b@.subrange(pos as int, end as int),
            None => true,
        },
        forall|s: Seq<char>| spec_string_at(b@, pos as int, s) ==> r is Some,
{
    let buffer_len = b.len();
    match read_bytes(b, pos) {
        None => {
            proof {
                assert forall|s: Seq<char>| !spec_string_at(b@, pos as int, s) by {}
            }
            None
        },
        Some((v, end)) => {
            let ghost bytes = v@;
            match utf8_to_string(v) {
                None => {
                    proof {
                        assert forall|s: Seq<char>| !spec_string_at(b@, pos as int, s) by {
                            if spec_string_at(b@, pos as int, s) {
                                let x = encode_utf8(s);
                                assert(x.len() <= buffer_len);
                                lemma_region_split_at(
                                    b@,
                                    pos as int,
                                    pos + 8 + x.len() as int,
                                    spec_u64_le(x.len() as u64),
                                    x,
                                );
                                lemma_region_split_at(
                                    b@,
                                    pos as int,
                                    end as int,
                                    spec_u64_le(bytes.len() as u64),
                                    bytes,
                                );
                                assert(spec_u64_le(x.len() as u64).len() == 8);
                                assert(spec_u64_le(bytes.len() as u64).len() == 8);
                                assert(spec_u64_le(x.len() as u64) == b@.subrange(
                                    pos as int,
                                    pos + 8,
                                ));
                                assert(spec_u64_le(bytes.len() as u64) == b@.subrange(
                                    pos as int,
                                    pos + 8,
                                ));
                                crate::change_events::lemma_u64_le_injective(
                                    x.len() as u64,
                                    bytes.len() as u64,
                                );
                                assert(x == b@.subrange(pos + 8, pos + 8 + x.len() as int));
                                assert(bytes == b@.subrange(pos + 8, end as int));
                                vstd::utf8::encode_utf8_valid_utf8(s);
                            }
                        }
                    }
                    None
                },
                Some(s) => {
                    proof {
                        vstd::utf8::decode_utf8_encode_utf8(bytes);
                    }
                    Some((s, end))
                },
            }
        },
    }
}

/// The tag byte that opens each protocol message.
pub open spec fn spec_stream_tag(p: StreamProtocol) -> u8 {
    match p {
        StreamProtocol::CreateStreamRequest { .. } => 0u8,
        StreamProtocol::Init { .. } => 1u8,
        StreamProtocol::PushRequest { .. } => 2u8,
        StreamProtocol::PushConfirm { .. } => 3u8,
        StreamProtocol::PullRequest { .. } => 4u8,
        StreamProtocol::PullResponse { .. } => 5u8,
    }
}

/// Every encoding opens with its message's tag byte.
proof fn lemma_encode_stream_shape(p: StreamProtocol)
    ensures
        spec_encode_stream(p).len() >= 1,
        spec_encode_stream(p)[0] == spec_stream_tag(p),
{
}

/// Whether a run of encoded messages fills `b` from `pos` to its end.
pub open spec fn spec_messages_at_end(b: Seq<u8>, pos: int, ms: Seq<StreamMessage>) -> bool {
    b.subrange(pos, b.len() as int) == spec_encode_messages(ms)
}

/// A region of `b` that holds the bytes `x + y` splits into a region
/// holding `x` and a region holding `y`.
proof fn lemma_region_split_at(b: Seq<u8>, pos: int, end: int, x: Seq<u8>, y: Seq<u8>)
    requires
        0 <= pos <= end <= b.len(),
        b.subrange(pos, end) == x + y,
    ensures
        pos + x.len() + y.len() == end,
        b.subrange(pos, pos + x.len() as int) == x,
        b.subrange(pos + x.len() as int, end) == y,
{
    assert(b.subrange(pos, end).len() == x.len() + y.len());
    assert forall|i: int| 0 <= i < x.len() implies b.subrange(pos, pos + x.len() as int)[i]
        == x[i] by {
        assert(b.subrange(pos, end)[i] == (x + y)[i]);
        assert(b.subrange(pos, end)[i] == b[pos + i]);
        assert(b.subrange(pos, pos + x.len() as int)[i] == b[pos + i]);
    }
    assert(b.subrange(pos, pos + x.len() as int) =~= x);
    assert forall|i: int| 0 <= i < y.len() implies b.subrange(pos + x.len() as int, end)[i]
        == y[i] by {
        assert(b.subrange(pos, end)[x.len() + i] == (x + y)[x.len() + i]);
        assert(b.subrange(pos, end)[x.len() + i] == b[pos + x.len() + i]);
        assert(b.subrange(pos + x.len() as int, end)[i] == b[pos + x.len() + i]);
    }
    assert(b.subrange(pos + x.len() as int, end) =~= y);
}

/// A non-empty run of encoded messages starts with its first message's
/// index, then its length-prefixed data, then the remaining run.
proof fn lemma_messages_head_region(b: Seq<u8>, cursor: int, rest: Seq<StreamMessage>)
    requires
        0 <= cursor <= b.len(),
        rest.len() > 0,
        spec_messages_at_end(b, cursor, rest),
    ensures
        cursor + 16 + rest.first().data@.len() <= b.len(),
        spec_u64_le(rest.first().index as u64) == b.subrange(cursor, cursor + 8),
        spec_bytes_at(b, cursor + 8, rest.first().data@),
        spec_messages_at_end(b, cursor + 16 + rest.first().data@.len(), rest.drop_first()),
{
    let m0 = rest.first();
    let d = m0.data@.len() as int;
    let enc0 = spec_encode_stream_message(m0);
    let tail = spec_encode_messages(rest.drop_first());
    assert(spec_encode_messages(rest) == enc0 + tail);
    assert(enc0.len() == 16 + d);
    lemma_region_split_at(b, cursor, b.len() as int, enc0, tail);
    lemma_region_split_at(
        b,
        cursor,
        cursor + 16 + d,
        spec_u64_le(m0.index as u64),
        spec_encode_bytes(m0.data@),
    );
}

/// Read `count` encoded messages. Succeeds, consuming the whole rest of the
/// buffer, whenever a run of exactly `count` messages fills it.
#[verifier::loop_isolation(false)]
fn read_messages(b: &[u8], pos: usize, count: usize) -> (r: Option<(Vec<StreamMessage>, usize)>)
    requires
        pos <= b@.len(),
    ensures
        match r {
            Some((msgs, end)) => pos <= end <= b@.len() && msgs@.len() == count
                && spec_encode_messages(msgs@) == b@.subrange(pos as int, end as int),
            None => true,
        },
        forall|ms: Seq<StreamMessage>|
            #![trigger spec_encode_messages(ms)]
            (ms.len() == count && spec_messages_at_end(b@, pos as int, ms)) ==> (r matches Some(
                (msgs, end),
            ) && end == b@.len()),
{
    let buffer_len = b.len();
    let mut messages: Vec<StreamMessage> = Vec::new();
    let mut cursor: usize = pos;
    let mut k: usize = 0;
    proof {
        assert(spec_encode_messages(messages@) =~= b@.subrange(pos as int, cursor as int));
        assert(forall|ms: Seq<StreamMessage>| #![trigger spec_encode_messages(ms)] ms.skip(0) == ms);
    }
    while k < count
        invariant
            0 <= k <= count,
            pos <= cursor <= b@.len(),
            messages@.len() == k,
            spec_encode_messages(messages@) == b@.subrange(pos as int, cursor as int),
            forall|ms: Seq<StreamMessage>|
                #![trigger spec_encode_messages(ms)]
                (ms.len() == count && spec_messages_at_end(b@, pos as int, ms))
                    ==> spec_messages_at_end(b@, cursor as int, ms.skip(k as int)),
        decreases count - k,
    {
        let (index, m1) = match read_usize(b, cursor) {
            Some(t) => t,
            None => {
                proof {
                    assert forall|ms: Seq<StreamMessage>|
                        #![trigger spec_encode_messages(ms)]
                        !(ms.len() == count && spec_messages_at_end(b@, pos as int, ms)) by {
                        if ms.len() == count && spec_messages_at_end(b@, pos as int, ms) {
                            let rest = ms.skip(k as int);
                            lemma_messages_head_region(b@, cursor as int, rest);
                        }
                    }
                }
                return None;
            },
        };
        let (data, m2) = match read_bytes(b, m1) {
            Some(t) => t,
            None => {
                proof {
                    assert forall|ms: Seq<StreamMessage>|
                        #![trigger spec_encode_messages(ms)]
                        !(ms.len() == count && spec_messages_at_end(b@, pos as int, ms)) by {
                        if ms.len() == count && spec_messages_at_end(b@, pos as int, ms) {
                            let rest = ms.skip(k as int);
                            lemma_messages_head_region(b@, cursor as int, rest);
                        }
                    }
                }
                return None;
            },
        };
        let msg = StreamMessage { index, data };
        proof {
            lemma_encode_messages_push(messages@, msg);
            assert(spec_encode_stream_message(msg) =~= b@.subrange(cursor as int, m2 as int));
            assert(b@.subrange(pos as int, cursor as int) + b@.subrange(cursor as int, m2 as int)
                =~= b@.subrange(pos as int, m2 as int));
            assert forall|ms: Seq<StreamMessage>|
                #![trigger spec_encode_messages(ms)]
                (ms.len() == count && spec_messages_at_end(b@, pos as int, ms)) implies
                spec_messages_at_end(b@, m2 as int, ms.skip(k + 1)) by {
                let rest = ms.skip(k as int);
                assert(spec_messages_at_end(b@, cursor as int, rest));
                lemma_messages_head_region(b@, cursor as int, rest);
                let d0 = rest.first().data@;
                assert(d0.len() <= buffer_len);
                // The two length prefixes sit on the same bytes, so the
                // lengths agree and the reads end where the hypothesis says.
                lemma_region_split_at(
                    b@,
                    m1 as int,
                    m2 as int,
                    spec_u64_le(data@.len() as u64),
                    data@,
                );
                lemma_region_split_at(
                    b@,
                    m1 as int,
                    cursor + 16 + d0.len(),
                    spec_u64_le(d0.len() as u64),
                    d0,
                );
                assert(spec_u64_le(data@.len() as u64).len() == 8);
                assert(spec_u64_le(d0.len() as u64).len() == 8);
                assert(spec_u64_le(data@.len() as u64) == b@.subrange(m1 as int, m1 + 8));
                assert(spec_u64_le(d0.len() as u64) == b@.subrange(m1 as int, m1 + 8));
                crate::change_events::lemma_u64_le_injective(
                    data@.len() as u64,
                    d0.len() as u64,
                );
                assert(m2 as int == cursor + 16 + d0.len());
                assert(rest.drop_first() =~= ms.skip(k + 1));
            }
        }
        messages.push(msg);
        cursor = m2;
        k = k + 1;
    }
    proof {
        assert forall|ms: Seq<StreamMessage>|
            #![trigger spec_encode_messages(ms)]
            (ms.len() == count && spec_messages_at_end(b@, pos as int, ms)) implies cursor
            == b@.len() by {
            assert(spec_messages_at_end(b@, cursor as int, ms.skip(count as int)));
            assert(ms.skip(count as int).len() == 0);
            assert(spec_encode_messages(ms.skip(count as int)).len() == 0);
        }
    }
    Some((messages, cursor))
}

/// Read the fields of a `CreateStreamRequest` after its tag. Succeeds,
/// consuming the whole rest of the buffer, on every encoded optional name.
fn parse_create_fields(b: &[u8], pos: usize) -> (r: Option<(Option<String>, usize)>)
    requires
        pos <= b@.len(),
    ensures
        match r {
            Some((name, end)) => pos <= end && end == b@.len() && spec_encode_opt_string(name)
                == b@.subrange(pos as int, end as int),
            None => true,
        },
        b@.subrange(pos as int, b@.len() as int) == seq![0u8] ==> (r matches Some((name, end))
            && end == b@.len()),
        forall|s: Seq<char>|
            #![trigger spec_encode_string(s)]
            b@.subrange(pos as int, b@.len() as int) == seq![1u8] + spec_encode_string(s) ==> (
            r matches Some((name, end)) && end == b@.len()),
{
    let buffer_len = b.len();
    let ghost whole = b@.subrange(pos as int, b@.len() as int);
    let (present, mid) = match read_u8(b, pos) {
        Some(t) => t,
        None => {
            proof {
                assert(whole.len() == 0);
                assert forall|s: Seq<char>| #![trigger spec_encode_string(s)] whole != seq![1u8]
                    + spec_encode_string(s) by {}
            }
            return None;
        },
    };
    proof {
        assert(b@[pos as int] == seq![present][0]);
        assert(whole[0] == b@[pos as int]);
    }
    if present == 0u8 {
        if mid != b.len() {
            proof {
                assert(whole != seq![0u8]) by {
                    if whole == seq![0u8] {
                        assert(whole.len() == 1);
                        assert(b@.len() == pos + 1);
                    }
                }
                assert forall|s: Seq<char>| #![trigger spec_encode_string(s)] whole != seq![1u8]
                    + spec_encode_string(s) by {
                    if whole == seq![1u8] + spec_encode_string(s) {
                        assert(whole[0] == (seq![1u8] + spec_encode_string(s))[0]);
                    }
                }
            }
            return None;
        }
        proof {
            assert(spec_encode_opt_string(None::<String>) =~= b@.subrange(pos as int, mid as int));
        }
        Some((None, mid))
    } else if present == 1u8 {
        let (s, end) = match read_string(b, mid) {
            Some(t) => t,
            None => {
                proof {
                    assert forall|x: Seq<char>| #![trigger spec_encode_string(x)] whole != seq![1u8]
                        + spec_encode_string(x) by {
                        if whole == seq![1u8] + spec_encode_string(x) {
                            assert(spec_u64_le(encode_utf8(x).len() as u64).len() == 8);
                            assert(whole.len() == 9 + encode_utf8(x).len());
                            assert(encode_utf8(x).len() <= buffer_len);
                            lemma_region_split_at(
                                b@,
                                pos as int,
                                b@.len() as int,
                                seq![1u8],
                                spec_encode_string(x),
                            );
                            assert(spec_string_at(b@, mid as int, x));
                        }
                    }
                }
                return None;
            },
        };
        if end != b.len() {
            proof {
                assert forall|x: Seq<char>| #![trigger spec_encode_string(x)] whole != seq![1u8]
                    + spec_encode_string(x) by {
                    if whole == seq![1u8] + spec_encode_string(x) {
                        assert(spec_u64_le(encode_utf8(x).len() as u64).len() == 8);
                        assert(whole.len() == 9 + encode_utf8(x).len());
                        assert(encode_utf8(x).len() <= buffer_len);
                        lemma_region_split_at(
                            b@,
                            pos as int,
                            b@.len() as int,
                            seq![1u8],
                            spec_encode_string(x),
                        );
                        lemma_region_split_at(
                            b@,
                            mid as int,
                            end as int,
                            spec_u64_le(encode_utf8(s@).len() as u64),
                            encode_utf8(s@),
                        );
                        lemma_region_split_at(
                            b@,
                            mid as int,
                            b@.len() as int,
                            spec_u64_le(encode_utf8(x).len() as u64),
                            encode_utf8(x),
                        );
                        crate::change_events::lemma_u64_le_injective(
                            encode_utf8(s@).len() as u64,
                            encode_utf8(x).len() as u64,
                        );
                    }
                }
            }
            return None;
        }
        let name = Some(s);
        proof {
            assert(spec_encode_opt_string(name) =~= b@.subrange(pos as int, end as int));
        }
        Some((name, end))
    } else {
        proof {
            assert(whole != seq![0u8]);
            assert forall|s: Seq<char>| #![trigger spec_encode_string(s)] whole != seq![1u8]
                + spec_encode_string(s) by {
                if whole == seq![1u8] + spec_encode_string(s) {
                    assert(whole[0] == (seq![1u8] + spec_encode_string(s))[0]);
                }
            }
        }
        None
    }
}

/// Read the fields of an `Init` after its tag. Succeeds, consuming the
/// whole rest of the buffer, on every encoded name.
fn parse_init_fields(b: &[u8], pos: usize) -> (r: Option<(String, usize)>)
    requires
        pos <= b@.len(),
    ensures
        match r {
            Some((s, end)) => pos <= end && end == b@.len() && spec_encode_string(s@)
                == b@.subrange(pos as int, end as int),
            None => true,
        },
        forall|s: Seq<char>|
            #![trigger spec_encode_string(s)]
            b@.subrange(pos as int, b@.len() as int) == spec_encode_string(s) ==> (r matches Some(
                (name, end),
            ) && end == b@.len()),
{
    let buffer_len = b.len();
    let ghost whole = b@.subrange(pos as int, b@.len() as int);
    let (s, end) = match read_string(b, pos) {
        Some(t) => t,
        None => {
            proof {
                assert forall|x: Seq<char>| #![trigger spec_encode_string(x)] whole
                    != spec_encode_string(x) by {
                    if whole == spec_encode_string(x) {
                        assert(spec_u64_le(encode_utf8(x).len() as u64).len() == 8);
                        assert(whole.len() == 8 + encode_utf8(x).len());
                        assert(encode_utf8(x).len() <= buffer_len);
                        assert(spec_string_at(b@, pos as int, x));
                    }
                }
            }
            return None;
        },
    };
    if end != b.len() {
        proof {
            assert forall|x: Seq<char>| #![trigger spec_encode_string(x)] whole
                != spec_encode_string(x) by {
                if whole == spec_encode_string(x) {
                    assert(spec_u64_le(encode_utf8(x).len() as u64).len() == 8);
                    assert(whole.len() == 8 + encode_utf8(x).len());
                    assert(encode_utf8(x).len() <= buffer_len);
                    lemma_region_split_at(
                        b@,
                        pos as int,
                        end as int,
                        spec_u64_le(encode_utf8(s@).len() as u64),
                        encode_utf8(s@),
                    );
                    lemma_region_split_at(
                        b@,
                        pos as int,
                        b@.len() as int,
                        spec_u64_le(encode_utf8(x).len() as u64),
                        encode_utf8(x),
                    );
                    crate::change_events::lemma_u64_le_injective(
                        encode_utf8(s@).len() as u64,
                        encode_utf8(x).len() as u64,
                    );
                }
            }
        }
        return None;
    }
    Some((s, end))
}

/// Read the fields of a `PushRequest` after its tag. Succeeds, consuming
/// the whole rest of the buffer, on every encoded request.
fn parse_push_fields(b: &[u8], pos: usize) -> (r: Option<((usize, Vec<u8>), usize)>)
    requires
        pos <= b@.len(),
    ensures
        match r {
            Some(((request_id, data), end)) => pos <= end && end == b@.len() && spec_u64_le(
                request_id as u64,
            ) + spec_encode_bytes(data@) == b@.subrange(pos as int, end as int),
            None => true,
        },
        forall|id: usize, x: Seq<u8>|
            #![trigger spec_u64_le(id as u64), spec_encode_bytes(x)]
            b@.subrange(pos as int, b@.len() as int) == spec_u64_le(id as u64)
                + spec_encode_bytes(x) ==> (r matches Some((vals, end)) && end == b@.len()),
{
    let buffer_len = b.len();
    let ghost whole = b@.subrange(pos as int, b@.len() as int);
    let (request_id, mid) = match read_usize(b, pos) {
        Some(t) => t,
        None => {
            proof {
                assert forall|id: usize, x: Seq<u8>|
                    #![trigger spec_u64_le(id as u64), spec_encode_bytes(x)]
                    whole != spec_u64_le(id as u64) + spec_encode_bytes(x) by {
                    if whole == spec_u64_le(id as u64) + spec_encode_bytes(x) {
                        assert(spec_u64_le(id as u64).len() == 8);
                        assert(spec_u64_le(x.len() as u64).len() == 8);
                        assert(whole.len() == 16 + x.len());
                        assert(x.len() <= buffer_len);
                        lemma_region_split_at(
                            b@,
                            pos as int,
                            b@.len() as int,
                            spec_u64_le(id as u64),
                            spec_encode_bytes(x),
                        );
                    }
                }
            }
            return None;
        },
    };
    let (data, end) = match read_bytes(b, mid) {
        Some(t) => t,
        None => {
            proof {
                assert forall|id: usize, x: Seq<u8>|
                    #![trigger spec_u64_le(id as u64), spec_encode_bytes(x)]
                    whole != spec_u64_le(id as u64) + spec_encode_bytes(x) by {
                    if whole == spec_u64_le(id as u64) + spec_encode_bytes(x) {
                        assert(spec_u64_le(id as u64).len() == 8);
                        assert(spec_u64_le(x.len() as u64).len() == 8);
                        assert(whole.len() == 16 + x.len());
                        assert(x.len() <= buffer_len);
                        lemma_region_split_at(
                            b@,
                            pos as int,
                            b@.len() as int,
                            spec_u64_le(id as u64),
                            spec_encode_bytes(x),
                        );
                        assert(spec_bytes_at(b@, mid as int, x));
                    }
                }
            }
            return None;
        },
    };
    if end != b.len() {
        proof {
            assert forall|id: usize, x: Seq<u8>|
                #![trigger spec_u64_le(id as u64), spec_encode_bytes(x)]
                whole != spec_u64_le(id as u64) + spec_encode_bytes(x) by {
                if whole == spec_u64_le(id as u64) + spec_encode_bytes(x) {
                    assert(spec_u64_le(id as u64).len() == 8);
                    assert(spec_u64_le(x.len() as u64).len() == 8);
                    assert(whole.len() == 16 + x.len());
                    assert(x.len() <= buffer_len);
                    lemma_region_split_at(
                        b@,
                        pos as int,
                        b@.len() as int,
                        spec_u64_le(id as u64),
                        spec_encode_bytes(x),
                    );
                    lemma_region_split_at(
                        b@,
                        mid as int,
                        end as int,
                        spec_u64_le(data@.len() as u64),
                        data@,
                    );
                    lemma_region_split_at(
                        b@,
                        mid as int,
                        b@.len() as int,
                        spec_u64_le(x.len() as u64),
                        x,
                    );
                    crate::change_events::lemma_u64_le_injective(
                        data@.len() as u64,
                        x.len() as u64,
                    );
                }
            }
        }
        return None;
    }
    Some(((request_id, data), end))
}

/// Read the fields of a `PushConfirm` after its tag. Succeeds, consuming
/// the whole rest of the buffer, on every encoded confirmation.
fn parse_confirm_fields(b: &[u8], pos: usize) -> (r: Option<((usize, Option<()>), usize)>)
    requires
        pos <= b@.len(),
    ensures
        match r {
            Some(((request_id, status), end)) => pos <= end && end == b@.len() && spec_u64_le(
                request_id as u64,
            ) + seq![spec_confirm_status_byte(status)] == b@.subrange(pos as int, end as int),
            None => true,
        },
        forall|id: usize, st: Option<()>|
            #![trigger spec_u64_le(id as u64), spec_confirm_status_byte(st)]
            b@.subrange(pos as int, b@.len() as int) == spec_u64_le(id as u64) + seq![
                spec_confirm_status_byte(st),
            ] ==> (r matches Some((vals, end)) && end == b@.len()),
{
    let ghost whole = b@.subrange(pos as int, b@.len() as int);
    let (request_id, mid) = match read_usize(b, pos) {
        Some(t) => t,
        None => {
            proof {
                assert forall|id: usize, st: Option<()>|
                    #![trigger spec_u64_le(id as u64), spec_confirm_status_byte(st)]
                    whole != spec_u64_le(id as u64) + seq![spec_confirm_status_byte(st)] by {
                    if whole == spec_u64_le(id as u64) + seq![spec_confirm_status_byte(st)] {
                        lemma_region_split_at(
                            b@,
                            pos as int,
                            b@.len() as int,
                            spec_u64_le(id as u64),
                            seq![spec_confirm_status_byte(st)],
                        );
                    }
                }
            }
            return None;
        },
    };
    let (status_byte, end) = match read_u8(b, mid) {
        Some(t) => t,
        None => {
            proof {
                assert forall|id: usize, st: Option<()>|
                    #![trigger spec_u64_le(id as u64), spec_confirm_status_byte(st)]
                    whole != spec_u64_le(id as u64) + seq![spec_confirm_status_byte(st)] by {
                    if whole == spec_u64_le(id as u64) + seq![spec_confirm_status_byte(st)] {
                        assert(whole.len() == 9);
                    }
                }
            }
            return None;
        },
    };
    if end != b.len() {
        proof {
            assert forall|id: usize, st: Option<()>|
                #![trigger spec_u64_le(id as u64), spec_confirm_status_byte(st)]
                whole != spec_u64_le(id as u64) + seq![spec_confirm_status_byte(st)] by {
                if whole == spec_u64_le(id as u64) + seq![spec_confirm_status_byte(st)] {
                    assert(whole.len() == 9);
                }
            }
        }
        return None;
    }
    let status: Option<()> = if status_byte == 1u8 {
        Some(())
    } else if status_byte == 0u8 {
        None
    } else {
        proof {
            assert forall|id: usize, st: Option<()>|
                #![trigger spec_u64_le(id as u64), spec_confirm_status_byte(st)]
                whole != spec_u64_le(id as u64) + seq![spec_confirm_status_byte(st)] by {
                if whole == spec_u64_le(id as u64) + seq![spec_confirm_status_byte(st)] {
                    assert(whole[8] == (spec_u64_le(id as u64) + seq![
                        spec_confirm_status_byte(st),
                    ])[8]);
                    assert(whole[8] == b@[mid as int]);
                    assert(b@[mid as int] == seq![status_byte][0]);
                }
            }
        }
        return None;
    };
    proof {
        assert(seq![spec_confirm_status_byte(status)] =~= b@.subrange(mid as int, end as int));
    }
    Some(((request_id, status), end))
}

/// Read the fields of a `PullRequest` after its tag. Succeeds, consuming
/// the whole rest of the buffer, on every encoded request.
fn parse_pull_request_fields(b: &[u8], pos: usize) -> (r: Option<((usize, usize, usize), usize)>)
    requires
        pos <= b@.len(),
    ensures
        match r {
            Some(((request_id, index, limit), end)) => pos <= end && end == b@.len()
                && spec_u64_le(request_id as u64) + spec_u64_le(index as u64) + spec_u64_le(
                limit as u64,
            ) == b@.subrange(pos as int, end as int),
            None => true,
        },
        forall|id: usize, ix: usize, lm: usize|
            #![trigger spec_u64_le(id as u64), spec_u64_le(ix as u64), spec_u64_le(lm as u64)]
            b@.subrange(pos as int, b@.len() as int) == spec_u64_le(id as u64) + spec_u64_le(
                ix as u64,
            ) + spec_u64_le(lm as u64) ==> (r matches Some((vals, end)) && end == b@.len()),
{
    let ghost whole = b@.subrange(pos as int, b@.len() as int);
    proof {
        assert forall|id: usize, ix: usize, lm: usize|
            #![trigger spec_u64_le(id as u64), spec_u64_le(ix as u64), spec_u64_le(lm as u64)]
            whole == spec_u64_le(id as u64) + spec_u64_le(ix as u64) + spec_u64_le(lm as u64)
                implies {
                &&& b@.len() == pos + 24
                &&& spec_u64_le(id as u64) == b@.subrange(pos as int, pos + 8)
                &&& spec_u64_le(ix as u64) == b@.subrange(pos + 8, pos + 16)
                &&& spec_u64_le(lm as u64) == b@.subrange(pos + 16, pos + 24)
            } by {
            assert(spec_u64_le(id as u64) + spec_u64_le(ix as u64) + spec_u64_le(lm as u64)
                =~= spec_u64_le(id as u64) + (spec_u64_le(ix as u64) + spec_u64_le(lm as u64)));
            lemma_region_split_at(
                b@,
                pos as int,
                b@.len() as int,
                spec_u64_le(id as u64),
                spec_u64_le(ix as u64) + spec_u64_le(lm as u64),
            );
            lemma_region_split_at(
                b@,
                pos + 8,
                b@.len() as int,
                spec_u64_le(ix as u64),
                spec_u64_le(lm as u64),
            );
        }
    }
    let (request_id, m1) = match read_usize(b, pos) {
        Some(t) => t,
        None => {
            return None;
        },
    };
    let (index, m2) = match read_usize(b, m1) {
        Some(t) => t,
        None => {
            return None;
        },
    };
    let (limit, end) = match read_usize(b, m2) {
        Some(t) => t,
        None => {
            return None;
        },
    };
    if end != b.len() {
        return None;
    }
    Some(((request_id, index, limit), end))
}

/// Read the fields of a `PullResponse` after its tag: a request identifier,
/// a message count, then that many messages. Succeeds, consuming the whole
/// rest of the buffer, on every encoded response.
fn parse_pull_response_fields(b: &[u8], pos: usize) -> (r: Option<(
    (usize, Vec<StreamMessage>),
    usize,
)>)
    requires
        pos <= b@.len(),
    ensures
        match r {
            Some(((request_id, messages), end)) => pos <= end && end == b@.len() && spec_u64_le(
                request_id as u64,
            ) + spec_u64_le(messages@.len() as u64) + spec_encode_messages(messages@)
                == b@.subrange(pos as int, end as int),
            None => true,
        },
        forall|id: usize, ms: Seq<StreamMessage>|
            #![trigger spec_u64_le(id as u64), spec_encode_messages(ms)]
            (ms.len() <= usize::MAX && b@.subrange(pos as int, b@.len() as int) == spec_u64_le(
                id as u64,
            ) + spec_u64_le(ms.len() as u64) + spec_encode_messages(ms)) ==> (r matches Some(
                (vals, end),
            ) && end == b@.len()),
{
    let ghost whole = b@.subrange(pos as int, b@.len() as int);
    proof {
        assert forall|id: usize, ms: Seq<StreamMessage>|
            #![trigger spec_u64_le(id as u64), spec_encode_messages(ms)]
            (ms.len() <= usize::MAX && whole == spec_u64_le(id as u64) + spec_u64_le(
                ms.len() as u64,
            ) + spec_encode_messages(ms)) implies {
                &&& pos + 16 <= b@.len()
                &&& spec_u64_le(id as u64) == b@.subrange(pos as int, pos + 8)
                &&& spec_u64_le(ms.len() as u64) == b@.subrange(pos + 8, pos + 16)
                &&& spec_messages_at_end(b@, pos + 16, ms)
            } by {
            assert(spec_u64_le(id as u64) + spec_u64_le(ms.len() as u64) + spec_encode_messages(ms)
                =~= spec_u64_le(id as u64) + (spec_u64_le(ms.len() as u64)
                + spec_encode_messages(ms)));
            lemma_region_split_at(
                b@,
                pos as int,
                b@.len() as int,
                spec_u64_le(id as u64),
                spec_u64_le(ms.len() as u64) + spec_encode_messages(ms),
            );
            lemma_region_split_at(
                b@,
                pos + 8,
                b@.len() as int,
                spec_u64_le(ms.len() as u64),
                spec_encode_messages(ms),
            );
        }
    }
    let (request_id, mid) = match read_usize(b, pos) {
        Some(t) => t,
        None => {
            return None;
        },
    };
    let (count, start) = match read_usize(b, mid) {
        Some(t) => t,
        None => {
            return None;
        },
    };
    let result = match read_messages(b, start, count) {
        Some(t) => t,
        None => {
            proof {
                assert forall|id: usize, ms: Seq<StreamMessage>|
                    #![trigger spec_u64_le(id as u64), spec_encode_messages(ms)]
                    !(ms.len() <= usize::MAX && whole == spec_u64_le(id as u64) + spec_u64_le(
                        ms.len() as u64,
                    ) + spec_encode_messages(ms)) by {
                    if ms.len() <= usize::MAX && whole == spec_u64_le(id as u64) + spec_u64_le(
                        ms.len() as u64,
                    ) + spec_encode_messages(ms) {
                        crate::change_events::lemma_u64_le_injective(
                            count as u64,
                            ms.len() as u64,
                        );
                    }
                }
            }
            return None;
        },
    };
    let (messages, end) = result;
    if end != b.len() {
        proof {
            assert forall|id: usize, ms: Seq<StreamMessage>|
                #![trigger spec_u64_le(id as u64), spec_encode_messages(ms)]
                !(ms.len() <= usize::MAX && whole == spec_u64_le(id as u64) + spec_u64_le(
                    ms.len() as u64,
                ) + spec_encode_messages(ms)) by {
                if ms.len() <= usize::MAX && whole == spec_u64_le(id as u64) + spec_u64_le(
                    ms.len() as u64,
                ) + spec_encode_messages(ms) {
                    crate::change_events::lemma_u64_le_injective(count as u64, ms.len() as u64);
                }
            }
        }
        return None;
    }
    proof {
        assert(spec_u64_le(request_id as u64) + spec_u64_le(messages@.len() as u64)
            + spec_encode_messages(messages@) =~= b@.subrange(pos as int, end as int));
    }
    Some(((request_id, messages), end))
}


/// One dispatch arm of [`StreamProtocol::parse`], for buffers opening
/// with the tag byte 0u8. Same contract as `parse`, under that tag.
fn parse_tagged_create(vec: &Vec<u8>) -> (r: Result<StreamProtocol, Error>)
    requires
        vec@.len() >= 1,
        vec@[0] == 0u8,
    ensures
        r matches Ok(m) ==> spec_encode_stream(m) == vec@,
        forall|m: StreamProtocol| vec@ == spec_encode_stream(m) ==> r is Ok,
{
    let b = vec.as_slice();
    let pos: usize = 1;
    match parse_create_fields(b, pos) {
        Some((stream_name, end)) => {
            let ghost piece = spec_encode_opt_string(stream_name);
            let m = StreamProtocol::CreateStreamRequest { stream_name };
            proof {
                assert(spec_encode_stream(m) =~= seq![0u8] + piece);
                assert(seq![0u8] + piece =~= vec@);
            }
            Ok(m)
        },
        None => {
            proof {
                assert forall|m: StreamProtocol| vec@ != spec_encode_stream(m) by {
                    if vec@ == spec_encode_stream(m) {
                        lemma_encode_stream_shape(m);
                        match m {
                            StreamProtocol::CreateStreamRequest { stream_name } => {
                                match stream_name {
                                    None => {
                                        assert(vec@.subrange(1, vec@.len() as int)
                                            =~= seq![0u8]);
                                    },
                                    Some(x) => {
                                        assert(vec@.subrange(1, vec@.len() as int)
                                            =~= seq![1u8] + spec_encode_string(x@));
                                    },
                                }
                            },
                            _ => {},
                        }
                    }
                }
            }
            Err(stream_protocol_error())
        },
    }
}

/// One dispatch arm of [`StreamProtocol::parse`], for buffers opening
/// with the tag byte 1u8. Same contract as `parse`, under that tag.
fn parse_tagged_init(vec: &Vec<u8>) -> (r: Result<StreamProtocol, Error>)
    requires
        vec@.len() >= 1,
        vec@[0] == 1u8,
    ensures
        r matches Ok(m) ==> spec_encode_stream(m) == vec@,
        forall|m: StreamProtocol| vec@ == spec_encode_stream(m) ==> r is Ok,
{
    let b = vec.as_slice();
    let pos: usize = 1;
    match parse_init_fields(b, pos) {
        Some((stream_name, end)) => {
            let ghost piece = spec_encode_string(stream_name@);
            let m = StreamProtocol::Init { stream_name };
            proof {
                assert(spec_encode_stream(m) =~= seq![1u8] + piece);
                assert(seq![1u8] + piece =~= vec@);
            }
            Ok(m)
        },
        None => {
            proof {
                assert forall|m: StreamProtocol| vec@ != spec_encode_stream(m) by {
                    if vec@ == spec_encode_stream(m) {
                        lemma_encode_stream_shape(m);
                        match m {
                            StreamProtocol::Init { stream_name } => {
                                assert(vec@.subrange(1, vec@.len() as int)
                                    =~= spec_encode_string(stream_name@));
                            },
                            _ => {},
                        }
                    }
                }
            }
            Err(stream_protocol_error())
        },
    }
}

/// One dispatch arm of [`StreamProtocol::parse`], for buffers opening
/// with the tag byte 2u8. Same contract as `parse`, under that tag.
fn parse_tagged_push(vec: &Vec<u8>) -> (r: Result<StreamProtocol, Error>)
    requires
        vec@.len() >= 1,
        vec@[0] == 2u8,
    ensures
        r matches Ok(m) ==> spec_encode_stream(m) == vec@,
        forall|m: StreamProtocol| vec@ == spec_encode_stream(m) ==> r is Ok,
{
    let b = vec.as_slice();
    let pos: usize = 1;
    match parse_push_fields(b, pos) {
        Some(((request_id, data), end)) => {
            let ghost piece = spec_u64_le(request_id as u64) + spec_encode_bytes(data@);
            let m = StreamProtocol::PushRequest { request_id, data };
            proof {
                assert(spec_encode_stream(m) =~= seq![2u8] + piece);
                assert(seq![2u8] + piece =~= vec@);
            }
            Ok(m)
        },
        None => {
            proof {
                assert forall|m: StreamProtocol| vec@ != spec_encode_stream(m) by {
                    if vec@ == spec_encode_stream(m) {
                        lemma_encode_stream_shape(m);
                        match m {
                            StreamProtocol::PushRequest { request_id, data } => {
                                assert(vec@.subrange(1, vec@.len() as int) =~= spec_u64_le(
                                    request_id as u64,
                                ) + spec_encode_bytes(data@));
                            },
                            _ => {},
                        }
                    }
                }
            }
            Err(stream_protocol_error())
        },
    }
}

/// One dispatch arm of [`StreamProtocol::parse`], for buffers opening
/// with the tag byte 3u8. Same contract as `parse`, under that tag.
fn parse_tagged_confirm(vec: &Vec<u8>) -> (r: Result<StreamProtocol, Error>)
    requires
        vec@.len() >= 1,
        vec@[0] == 3u8,
    ensures
        r matches Ok(m) ==> spec_encode_stream(m) == vec@,
        forall|m: StreamProtocol| vec@ == spec_encode_stream(m) ==> r is Ok,
{
    let b = vec.as_slice();
    let pos: usize = 1;
    match parse_confirm_fields(b, pos) {
        Some(((request_id, status), end)) => {
            let ghost piece = spec_u64_le(request_id as u64) + seq![
                spec_confirm_status_byte(status),
            ];
            let m = StreamProtocol::PushConfirm { request_id, status };
            proof {
                assert(spec_encode_stream(m) =~= seq![3u8] + piece);
                assert(seq![3u8] + piece =~= vec@);
            }
            Ok(m)
        },
        None => {
            proof {
                assert forall|m: StreamProtocol| vec@ != spec_encode_stream(m) by {
                    if vec@ == spec_encode_stream(m) {
                        lemma_encode_stream_shape(m);
                        match m {
                            StreamProtocol::PushConfirm { request_id, status } => {
                                assert(vec@.subrange(1, vec@.len() as int) =~= spec_u64_le(
                                    request_id as u64,
                                ) + seq![spec_confirm_status_byte(status)]);
                            },
                            _ => {},
                        }
                    }
                }
            }
            Err(stream_protocol_error())
        },
    }
}

/// One dispatch arm of [`StreamProtocol::parse`], for buffers opening
/// with the tag byte 4u8. Same contract as `parse`, under that tag.
fn parse_tagged_pull_request(vec: &Vec<u8>) -> (r: Result<StreamProtocol, Error>)
    requires
        vec@.len() >= 1,
        vec@[0] == 4u8,
    ensures
        r matches Ok(m) ==> spec_encode_stream(m) == vec@,
        forall|m: StreamProtocol| vec@ == spec_encode_stream(m) ==> r is Ok,
{
    let b = vec.as_slice();
    let pos: usize = 1;
    match parse_pull_request_fields(b, pos) {
        Some(((request_id, index, limit), end)) => {
            let ghost piece = spec_u64_le(request_id as u64) + spec_u64_le(index as u64)
                + spec_u64_le(limit as u64);
            let m = StreamProtocol::PullRequest { request_id, index, limit };
            proof {
                assert(spec_encode_stream(m) =~= seq![4u8] + piece);
                assert(seq![4u8] + piece =~= vec@);
            }
            Ok(m)
        },
        None => {
            proof {
                assert forall|m: StreamProtocol| vec@ != spec_encode_stream(m) by {
                    if vec@ == spec_encode_stream(m) {
                        lemma_encode_stream_shape(m);
                        match m {
                            StreamProtocol::PullRequest { request_id, index, limit } => {
                                assert(vec@.subrange(1, vec@.len() as int) =~= spec_u64_le(
                                    request_id as u64,
                                ) + spec_u64_le(index as u64) + spec_u64_le(limit as u64));
                            },
                            _ => {},
                        }
                    }
                }
            }
            Err(stream_protocol_error())
        },
    }
}

/// One dispatch arm of [`StreamProtocol::parse`], for buffers opening
/// with the tag byte 5u8. Same contract as `parse`, under that tag.
fn parse_tagged_pull_response(vec: &Vec<u8>) -> (r: Result<StreamProtocol, Error>)
    requires
        vec@.len() >= 1,
        vec@[0] == 5u8,
    ensures
        r matches Ok(m) ==> spec_encode_stream(m) == vec@,
        forall|m: StreamProtocol| vec@ == spec_encode_stream(m) ==> r is Ok,
{
    let b = vec.as_slice();
    let pos: usize = 1;
    match parse_pull_response_fields(b, pos) {
        Some(((request_id, messages), end)) => {
            let ghost piece = spec_u64_le(request_id as u64) + spec_u64_le(
                messages@.len() as u64,
            ) + spec_encode_messages(messages@);
            let m = StreamProtocol::PullResponse { request_id, messages };
            proof {
                assert(spec_encode_stream(m) =~= seq![5u8] + piece);
                assert(seq![5u8] + piece =~= vec@);
            }
            Ok(m)
        },
        None => {
            proof {
                assert forall|m: StreamProtocol| vec@ != spec_encode_stream(m) by {
                    if vec@ == spec_encode_stream(m) {
                        lemma_encode_stream_shape(m);
                        match m {
                            StreamProtocol::PullResponse { request_id, messages } => {
                                vstd::std_specs::vec::axiom_spec_len(&messages);
                                assert(vec@.subrange(1, vec@.len() as int) =~= spec_u64_le(
                                    request_id as u64,
                                ) + spec_u64_le(messages@.len() as u64)
                                    + spec_encode_messages(messages@));
                            },
                            _ => {},
                        }
                    }
                }
            }
            Err(stream_protocol_error())
        },
    }
}

impl StreamProtocol {
    /// Parse a canonically encoded stream protocol message.
    ///
    /// The contract is exact in both directions: whatever is accepted
    /// re-encodes, via [`StreamProtocol::encode`], to exactly the bytes
    /// parsed, and every buffer that is the encoding of some message is
    /// accepted. (A text field's value is pinned through the re-encoding
    /// clause — over its bytes — as string values carry no extensionality
    /// of their own.) Anything else — an unknown tag, a short or overlong
    /// buffer, a length that does not fit, a string that is not UTF-8 — is
    /// rejected.
    pub fn parse(vec: &Vec<u8>) -> (r: Result<Self, Error>)
        ensures
            r matches Ok(m) ==> spec_encode_stream(m) == vec@,
            forall|m: StreamProtocol| vec@ == spec_encode_stream(m) ==> r is Ok,
    {
        let b = vec.as_slice();
        let (tag, _pos) = match read_u8(b, 0) {
            Some(t) => t,
            None => {
                proof {
                    assert forall|m: StreamProtocol| vec@ != spec_encode_stream(m) by {
                        lemma_encode_stream_shape(m);
                    }
                }
                return Err(stream_protocol_error());
            },
        };
        proof {
            assert(b@ == vec@);
            assert(vec@[0] == vec@.subrange(0, 1)[0]);
            assert(vec@[0] == seq![tag][0]);
            assert(vec@.len() >= 1 && vec@[0] == tag);
        }
        if tag == 0u8 {
            parse_tagged_create(vec)
        } else if tag == 1u8 {
            parse_tagged_init(vec)
        } else if tag == 2u8 {
            parse_tagged_push(vec)
        } else if tag == 3u8 {
            parse_tagged_confirm(vec)
        } else if tag == 4u8 {
            parse_tagged_pull_request(vec)
        } else if tag == 5u8 {
            parse_tagged_pull_response(vec)
        } else {
            proof {
                assert forall|m: StreamProtocol| vec@ != spec_encode_stream(m) by {
                    lemma_encode_stream_shape(m);
                }
            }
            Err(stream_protocol_error())
        }
    }
}

/// The error a malformed stream protocol buffer is rejected with.
fn stream_protocol_error() -> Error {
    Error::new(1, "OCKAM_STREAM".to_owned())
}

/// Appending one message to a list appends its encoding to the list's.
proof fn lemma_encode_messages_push(ms: Seq<StreamMessage>, m: StreamMessage)
    ensures
        spec_encode_messages(ms.push(m)) == spec_encode_messages(ms) + spec_encode_stream_message(
            m,
        ),
    decreases ms.len(),
{
    if ms.len() == 0 {
        assert(ms.push(m).first() == m);
        assert(ms.push(m).drop_first() =~= Seq::<StreamMessage>::empty());
        assert(spec_encode_messages(Seq::<StreamMessage>::empty()) == Seq::<u8>::empty());
        assert(spec_encode_messages(ms.push(m)) == spec_encode_stream_message(m)
            + Seq::<u8>::empty());
        assert(spec_encode_messages(ms.push(m)) =~= spec_encode_messages(ms)
            + spec_encode_stream_message(m));
    } else {
        lemma_encode_messages_push(ms.drop_first(), m);
        assert(ms.push(m).first() == ms.first());
        assert(ms.push(m).drop_first() =~= ms.drop_first().push(m));
        assert(spec_encode_messages(ms.push(m)) == spec_encode_stream_message(ms.first())
            + spec_encode_messages(ms.drop_first().push(m)));
        assert(spec_encode_messages(ms.drop_first().push(m)) == spec_encode_messages(
            ms.drop_first(),
        ) + spec_encode_stream_message(m));
        assert(spec_encode_messages(ms) == spec_encode_stream_message(ms.first())
            + spec_encode_messages(ms.drop_first()));
        assert(spec_encode_messages(ms.push(m)) =~= spec_encode_messages(ms)
            + spec_encode_stream_message(m));
    }
}

} // verus!
