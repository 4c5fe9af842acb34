//! The ICMP echo codec: building Echo Request packets and parsing Echo
//! Reply packets, both as plain byte sequences.
//!
//! ```text
//!  0      1      2      3      4      5      6      7      8 ...
//! +------+------+-------------+-------------+-------------+---------
//! | type | code |  checksum   | identifier  |  sequence   | payload
//! +------+------+-------------+-------------+-------------+---------
//! ```
//! Multi-byte fields are in network byte order.

use vstd::prelude::*;
use vstd::slice::slice_subrange;
use crate::checksum::{
    byte_weight,
    checksum,
    checksum_validates,
    flip_bit,
    internet_checksum,
    lemma_complement_completes,
    lemma_single_bit_flip_changes_checksum,
    lemma_word_sum_update,
    word_sum,
};

verus! {

/// ICMP type of an Echo Request.
pub const ECHO_REQUEST_TYPE: u8 = 8;

/// ICMP type of an Echo Reply.
pub const ECHO_REPLY_TYPE: u8 = 0;

/// The only ICMP code that echo messages use.
pub const ECHO_CODE: u8 = 0;

/// Length of the echo header that precedes the payload.
pub const HEADER_LEN: usize = 8;

/// The more significant byte of `x`.
pub open spec fn high_byte(x: u16) -> u8 {
    (x / 256) as u8
}

/// The less significant byte of `x`.
pub open spec fn low_byte(x: u16) -> u8 {
    (x % 256) as u8
}

/// The 16-bit number whose network-order bytes are `hi`, `lo`.
pub open spec fn be16(hi: u8, lo: u8) -> u16 {
    (hi as int * 256 + lo as int) as u16
}

/// The eight header bytes of an echo message.
pub open spec fn echo_header(
    icmp_type: u8,
    code: u8,
    sum: u16,
    identifier: u16,
    sequence: u16,
) -> Seq<u8> {
    seq![
        icmp_type,
        code,
        high_byte(sum),
        low_byte(sum),
        high_byte(identifier),
        low_byte(identifier),
        high_byte(sequence),
        low_byte(sequence),
    ]
}

/// An Echo Request whose checksum field is still zero.
pub open spec fn unsummed_request(identifier: u16, sequence: u16, payload: Seq<u8>) -> Seq<u8> {
    echo_header(ECHO_REQUEST_TYPE, ECHO_CODE, 0, identifier, sequence) + payload
}

/// The checksum that an Echo Request carries: the Internet checksum of the
/// whole message taken with a zero checksum field.
pub open spec fn request_checksum(identifier: u16, sequence: u16, payload: Seq<u8>) -> u16 {
    internet_checksum(unsummed_request(identifier, sequence, payload))
}

/// The bytes of a well-formed Echo Request.
pub open spec fn echo_request_bytes(identifier: u16, sequence: u16, payload: Seq<u8>) -> Seq<u8> {
    echo_header(
        ECHO_REQUEST_TYPE,
        ECHO_CODE,
        request_checksum(identifier, sequence, payload),
        identifier,
        sequence,
    ) + payload
}

/// Why an Echo Request could not be written.
#[derive(Clone, Copy, Debug, PartialEq, Eq, Structural)]
pub enum EncodingError {
    /// The buffer cannot hold the header and the payload.
    BufferTooSmall,
}

/// Why a received message is not an Echo Reply.
#[derive(Clone, Copy, Debug, PartialEq, Eq, Structural)]
pub enum DecodingError {
    /// Fewer bytes than an echo header.
    Truncated,
    /// The type or the code is not that of an Echo Reply.
    NotEchoReply,
}

/// An outbound probe.
#[derive(Clone, Debug)]
pub struct EchoRequest {
    pub identifier: u16,
    pub sequence: u16,
    pub payload: Vec<u8>,
}

/// A parsed inbound reply. `size` is the length of the whole message.
#[derive(Clone, Debug)]
pub struct EchoReply {
    pub identifier: u16,
    pub sequence: u16,
    pub payload: Vec<u8>,
    pub size: usize,
}

/// What an `EchoReply` stands for.
pub struct EchoReplyView {
    pub identifier: u16,
    pub sequence: u16,
    pub payload: Seq<u8>,
    pub size: nat,
}

impl View for EchoReply {
    type V = EchoReplyView;

    open spec fn view(&self) -> EchoReplyView {
        EchoReplyView {
            identifier: self.identifier,
            sequence: self.sequence,
            payload: self.payload@,
            size: self.size as nat,
        }
    }
}

/// What parsing `raw` as an Echo Reply yields.
pub open spec fn decode_result(raw: Seq<u8>) -> Result<EchoReplyView, DecodingError> {
    if raw.len() < HEADER_LEN {
        Err(DecodingError::Truncated)
    } else if raw[0] != ECHO_REPLY_TYPE || raw[1] != ECHO_CODE {
        Err(DecodingError::NotEchoReply)
    } else {
        Ok(
            EchoReplyView {
                identifier: be16(raw[4], raw[5]),
                sequence: be16(raw[6], raw[7]),
                payload: raw.skip(8),
                size: raw.len(),
            },
        )
    }
}

/// Splitting a 16-bit number into bytes and joining them gives it back.
pub proof fn lemma_be16_of_bytes(x: u16)
    ensures
        be16(high_byte(x), low_byte(x)) == x,
{
}

/// Writes an Echo Request into the front of `buf` and returns its length.
///
/// The message takes `HEADER_LEN + payload.len()` bytes; the rest of the
/// buffer keeps its contents. When the buffer is too small nothing is
/// written.
pub fn encode_echo_request(
    identifier: u16,
    sequence: u16,
    payload: &[u8],
    buf: &mut [u8],
) -> (written: Result<usize, EncodingError>)
    ensures
        written is Ok <==> old(buf).len() >= HEADER_LEN + payload.len(),
        final(buf).len() == old(buf).len(),
        match written {
            Ok(n) => {
                &&& n == HEADER_LEN + payload.len()
                &&& final(buf)@.take(n as int) == echo_request_bytes(
                    identifier,
                    sequence,
                    payload@,
                )
                &&& final(buf)@.skip(n as int) == old(buf)@.skip(n as int)
                &&& checksum_validates(final(buf)@.take(n as int))
            },
            Err(e) => e == EncodingError::BufferTooSmall && final(buf)@ == old(buf)@,
        },
{
    if buf.len() < HEADER_LEN || buf.len() - HEADER_LEN < payload.len() {
        return Err(EncodingError::BufferTooSmall);
    }
    let n: usize = HEADER_LEN + payload.len();
    buf[0] = ECHO_REQUEST_TYPE;
    buf[1] = ECHO_CODE;
    buf[2] = 0;
    buf[3] = 0;
    buf[4] = (identifier / 256) as u8;
    buf[5] = (identifier % 256) as u8;
    buf[6] = (sequence / 256) as u8;
    buf[7] = (sequence % 256) as u8;
    let mut i: usize = 0;
    while i < payload.len()
        invariant
            i <= payload.len(),
            n == HEADER_LEN + payload.len(),
            buf.len() == old(buf).len(),
            n <= buf.len(),
            buf@.take(8) == echo_header(ECHO_REQUEST_TYPE, ECHO_CODE, 0, identifier, sequence),
            forall|j: int| 0 <= j < i ==> buf@[8 + j] == payload@[j],
            forall|k: int| n <= k < buf.len() ==> buf@[k] == old(buf)@[k],
        decreases payload.len() - i,
    {
        buf[HEADER_LEN + i] = payload[i];
        i = i + 1;
    }
    proof {
        assert(buf@.take(n as int) == unsummed_request(identifier, sequence, payload@));
    }
    let sum: u16 = checksum(slice_subrange(buf, 0, n));
    proof {
        assert(buf@.subrange(0, n as int) == buf@.take(n as int));
    }
    buf[2] = (sum / 256) as u8;
    buf[3] = (sum % 256) as u8;
    proof {
        assert(buf@.take(n as int) == echo_request_bytes(identifier, sequence, payload@));
        assert(buf@.skip(n as int) == old(buf)@.skip(n as int));
        lemma_encoded_request_validates(identifier, sequence, payload@);
    }
    Ok(n)
}

/// Parses `raw` as an Echo Reply.
///
/// Only the length, the type and the code are checked; the checksum is
/// left to `verify_checksum`.
pub fn decode_echo_reply(raw: &[u8]) -> (reply: Result<EchoReply, DecodingError>)
    ensures
        match reply {
            Ok(r) => decode_result(raw@) == Ok::<EchoReplyView, DecodingError>(r@),
            Err(e) => decode_result(raw@) == Err::<EchoReplyView, DecodingError>(e),
        },
{
    if raw.len() < HEADER_LEN {
        return Err(DecodingError::Truncated);
    }
    if raw[0] != ECHO_REPLY_TYPE || raw[1] != ECHO_CODE {
        return Err(DecodingError::NotEchoReply);
    }
    let identifier: u16 = (raw[4] as u16) * 256 + (raw[5] as u16);
    let sequence: u16 = (raw[6] as u16) * 256 + (raw[7] as u16);
    let mut payload: Vec<u8> = Vec::new();
    let mut i: usize = HEADER_LEN;
    while i < raw.len()
        invariant
            HEADER_LEN <= i <= raw.len(),
            payload@ == raw@.subrange(8, i as int),
        decreases raw.len() - i,
    {
        payload.push(raw[i]);
        i = i + 1;
    }
    proof {
        assert(payload@ == raw@.skip(8));
    }
    Ok(EchoReply { identifier, sequence, payload, size: raw.len() })
}

impl EchoRequest {
    /// Writes this request into the front of `buf`.
    pub fn encode(&self, buf: &mut [u8]) -> (written: Result<usize, EncodingError>)
        ensures
            written is Ok <==> old(buf).len() >= HEADER_LEN + self.payload@.len(),
            final(buf).len() == old(buf).len(),
            match written {
                Ok(n) => {
                    &&& n == HEADER_LEN + self.payload@.len()
                    &&& final(buf)@.take(n as int) == echo_request_bytes(
                        self.identifier,
                        self.sequence,
                        self.payload@,
                    )
                    &&& final(buf)@.skip(n as int) == old(buf)@.skip(n as int)
                    &&& checksum_validates(final(buf)@.take(n as int))
                },
                Err(e) => e == EncodingError::BufferTooSmall && final(buf)@ == old(buf)@,
            },
    {
        encode_echo_request(self.identifier, self.sequence, self.payload.as_slice(), buf)
    }
}

/// Requests and replies are never mistaken for one another: what
/// `encode_echo_request` writes is always refused by `decode_echo_reply`.
pub proof fn lemma_request_is_not_a_reply(identifier: u16, sequence: u16, payload: Seq<u8>)
    ensures
        decode_result(echo_request_bytes(identifier, sequence, payload)) == Err::<
            EchoReplyView,
            DecodingError,
        >(DecodingError::NotEchoReply),
{
}

/// A message that differs from an Echo Request only in carrying the reply
/// type decodes to the identifier, sequence number and payload it was
/// built from, whatever its checksum field holds.
pub proof fn lemma_reply_fields_round_trip(
    sum: u16,
    identifier: u16,
    sequence: u16,
    payload: Seq<u8>,
)
    ensures
        decode_result(
            echo_header(ECHO_REPLY_TYPE, ECHO_CODE, sum, identifier, sequence) + payload,
        ) == Ok::<EchoReplyView, DecodingError>(
            EchoReplyView {
                identifier,
                sequence,
                payload,
                size: (HEADER_LEN + payload.len()) as nat,
            },
        ),
{
    let raw = echo_header(ECHO_REPLY_TYPE, ECHO_CODE, sum, identifier, sequence) + payload;
    lemma_be16_of_bytes(identifier);
    lemma_be16_of_bytes(sequence);
    assert(raw.skip(8) == payload);
}

/// The checksum field that `encode_echo_request` writes makes the whole
/// message validate: summed with its checksum field in place, an encoded
/// request has checksum zero.
pub proof fn lemma_encoded_request_validates(identifier: u16, sequence: u16, payload: Seq<u8>)
    ensures
        checksum_validates(echo_request_bytes(identifier, sequence, payload)),
{
    let bare = unsummed_request(identifier, sequence, payload);
    let sum = request_checksum(identifier, sequence, payload);
    let full = echo_request_bytes(identifier, sequence, payload);
    let step = bare.update(2, high_byte(sum));
    assert(full == step.update(3, low_byte(sum)));
    lemma_word_sum_update(bare, 2, high_byte(sum));
    lemma_word_sum_update(step, 3, low_byte(sum));
    assert(byte_weight(2) == 256 && byte_weight(3) == 1);
    assert(word_sum(full) == word_sum(bare) + sum);
    lemma_complement_completes(word_sum(bare));
}

/// Corruption of the payload is detected: inverting any single payload
/// bit of an encoded request leaves a message that no longer validates,
/// and whose checksum differs from that of the intact message.
pub proof fn lemma_payload_bit_flip_detected(
    identifier: u16,
    sequence: u16,
    payload: Seq<u8>,
    i: int,
    bit: u8,
)
    requires
        0 <= i < payload.len(),
        bit < 8,
    ensures
        ({
            let sent = echo_request_bytes(identifier, sequence, payload);
            let damaged = sent.update(HEADER_LEN + i, flip_bit(payload[i], bit));
            &&& internet_checksum(damaged) != internet_checksum(sent)
            &&& !checksum_validates(damaged)
        }),
        request_checksum(identifier, sequence, payload.update(i, flip_bit(payload[i], bit)))
            != request_checksum(identifier, sequence, payload),
{
    let sent = echo_request_bytes(identifier, sequence, payload);
    lemma_encoded_request_validates(identifier, sequence, payload);
    lemma_single_bit_flip_changes_checksum(sent, HEADER_LEN + i, bit);
    let bare = unsummed_request(identifier, sequence, payload);
    lemma_single_bit_flip_changes_checksum(bare, HEADER_LEN + i, bit);
    assert(bare.update(HEADER_LEN + i, flip_bit(payload[i], bit)) == unsummed_request(
        identifier,
        sequence,
        payload.update(i, flip_bit(payload[i], bit)),
    ));
}

} // verus!
