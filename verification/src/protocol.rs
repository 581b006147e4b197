//! Versioned protocol envelopes: a ten-byte header (`DTTA` magic, big-endian
//! version, big-endian payload length) followed by the payload bytes.
use vstd::prelude::*;
use vstd::slice::slice_subrange;

verus! {

/// The four magic bytes that open every envelope (`DTTA`).
pub const PROTOCOL_MAGIC: [u8; 4] = [0x44u8, 0x54u8, 0x54u8, 0x41u8];

/// The envelope version this node writes and accepts.
pub const CURRENT_PROTOCOL_VERSION: u16 = 1;

/// Length of the envelope header in bytes.
pub const HEADER_LEN: usize = 10;

/// Largest payload an envelope may carry (16 MiB).
pub const MAX_PAYLOAD_LEN: usize = 16777216;

/// The kind of a protocol message, as carried on the wire.
#[derive(Clone, Copy, Debug, PartialEq, Eq, PartialOrd, Ord, Hash, Structural)]
pub enum ProtocolMessageKind {
    Transaction,
    Block,
    Vote,
    FinalityCertificate,
    ValidatorSetUpdate,
    EquivocationEvidence,
    StateSnapshot,
}

/// Why an envelope could not be written or read.
#[derive(Clone, Debug, PartialEq, Eq)]
pub enum ProtocolError {
    TruncatedHeader { actual: usize },
    BadMagic { actual: [u8; 4] },
    UnsupportedVersion { actual: u16 },
    PayloadTooLarge { actual: usize, max: usize },
    PayloadLengthOverflow { actual: usize },
    LengthMismatch { declared: usize, actual: usize },
    EncodeFailed,
    DecodeFailed,
}

/// The magic bytes as a sequence.
pub open spec fn magic_bytes() -> Seq<u8> {
    seq![0x44u8, 0x54u8, 0x54u8, 0x41u8]
}

/// Big-endian encoding of a 16-bit value.
pub open spec fn be_u16(v: int) -> Seq<u8> {
    seq![(v / 256) as u8, (v % 256) as u8]
}

/// Big-endian encoding of a 32-bit value.
pub open spec fn be_u32(v: int) -> Seq<u8> {
    seq![
        (v / 16777216) as u8,
        ((v / 65536) % 256) as u8,
        ((v / 256) % 256) as u8,
        (v % 256) as u8,
    ]
}

/// Value of a big-endian 16-bit field.
pub open spec fn be_u16_value(b0: u8, b1: u8) -> int {
    b0 * 256 + b1
}

/// Value of a big-endian 32-bit field.
pub open spec fn be_u32_value(b0: u8, b1: u8, b2: u8, b3: u8) -> int {
    b0 * 16777216 + b1 * 65536 + b2 * 256 + b3
}

/// The envelope that frames `payload` under `version`.
pub open spec fn envelope(version: u16, payload: Seq<u8>) -> Seq<u8> {
    magic_bytes() + be_u16(version as int) + be_u32(payload.len() as int) + payload
}

/// The version field of a header.
pub open spec fn header_version(bytes: Seq<u8>) -> int {
    be_u16_value(bytes[4], bytes[5])
}

/// The declared payload length of a header.
pub open spec fn header_declared_len(bytes: Seq<u8>) -> int {
    be_u32_value(bytes[6], bytes[7], bytes[8], bytes[9])
}

/// Whether `bytes` is a well-formed envelope of the current version.
pub open spec fn is_valid_envelope(bytes: Seq<u8>) -> bool {
    &&& bytes.len() >= HEADER_LEN
    &&& bytes.subrange(0, 4) == magic_bytes()
    &&& header_version(bytes) == CURRENT_PROTOCOL_VERSION
    &&& header_declared_len(bytes) <= MAX_PAYLOAD_LEN
    &&& header_declared_len(bytes) == bytes.len() - HEADER_LEN
}

proof fn lemma_be_u16_round_trip(v: int)
    requires
        0 <= v < 65536,
    ensures
        be_u16_value(be_u16(v)[0], be_u16(v)[1]) == v,
{
}

proof fn lemma_be_u32_round_trip(v: int)
    requires
        0 <= v < 4294967296,
    ensures
        be_u32_value(be_u32(v)[0], be_u32(v)[1], be_u32(v)[2], be_u32(v)[3]) == v,
{
    let b0 = v / 16777216;
    let r0 = v % 16777216;
    let b1 = r0 / 65536;
    let r1 = r0 % 65536;
    let b2 = r1 / 256;
    let b3 = r1 % 256;
    assert((v / 65536) % 256 == b1) by (nonlinear_arith)
        requires
            0 <= v < 4294967296,
            b0 == v / 16777216,
            r0 == v % 16777216,
            b1 == r0 / 65536,
    ;
    assert((v / 256) % 256 == b2) by (nonlinear_arith)
        requires
            0 <= v < 4294967296,
            r0 == v % 16777216,
            r1 == r0 % 65536,
            b2 == r1 / 256,
    ;
    assert(v % 256 == b3) by (nonlinear_arith)
        requires
            0 <= v,
            r0 == v % 16777216,
            r1 == r0 % 65536,
            b3 == r1 % 256,
    ;
    assert(v == b0 * 16777216 + b1 * 65536 + b2 * 256 + b3) by (nonlinear_arith)
        requires
            0 <= v,
            b0 == v / 16777216,
            r0 == v % 16777216,
            b1 == r0 / 65536,
            r1 == r0 % 65536,
            b2 == r1 / 256,
            b3 == r1 % 256,
    ;
}

/// Frames `payload` under `version`.
///
/// Fails with `PayloadTooLarge` exactly when the payload is longer than
/// `MAX_PAYLOAD_LEN`; otherwise returns the header followed by the payload.
pub fn encode_payload(version: u16, payload: &[u8]) -> (result: Result<Vec<u8>, ProtocolError>)
    ensures
        payload@.len() > MAX_PAYLOAD_LEN ==> result == Err::<Vec<u8>, ProtocolError>(
            ProtocolError::PayloadTooLarge { actual: payload@.len() as usize, max: MAX_PAYLOAD_LEN },
        ),
        payload@.len() <= MAX_PAYLOAD_LEN ==> (result matches Ok(bytes) && bytes@ == envelope(
            version,
            payload@,
        )),
{
    let len = payload.len();
    if len > MAX_PAYLOAD_LEN {
        return Err(ProtocolError::PayloadTooLarge { actual: len, max: MAX_PAYLOAD_LEN });
    }
    let payload_len: u32 = len as u32;
    let mut bytes: Vec<u8> = Vec::with_capacity(HEADER_LEN + len);
    bytes.push(0x44u8);
    bytes.push(0x54u8);
    bytes.push(0x54u8);
    bytes.push(0x41u8);
    bytes.push((version / 256) as u8);
    bytes.push((version % 256) as u8);
    bytes.push((payload_len / 16777216) as u8);
    bytes.push(((payload_len / 65536) % 256) as u8);
    bytes.push(((payload_len / 256) % 256) as u8);
    bytes.push((payload_len % 256) as u8);
    assert(bytes@ =~= magic_bytes() + be_u16(version as int) + be_u32(len as int));
    let mut i: usize = 0;
    while i < len
        invariant
            i <= len,
            len == payload@.len(),
            len <= MAX_PAYLOAD_LEN,
            bytes@ =~= magic_bytes() + be_u16(version as int) + be_u32(len as int)
                + payload@.subrange(0, i as int),
        decreases len - i,
    {
        bytes.push(payload[i]);
        i = i + 1;
    }
    assert(payload@.subrange(0, len as int) =~= payload@);
    Ok(bytes)
}

/// Reads the payload out of an envelope.
///
/// The checks run in order, and the first that fails names the error: the
/// header must be complete, the magic must be `DTTA`, the version must be the
/// current one, the declared length must not exceed `MAX_PAYLOAD_LEN`, and it
/// must equal the number of bytes after the header.
pub fn decode_payload(bytes: &[u8]) -> (result: Result<&[u8], ProtocolError>)
    ensures
        bytes@.len() < HEADER_LEN ==> result == Err::<&[u8], ProtocolError>(
            ProtocolError::TruncatedHeader { actual: bytes@.len() as usize },
        ),
        bytes@.len() >= HEADER_LEN && bytes@.subrange(0, 4) != magic_bytes() ==> (result matches Err(
            ProtocolError::BadMagic { actual },
        ) && actual@ == bytes@.subrange(0, 4)),
        bytes@.len() >= HEADER_LEN && bytes@.subrange(0, 4) == magic_bytes() && header_version(
            bytes@,
        ) != CURRENT_PROTOCOL_VERSION ==> result == Err::<&[u8], ProtocolError>(
            ProtocolError::UnsupportedVersion { actual: header_version(bytes@) as u16 },
        ),
        bytes@.len() >= HEADER_LEN && bytes@.subrange(0, 4) == magic_bytes() && header_version(
            bytes@,
        ) == CURRENT_PROTOCOL_VERSION && header_declared_len(bytes@) > MAX_PAYLOAD_LEN ==> result
            == Err::<&[u8], ProtocolError>(
            ProtocolError::PayloadTooLarge {
                actual: header_declared_len(bytes@) as usize,
                max: MAX_PAYLOAD_LEN,
            },
        ),
        bytes@.len() >= HEADER_LEN && bytes@.subrange(0, 4) == magic_bytes() && header_version(
            bytes@,
        ) == CURRENT_PROTOCOL_VERSION && header_declared_len(bytes@) <= MAX_PAYLOAD_LEN
            && header_declared_len(bytes@) != bytes@.len() - HEADER_LEN ==> result == Err::<
            &[u8],
            ProtocolError,
        >(
            ProtocolError::LengthMismatch {
                declared: header_declared_len(bytes@) as usize,
                actual: (bytes@.len() - HEADER_LEN) as usize,
            },
        ),
        result is Ok <==> is_valid_envelope(bytes@),
        result matches Ok(payload) ==> payload@ == bytes@.subrange(HEADER_LEN as int, bytes@.len() as int),
{
    let len = bytes.len();
    if len < HEADER_LEN {
        return Err(ProtocolError::TruncatedHeader { actual: len });
    }
    let magic: [u8; 4] = [bytes[0], bytes[1], bytes[2], bytes[3]];
    assert(magic@ =~= bytes@.subrange(0, 4));
    if !(bytes[0] == 0x44u8 && bytes[1] == 0x54u8 && bytes[2] == 0x54u8 && bytes[3] == 0x41u8) {
        assert(bytes@.subrange(0, 4) != magic_bytes()) by {
            if bytes@.subrange(0, 4) == magic_bytes() {
                assert(bytes@.subrange(0, 4)[0] == bytes@[0]);
                assert(bytes@.subrange(0, 4)[1] == bytes@[1]);
                assert(bytes@.subrange(0, 4)[2] == bytes@[2]);
                assert(bytes@.subrange(0, 4)[3] == bytes@[3]);
            }
        }
        return Err(ProtocolError::BadMagic { actual: magic });
    }
    assert(bytes@.subrange(0, 4) =~= magic_bytes());
    let version: u16 = (bytes[4] as u16) * 256 + (bytes[5] as u16);
    if version != CURRENT_PROTOCOL_VERSION {
        return Err(ProtocolError::UnsupportedVersion { actual: version });
    }
    let declared32: u32 = (bytes[6] as u32) * 16777216 + (bytes[7] as u32) * 65536 + (
    bytes[8] as u32) * 256 + (bytes[9] as u32);
    let declared: usize = declared32 as usize;
    if declared > MAX_PAYLOAD_LEN {
        return Err(ProtocolError::PayloadTooLarge { actual: declared, max: MAX_PAYLOAD_LEN });
    }
    let actual = len - HEADER_LEN;
    if declared != actual {
        return Err(ProtocolError::LengthMismatch { declared, actual });
    }
    Ok(slice_subrange(bytes, HEADER_LEN, len))
}

/// Reading back what `encode_payload` wrote under the current version yields
/// the same payload.
pub proof fn lemma_decode_encode_round_trip(payload: Seq<u8>)
    requires
        payload.len() <= MAX_PAYLOAD_LEN,
    ensures
        is_valid_envelope(envelope(CURRENT_PROTOCOL_VERSION, payload)),
        envelope(CURRENT_PROTOCOL_VERSION, payload).subrange(
            HEADER_LEN as int,
            envelope(CURRENT_PROTOCOL_VERSION, payload).len() as int,
        ) == payload,
{
    let e = envelope(CURRENT_PROTOCOL_VERSION, payload);
    let v = be_u16(CURRENT_PROTOCOL_VERSION as int);
    let l = be_u32(payload.len() as int);
    lemma_be_u16_round_trip(CURRENT_PROTOCOL_VERSION as int);
    lemma_be_u32_round_trip(payload.len() as int);
    assert(e[4] == v[0]);
    assert(e[5] == v[1]);
    assert(e[6] == l[0]);
    assert(e[7] == l[1]);
    assert(e[8] == l[2]);
    assert(e[9] == l[3]);
    assert(e.subrange(0, 4) =~= magic_bytes());
    assert(e.subrange(HEADER_LEN as int, e.len() as int) =~= payload);
}

/// Every well-formed envelope is the encoding of the payload it carries, so
/// decoding and re-encoding gives back the same bytes.
pub proof fn lemma_encode_decode_round_trip(bytes: Seq<u8>)
    requires
        is_valid_envelope(bytes),
    ensures
        envelope(CURRENT_PROTOCOL_VERSION, bytes.subrange(HEADER_LEN as int, bytes.len() as int))
            == bytes,
{
    let p = bytes.subrange(HEADER_LEN as int, bytes.len() as int);
    let e = envelope(CURRENT_PROTOCOL_VERSION, p);
    let v = be_u16(CURRENT_PROTOCOL_VERSION as int);
    let l = be_u32(p.len() as int);
    lemma_be_u16_round_trip(CURRENT_PROTOCOL_VERSION as int);
    lemma_be_u32_round_trip(p.len() as int);
    lemma_byte_fields_unique(bytes[4], bytes[5], v[0], v[1]);
    lemma_u32_fields_unique(bytes[6], bytes[7], bytes[8], bytes[9], l[0], l[1], l[2], l[3]);
    assert(bytes.subrange(0, 4)[0] == bytes[0]);
    assert(bytes.subrange(0, 4)[1] == bytes[1]);
    assert(bytes.subrange(0, 4)[2] == bytes[2]);
    assert(bytes.subrange(0, 4)[3] == bytes[3]);
    assert(e =~= bytes);
}

proof fn lemma_byte_fields_unique(a0: u8, a1: u8, b0: u8, b1: u8)
    requires
        be_u16_value(a0, a1) == be_u16_value(b0, b1),
    ensures
        a0 == b0,
        a1 == b1,
{
    assert(a0 == b0) by (nonlinear_arith)
        requires
            a0 * 256 + a1 == b0 * 256 + b1,
            0 <= a0 < 256,
            0 <= a1 < 256,
            0 <= b0 < 256,
            0 <= b1 < 256,
    ;
}

proof fn lemma_u32_fields_unique(
    a0: u8,
    a1: u8,
    a2: u8,
    a3: u8,
    b0: u8,
    b1: u8,
    b2: u8,
    b3: u8,
)
    requires
        be_u32_value(a0, a1, a2, a3) == be_u32_value(b0, b1, b2, b3),
    ensures
        a0 == b0,
        a1 == b1,
        a2 == b2,
        a3 == b3,
{
    assert(a0 == b0 && a1 == b1 && a2 == b2 && a3 == b3) by (nonlinear_arith)
        requires
            a0 * 16777216 + a1 * 65536 + a2 * 256 + a3 == b0 * 16777216 + b1 * 65536 + b2 * 256
                + b3,
            0 <= a0 < 256,
            0 <= a1 < 256,
            0 <= a2 < 256,
            0 <= a3 < 256,
            0 <= b0 < 256,
            0 <= b1 < 256,
            0 <= b2 < 256,
            0 <= b3 < 256,
    ;
}

} // verus!

verus! {

/// The lower-case hexadecimal digit for a value below sixteen.
pub open spec fn hex_digit(n: int) -> char {
    if n < 10 {
        (48 + n) as char
    } else {
        (87 + n) as char
    }
}

/// Lower-case hexadecimal text of a byte sequence, two digits per byte, most
/// significant nibble first.
pub open spec fn hex_lower_spec(bytes: Seq<u8>) -> Seq<char>
    decreases bytes.len(),
{
    if bytes.len() == 0 {
        Seq::empty()
    } else {
        hex_lower_spec(bytes.drop_last()) + seq![
            hex_digit((bytes.last() / 16) as int),
            hex_digit((bytes.last() % 16) as int),
        ]
    }
}

/// A lower-case hexadecimal digit: `0` to `9` or `a` to `f`.
pub open spec fn is_lower_hex_digit(c: char) -> bool {
    ('0' <= c && c <= '9') || ('a' <= c && c <= 'f')
}

/// The hexadecimal text of `bytes` has two characters per byte, each a
/// lower-case hexadecimal digit.
pub proof fn lemma_hex_lower_shape(bytes: Seq<u8>)
    ensures
        hex_lower_spec(bytes).len() == 2 * bytes.len(),
        forall|i: int|
            0 <= i < hex_lower_spec(bytes).len() ==> is_lower_hex_digit(
                #[trigger] hex_lower_spec(bytes)[i],
            ),
    decreases bytes.len(),
{
    if bytes.len() > 0 {
        let prefix = bytes.drop_last();
        lemma_hex_lower_shape(prefix);
        let hi = hex_digit((bytes.last() / 16) as int);
        let lo = hex_digit((bytes.last() % 16) as int);
        assert(is_lower_hex_digit(hi));
        assert(is_lower_hex_digit(lo));
        let whole = hex_lower_spec(bytes);
        assert(whole == hex_lower_spec(prefix) + seq![hi, lo]);
        assert forall|i: int| 0 <= i < whole.len() implies is_lower_hex_digit(
            #[trigger] whole[i],
        ) by {
            if i < hex_lower_spec(prefix).len() {
                assert(whole[i] == hex_lower_spec(prefix)[i]);
            }
        }
    }
}

/// The value of a lower-case hexadecimal digit.
pub open spec fn hex_value(c: char) -> int {
    if c <= '9' {
        (c as int) - 48
    } else {
        (c as int) - 87
    }
}

/// Hexadecimal text gives back the bytes it encodes: character `2 i` is the
/// high and character `2 i + 1` the low digit of byte `i`.
pub proof fn hex_lower_law(bytes: Seq<u8>)
    ensures
        hex_lower_spec(bytes).len() == 2 * bytes.len(),
        forall|i: int|
            0 <= i < bytes.len() ==> 16 * hex_value(hex_lower_spec(bytes)[2 * i]) + hex_value(
                hex_lower_spec(bytes)[2 * i + 1],
            ) == #[trigger] bytes[i],
    decreases bytes.len(),
{
    lemma_hex_lower_shape(bytes);
    if bytes.len() > 0 {
        let prefix = bytes.drop_last();
        hex_lower_law(prefix);
        let b = bytes.last();
        let whole = hex_lower_spec(bytes);
        let hi = hex_digit((b / 16) as int);
        let lo = hex_digit((b % 16) as int);
        assert(whole == hex_lower_spec(prefix) + seq![hi, lo]);
        assert(hex_value(hi) == b / 16);
        assert(hex_value(lo) == b % 16);
        assert forall|i: int| 0 <= i < bytes.len() implies 16 * hex_value(whole[2 * i]) + hex_value(
            whole[2 * i + 1],
        ) == #[trigger] bytes[i] by {
            if i < prefix.len() {
                assert(bytes[i] == prefix[i]);
                assert(whole[2 * i] == hex_lower_spec(prefix)[2 * i]);
                assert(whole[2 * i + 1] == hex_lower_spec(prefix)[2 * i + 1]);
            } else {
                assert(whole[2 * i] == hi);
                assert(whole[2 * i + 1] == lo);
            }
        }
    }
}

fn hex_digit_char(n: u8) -> (c: char)
    requires
        n < 16,
    ensures
        c == hex_digit(n as int),
{
    if n < 10 {
        (n + 48) as char
    } else {
        (n + 87) as char
    }
}

/// Lower-case hexadecimal encoding of `bytes`.
pub fn hex_lower(bytes: &[u8]) -> (out: String)
    ensures
        out@ == hex_lower_spec(bytes@),
{
    let mut out = String::new();
    let mut i: usize = 0;
    while i < bytes.len()
        invariant
            i <= bytes@.len(),
            out@ == hex_lower_spec(bytes@.subrange(0, i as int)),
        decreases bytes@.len() - i,
    {
        let byte = bytes[i];
        crate::text::string_push(&mut out, hex_digit_char(byte / 16));
        crate::text::string_push(&mut out, hex_digit_char(byte % 16));
        assert(bytes@.subrange(0, i + 1).drop_last() =~= bytes@.subrange(0, i as int));
        i = i + 1;
    }
    assert(bytes@.subrange(0, bytes@.len() as int) =~= bytes@);
    out
}

} // verus!

verus! {

/// The hash that identifies a message whose serialized form is `payload`:
/// the lower-case hexadecimal SHA-256 digest of its current-version envelope.
pub open spec fn payload_message_hash_spec(payload: Seq<u8>) -> Seq<char> {
    hex_lower_spec(crate::digest::sha256(envelope(CURRENT_PROTOCOL_VERSION, payload)))
}

/// Frames `payload` in a current-version envelope and hashes the envelope.
///
/// Fails exactly as `encode_payload` does, on a payload longer than
/// `MAX_PAYLOAD_LEN`.
pub fn payload_message_hash(payload: &[u8]) -> (result: Result<String, ProtocolError>)
    ensures
        payload@.len() > MAX_PAYLOAD_LEN ==> result == Err::<String, ProtocolError>(
            ProtocolError::PayloadTooLarge { actual: payload@.len() as usize, max: MAX_PAYLOAD_LEN },
        ),
        payload@.len() <= MAX_PAYLOAD_LEN ==> (result matches Ok(hash) && hash@
            == payload_message_hash_spec(payload@)),
        result matches Ok(hash) ==> hash@.len() == 64 && forall|i: int|
            0 <= i < hash@.len() ==> is_lower_hex_digit(#[trigger] hash@[i]),
{
    let bytes = encode_payload(CURRENT_PROTOCOL_VERSION, payload)?;
    let digest = crate::digest::sha256_digest(bytes.as_slice());
    proof {
        lemma_hex_lower_shape(digest@);
    }
    Ok(hex_lower(digest.as_slice()))
}

} // verus!
