use detta_node::protocol::{
    decode_payload, encode_payload, hex_lower, payload_message_hash, ProtocolError,
    CURRENT_PROTOCOL_VERSION, HEADER_LEN, MAX_PAYLOAD_LEN, PROTOCOL_MAGIC,
};
use sha2::{Digest, Sha256};

const TX_ENVELOPE_HEX: &str = "44545441000100000032000b64657474612d6c6f63616c0374783105416c6963650106546f6b656e4100030003426f62010455534443020a01c0843d";
const VOTE_ENVELOPE_HEX: &str =
    "4454544100010000001b020b76616c696461746f722d31070c626c6f636b2d686173682d31";

fn from_hex(hex: &str) -> Vec<u8> {
    (0..hex.len())
        .step_by(2)
        .map(|i| u8::from_str_radix(&hex[i..i + 2], 16).unwrap())
        .collect()
}

fn tx_envelope() -> Vec<u8> {
    from_hex(TX_ENVELOPE_HEX)
}

#[test]
fn transaction_envelope_fixture_is_stable() {
    let envelope = tx_envelope();
    let payload = decode_payload(&envelope).unwrap().to_vec();
    let encoded = encode_payload(CURRENT_PROTOCOL_VERSION, &payload).unwrap();

    assert_eq!(hex_lower(&encoded), TX_ENVELOPE_HEX);
    assert_eq!(decode_payload(&encoded), Ok(payload.as_slice()));
}

#[test]
fn vote_envelope_fixture_is_stable() {
    let envelope = from_hex(VOTE_ENVELOPE_HEX);
    let payload = decode_payload(&envelope).unwrap().to_vec();
    let encoded = encode_payload(CURRENT_PROTOCOL_VERSION, &payload).unwrap();

    assert_eq!(hex_lower(&encoded), VOTE_ENVELOPE_HEX);
    assert_eq!(decode_payload(&encoded), Ok(payload.as_slice()));
}

#[test]
fn rejects_bad_headers_and_lengths() {
    let mut encoded = tx_envelope();

    assert_eq!(
        decode_payload(&encoded[..HEADER_LEN - 1]),
        Err(ProtocolError::TruncatedHeader {
            actual: HEADER_LEN - 1
        })
    );

    encoded[0] = b'X';
    assert_eq!(
        decode_payload(&encoded),
        Err(ProtocolError::BadMagic {
            actual: [b'X', b'T', b'T', b'A']
        })
    );

    let mut encoded = tx_envelope();
    encoded[5] = 2;
    assert_eq!(
        decode_payload(&encoded),
        Err(ProtocolError::UnsupportedVersion { actual: 2 })
    );

    let mut encoded = tx_envelope();
    let declared = u32::from_be_bytes([encoded[6], encoded[7], encoded[8], encoded[9]]) as usize;
    encoded.pop();
    assert_eq!(
        decode_payload(&encoded),
        Err(ProtocolError::LengthMismatch {
            declared,
            actual: encoded.len() - HEADER_LEN
        })
    );
}

#[test]
fn framing_writes_magic_version_and_big_endian_length() {
    let encoded = encode_payload(0x0102, &[7, 8, 9]).unwrap();
    assert_eq!(encoded, vec![0x44, 0x54, 0x54, 0x41, 0x01, 0x02, 0, 0, 0, 3, 7, 8, 9]);
    assert_eq!(&encoded[..4], &PROTOCOL_MAGIC);
}

#[test]
fn empty_payload_round_trips() {
    let encoded = encode_payload(CURRENT_PROTOCOL_VERSION, &[]).unwrap();
    assert_eq!(encoded.len(), HEADER_LEN);
    assert_eq!(decode_payload(&encoded), Ok(&[][..]));
}

#[test]
fn oversized_payload_is_refused_on_both_sides() {
    let payload = vec![0u8; MAX_PAYLOAD_LEN + 1];
    assert_eq!(
        encode_payload(CURRENT_PROTOCOL_VERSION, &payload),
        Err(ProtocolError::PayloadTooLarge {
            actual: MAX_PAYLOAD_LEN + 1,
            max: MAX_PAYLOAD_LEN
        })
    );
    let mut header = vec![0x44, 0x54, 0x54, 0x41, 0, 1];
    header.extend_from_slice(&((MAX_PAYLOAD_LEN as u32) + 1).to_be_bytes());
    assert_eq!(
        decode_payload(&header),
        Err(ProtocolError::PayloadTooLarge {
            actual: MAX_PAYLOAD_LEN + 1,
            max: MAX_PAYLOAD_LEN
        })
    );
}

#[test]
fn hex_lower_encodes_each_byte_as_two_digits() {
    assert_eq!(hex_lower(&[]), "");
    assert_eq!(hex_lower(&[0x00, 0x0f, 0xa0, 0xff]), "000fa0ff");
}

#[test]
fn message_hash_is_sha256_of_the_envelope() {
    let payload = decode_payload(&tx_envelope()).unwrap().to_vec();
    let expected: String = Sha256::digest(tx_envelope())
        .iter()
        .map(|b| format!("{b:02x}"))
        .collect();
    let hash = payload_message_hash(&payload).unwrap();
    assert_eq!(hash, expected);
    assert_eq!(hash.len(), 64);
    assert_ne!(hash, hex_lower(&payload));
}

#[test]
fn block_certificate_and_snapshot_messages_round_trip() {
    // Serialized block, certificate and snapshot messages of different sizes
    // come back out of their envelopes unchanged.
    let payloads: Vec<Vec<u8>> = vec![
        (0..=255u8).collect(),
        b"\x03\x01\x40certificate-block-hash\x02validator-1validator-2".to_vec(),
        vec![0x06; 70_000],
    ];
    for payload in payloads {
        let encoded = encode_payload(CURRENT_PROTOCOL_VERSION, &payload).unwrap();
        assert_eq!(decode_payload(&encoded), Ok(payload.as_slice()));
    }
}

#[test]
fn message_hash_is_sixty_four_lower_case_hex_digits() {
    for payload in [Vec::new(), vec![0u8; 300], (0..=255u8).collect::<Vec<u8>>()] {
        let hash = payload_message_hash(&payload).unwrap();
        assert_eq!(hash.len(), 64);
        assert!(hash.chars().all(|c| c.is_ascii_digit() || ('a'..='f').contains(&c)));
    }
}
