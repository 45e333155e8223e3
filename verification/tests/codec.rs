use zk_schnorr_lib::{
    point_from_hex, point_to_hex, scalar_from_hex, scalar_to_hex, DecodeError, GroupElement,
    HexError, Message, MessageKind, PointDecodeError, ProtocolMessage, Scalar,
};

const GENERATOR_HEX: &str = "e2f2ae0a6abc4e71a884a961c500515f58e30b6aa582dd8db6a65945e08d2d76";
const TWICE_HEX: &str = "6a493210f7499cd17fecb510ae0cea23a110e8d5b901f8acadd3095c73a3b919";
const ONE_HEX: &str = "0100000000000000000000000000000000000000000000000000000000000000";
const ORDER_PLUS_TWO_HEX: &str = "efd3f55c1a631258d69cf7a2def9de1400000000000000000000000000000010";
const ALL_ONES_HEX: &str = "ffffffffffffffffffffffffffffffffffffffffffffffffffffffffffffffff";

fn small(value: u8) -> Scalar {
    let mut bytes = [0u8; 32];
    bytes[0] = value;
    Scalar::from_bytes_mod_order(bytes)
}

fn record(kind: &str, payload: &str) -> Message {
    Message { kind: kind.to_string(), payload: payload.to_string() }
}

#[test]
fn scalar_to_hex_writes_lowercase_digits() {
    assert_eq!(scalar_to_hex(&small(1)), ONE_HEX);
    assert_eq!(
        scalar_to_hex(&small(0xab)),
        "ab00000000000000000000000000000000000000000000000000000000000000"
    );
    assert_eq!(scalar_to_hex(&Scalar::zero()), "0".repeat(64));
    let top = Scalar::from_bytes_mod_order([0xff; 32]);
    assert_eq!(
        scalar_to_hex(&top),
        "1c95988d7431ecd670cf7d73f45befc6feffffffffffffffffffffffffffff0f"
    );
}

#[test]
fn scalar_from_hex_reads_64_digits() {
    assert_eq!(scalar_from_hex(ONE_HEX).unwrap().to_bytes(), small(1).to_bytes());
    let read = scalar_from_hex("1f2e3d4c5b6a7988000000000000000000000000000000000000000000000000")
        .unwrap();
    assert_eq!(read.to_bytes()[..8], [0x1f, 0x2e, 0x3d, 0x4c, 0x5b, 0x6a, 0x79, 0x88]);
    assert_eq!(read.to_bytes()[8..], [0u8; 24]);
    let one_more = format!("{}0", ONE_HEX);
    assert_eq!(one_more.len(), 65);
    assert_eq!(scalar_from_hex(&one_more).unwrap_err(), HexError::OddLength);
}

#[test]
fn scalar_from_hex_takes_either_case() {
    let lower = scalar_from_hex("abcdef0000000000000000000000000000000000000000000000000000000000");
    let upper = scalar_from_hex("ABCDEF0000000000000000000000000000000000000000000000000000000000");
    let mixed = scalar_from_hex("aBcDeF0000000000000000000000000000000000000000000000000000000000");
    let mut expected = [0u8; 32];
    expected[0] = 0xab;
    expected[1] = 0xcd;
    expected[2] = 0xef;
    assert_eq!(lower.unwrap().to_bytes(), expected);
    assert_eq!(upper.unwrap().to_bytes(), expected);
    assert_eq!(mixed.unwrap().to_bytes(), expected);
}

#[test]
fn scalar_from_hex_reduces_modulo_the_order() {
    assert_eq!(scalar_from_hex(ORDER_PLUS_TWO_HEX).unwrap().to_bytes(), small(2).to_bytes());
    assert_eq!(
        scalar_to_hex(&scalar_from_hex(ALL_ONES_HEX).unwrap()),
        "1c95988d7431ecd670cf7d73f45befc6feffffffffffffffffffffffffffff0f"
    );
}

#[test]
fn scalar_hex_round_trip() {
    let scalar = Scalar::hash_from_bytes(b"round trip");
    let back = scalar_from_hex(&scalar_to_hex(&scalar)).unwrap();
    assert_eq!(back.to_bytes(), scalar.to_bytes());
}

#[test]
fn scalar_from_hex_refuses_an_odd_length() {
    assert_eq!(scalar_from_hex("abc").unwrap_err(), HexError::OddLength);
    assert_eq!(scalar_from_hex(&ONE_HEX[..63]).unwrap_err(), HexError::OddLength);
    assert_eq!(scalar_from_hex("z").unwrap_err(), HexError::OddLength);
}

#[test]
fn scalar_from_hex_reports_the_first_bad_character() {
    assert_eq!(
        scalar_from_hex("0g").unwrap_err(),
        HexError::InvalidHexCharacter { c: 'g', index: 1 }
    );
    assert_eq!(
        scalar_from_hex("00x0y0").unwrap_err(),
        HexError::InvalidHexCharacter { c: 'x', index: 2 }
    );
    let mut text = ONE_HEX.to_string();
    text.replace_range(63..64, " ");
    assert_eq!(
        scalar_from_hex(&text).unwrap_err(),
        HexError::InvalidHexCharacter { c: ' ', index: 63 }
    );
    assert_eq!(
        scalar_from_hex("0x01").unwrap_err(),
        HexError::InvalidHexCharacter { c: 'x', index: 1 }
    );
}

#[test]
fn scalar_from_hex_reads_a_text_by_its_bytes() {
    // Two bytes in UTF-8, neither of them a digit.
    assert_eq!(
        scalar_from_hex("\u{e9}").unwrap_err(),
        HexError::InvalidHexCharacter { c: '\u{c3}', index: 0 }
    );
    assert_eq!(scalar_from_hex("0\u{e9}").unwrap_err(), HexError::OddLength);
}

#[test]
fn scalar_from_hex_refuses_another_length() {
    assert_eq!(scalar_from_hex("").unwrap_err(), HexError::InvalidStringLength);
    assert_eq!(scalar_from_hex("00").unwrap_err(), HexError::InvalidStringLength);
    assert_eq!(scalar_from_hex(&ONE_HEX[..62]).unwrap_err(), HexError::InvalidStringLength);
    let long = format!("{}00", ONE_HEX);
    assert_eq!(scalar_from_hex(&long).unwrap_err(), HexError::InvalidStringLength);
}

#[test]
fn point_to_hex_writes_the_encoding() {
    assert_eq!(point_to_hex(&GroupElement::generator()), GENERATOR_HEX);
    assert_eq!(point_to_hex(&GroupElement::generator().times(&small(2))), TWICE_HEX);
    assert_eq!(point_to_hex(&GroupElement::generator().times(&Scalar::zero())), "0".repeat(64));
}

#[test]
fn point_from_hex_reads_an_element() {
    let generator = point_from_hex(GENERATOR_HEX).unwrap();
    assert!(generator.same(&GroupElement::generator()));
    let upper = point_from_hex(&TWICE_HEX.to_uppercase()).unwrap();
    assert_eq!(point_to_hex(&upper), TWICE_HEX);
}

#[test]
fn point_hex_round_trip() {
    let point = GroupElement::generator().times(&Scalar::hash_from_bytes(b"some point"));
    let back = point_from_hex(&point_to_hex(&point)).unwrap();
    assert_eq!(back.to_bytes(), point.to_bytes());
}

#[test]
fn point_from_hex_refuses_bad_digits() {
    assert_eq!(
        point_from_hex("abc").unwrap_err(),
        PointDecodeError::HexDecode(HexError::OddLength)
    );
    let mut text = GENERATOR_HEX.to_string();
    text.replace_range(10..11, "q");
    assert_eq!(
        point_from_hex(&text).unwrap_err(),
        PointDecodeError::HexDecode(HexError::InvalidHexCharacter { c: 'q', index: 10 })
    );
}

#[test]
fn point_from_hex_refuses_another_length() {
    assert_eq!(point_from_hex("").unwrap_err(), PointDecodeError::InvalidLength(0));
    assert_eq!(
        point_from_hex(&GENERATOR_HEX[..62]).unwrap_err(),
        PointDecodeError::InvalidLength(31)
    );
    let long = format!("{}0000", GENERATOR_HEX);
    assert_eq!(point_from_hex(&long).unwrap_err(), PointDecodeError::InvalidLength(34));
}

#[test]
fn point_from_hex_refuses_what_encodes_no_element() {
    assert_eq!(point_from_hex(ALL_ONES_HEX).unwrap_err(), PointDecodeError::InvalidPoint);
    assert_eq!(point_from_hex(ONE_HEX).unwrap_err(), PointDecodeError::InvalidPoint);
}

#[test]
fn commit_record() {
    let message = Message::commit(&GroupElement::generator());
    assert_eq!(message.kind, "commit");
    assert_eq!(message.payload, GENERATOR_HEX);
}

#[test]
fn challenge_record() {
    let message = Message::challenge(&small(1));
    assert_eq!(message.kind, "challenge");
    assert_eq!(message.payload, ONE_HEX);
}

#[test]
fn response_record() {
    let message = Message::response(&small(1));
    assert_eq!(message.kind, "response");
    assert_eq!(message.payload, ONE_HEX);
}

#[test]
fn record_clone_keeps_both_texts() {
    let message = Message::commit(&GroupElement::generator());
    let copy = message.clone();
    assert_eq!(copy.kind, message.kind);
    assert_eq!(copy.payload, message.payload);
}

#[test]
fn kind_texts() {
    assert_eq!(MessageKind::Commit.as_str(), "commit");
    assert_eq!(MessageKind::Challenge.as_str(), "challenge");
    assert_eq!(MessageKind::Response.as_str(), "response");
}

#[test]
fn has_kind_compares_the_discriminator() {
    let message = record("challenge", ONE_HEX);
    assert!(message.has_kind(MessageKind::Challenge));
    assert!(!message.has_kind(MessageKind::Commit));
    assert!(!message.has_kind(MessageKind::Response));
    assert!(!record("Challenge", ONE_HEX).has_kind(MessageKind::Challenge));
    assert!(!record("", ONE_HEX).has_kind(MessageKind::Commit));
}

#[test]
fn payloads_by_kind() {
    let commit = record("commit", GENERATOR_HEX);
    assert!(commit.commit_payload().unwrap().same(&GroupElement::generator()));
    assert_eq!(record("commit", ONE_HEX).commit_payload().unwrap_err(), DecodeError::InvalidPoint);
    assert_eq!(
        record("commit", "abc").commit_payload().unwrap_err(),
        DecodeError::InvalidHexLength
    );
    assert_eq!(
        record("commit", "abcd").commit_payload().unwrap_err(),
        DecodeError::InvalidHexLength
    );
    let challenge = record("challenge", ORDER_PLUS_TWO_HEX);
    assert_eq!(challenge.scalar_payload().unwrap().to_bytes(), small(2).to_bytes());
    assert_eq!(
        record("challenge", "xy").scalar_payload().unwrap_err(),
        DecodeError::InvalidHexLength
    );
}

#[test]
fn decode_reads_each_kind() {
    match ProtocolMessage::decode(&record("commit", TWICE_HEX)).unwrap() {
        ProtocolMessage::Commit(point) => assert_eq!(point_to_hex(&point), TWICE_HEX),
        other => panic!("decoded as {:?}", other),
    }
    match ProtocolMessage::decode(&record("challenge", ONE_HEX)).unwrap() {
        ProtocolMessage::Challenge(scalar) => assert_eq!(scalar.to_bytes(), small(1).to_bytes()),
        other => panic!("decoded as {:?}", other),
    }
    match ProtocolMessage::decode(&record("response", ORDER_PLUS_TWO_HEX)).unwrap() {
        ProtocolMessage::Response(scalar) => assert_eq!(scalar.to_bytes(), small(2).to_bytes()),
        other => panic!("decoded as {:?}", other),
    }
}

#[test]
fn decode_refuses_an_unknown_kind() {
    for kind in ["", "Commit", "commit ", "hello", "responses"] {
        assert_eq!(
            ProtocolMessage::decode(&record(kind, GENERATOR_HEX)).unwrap_err(),
            DecodeError::MalformedRecord
        );
    }
}

#[test]
fn decode_refuses_a_payload_that_is_not_64_digits() {
    let short = &ONE_HEX[..62];
    let odd = &ONE_HEX[..63];
    let long = format!("{}00", ONE_HEX);
    let mut bad = ONE_HEX.to_string();
    bad.replace_range(5..6, "-");
    for kind in ["commit", "challenge", "response"] {
        for payload in ["", short, odd, long.as_str(), bad.as_str()] {
            assert_eq!(
                ProtocolMessage::decode(&record(kind, payload)).unwrap_err(),
                DecodeError::InvalidHexLength
            );
        }
    }
}

#[test]
fn decode_refuses_a_commitment_that_encodes_no_element() {
    assert_eq!(
        ProtocolMessage::decode(&record("commit", ALL_ONES_HEX)).unwrap_err(),
        DecodeError::InvalidPoint
    );
    assert!(ProtocolMessage::decode(&record("challenge", ALL_ONES_HEX)).is_ok());
    assert!(ProtocolMessage::decode(&record("response", ALL_ONES_HEX)).is_ok());
}

#[test]
fn encode_then_decode_gives_the_message_back() {
    let point = GroupElement::generator().times(&small(7));
    let scalar = Scalar::hash_from_bytes(b"a scalar");
    let commit = ProtocolMessage::Commit(point).encode();
    assert_eq!(commit.kind, "commit");
    match ProtocolMessage::decode(&commit).unwrap() {
        ProtocolMessage::Commit(back) => assert!(back.same(&point)),
        other => panic!("decoded as {:?}", other),
    }
    let challenge = ProtocolMessage::Challenge(scalar).encode();
    assert_eq!(challenge.kind, "challenge");
    match ProtocolMessage::decode(&challenge).unwrap() {
        ProtocolMessage::Challenge(back) => assert_eq!(back.to_bytes(), scalar.to_bytes()),
        other => panic!("decoded as {:?}", other),
    }
    let response = ProtocolMessage::Response(scalar).encode();
    assert_eq!(response.kind, "response");
    assert_eq!(response.payload, scalar_to_hex(&scalar));
    match ProtocolMessage::decode(&response).unwrap() {
        ProtocolMessage::Response(back) => assert_eq!(back.to_bytes(), scalar.to_bytes()),
        other => panic!("decoded as {:?}", other),
    }
}

#[test]
fn encoding_agrees_with_the_hex_crate() {
    let scalar = Scalar::hash_from_bytes(b"cross check");
    assert_eq!(scalar_to_hex(&scalar), hex::encode(scalar.to_bytes()));
    assert_eq!(
        scalar_from_hex("0g").unwrap_err(),
        match hex::decode("0g").unwrap_err() {
            hex::FromHexError::InvalidHexCharacter { c, index } => {
                HexError::InvalidHexCharacter { c, index }
            }
            _ => HexError::OddLength,
        }
    );
}
