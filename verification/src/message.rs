//! The records that cross the wire, and the typed messages that they carry.

use crate::base16::{
    digit_value, digits_to_bytes, hex_chars, hex_decode, hex_decode_spec, hex_encode,
    lemma_first_non_digit, lemma_hex_round_trip, HexError,
};
use crate::group::{ristretto_valid, GroupElement};
use crate::scalar::{
    group_order, le_bytes, le_value, lemma_le_value_of_bytes, lemma_order_fits, Scalar,
};
use vstd::prelude::*;
use vstd::utf8::encode_utf8;

verus! {

/// A record as it is written on one line: a discriminator and the payload in
/// hexadecimal.
#[derive(Debug)]
pub struct Message {
    /// `"commit"`, `"challenge"` or `"response"`.
    pub kind: String,
    /// The 32 bytes of the element or scalar, as 64 lowercase digits.
    pub payload: String,
}

/// What a record says: its two texts.
pub ghost struct MessageView {
    pub kind: Seq<char>,
    pub payload: Seq<char>,
}

impl View for Message {
    type V = MessageView;

    open spec fn view(&self) -> MessageView {
        MessageView { kind: self.kind@, payload: self.payload@ }
    }
}

impl Clone for Message {
    fn clone(&self) -> (copy: Message)
        ensures
            copy@ == self@,
    {
        Message { kind: self.kind.clone(), payload: self.payload.clone() }
    }
}

/// Why a text does not give a group element.
#[derive(Clone, Copy, Debug, PartialEq, Eq, Structural)]
pub enum PointDecodeError {
    /// The text is no hexadecimal encoding.
    HexDecode(HexError),
    /// The text encodes this many bytes, not 32.
    InvalidLength(usize),
    /// The 32 bytes are not the canonical encoding of an element.
    InvalidPoint,
}

/// Which of the three messages a record carries.
#[derive(Clone, Copy, Debug, PartialEq, Eq, Structural)]
pub enum MessageKind {
    Commit,
    Challenge,
    Response,
}

/// The discriminator of a commitment.
pub open spec fn commit_kind() -> Seq<char> {
    "commit"@
}

/// The discriminator of a challenge.
pub open spec fn challenge_kind() -> Seq<char> {
    "challenge"@
}

/// The discriminator of a response.
pub open spec fn response_kind() -> Seq<char> {
    "response"@
}

impl MessageKind {
    /// The discriminator as it is written in a record.
    pub open spec fn text(self) -> Seq<char> {
        match self {
            MessageKind::Commit => commit_kind(),
            MessageKind::Challenge => challenge_kind(),
            MessageKind::Response => response_kind(),
        }
    }

    /// The discriminator as it is written in a record.
    pub fn as_str(self) -> (text: &'static str)
        ensures
            text@ == self.text(),
    {
        match self {
            MessageKind::Commit => "commit",
            MessageKind::Challenge => "challenge",
            MessageKind::Response => "response",
        }
    }
}

/// The payload that carries a scalar.
pub open spec fn scalar_hex(value: nat) -> Seq<char> {
    hex_chars(le_bytes(value, 32))
}

/// The scalar that a text carries, or why it carries none.
pub open spec fn scalar_from_hex_spec(text: Seq<char>) -> Result<nat, HexError> {
    match hex_decode_spec(encode_utf8(text)) {
        Err(e) => Err(e),
        Ok(bytes) => if bytes.len() != 32 {
            Err(HexError::InvalidStringLength)
        } else {
            Ok(le_value(bytes) % group_order())
        },
    }
}

/// The element that a text carries, or why it carries none.
pub open spec fn point_from_hex_spec(text: Seq<char>) -> Result<Seq<u8>, PointDecodeError> {
    match hex_decode_spec(encode_utf8(text)) {
        Err(e) => Err(PointDecodeError::HexDecode(e)),
        Ok(bytes) => if bytes.len() != 32 {
            Err(PointDecodeError::InvalidLength(bytes.len() as usize))
        } else if !ristretto_valid(bytes) {
            Err(PointDecodeError::InvalidPoint)
        } else {
            Ok(bytes)
        },
    }
}

/// The 32 bytes of a vector as an array.
fn to_array(bytes: &Vec<u8>) -> (array: [u8; 32])
    requires
        bytes.len() == 32,
    ensures
        array@ == bytes@,
{
    let mut array = [0u8; 32];
    let mut i: usize = 0;
    while i < 32
        invariant
            i <= 32,
            bytes.len() == 32,
            forall|j: int| 0 <= j < i ==> array@[j] == bytes@[j],
        decreases 32 - i,
    {
        array[i] = bytes[i];
        i += 1;
    }
    assert(array@ =~= bytes@);
    array
}

/// Reads a scalar from 64 hexadecimal digits; a number of 256 bits is
/// reduced modulo the group's order.
pub fn scalar_from_hex(s: &str) -> (decoded: Result<Scalar, HexError>)
    ensures
        match decoded {
            Ok(scalar) => scalar_from_hex_spec(s@) == Ok::<nat, HexError>(scalar@),
            Err(e) => scalar_from_hex_spec(s@) == Err::<nat, HexError>(e),
        },
{
    match hex_decode(s.as_bytes()) {
        Err(e) => Err(e),
        Ok(bytes) => {
            if bytes.len() != 32 {
                Err(HexError::InvalidStringLength)
            } else {
                Ok(Scalar::from_bytes_mod_order(to_array(&bytes)))
            }
        },
    }
}

/// Writes a scalar as 64 lowercase hexadecimal digits.
pub fn scalar_to_hex(s: &Scalar) -> (text: String)
    ensures
        text@ == scalar_hex(s@),
{
    let bytes = s.to_bytes();
    hex_encode(bytes.as_slice())
}

/// Writes an element as the 64 lowercase hexadecimal digits of its encoding.
pub fn point_to_hex(p: &GroupElement) -> (text: String)
    ensures
        text@ == hex_chars(p@),
{
    let bytes = p.to_bytes();
    hex_encode(bytes.as_slice())
}

/// Reads an element from the 64 hexadecimal digits of its encoding.
pub fn point_from_hex(s: &str) -> (decoded: Result<GroupElement, PointDecodeError>)
    ensures
        match decoded {
            Ok(point) => point_from_hex_spec(s@) == Ok::<Seq<u8>, PointDecodeError>(point@),
            Err(e) => point_from_hex_spec(s@) == Err::<Seq<u8>, PointDecodeError>(e),
        },
{
    match hex_decode(s.as_bytes()) {
        Err(e) => Err(PointDecodeError::HexDecode(e)),
        Ok(bytes) => {
            if bytes.len() != 32 {
                Err(PointDecodeError::InvalidLength(bytes.len()))
            } else {
                match GroupElement::from_bytes(to_array(&bytes)) {
                    Some(point) => Ok(point),
                    None => Err(PointDecodeError::InvalidPoint),
                }
            }
        },
    }
}

impl Message {
    /// The record that carries a commitment.
    pub fn commit(point: &GroupElement) -> (message: Message)
        ensures
            message@ == (MessageView { kind: commit_kind(), payload: hex_chars(point@) }),
    {
        Message { kind: MessageKind::Commit.as_str().to_owned(), payload: point_to_hex(point) }
    }

    /// The record that carries a challenge.
    pub fn challenge(scalar: &Scalar) -> (message: Message)
        ensures
            message@ == (MessageView { kind: challenge_kind(), payload: scalar_hex(scalar@) }),
    {
        Message { kind: MessageKind::Challenge.as_str().to_owned(), payload: scalar_to_hex(scalar) }
    }

    /// The record that carries a response.
    pub fn response(scalar: &Scalar) -> (message: Message)
        ensures
            message@ == (MessageView { kind: response_kind(), payload: scalar_hex(scalar@) }),
    {
        Message { kind: MessageKind::Response.as_str().to_owned(), payload: scalar_to_hex(scalar) }
    }
}

/// Whether `data` is exactly `count` hexadecimal digits.
pub open spec fn is_hex_digits(data: Seq<u8>, count: nat) -> bool {
    data.len() == count && forall|i: int| 0 <= i < data.len() ==> digit_value(#[trigger] data[i]) is Some
}

/// A text carries a scalar exactly when it is 64 hexadecimal digits.
pub proof fn lemma_scalar_from_hex_accepts(text: Seq<char>)
    ensures
        scalar_from_hex_spec(text) is Ok <==> is_hex_digits(encode_utf8(text), 64),
{
    lemma_first_non_digit(encode_utf8(text));
}

/// A text carries an element exactly when it is 64 hexadecimal digits that
/// encode the canonical encoding of one.
pub proof fn lemma_point_from_hex_accepts(text: Seq<char>)
    ensures
        point_from_hex_spec(text) is Ok <==> is_hex_digits(encode_utf8(text), 64) && ristretto_valid(
            digits_to_bytes(encode_utf8(text)),
        ),
{
    lemma_first_non_digit(encode_utf8(text));
}

/// Reading inverts writing: the text written for a scalar carries that scalar.
pub proof fn lemma_scalar_hex_round_trip(value: nat)
    requires
        value < group_order(),
    ensures
        scalar_from_hex_spec(scalar_hex(value)) == Ok::<nat, HexError>(value),
{
    lemma_order_fits();
    lemma_le_value_of_bytes(value, 32);
    lemma_hex_round_trip(le_bytes(value, 32));
    vstd::arithmetic::div_mod::lemma_small_mod(value, group_order());
}

/// Reading inverts writing: the text written for an element carries that
/// element.
pub proof fn lemma_point_hex_round_trip(encoding: Seq<u8>)
    requires
        encoding.len() == 32,
        ristretto_valid(encoding),
    ensures
        point_from_hex_spec(hex_chars(encoding)) == Ok::<Seq<u8>, PointDecodeError>(encoding),
{
    lemma_hex_round_trip(encoding);
}

/// Why a record carries no protocol message.
#[derive(Clone, Copy, Debug, PartialEq, Eq, Structural)]
pub enum DecodeError {
    /// The line is no record of the protocol.
    MalformedRecord,
    /// The payload is not the hexadecimal encoding of exactly 32 bytes.
    InvalidHexLength,
    /// The payload of a commitment is not the encoding of a group element.
    InvalidPoint,
}

/// One of the three messages of the protocol.
#[derive(Clone, Copy, Debug)]
pub enum ProtocolMessage {
    /// The prover's commitment `R`.
    Commit(GroupElement),
    /// The verifier's challenge `c`.
    Challenge(Scalar),
    /// The prover's response `s`.
    Response(Scalar),
}

/// What a protocol message says: an encoded element, or a scalar.
pub ghost enum ProtocolMessageView {
    Commit(Seq<u8>),
    Challenge(nat),
    Response(nat),
}

impl View for ProtocolMessage {
    type V = ProtocolMessageView;

    open spec fn view(&self) -> ProtocolMessageView {
        match *self {
            ProtocolMessage::Commit(point) => ProtocolMessageView::Commit(point@),
            ProtocolMessage::Challenge(scalar) => ProtocolMessageView::Challenge(scalar@),
            ProtocolMessage::Response(scalar) => ProtocolMessageView::Response(scalar@),
        }
    }
}

impl ProtocolMessageView {
    /// The element is encoded canonically in 32 bytes; the scalar is reduced.
    pub open spec fn well_formed(self) -> bool {
        match self {
            ProtocolMessageView::Commit(point) => point.len() == 32 && ristretto_valid(point),
            ProtocolMessageView::Challenge(scalar) => scalar < group_order(),
            ProtocolMessageView::Response(scalar) => scalar < group_order(),
        }
    }
}

/// The payload of a commitment as the codec reports it.
pub open spec fn commit_payload_spec(text: Seq<char>) -> Result<Seq<u8>, DecodeError> {
    match point_from_hex_spec(text) {
        Ok(point) => Ok(point),
        Err(PointDecodeError::InvalidPoint) => Err(DecodeError::InvalidPoint),
        Err(_) => Err(DecodeError::InvalidHexLength),
    }
}

/// The payload of a challenge or a response as the codec reports it.
pub open spec fn scalar_payload_spec(text: Seq<char>) -> Result<nat, DecodeError> {
    match scalar_from_hex_spec(text) {
        Ok(scalar) => Ok(scalar),
        Err(_) => Err(DecodeError::InvalidHexLength),
    }
}

/// The record that carries a message.
pub open spec fn encode_spec(message: ProtocolMessageView) -> MessageView {
    match message {
        ProtocolMessageView::Commit(point) => MessageView {
            kind: commit_kind(),
            payload: hex_chars(point),
        },
        ProtocolMessageView::Challenge(scalar) => MessageView {
            kind: challenge_kind(),
            payload: scalar_hex(scalar),
        },
        ProtocolMessageView::Response(scalar) => MessageView {
            kind: response_kind(),
            payload: scalar_hex(scalar),
        },
    }
}

/// The message that a record carries, or why it carries none.
pub open spec fn decode_spec(record: MessageView) -> Result<ProtocolMessageView, DecodeError> {
    if record.kind == commit_kind() {
        match commit_payload_spec(record.payload) {
            Ok(point) => Ok(ProtocolMessageView::Commit(point)),
            Err(e) => Err(e),
        }
    } else if record.kind == challenge_kind() {
        match scalar_payload_spec(record.payload) {
            Ok(scalar) => Ok(ProtocolMessageView::Challenge(scalar)),
            Err(e) => Err(e),
        }
    } else if record.kind == response_kind() {
        match scalar_payload_spec(record.payload) {
            Ok(scalar) => Ok(ProtocolMessageView::Response(scalar)),
            Err(e) => Err(e),
        }
    } else {
        Err(DecodeError::MalformedRecord)
    }
}

/// The three discriminators differ from one another.
pub proof fn lemma_kinds_differ()
    ensures
        commit_kind() != challenge_kind(),
        commit_kind() != response_kind(),
        challenge_kind() != response_kind(),
{
    reveal_strlit("commit");
    reveal_strlit("challenge");
    reveal_strlit("response");
    assert(commit_kind().len() == 6);
    assert(challenge_kind().len() == 9);
    assert(response_kind().len() == 8);
}

/// Decoding inverts encoding: the record written for a message carries that
/// message.
pub proof fn lemma_message_round_trip(message: ProtocolMessageView)
    requires
        message.well_formed(),
    ensures
        decode_spec(encode_spec(message)) == Ok::<ProtocolMessageView, DecodeError>(message),
{
    lemma_kinds_differ();
    match message {
        ProtocolMessageView::Commit(point) => {
            lemma_point_hex_round_trip(point);
        },
        ProtocolMessageView::Challenge(scalar) => {
            lemma_scalar_hex_round_trip(scalar);
        },
        ProtocolMessageView::Response(scalar) => {
            lemma_scalar_hex_round_trip(scalar);
        },
    }
}

/// A record carries a message exactly when its discriminator is one of the
/// three and its payload is 64 hexadecimal digits which, in a commitment,
/// encode an element. Each failure has its own cause: an unknown
/// discriminator, a payload that is not 64 digits, or 64 digits that encode
/// no element.
pub proof fn lemma_decode_accepts(record: MessageView)
    ensures
        decode_spec(record) is Ok <==> {
            &&& exists|kind: MessageKind| record.kind == kind.text()
            &&& is_hex_digits(encode_utf8(record.payload), 64)
            &&& record.kind == commit_kind() ==> ristretto_valid(
                digits_to_bytes(encode_utf8(record.payload)),
            )
        },
        decode_spec(record) == Err::<ProtocolMessageView, DecodeError>(DecodeError::MalformedRecord)
            <==> forall|kind: MessageKind| record.kind != kind.text(),
        decode_spec(record) == Err::<ProtocolMessageView, DecodeError>(
            DecodeError::InvalidHexLength,
        ) <==> {
            &&& exists|kind: MessageKind| record.kind == kind.text()
            &&& !is_hex_digits(encode_utf8(record.payload), 64)
        },
        decode_spec(record) == Err::<ProtocolMessageView, DecodeError>(DecodeError::InvalidPoint)
            <==> {
            &&& record.kind == commit_kind()
            &&& is_hex_digits(encode_utf8(record.payload), 64)
            &&& !ristretto_valid(digits_to_bytes(encode_utf8(record.payload)))
        },
{
    lemma_kinds_differ();
    lemma_scalar_from_hex_accepts(record.payload);
    lemma_point_from_hex_accepts(record.payload);
    lemma_first_non_digit(encode_utf8(record.payload));
    assert(MessageKind::Commit.text() == commit_kind());
    assert(MessageKind::Challenge.text() == challenge_kind());
    assert(MessageKind::Response.text() == response_kind());
}

impl Message {
    /// Whether the discriminator is that of `kind`.
    pub fn has_kind(&self, kind: MessageKind) -> (same: bool)
        ensures
            same == (self@.kind == kind.text()),
    {
        self.kind == kind.as_str().to_owned()
    }

    /// The element that a commitment's payload carries.
    pub fn commit_payload(&self) -> (decoded: Result<GroupElement, DecodeError>)
        ensures
            match decoded {
                Ok(point) => commit_payload_spec(self@.payload) == Ok::<Seq<u8>, DecodeError>(
                    point@,
                ),
                Err(e) => commit_payload_spec(self@.payload) == Err::<Seq<u8>, DecodeError>(e),
            },
    {
        match point_from_hex(self.payload.as_str()) {
            Ok(point) => Ok(point),
            Err(PointDecodeError::InvalidPoint) => Err(DecodeError::InvalidPoint),
            Err(_) => Err(DecodeError::InvalidHexLength),
        }
    }

    /// The scalar that a challenge's or a response's payload carries.
    pub fn scalar_payload(&self) -> (decoded: Result<Scalar, DecodeError>)
        ensures
            match decoded {
                Ok(scalar) => scalar_payload_spec(self@.payload) == Ok::<nat, DecodeError>(
                    scalar@,
                ),
                Err(e) => scalar_payload_spec(self@.payload) == Err::<nat, DecodeError>(e),
            },
    {
        match scalar_from_hex(self.payload.as_str()) {
            Ok(scalar) => Ok(scalar),
            Err(_) => Err(DecodeError::InvalidHexLength),
        }
    }
}

impl ProtocolMessage {
    /// The record that carries this message.
    pub fn encode(&self) -> (record: Message)
        ensures
            record@ == encode_spec(self@),
    {
        match self {
            ProtocolMessage::Commit(point) => Message::commit(point),
            ProtocolMessage::Challenge(scalar) => Message::challenge(scalar),
            ProtocolMessage::Response(scalar) => Message::response(scalar),
        }
    }

    /// The message that a record carries.
    pub fn decode(record: &Message) -> (decoded: Result<ProtocolMessage, DecodeError>)
        ensures
            match decoded {
                Ok(message) => decode_spec(record@) == Ok::<ProtocolMessageView, DecodeError>(
                    message@,
                ) && message@.well_formed(),
                Err(e) => decode_spec(record@) == Err::<ProtocolMessageView, DecodeError>(e),
            },
    {
        if record.has_kind(MessageKind::Commit) {
            match record.commit_payload() {
                Ok(point) => {
                    proof {
                        use_type_invariant(&point);
                        point.lemma_valid();
                    }
                    Ok(ProtocolMessage::Commit(point))
                },
                Err(e) => Err(e),
            }
        } else if record.has_kind(MessageKind::Challenge) {
            match record.scalar_payload() {
                Ok(scalar) => Ok(ProtocolMessage::Challenge(scalar)),
                Err(e) => Err(e),
            }
        } else if record.has_kind(MessageKind::Response) {
            match record.scalar_payload() {
                Ok(scalar) => Ok(ProtocolMessage::Response(scalar)),
                Err(e) => Err(e),
            }
        } else {
            Err(DecodeError::MalformedRecord)
        }
    }
}

} // verus!
