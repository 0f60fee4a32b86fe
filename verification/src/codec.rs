//! Framing codec for the wire protocol.
//!
//! One frame is `[N][kind][payload]`: byte 0 holds the number of bytes that
//! follow it (kind byte plus payload), so the whole frame is `N + 1` bytes
//! and the payload is `N - 1` bytes. `N = 0` is invalid: the kind byte must
//! always be present. Payload text is UTF-8, decoded lossily on receipt.

use vstd::prelude::*;
use vstd::slice::slice_subrange;
use vstd::string::StringSliceAdditionalSpecFns;
use vstd::utf8::{decode_utf8, encode_utf8, encode_utf8_decode_utf8, encode_utf8_valid_utf8,
    valid_utf8};

verus! {

/// The kind tag carried in byte 1 of every frame.
#[derive(Debug, Clone, Copy, PartialEq, Eq, Structural)]
pub enum PacketType {
    Info,
    Warn,
    Alert,
    Name,
}

/// Why a received frame was rejected.
#[derive(Debug, Clone, Copy, PartialEq, Eq, Structural)]
pub enum DecodeError {
    /// The declared length byte was zero: no room for the kind byte.
    InvalidLength,
    /// Fewer or more bytes were handed over than the length byte declared.
    LengthMismatch,
    /// The kind tag is none of the known ones.
    InvalidKind,
    /// An Info or Name frame arrived without the text it requires.
    MissingText,
}

/// Why a packet could not be encoded.
#[derive(Debug, Clone, Copy, PartialEq, Eq, Structural)]
pub enum EncodeError {
    /// The text does not fit the 254-byte payload bound of one frame.
    TextTooLong,
    /// An Info or Name packet requires non-empty text.
    MissingText,
}

/// One decoded packet: a kind and its optional text.
#[derive(Debug, Clone)]
pub struct Packet {
    pub packet_type: PacketType,
    pub text: Option<String>,
}

/// Mathematical image of a `Packet`.
pub ghost struct PacketView {
    pub packet_type: PacketType,
    pub text: Option<Seq<char>>,
}

impl View for Packet {
    type V = PacketView;

    open spec fn view(&self) -> PacketView {
        PacketView {
            packet_type: self.packet_type,
            text: match self.text {
                Some(s) => Some(s@),
                None => None,
            },
        }
    }
}

/// Frame contents at the byte level, before text decoding.
pub ghost struct DecodedFrame {
    pub packet_type: PacketType,
    pub payload: Seq<u8>,
}

/// Info and Name packets carry mandatory text; Warn and Alert text is optional.
pub open spec fn kind_requires_text(t: PacketType) -> bool {
    t == PacketType::Info || t == PacketType::Name
}

/// The wire tag of each packet kind.
pub open spec fn spec_to_type_number(t: PacketType) -> u8 {
    match t {
        PacketType::Info => 2,
        PacketType::Warn => 3,
        PacketType::Alert => 4,
        PacketType::Name => 5,
    }
}

/// The packet kind of each wire tag; unknown tags are rejected.
pub open spec fn spec_from_type_number(type_number: u8) -> Result<PacketType, DecodeError> {
    if type_number == 2 {
        Ok(PacketType::Info)
    } else if type_number == 3 {
        Ok(PacketType::Warn)
    } else if type_number == 4 {
        Ok(PacketType::Alert)
    } else if type_number == 5 {
        Ok(PacketType::Name)
    } else {
        Err(DecodeError::InvalidKind)
    }
}

/// The frame that carries `payload` under kind `t`: length byte, kind byte,
/// then the payload. Meaningful when the payload holds at most 254 bytes.
pub open spec fn spec_encode_frame(t: PacketType, payload: Seq<u8>) -> Seq<u8> {
    seq![(payload.len() + 1) as u8, spec_to_type_number(t)] + payload
}

/// What decoding yields from a declared length byte and the bytes read after
/// it: the kind and raw payload, or the exact reason for rejection.
pub open spec fn spec_decode_frame(len_byte: u8, body: Seq<u8>) -> Result<
    DecodedFrame,
    DecodeError,
> {
    if len_byte == 0 {
        Err(DecodeError::InvalidLength)
    } else if body.len() != len_byte as int {
        Err(DecodeError::LengthMismatch)
    } else {
        match spec_from_type_number(body[0]) {
            Err(e) => Err(e),
            Ok(t) => {
                if kind_requires_text(t) && body.len() == 1 {
                    Err(DecodeError::MissingText)
                } else {
                    Ok(DecodedFrame { packet_type: t, payload: body.drop_first() })
                }
            },
        }
    }
}

/// What `String::from_utf8_lossy` returns on the given bytes: a function of
/// the bytes alone.
pub uninterp spec fn lossy_decode(bytes: Seq<u8>) -> Seq<char>;

impl PacketType {
    /// Parse a wire tag.
    pub fn from_type_number(type_number: u8) -> (r: Result<PacketType, DecodeError>)
        ensures
            r == spec_from_type_number(type_number),
    {
        match type_number {
            2 => Ok(PacketType::Info),
            3 => Ok(PacketType::Warn),
            4 => Ok(PacketType::Alert),
            5 => Ok(PacketType::Name),
            _ => Err(DecodeError::InvalidKind),
        }
    }

    /// The wire tag of this kind.
    pub fn to_type_number(&self) -> (r: u8)
        ensures
            r == spec_to_type_number(*self),
            spec_from_type_number(r) == Ok::<PacketType, DecodeError>(*self),
    {
        match self {
            PacketType::Info => 2,
            PacketType::Warn => 3,
            PacketType::Alert => 4,
            PacketType::Name => 5,
        }
    }

    /// The label under which this kind appears in history lines.
    pub fn to_string(&self) -> (r: &'static str)
        ensures
            r@ == spec_type_label(*self),
    {
        match self {
            PacketType::Info => "INFO",
            PacketType::Warn => "WARN",
            PacketType::Alert => "ALERT",
            PacketType::Name => "NAME",
        }
    }
}

/// The display label of each packet kind.
pub open spec fn spec_type_label(t: PacketType) -> Seq<char> {
    match t {
        PacketType::Info => "INFO"@,
        PacketType::Warn => "WARN"@,
        PacketType::Alert => "ALERT"@,
        PacketType::Name => "NAME"@,
    }
}

/// Whether this kind requires text on the wire.
pub fn requires_text(t: PacketType) -> (r: bool)
    ensures
        r == kind_requires_text(t),
{
    matches!(t, PacketType::Info | PacketType::Name)
}

/// Relies on `String::from_utf8_lossy`: its result is a function of the bytes
/// alone, and bytes that already form valid UTF-8 decode exactly, with no
/// replacement.
#[verifier::external_body]
fn lossy_string(bytes: &[u8]) -> (r: String)
    ensures
        r@ == lossy_decode(bytes@),
        valid_utf8(bytes@) ==> r@ == decode_utf8(bytes@),
{
    String::from_utf8_lossy(bytes).to_string()
}

/// Encode one packet as a frame: length byte, kind byte, then the UTF-8 bytes
/// of `msg`. Succeeds exactly when the text fits one frame and is present
/// where the kind requires it; an empty `msg` under Warn or Alert encodes a
/// frame without payload.
pub fn encode_frame(packet_type: PacketType, msg: &str) -> (r: Result<Vec<u8>, EncodeError>)
    ensures
        match r {
            Ok(frame) => {
                &&& msg.spec_bytes().len() <= 254
                &&& (kind_requires_text(packet_type) ==> msg@.len() != 0)
                &&& frame@ == spec_encode_frame(packet_type, msg.spec_bytes())
                &&& frame@.len() == msg.spec_bytes().len() + 2
                &&& spec_decode_frame(frame@[0], frame@.drop_first()) == Ok::<
                    DecodedFrame,
                    DecodeError,
                >(DecodedFrame { packet_type, payload: msg.spec_bytes() })
            },
            Err(e) => match e {
                EncodeError::MissingText => kind_requires_text(packet_type) && msg@.len() == 0,
                EncodeError::TextTooLong => msg.spec_bytes().len() > 254 && !(kind_requires_text(
                    packet_type,
                ) && msg@.len() == 0),
            },
        },
{
    if requires_text(packet_type) && msg.is_empty() {
        return Err(EncodeError::MissingText);
    }
    let bytes = msg.as_bytes();
    if bytes.len() > 254 {
        return Err(EncodeError::TextTooLong);
    }
    let mut frame: Vec<u8> = Vec::new();
    frame.push((bytes.len() + 1) as u8);
    frame.push(packet_type.to_type_number());
    let mut i: usize = 0;
    while i < bytes.len()
        invariant
            i <= bytes.len(),
            bytes@ == msg.spec_bytes(),
            bytes@.len() <= 254,
            frame@ == seq![(bytes@.len() + 1) as u8, spec_to_type_number(packet_type)]
                + bytes@.subrange(0, i as int),
        decreases bytes.len() - i,
    {
        frame.push(bytes[i]);
        assert(frame@.drop_last() + seq![bytes@[i as int]] =~= frame@);
        assert(bytes@.subrange(0, i as int).push(bytes@[i as int]) =~= bytes@.subrange(
            0,
            i + 1 as int,
        ));
        i = i + 1;
    }
    assert(bytes@.subrange(0, bytes@.len() as int) =~= bytes@);
    proof {
        lemma_encode_utf8_empty(msg@);
        lemma_frame_round_trip(packet_type, msg.spec_bytes());
    }
    Ok(frame)
}

/// Decode one frame from its declared length byte and the bytes read after
/// it. Succeeds exactly when the length byte is non-zero, `body` holds as
/// many bytes as declared, the kind tag is known, and text is present where
/// the kind requires it; the text is the lossy UTF-8 decoding of the payload.
pub fn decode_frame(len_byte: u8, body: &[u8]) -> (r: Result<Packet, DecodeError>)
    ensures
        match r {
            Ok(p) => {
                &&& spec_decode_frame(len_byte, body@) matches Ok(d)
                &&& p@.packet_type == spec_decode_frame(len_byte, body@)->Ok_0.packet_type
                &&& ({
                    let payload = spec_decode_frame(len_byte, body@)->Ok_0.payload;
                    if payload.len() == 0 {
                        p@.text is None
                    } else {
                        &&& p@.text matches Some(s)
                        &&& s == lossy_decode(payload)
                        &&& (valid_utf8(payload) ==> s == decode_utf8(payload))
                    }
                })
            },
            Err(e) => spec_decode_frame(len_byte, body@) == Err::<DecodedFrame, DecodeError>(e),
        },
{
    if len_byte == 0 {
        return Err(DecodeError::InvalidLength);
    }
    if body.len() != len_byte as usize {
        return Err(DecodeError::LengthMismatch);
    }
    let packet_type = match PacketType::from_type_number(body[0]) {
        Ok(t) => t,
        Err(e) => {
            return Err(e);
        },
    };
    if body.len() == 1 {
        if requires_text(packet_type) {
            return Err(DecodeError::MissingText);
        }
        return Ok(Packet { packet_type, text: None });
    }
    let payload = slice_subrange(body, 1, body.len());
    assert(payload@ =~= body@.drop_first());
    let text = lossy_string(payload);
    Ok(Packet { packet_type, text: Some(text) })
}

/// Framing round-trip at the byte level: a frame encoded from any payload of
/// at most 254 bytes (non-empty where the kind requires text) decodes back to
/// the same kind and payload, its length byte counts the payload plus the
/// kind byte, and the whole frame is two bytes longer than the payload.
pub proof fn lemma_frame_round_trip(t: PacketType, payload: Seq<u8>)
    requires
        payload.len() <= 254,
        kind_requires_text(t) ==> payload.len() != 0,
    ensures
        ({
            let frame = spec_encode_frame(t, payload);
            &&& frame.len() == payload.len() + 2
            &&& frame[0] == payload.len() + 1
            &&& spec_decode_frame(frame[0], frame.drop_first()) == Ok::<
                DecodedFrame,
                DecodeError,
            >(DecodedFrame { packet_type: t, payload })
        }),
{
    let frame = spec_encode_frame(t, payload);
    let body = frame.drop_first();
    assert(body =~= seq![spec_to_type_number(t)] + payload);
    assert(body.drop_first() =~= payload);
    assert(spec_from_type_number(spec_to_type_number(t)) == Ok::<PacketType, DecodeError>(t));
}

/// Encoding never yields an empty byte sequence from non-empty text: every
/// character needs at least one byte.
pub proof fn lemma_encode_utf8_empty(text: Seq<char>)
    ensures
        encode_utf8(text).len() == 0 <==> text.len() == 0,
{
    if text.len() != 0 {
        assert(encode_utf8(text) == vstd::utf8::encode_scalar(text[0] as u32) + encode_utf8(
            text.drop_first(),
        ));
    }
}

/// Framing round-trip at the text level: the frame encoded from any text
/// whose UTF-8 form fits 254 bytes decodes back to the same kind and to a
/// payload whose UTF-8 decoding is the original text, character for
/// character.
pub proof fn lemma_frame_round_trip_text(t: PacketType, text: Seq<char>)
    requires
        encode_utf8(text).len() <= 254,
        kind_requires_text(t) ==> text.len() != 0,
    ensures
        ({
            let frame = spec_encode_frame(t, encode_utf8(text));
            &&& spec_decode_frame(frame[0], frame.drop_first()) == Ok::<
                DecodedFrame,
                DecodeError,
            >(DecodedFrame { packet_type: t, payload: encode_utf8(text) })
            &&& valid_utf8(encode_utf8(text))
            &&& decode_utf8(encode_utf8(text)) == text
        }),
{
    broadcast use encode_utf8_valid_utf8, encode_utf8_decode_utf8;

    lemma_encode_utf8_empty(text);
    lemma_frame_round_trip(t, encode_utf8(text));
}

/// Length invariant on the receiving side: a frame is accepted only when the
/// bytes after the length byte number exactly what that byte declares, so a
/// length byte of 255 stands for a 256-byte frame in all.
pub proof fn lemma_decode_length(len_byte: u8, body: Seq<u8>)
    ensures
        spec_decode_frame(len_byte, body) is Ok ==> {
            &&& 1 <= len_byte
            &&& body.len() == len_byte
            &&& 1 + body.len() == len_byte + 1
        },
{
}

} // verus!
