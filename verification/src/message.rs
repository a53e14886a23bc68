//! The wire codec: building frames and parsing them back into messages.
//!
//! A frame is `total_size` (big-endian `u32`, equal to 5 plus the payload
//! length), one `msg_type` byte, then the payload. Parsing reclassifies a
//! text payload whose trimmed content is a recognised command string.

use crate::text::payload_text;
use crate::text::string_from_bytes_lossy;
use crate::text::str_eq;
use crate::text::trim_end_spec;
use crate::text::trim_end_str;
use crate::wire::lemma_u32_be_bytes_roundtrip;
use crate::wire::spec_u32_from_be_bytes;
use crate::wire::spec_u32_to_be_bytes;
use crate::wire::u32_from_be_bytes;
use crate::wire::u32_to_be_bytes;
use vstd::prelude::*;
use vstd::slice::slice_index_get;
use vstd::slice::slice_subrange;
use vstd::string::StrSliceExecFns;
use vstd::utf8::encode_utf8;

verus! {

/// The largest total frame size the server accepts, in bytes.
pub const MAX_MSG_LEN: usize = 5 * 1024;

/// The message type carried in the fifth byte of every frame.
#[derive(Debug, Clone, Copy, PartialEq, Eq, Structural)]
pub enum MsgType {
    Text,
    UserCount,
    Help,
}

/// The discriminant of a message type, as written on the wire.
pub open spec fn spec_msg_type_byte(t: MsgType) -> u8 {
    match t {
        MsgType::Text => 0,
        MsgType::UserCount => 1,
        MsgType::Help => 2,
    }
}

/// The message type a wire discriminant stands for, if any.
pub open spec fn spec_msg_type_of_byte(b: u8) -> Option<MsgType> {
    if b == 0 {
        Some(MsgType::Text)
    } else if b == 1 {
        Some(MsgType::UserCount)
    } else if b == 2 {
        Some(MsgType::Help)
    } else {
        None
    }
}

impl MsgType {
    /// The number of bytes the message type occupies on the wire.
    pub fn size() -> (r: usize)
        ensures
            r == 1,
    {
        1
    }

    /// The wire discriminant of this message type.
    pub fn as_byte(&self) -> (b: u8)
        ensures
            b == spec_msg_type_byte(*self),
    {
        match self {
            MsgType::Text => 0,
            MsgType::UserCount => 1,
            MsgType::Help => 2,
        }
    }

    /// The message type a wire discriminant stands for; `None` for the
    /// reserved values.
    pub fn from_byte(b: u8) -> (r: Option<MsgType>)
        ensures
            r == spec_msg_type_of_byte(b),
    {
        if b == 0 {
            Some(MsgType::Text)
        } else if b == 1 {
            Some(MsgType::UserCount)
        } else if b == 2 {
            Some(MsgType::Help)
        } else {
            None
        }
    }
}

/// A server-side command a client issues as a text payload.
#[derive(Debug, Clone, Copy, PartialEq, Eq, Structural)]
pub enum Cmd {
    UserCount,
    Help,
}

/// A notice the server produces for local dispatch; never legal from a peer.
#[derive(Debug, Clone, Copy, PartialEq, Eq, Structural)]
pub enum InfoKind {
    MessageTooLong,
    ServerFull,
}

/// A decoded message.
#[derive(Debug, Clone, PartialEq, Eq)]
pub enum ParsedMsg {
    UserCount(u32),
    Text(String),
    Command(Cmd),
    Info(InfoKind),
    Help(String),
}

/// The mathematical value of a decoded message: strings as character
/// sequences.
pub enum MsgModel {
    UserCount(u32),
    Text(Seq<char>),
    Command(Cmd),
    Info(InfoKind),
    Help(Seq<char>),
}

impl View for ParsedMsg {
    type V = MsgModel;

    open spec fn view(&self) -> MsgModel {
        match self {
            ParsedMsg::UserCount(n) => MsgModel::UserCount(*n),
            ParsedMsg::Text(s) => MsgModel::Text(s@),
            ParsedMsg::Command(c) => MsgModel::Command(*c),
            ParsedMsg::Info(k) => MsgModel::Info(*k),
            ParsedMsg::Help(s) => MsgModel::Help(s@),
        }
    }
}

/// The bytes of a frame with type byte `t` carrying `payload`.
pub open spec fn spec_frame(t: u8, payload: Seq<u8>) -> Seq<u8>
    recommends
        payload.len() + 5 <= u32::MAX,
{
    spec_u32_to_be_bytes((payload.len() + 5) as u32) + seq![t] + payload
}

/// How a text payload is classified: a recognised command string (after
/// trimming trailing whitespace) becomes a command, anything else stays text.
pub open spec fn spec_classify_text(s: Seq<char>) -> MsgModel {
    if trim_end_spec(s) == "/count"@ {
        MsgModel::Command(Cmd::UserCount)
    } else if trim_end_spec(s) == "/help"@ {
        MsgModel::Command(Cmd::Help)
    } else {
        MsgModel::Text(s)
    }
}

/// The message a byte sequence parses to, if any. Byte 4 selects the type;
/// a reserved discriminant fails; a user-count payload must be exactly four
/// bytes; text and help payloads are decoded as UTF-8 with lossy
/// substitution.
pub open spec fn spec_from_bytes(bytes: Seq<u8>) -> Option<MsgModel> {
    if bytes.len() < 5 {
        None
    } else {
        let payload = bytes.subrange(5, bytes.len() as int);
        if bytes[4] == 0 {
            Some(spec_classify_text(payload_text(payload)))
        } else if bytes[4] == 1 {
            if payload.len() == 4 {
                Some(MsgModel::UserCount(spec_u32_from_be_bytes(payload)))
            } else {
                None
            }
        } else if bytes[4] == 2 {
            Some(MsgModel::Help(payload_text(payload)))
        } else {
            None
        }
    }
}

/// An encoded frame, ready for the wire.
#[derive(Debug, Clone, PartialEq, Eq)]
pub struct SerializedMessage(Vec<u8>);

impl View for SerializedMessage {
    type V = Seq<u8>;

    closed spec fn view(&self) -> Seq<u8> {
        self.0@
    }
}

impl SerializedMessage {
    /// The number of bytes of the length field.
    pub fn size_of_len() -> (r: usize)
        ensures
            r == 4,
    {
        4
    }

    /// The number of bytes of the frame header: length field plus type byte.
    pub fn size_of_header() -> (r: usize)
        ensures
            r == 5,
    {
        4 + 1
    }

    /// A frame of the given type carrying the UTF-8 bytes of `payload`.
    /// Parsing the frame back yields the payload, reclassified when it is a
    /// text payload spelling a command.
    pub fn from_string_generic(payload: &str, msg_type: MsgType) -> (r: Self)
        requires
            encode_utf8(payload@).len() + 5 <= u32::MAX,
        ensures
            r@ == spec_frame(spec_msg_type_byte(msg_type), encode_utf8(payload@)),
    {
        let bytes = payload.as_bytes_vec();
        let size = (bytes.len() + 5) as u32;
        Self(serialize(size, msg_type, bytes.as_slice()))
    }

    /// A text frame. Decoding it yields the text back, or the command it
    /// spells.
    pub fn from_string(payload: &str) -> (r: Self)
        requires
            encode_utf8(payload@).len() + 5 <= u32::MAX,
        ensures
            r@ == spec_frame(0, encode_utf8(payload@)),
            spec_from_bytes(r@) == Some(spec_classify_text(payload@)),
    {
        let r = Self::from_string_generic(payload, MsgType::Text);
        proof {
            lemma_text_frame_parse(payload@);
        }
        r
    }

    /// A help frame. Decoding it yields the help text back.
    pub fn from_help_string(payload: &str) -> (r: Self)
        requires
            encode_utf8(payload@).len() + 5 <= u32::MAX,
        ensures
            r@ == spec_frame(2, encode_utf8(payload@)),
            spec_from_bytes(r@) == Some(MsgModel::Help(payload@)),
    {
        let r = Self::from_string_generic(payload, MsgType::Help);
        proof {
            lemma_help_frame_parse(payload@);
        }
        r
    }

    /// A user-count frame. Decoding it yields the count back.
    pub fn from_user_count(n: u32) -> (r: Self)
        ensures
            r@ == spec_frame(1, spec_u32_to_be_bytes(n)),
            spec_from_bytes(r@) == Some(MsgModel::UserCount(n)),
    {
        let payload = u32_to_be_bytes(n);
        let r = Self(serialize(9, MsgType::UserCount, payload.as_slice()));
        proof {
            lemma_user_count_frame_parse(n);
        }
        r
    }

    /// The bytes of the frame.
    pub fn as_bytes(&self) -> (r: &[u8])
        ensures
            r@ == self@,
    {
        self.0.as_slice()
    }
}

/// The length field, the type byte, then the payload, in that order.
fn serialize(size: u32, msg_type: MsgType, payload: &[u8]) -> (r: Vec<u8>)
    ensures
        r@ == spec_u32_to_be_bytes(size) + seq![spec_msg_type_byte(msg_type)] + payload@,
{
    let ghost t = spec_msg_type_byte(msg_type);
    let mut r = u32_to_be_bytes(size);
    r.push(msg_type.as_byte());
    proof {
        assert(r@ =~= spec_u32_to_be_bytes(size) + seq![t] + payload@.subrange(0, 0));
    }
    let mut i: usize = 0;
    while i < payload.len()
        invariant
            i <= payload@.len(),
            r@ == spec_u32_to_be_bytes(size) + seq![t] + payload@.subrange(0, i as int),
        decreases payload@.len() - i,
    {
        r.push(*slice_index_get(payload, i));
        i = i + 1;
        proof {
            assert(r@ =~= spec_u32_to_be_bytes(size) + seq![t] + payload@.subrange(0, i as int));
        }
    }
    proof {
        assert(payload@.subrange(0, payload@.len() as int) =~= payload@);
    }
    r
}

impl ParsedMsg {
    /// Parses a frame. Returns `None` exactly when the bytes are too short
    /// to hold a header, carry a reserved type byte, or carry a user-count
    /// payload that is not exactly four bytes.
    pub fn from_bytes(bytes: &[u8]) -> (r: Option<ParsedMsg>)
        ensures
            r is Some <==> spec_from_bytes(bytes@) is Some,
            r matches Some(m) ==> Some(m@) == spec_from_bytes(bytes@),
    {
        if bytes.len() < 5 {
            return None;
        }
        let t = *slice_index_get(bytes, 4);
        let payload = slice_subrange(bytes, 5, bytes.len());
        if t == 0 {
            let text = string_from_bytes_lossy(payload);
            let trimmed = trim_end_str(text.as_str());
            if str_eq(trimmed, "/count") {
                Some(ParsedMsg::Command(Cmd::UserCount))
            } else if str_eq(trimmed, "/help") {
                Some(ParsedMsg::Command(Cmd::Help))
            } else {
                Some(ParsedMsg::Text(text))
            }
        } else if t == 1 {
            if payload.len() == 4 {
                let n = u32_from_be_bytes(payload);
                proof {
                    assert(payload@.subrange(0, 4) =~= payload@);
                }
                Some(ParsedMsg::UserCount(n))
            } else {
                None
            }
        } else if t == 2 {
            let text = string_from_bytes_lossy(payload);
            Some(ParsedMsg::Help(text))
        } else {
            None
        }
    }

    /// Wraps a server notice for local dispatch.
    pub fn from_info(info_kind: InfoKind) -> (r: Self)
        ensures
            r@ == MsgModel::Info(info_kind),
    {
        Self::Info(info_kind)
    }
}

/// The header fields and payload of a well-formed frame, read back from its
/// bytes.
proof fn lemma_frame_fields(t: u8, payload: Seq<u8>)
    requires
        payload.len() + 5 <= u32::MAX,
    ensures
        spec_frame(t, payload).len() == payload.len() + 5,
        spec_frame(t, payload)[4] == t,
        spec_frame(t, payload).subrange(5, spec_frame(t, payload).len() as int) == payload,
        spec_u32_from_be_bytes(spec_frame(t, payload).subrange(0, 4)) == (payload.len() + 5)
            as u32,
{
    let frame = spec_frame(t, payload);
    lemma_u32_be_bytes_roundtrip((payload.len() + 5) as u32);
    assert(frame.subrange(5, frame.len() as int) =~= payload);
    assert(frame.subrange(0, 4) =~= spec_u32_to_be_bytes((payload.len() + 5) as u32));
}

/// Round trip for text frames: a text frame parses back to its payload,
/// reclassified when the trimmed payload spells a command.
pub proof fn lemma_text_frame_parse(s: Seq<char>)
    requires
        encode_utf8(s).len() + 5 <= u32::MAX,
    ensures
        spec_from_bytes(spec_frame(0, encode_utf8(s))) == Some(spec_classify_text(s)),
{
    broadcast use vstd::utf8::encode_utf8_valid_utf8;
    broadcast use vstd::utf8::encode_utf8_decode_utf8;

    lemma_frame_fields(0, encode_utf8(s));
}

/// A text payload whose trimmed content is neither `/count` nor `/help`
/// parses back as text, never as a command.
pub proof fn lemma_text_never_command(s: Seq<char>)
    requires
        encode_utf8(s).len() + 5 <= u32::MAX,
        trim_end_spec(s) != "/count"@,
        trim_end_spec(s) != "/help"@,
    ensures
        spec_from_bytes(spec_frame(0, encode_utf8(s))) == Some(MsgModel::Text(s)),
{
    lemma_text_frame_parse(s);
}

/// Round trip for help frames: a help frame parses back to its payload.
pub proof fn lemma_help_frame_parse(s: Seq<char>)
    requires
        encode_utf8(s).len() + 5 <= u32::MAX,
    ensures
        spec_from_bytes(spec_frame(2, encode_utf8(s))) == Some(MsgModel::Help(s)),
{
    broadcast use vstd::utf8::encode_utf8_valid_utf8;
    broadcast use vstd::utf8::encode_utf8_decode_utf8;

    lemma_frame_fields(2, encode_utf8(s));
}

/// Round trip for user-count frames: a user-count frame parses back to its
/// count.
pub proof fn lemma_user_count_frame_parse(n: u32)
    ensures
        spec_from_bytes(spec_frame(1, spec_u32_to_be_bytes(n))) == Some(MsgModel::UserCount(n)),
{
    lemma_frame_fields(1, spec_u32_to_be_bytes(n));
    lemma_u32_be_bytes_roundtrip(n);
}

} // verus!
