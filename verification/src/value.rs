//! The values that kOS machine code operates on, and the one-byte tags of their types.
use vstd::prelude::*;
use vstd::utf8::{
    encode_scalar, encode_utf8, has_width_1_encoding, has_width_2_encoding, is_ascii_chars,
    is_ascii_chars_encode_utf8,
};

use crate::buffer::{byte_at, BufferIterator};
use crate::errors::KOSValueParseError;
use crate::primitives::{
    decode_u64, latin1, le_u16, le_u32, le_u64, lemma_le_u16, lemma_le_u32, lemma_le_u64,
    lemma_signed_casts, lemma_take_middle, read_u64_le, take_spec, view_result, write_u64_le,
    FromBytes, ToBytes,
};

verus! {

/// The type of an internal value within Kerbal Operating System.
///
/// See [KOSValue](crate::KOSValue) for what these values look like.
///
/// This enum just describes the "type" of the KOSValue, which is stored as a single
/// byte that prefixes the value (if there is one), which allows kOS to know how to interpret
/// the following bytes.
#[derive(Debug, Clone, Copy, PartialEq, Eq, Hash, Structural)]
pub enum KOSType {
    /// A null value
    Null,
    /// A raw boolean
    Bool,
    /// A single (signed) byte
    Byte,
    /// A signed 16-bit integer
    Int16,
    /// A signed 32-bit integer
    Int32,
    /// A 32-bit floating point number
    Float,
    /// A 64-bit floating point number
    Double,
    /// A raw string
    String,
    /// An argument marker
    ArgMarker,
    /// A signed 32-bit integer "value"
    ScalarInt,
    /// A 64-bit floating point number "value"
    ScalarDouble,
    /// A boolean "value"
    BoolValue,
    /// A string "value"
    StringValue,
}

impl View for KOSType {
    type V = KOSType;

    open spec fn view(&self) -> KOSType {
        *self
    }
}

/// The byte that a KOSType is stored as.
pub open spec fn kos_type_byte(t: KOSType) -> u8 {
    match t {
        KOSType::Null => 0,
        KOSType::Bool => 1,
        KOSType::Byte => 2,
        KOSType::Int16 => 3,
        KOSType::Int32 => 4,
        KOSType::Float => 5,
        KOSType::Double => 6,
        KOSType::String => 7,
        KOSType::ArgMarker => 8,
        KOSType::ScalarInt => 9,
        KOSType::ScalarDouble => 10,
        KOSType::BoolValue => 11,
        KOSType::StringValue => 12,
    }
}

/// The KOSType stored as the byte `b`, if `b` stands for one.
pub open spec fn kos_type_of_byte(b: u8) -> Option<KOSType> {
    if b == 0 {
        Some(KOSType::Null)
    } else if b == 1 {
        Some(KOSType::Bool)
    } else if b == 2 {
        Some(KOSType::Byte)
    } else if b == 3 {
        Some(KOSType::Int16)
    } else if b == 4 {
        Some(KOSType::Int32)
    } else if b == 5 {
        Some(KOSType::Float)
    } else if b == 6 {
        Some(KOSType::Double)
    } else if b == 7 {
        Some(KOSType::String)
    } else if b == 8 {
        Some(KOSType::ArgMarker)
    } else if b == 9 {
        Some(KOSType::ScalarInt)
    } else if b == 10 {
        Some(KOSType::ScalarDouble)
    } else if b == 11 {
        Some(KOSType::BoolValue)
    } else if b == 12 {
        Some(KOSType::StringValue)
    } else {
        None
    }
}

impl From<KOSType> for u8 {
    fn from(t: KOSType) -> (r: u8) {
        match t {
            KOSType::Null => 0,
            KOSType::Bool => 1,
            KOSType::Byte => 2,
            KOSType::Int16 => 3,
            KOSType::Int32 => 4,
            KOSType::Float => 5,
            KOSType::Double => 6,
            KOSType::String => 7,
            KOSType::ArgMarker => 8,
            KOSType::ScalarInt => 9,
            KOSType::ScalarDouble => 10,
            KOSType::BoolValue => 11,
            KOSType::StringValue => 12,
        }
    }
}

impl vstd::std_specs::convert::FromSpecImpl<KOSType> for u8 {
    open spec fn obeys_from_spec() -> bool {
        true
    }

    open spec fn from_spec(t: KOSType) -> u8 {
        kos_type_byte(t)
    }
}

impl TryFrom<u8> for KOSType {
    type Error = ();

    fn try_from(value: u8) -> (r: Result<Self, Self::Error>) {
        match value {
            0 => Ok(Self::Null),
            1 => Ok(Self::Bool),
            2 => Ok(Self::Byte),
            3 => Ok(Self::Int16),
            4 => Ok(Self::Int32),
            5 => Ok(Self::Float),
            6 => Ok(Self::Double),
            7 => Ok(Self::String),
            8 => Ok(Self::ArgMarker),
            9 => Ok(Self::ScalarInt),
            10 => Ok(Self::ScalarDouble),
            11 => Ok(Self::BoolValue),
            12 => Ok(Self::StringValue),
            _ => Err(()),
        }
    }
}

impl vstd::std_specs::convert::TryFromSpecImpl<u8> for KOSType {
    open spec fn obeys_try_from_spec() -> bool {
        true
    }

    open spec fn try_from_spec(b: u8) -> Result<KOSType, ()> {
        match kos_type_of_byte(b) {
            Some(t) => Ok(t),
            None => Err(()),
        }
    }
}

impl ToBytes for KOSType {
    open spec fn encoding(&self) -> Seq<u8> {
        seq![kos_type_byte(*self)]
    }

    fn to_bytes(&self, buf: &mut Vec<u8>) {
        buf.push(u8::from(*self));
    }
}

impl FromBytes for KOSType {
    type Error = ();

    open spec fn decode(data: Seq<u8>, pos: int) -> (Result<KOSType, ()>, int) {
        match byte_at(data, pos) {
            None => (Err(()), pos),
            Some(b) => match kos_type_of_byte(b) {
                Some(t) => (Ok(t), pos + 1),
                None => (Err(()), pos + 1),
            },
        }
    }

    fn from_bytes(source: &mut BufferIterator) -> (r: Result<Self, Self::Error>) {
        match source.next() {
            Some(b) => Self::try_from(b),
            None => Err(()),
        }
    }
}

/// An internal value within Kerbal Operating System.
///
/// These are used as operands to instructions and stored in the KO file's data section,
/// and a KSM file's argument section.
///
/// Each value takes up 1 byte just for the "data type" so that kOS knows how to load the value.
///
/// The "Value" types (ScalarInt, ScalarDouble, BoolValue, StringValue) are different from their
/// non-value counterparts in that the "Value" types have more built-in suffixes, and are the
/// type used when there are any user-created values, as opposed to instruction operands.
///
/// The floating point variants hold the IEEE-754 bit pattern of their number
/// (`f32::to_bits` and `f64::to_bits` give it), which is exactly what gets stored.
#[derive(Debug, Clone, PartialEq, Eq, Hash)]
pub enum KOSValue {
    /// A null value, rarely used. Only takes up 1 byte.
    Null,
    /// A boolean. Takes up 2 bytes.
    Bool(bool),
    /// A signed byte. Takes up 2 bytes.
    Byte(i8),
    /// A signed 16-bit integer. Takes up 3 bytes.
    Int16(i16),
    /// A signed 32-bit integer. Takes up 5 bytes.
    Int32(i32),
    /// A 32-bit floating point number, as its bit pattern. Takes up 5 bytes.
    Float(u32),
    /// A 64-bit floating point number, as its bit pattern. Takes up 9 bytes.
    Double(u64),
    /// A string. Takes up 2 + length bytes.
    String(String),
    /// An argument marker. Takes up 1 byte.
    ArgMarker,
    /// A signed 32-bit integer. Takes up 5 bytes.
    ScalarInt(i32),
    /// A 64-bit floating point number, as its bit pattern. Takes up 9 bytes.
    ScalarDouble(u64),
    /// A boolean. Takes up 2 bytes.
    BoolValue(bool),
    /// A string. Takes up 2 + length bytes.
    StringValue(String),
}

/// The mathematical form of a [KOSValue]: its strings taken as sequences of chars.
pub enum KOSValueView {
    /// See [KOSValue::Null]
    Null,
    /// See [KOSValue::Bool]
    Bool(bool),
    /// See [KOSValue::Byte]
    Byte(i8),
    /// See [KOSValue::Int16]
    Int16(i16),
    /// See [KOSValue::Int32]
    Int32(i32),
    /// See [KOSValue::Float]
    Float(u32),
    /// See [KOSValue::Double]
    Double(u64),
    /// See [KOSValue::String]
    String(Seq<char>),
    /// See [KOSValue::ArgMarker]
    ArgMarker,
    /// See [KOSValue::ScalarInt]
    ScalarInt(i32),
    /// See [KOSValue::ScalarDouble]
    ScalarDouble(u64),
    /// See [KOSValue::BoolValue]
    BoolValue(bool),
    /// See [KOSValue::StringValue]
    StringValue(Seq<char>),
}

impl View for KOSValue {
    type V = KOSValueView;

    open spec fn view(&self) -> KOSValueView {
        match self {
            KOSValue::Null => KOSValueView::Null,
            KOSValue::Bool(b) => KOSValueView::Bool(*b),
            KOSValue::Byte(b) => KOSValueView::Byte(*b),
            KOSValue::Int16(i) => KOSValueView::Int16(*i),
            KOSValue::Int32(i) => KOSValueView::Int32(*i),
            KOSValue::Float(f) => KOSValueView::Float(*f),
            KOSValue::Double(d) => KOSValueView::Double(*d),
            KOSValue::String(s) => KOSValueView::String(s@),
            KOSValue::ArgMarker => KOSValueView::ArgMarker,
            KOSValue::ScalarInt(i) => KOSValueView::ScalarInt(*i),
            KOSValue::ScalarDouble(d) => KOSValueView::ScalarDouble(*d),
            KOSValue::BoolValue(b) => KOSValueView::BoolValue(*b),
            KOSValue::StringValue(s) => KOSValueView::StringValue(s@),
        }
    }
}

/// Each KOSValue type is stored as the kOS format's fixed number for it, in the order null,
/// bool, byte, int16, int32, float, double, string, argument marker, scalar int, scalar
/// double, boolean value, string value (0 to 12); exactly the bytes 0 to 12 stand for a type,
/// each for its own; and a boolean is stored as 1 for true and 0 for false.
pub proof fn kos_type_bytes(b: u8)
    ensures
        kos_type_byte(KOSType::Null) == 0,
        kos_type_byte(KOSType::Bool) == 1,
        kos_type_byte(KOSType::Byte) == 2,
        kos_type_byte(KOSType::Int16) == 3,
        kos_type_byte(KOSType::Int32) == 4,
        kos_type_byte(KOSType::Float) == 5,
        kos_type_byte(KOSType::Double) == 6,
        kos_type_byte(KOSType::String) == 7,
        kos_type_byte(KOSType::ArgMarker) == 8,
        kos_type_byte(KOSType::ScalarInt) == 9,
        kos_type_byte(KOSType::ScalarDouble) == 10,
        kos_type_byte(KOSType::BoolValue) == 11,
        kos_type_byte(KOSType::StringValue) == 12,
        kos_type_of_byte(b) matches Some(t) ==> kos_type_byte(t) == b,
        kos_type_of_byte(b) is None <==> b > 12,
        bool_byte(true) == 1 && bool_byte(false) == 0,
{
}

/// The byte a boolean is stored as.
pub open spec fn bool_byte(b: bool) -> u8 {
    if b {
        1
    } else {
        0
    }
}

/// A string as it is stored in a value: a length byte (the UTF-8 length, truncated to
/// eight bits), then the UTF-8 bytes.
pub open spec fn string_field(s: Seq<char>) -> Seq<u8> {
    seq![encode_utf8(s).len() as u8] + encode_utf8(s)
}

/// The bytes a KOSValue is written as: its type byte, then its payload.
pub open spec fn value_bytes(v: KOSValueView) -> Seq<u8> {
    match v {
        KOSValueView::Null => seq![0u8],
        KOSValueView::Bool(b) => seq![1u8, bool_byte(b)],
        KOSValueView::Byte(b) => seq![2u8, b as u8],
        KOSValueView::Int16(i) => seq![3u8] + le_u16(i as u16),
        KOSValueView::Int32(i) => seq![4u8] + le_u32(i as u32),
        KOSValueView::Float(f) => seq![5u8] + le_u32(f),
        KOSValueView::Double(d) => seq![6u8] + le_u64(d),
        KOSValueView::String(s) => seq![7u8] + string_field(s),
        KOSValueView::ArgMarker => seq![8u8],
        KOSValueView::ScalarInt(i) => seq![9u8] + le_u32(i as u32),
        KOSValueView::ScalarDouble(d) => seq![10u8] + le_u64(d),
        KOSValueView::BoolValue(b) => seq![11u8, bool_byte(b)],
        KOSValueView::StringValue(s) => seq![12u8] + string_field(s),
    }
}

/// The size of a KOSValue in bytes.
pub open spec fn value_size(v: KOSValueView) -> nat {
    match v {
        KOSValueView::Null | KOSValueView::ArgMarker => 1,
        KOSValueView::Bool(_) | KOSValueView::Byte(_) | KOSValueView::BoolValue(_) => 2,
        KOSValueView::Int16(_) => 3,
        KOSValueView::Int32(_) | KOSValueView::Float(_) | KOSValueView::ScalarInt(_) => 5,
        KOSValueView::Double(_) | KOSValueView::ScalarDouble(_) => 9,
        KOSValueView::String(s) | KOSValueView::StringValue(s) => 2 + encode_utf8(s).len(),
    }
}

/// Reads the payload of a value of type `t` that starts at `pos`: what `KOSValue::from_bytes`
/// gives after the type byte. Any failure to read the payload is reported as EOF.
pub open spec fn decode_payload(t: KOSType, data: Seq<u8>, pos: int) -> (
    Result<KOSValueView, KOSValueParseError>,
    int,
) {
    match t {
        KOSType::Null => (Ok(KOSValueView::Null), pos),
        KOSType::ArgMarker => (Ok(KOSValueView::ArgMarker), pos),
        KOSType::Bool => match <bool as FromBytes>::decode(data, pos) {
            (Ok(b), p) => (Ok(KOSValueView::Bool(b)), p),
            (Err(_), p) => (Err(KOSValueParseError::EOF), p),
        },
        KOSType::BoolValue => match <bool as FromBytes>::decode(data, pos) {
            (Ok(b), p) => (Ok(KOSValueView::BoolValue(b)), p),
            (Err(_), p) => (Err(KOSValueParseError::EOF), p),
        },
        KOSType::Byte => match <i8 as FromBytes>::decode(data, pos) {
            (Ok(b), p) => (Ok(KOSValueView::Byte(b)), p),
            (Err(_), p) => (Err(KOSValueParseError::EOF), p),
        },
        KOSType::Int16 => match <i16 as FromBytes>::decode(data, pos) {
            (Ok(i), p) => (Ok(KOSValueView::Int16(i)), p),
            (Err(_), p) => (Err(KOSValueParseError::EOF), p),
        },
        KOSType::Int32 => match <i32 as FromBytes>::decode(data, pos) {
            (Ok(i), p) => (Ok(KOSValueView::Int32(i)), p),
            (Err(_), p) => (Err(KOSValueParseError::EOF), p),
        },
        KOSType::ScalarInt => match <i32 as FromBytes>::decode(data, pos) {
            (Ok(i), p) => (Ok(KOSValueView::ScalarInt(i)), p),
            (Err(_), p) => (Err(KOSValueParseError::EOF), p),
        },
        KOSType::Float => match <u32 as FromBytes>::decode(data, pos) {
            (Ok(f), p) => (Ok(KOSValueView::Float(f)), p),
            (Err(_), p) => (Err(KOSValueParseError::EOF), p),
        },
        KOSType::Double => match decode_u64(data, pos) {
            (Ok(d), p) => (Ok(KOSValueView::Double(d)), p),
            (Err(_), p) => (Err(KOSValueParseError::EOF), p),
        },
        KOSType::ScalarDouble => match decode_u64(data, pos) {
            (Ok(d), p) => (Ok(KOSValueView::ScalarDouble(d)), p),
            (Err(_), p) => (Err(KOSValueParseError::EOF), p),
        },
        KOSType::String => match <String as FromBytes>::decode(data, pos) {
            (Ok(s), p) => (Ok(KOSValueView::String(s)), p),
            (Err(_), p) => (Err(KOSValueParseError::EOF), p),
        },
        KOSType::StringValue => match <String as FromBytes>::decode(data, pos) {
            (Ok(s), p) => (Ok(KOSValueView::StringValue(s)), p),
            (Err(_), p) => (Err(KOSValueParseError::EOF), p),
        },
    }
}

/// What `KOSValue::from_bytes` gives at `pos`: a type byte, then the payload.
pub open spec fn decode_value(data: Seq<u8>, pos: int) -> (
    Result<KOSValueView, KOSValueParseError>,
    int,
) {
    match byte_at(data, pos) {
        None => (Err(KOSValueParseError::EOF), pos),
        Some(b) => match kos_type_of_byte(b) {
            None => (Err(KOSValueParseError::InvalidType(b)), pos + 1),
            Some(t) => decode_payload(t, data, pos + 1),
        },
    }
}

impl KOSValue {
    /// Returns the size of the value in bytes.
    pub fn size_bytes(&self) -> (r: usize)
        requires
            value_size(self@) <= usize::MAX,
        ensures
            r == value_size(self@),
    {
        match &self {
            Self::Null | Self::ArgMarker => 1,
            Self::Bool(_) | Self::Byte(_) | Self::BoolValue(_) => 2,
            Self::Int16(_) => 3,
            Self::Int32(_) | Self::Float(_) | Self::ScalarInt(_) => 5,
            Self::Double(_) | Self::ScalarDouble(_) => 9,
            Self::String(s) | Self::StringValue(s) => {
                // 1 byte for the type, 1 byte for the length, and then the string
                2 + s.as_str().len()
            },
        }
    }
}

/// Appends a string field: its length byte, then its UTF-8 bytes.
fn write_string_field(s: &String, buf: &mut Vec<u8>)
    ensures
        final(buf)@ == old(buf)@ + string_field(s@),
{
    let bytes = s.as_str().as_bytes();
    buf.push(bytes.len() as u8);
    crate::primitives::push_all(buf, bytes);
}

impl ToBytes for KOSValue {
    open spec fn encoding(&self) -> Seq<u8> {
        value_bytes(self@)
    }

    fn to_bytes(&self, buf: &mut Vec<u8>) {
        match self {
            Self::Null => {
                buf.push(0);
            },
            Self::Bool(b) => {
                buf.push(1);
                b.to_bytes(buf);
            },
            Self::Byte(b) => {
                buf.push(2);
                b.to_bytes(buf);
            },
            Self::Int16(i) => {
                buf.push(3);
                i.to_bytes(buf);
            },
            Self::Int32(i) => {
                buf.push(4);
                i.to_bytes(buf);
            },
            Self::Float(f) => {
                buf.push(5);
                f.to_bytes(buf);
            },
            Self::Double(f) => {
                buf.push(6);
                write_u64_le(*f, buf);
            },
            Self::String(s) => {
                buf.push(7);
                write_string_field(s, buf);
            },
            Self::ArgMarker => {
                buf.push(8);
            },
            Self::ScalarInt(i) => {
                buf.push(9);
                i.to_bytes(buf);
            },
            Self::ScalarDouble(f) => {
                buf.push(10);
                write_u64_le(*f, buf);
            },
            Self::BoolValue(b) => {
                buf.push(11);
                b.to_bytes(buf);
            },
            Self::StringValue(s) => {
                buf.push(12);
                write_string_field(s, buf);
            },
        }
    }
}

impl FromBytes for KOSValue {
    type Error = KOSValueParseError;

    open spec fn decode(data: Seq<u8>, pos: int) -> (Result<KOSValueView, KOSValueParseError>, int) {
        decode_value(data, pos)
    }

    fn from_bytes(source: &mut BufferIterator) -> (r: Result<Self, Self::Error>) {
        let raw_type = match source.next() {
            Some(b) => b,
            None => {
                return Err(KOSValueParseError::EOF);
            },
        };
        let kos_type = match KOSType::try_from(raw_type) {
            Ok(t) => t,
            Err(_) => {
                return Err(KOSValueParseError::InvalidType(raw_type));
            },
        };
        match kos_type {
            KOSType::Null => Ok(KOSValue::Null),
            KOSType::ArgMarker => Ok(KOSValue::ArgMarker),
            KOSType::Bool => match bool::from_bytes(source) {
                Ok(b) => Ok(KOSValue::Bool(b)),
                Err(_) => Err(KOSValueParseError::EOF),
            },
            KOSType::BoolValue => match bool::from_bytes(source) {
                Ok(b) => Ok(KOSValue::BoolValue(b)),
                Err(_) => Err(KOSValueParseError::EOF),
            },
            KOSType::Byte => match i8::from_bytes(source) {
                Ok(b) => Ok(KOSValue::Byte(b)),
                Err(_) => Err(KOSValueParseError::EOF),
            },
            KOSType::Int16 => match i16::from_bytes(source) {
                Ok(i) => Ok(KOSValue::Int16(i)),
                Err(_) => Err(KOSValueParseError::EOF),
            },
            KOSType::Int32 => match i32::from_bytes(source) {
                Ok(i) => Ok(KOSValue::Int32(i)),
                Err(_) => Err(KOSValueParseError::EOF),
            },
            KOSType::ScalarInt => match i32::from_bytes(source) {
                Ok(i) => Ok(KOSValue::ScalarInt(i)),
                Err(_) => Err(KOSValueParseError::EOF),
            },
            KOSType::Float => match u32::from_bytes(source) {
                Ok(f) => Ok(KOSValue::Float(f)),
                Err(_) => Err(KOSValueParseError::EOF),
            },
            KOSType::Double => match read_u64_le(source) {
                Ok(d) => Ok(KOSValue::Double(d)),
                Err(_) => Err(KOSValueParseError::EOF),
            },
            KOSType::ScalarDouble => match read_u64_le(source) {
                Ok(d) => Ok(KOSValue::ScalarDouble(d)),
                Err(_) => Err(KOSValueParseError::EOF),
            },
            KOSType::String => match String::from_bytes(source) {
                Ok(s) => Ok(KOSValue::String(s)),
                Err(_) => Err(KOSValueParseError::EOF),
            },
            KOSType::StringValue => match String::from_bytes(source) {
                Ok(s) => Ok(KOSValue::StringValue(s)),
                Err(_) => Err(KOSValueParseError::EOF),
            },
        }
    }
}

/// A string that a value carries unchanged through a write and a read: ASCII (the reader
/// takes each byte as one char), and at most 255 bytes long (the length is stored in one byte).
pub open spec fn storable_string(s: Seq<char>) -> bool {
    is_ascii_chars(s) && s.len() <= 255
}

/// A value that is read back as itself after it has been written.
pub open spec fn value_round_trips(v: KOSValueView) -> bool {
    match v {
        KOSValueView::String(s) | KOSValueView::StringValue(s) => storable_string(s),
        _ => true,
    }
}

/// The size of a value is the number of bytes it is written as.
pub proof fn lemma_value_size(v: KOSValueView)
    ensures
        value_bytes(v).len() == value_size(v),
{
    match v {
        KOSValueView::Int16(i) => lemma_le_u16(i as u16),
        KOSValueView::Int32(i) | KOSValueView::ScalarInt(i) => lemma_le_u32(i as u32),
        KOSValueView::Float(f) => lemma_le_u32(f),
        KOSValueView::Double(d) | KOSValueView::ScalarDouble(d) => lemma_le_u64(d),
        _ => {},
    }
}

/// Reading the UTF-8 bytes of an ASCII string one char per byte gives the string back.
pub proof fn lemma_latin1_ascii(s: Seq<char>)
    requires
        is_ascii_chars(s),
    ensures
        encode_utf8(s).len() == s.len(),
        latin1(encode_utf8(s)) == s,
{
    is_ascii_chars_encode_utf8(s);
    assert forall|i: int| 0 <= i < s.len() implies latin1(encode_utf8(s))[i] == s[i] by {
        let c = s[i];
        assert('\0' <= c <= '\u{7f}');
        assert(encode_utf8(s)[i] == c as u8);
        assert((c as u8) as char == c) by {
            let u = c as u32;
            assert(u < 128);
        }
    }
    assert(latin1(encode_utf8(s)) =~= s);
}

/// A string field written at `pos` is read back as the string.
proof fn lemma_string_field_round_trip(s: Seq<char>, prefix: Seq<u8>, rest: Seq<u8>)
    requires
        storable_string(s),
    ensures
        <String as FromBytes>::decode(prefix + string_field(s) + rest, prefix.len() as int) == (
            Ok::<Seq<char>, ()>(s),
            (prefix.len() + 1 + encode_utf8(s).len()) as int,
        ),
{
    lemma_latin1_ascii(s);
    let data = prefix + string_field(s) + rest;
    let n = encode_utf8(s).len();
    assert(data[prefix.len() as int] == n as u8);
    assert(data == (prefix + seq![n as u8]) + encode_utf8(s) + rest);
    lemma_take_middle(prefix + seq![n as u8], encode_utf8(s), rest);
}

/// Writing a value and reading it back gives the same value, and the reader moves past
/// exactly the value's size, whatever bytes stand before and after it. This holds for every
/// value but those whose strings are not ASCII or longer than 255 bytes.
pub proof fn value_round_trip(v: KOSValueView, prefix: Seq<u8>, rest: Seq<u8>)
    requires
        value_round_trips(v),
    ensures
        decode_value(prefix + value_bytes(v) + rest, prefix.len() as int) == (
            Ok::<KOSValueView, KOSValueParseError>(v),
            (prefix.len() + value_size(v)) as int,
        ),
{
    let data = prefix + value_bytes(v) + rest;
    let p = prefix.len() as int;
    let tag = value_bytes(v)[0];
    let payload = value_bytes(v).subrange(1, value_bytes(v).len() as int);
    assert(value_bytes(v) == seq![tag] + payload);
    assert(data == (prefix + seq![tag]) + payload + rest);
    assert(data[p] == tag);
    lemma_take_middle(prefix + seq![tag], payload, rest);
    lemma_value_size(v);
    match v {
        KOSValueView::Bool(b) | KOSValueView::BoolValue(b) => {
            assert(data[p + 1] == bool_byte(b));
        },
        KOSValueView::Byte(b) => {
            lemma_signed_casts(b, 0, 0);
            assert(data[p + 1] == b as u8);
        },
        KOSValueView::Int16(i) => {
            lemma_le_u16(i as u16);
            lemma_signed_casts(0, i, 0);
        },
        KOSValueView::Int32(i) | KOSValueView::ScalarInt(i) => {
            lemma_le_u32(i as u32);
            lemma_signed_casts(0, 0, i);
        },
        KOSValueView::Float(f) => {
            lemma_le_u32(f);
        },
        KOSValueView::Double(d) | KOSValueView::ScalarDouble(d) => {
            lemma_le_u64(d);
        },
        KOSValueView::String(s) | KOSValueView::StringValue(s) => {
            assert(data == (prefix + seq![tag]) + string_field(s) + rest);
            lemma_string_field_round_trip(s, prefix + seq![tag], rest);
        },
        _ => {},
    }
}

/// A string read one char per byte takes at most two UTF-8 bytes per byte it was read from.
pub proof fn lemma_latin1_utf8_len(b: Seq<u8>)
    ensures
        encode_utf8(latin1(b)).len() <= 2 * b.len(),
    decreases b.len(),
{
    if b.len() > 0 {
        let c = latin1(b)[0];
        assert(c == b[0] as char);
        let u = c as u32;
        assert(u == b[0] as u32);
        assert(has_width_1_encoding(u) || has_width_2_encoding(u));
        assert(encode_scalar(u).len() <= 2);
        assert(latin1(b).drop_first() == latin1(b.drop_first()));
        lemma_latin1_utf8_len(b.drop_first());
    }
}

/// Reading a value moves the reader forward by at least one byte, and by at least half
/// of the size of the value read (strings of chars above 0x7f grow when they are read).
pub proof fn lemma_decode_value_progress(data: Seq<u8>, pos: int)
    requires
        0 <= pos,
    ensures
        decode_value(data, pos).1 >= pos,
        pos < data.len() ==> decode_value(data, pos).1 > pos,
        decode_value(data, pos).1 <= data.len() || decode_value(data, pos).1 == pos,
        decode_value(data, pos).0 matches Ok(v) ==> value_size(v) <= 2 * (decode_value(data, pos).1 - pos),
{
    if pos < data.len() {
        let b = data[pos];
        if let Some(t) = kos_type_of_byte(b) {
            if t == KOSType::String || t == KOSType::StringValue {
                if pos + 1 < data.len() {
                    let n = data[pos + 1];
                    if pos + 2 + n <= data.len() {
                        lemma_latin1_utf8_len(data.subrange(pos + 2, pos + 2 + n));
                    }
                }
            }
        }
    }
}

/// A value that was read takes at most 512 bytes when written: a string field holds at most
/// 255 bytes, each of which stands for a char of at most two UTF-8 bytes.
pub proof fn lemma_decoded_value_size(data: Seq<u8>, pos: int)
    ensures
        decode_value(data, pos).0 matches Ok(v) ==> 1 <= value_size(v) <= 512,
{
    if 0 <= pos < data.len() {
        let b = data[pos];
        if let Some(t) = kos_type_of_byte(b) {
            if t == KOSType::String || t == KOSType::StringValue {
                if pos + 1 < data.len() {
                    let n = data[pos + 1];
                    if pos + 2 + n <= data.len() {
                        lemma_latin1_utf8_len(data.subrange(pos + 2, pos + 2 + n));
                    }
                }
            }
        }
    }
}

/// Compares two values the way kOS tells them apart: by type and contents, with floating
/// point numbers compared by their bit patterns.
pub fn values_equal(a: &KOSValue, b: &KOSValue) -> (r: bool)
    ensures
        r == (a@ == b@),
{
    match (a, b) {
        (KOSValue::Null, KOSValue::Null) => true,
        (KOSValue::Bool(x), KOSValue::Bool(y)) => *x == *y,
        (KOSValue::Byte(x), KOSValue::Byte(y)) => *x == *y,
        (KOSValue::Int16(x), KOSValue::Int16(y)) => *x == *y,
        (KOSValue::Int32(x), KOSValue::Int32(y)) => *x == *y,
        (KOSValue::Float(x), KOSValue::Float(y)) => *x == *y,
        (KOSValue::Double(x), KOSValue::Double(y)) => *x == *y,
        (KOSValue::String(x), KOSValue::String(y)) => *x == *y,
        (KOSValue::ArgMarker, KOSValue::ArgMarker) => true,
        (KOSValue::ScalarInt(x), KOSValue::ScalarInt(y)) => *x == *y,
        (KOSValue::ScalarDouble(x), KOSValue::ScalarDouble(y)) => *x == *y,
        (KOSValue::BoolValue(x), KOSValue::BoolValue(y)) => *x == *y,
        (KOSValue::StringValue(x), KOSValue::StringValue(y)) => *x == *y,
        _ => false,
    }
}

/// The total size in bytes of a sequence of values.
pub open spec fn values_size(s: Seq<KOSValueView>) -> nat
    decreases s.len(),
{
    if s.len() == 0 {
        0
    } else {
        values_size(s.drop_last()) + value_size(s.last())
    }
}

/// The bytes a sequence of values is written as, one after the other.
pub open spec fn values_bytes(s: Seq<KOSValueView>) -> Seq<u8>
    decreases s.len(),
{
    if s.len() == 0 {
        seq![]
    } else {
        values_bytes(s.drop_last()) + value_bytes(s.last())
    }
}

/// The bytes of a sequence of values number the total size of the values.
pub proof fn lemma_values_bytes_len(s: Seq<KOSValueView>)
    ensures
        values_bytes(s).len() == values_size(s),
    decreases s.len(),
{
    if s.len() > 0 {
        lemma_values_bytes_len(s.drop_last());
        lemma_value_size(s.last());
    }
}

/// The total size of a prefix of a sequence of values is at most the total size.
pub proof fn lemma_values_size_prefix(s: Seq<KOSValueView>, i: int)
    requires
        0 <= i <= s.len(),
    ensures
        values_size(s.take(i)) <= values_size(s),
    decreases s.len(),
{
    if i < s.len() {
        assert(s.drop_last().take(i) == s.take(i));
        lemma_values_size_prefix(s.drop_last(), i);
    } else {
        assert(s.take(i) == s);
    }
}

/// The bytes and size of values that start with `v` are those of `v` followed by those of
/// the rest.
pub proof fn lemma_values_prepend(v: KOSValueView, vs: Seq<KOSValueView>)
    ensures
        values_bytes(seq![v] + vs) == value_bytes(v) + values_bytes(vs),
        values_size(seq![v] + vs) == value_size(v) + values_size(vs),
    decreases vs.len(),
{
    let s = seq![v] + vs;
    if vs.len() == 0 {
        assert(s.drop_last() == Seq::<KOSValueView>::empty());
        assert(s.last() == v);
        assert(values_bytes(s.drop_last()) == Seq::<u8>::empty());
        assert(values_size(s.drop_last()) == 0);
        assert(values_bytes(vs) == Seq::<u8>::empty());
        assert(values_bytes(s) == values_bytes(s.drop_last()) + value_bytes(v));
        assert(values_bytes(s) =~= value_bytes(v) + values_bytes(vs));
    } else {
        lemma_values_prepend(v, vs.drop_last());
        assert(s.drop_last() == seq![v] + vs.drop_last());
        assert(s.last() == vs.last());
        assert(values_bytes(s) == values_bytes(s.drop_last()) + value_bytes(s.last()));
        assert(values_bytes(vs) == values_bytes(vs.drop_last()) + value_bytes(vs.last()));
        assert(value_bytes(v) + values_bytes(vs.drop_last()) + value_bytes(vs.last()) =~= value_bytes(
            v,
        ) + (values_bytes(vs.drop_last()) + value_bytes(vs.last())));
    }
}

/// The type of a value: the KOSType of the same name.
pub open spec fn value_kind(v: KOSValueView) -> KOSType {
    match v {
        KOSValueView::Null => KOSType::Null,
        KOSValueView::Bool(_) => KOSType::Bool,
        KOSValueView::Byte(_) => KOSType::Byte,
        KOSValueView::Int16(_) => KOSType::Int16,
        KOSValueView::Int32(_) => KOSType::Int32,
        KOSValueView::Float(_) => KOSType::Float,
        KOSValueView::Double(_) => KOSType::Double,
        KOSValueView::String(_) => KOSType::String,
        KOSValueView::ArgMarker => KOSType::ArgMarker,
        KOSValueView::ScalarInt(_) => KOSType::ScalarInt,
        KOSValueView::ScalarDouble(_) => KOSType::ScalarDouble,
        KOSValueView::BoolValue(_) => KOSType::BoolValue,
        KOSValueView::StringValue(_) => KOSType::StringValue,
    }
}

/// A value is written as the byte of its own type followed by its payload: a boolean as 1 or
/// 0, integers and floating point bit patterns in little-endian order, a string as its
/// length byte and then its UTF-8 bytes.
pub proof fn value_bytes_layout(v: KOSValueView)
    ensures
        value_bytes(v)[0] == kos_type_byte(value_kind(v)),
        value_bytes(v) == seq![kos_type_byte(value_kind(v))] + match v {
            KOSValueView::Null | KOSValueView::ArgMarker => Seq::<u8>::empty(),
            KOSValueView::Bool(b) | KOSValueView::BoolValue(b) => seq![if b { 1u8 } else { 0u8 }],
            KOSValueView::Byte(b) => seq![b as u8],
            KOSValueView::Int16(i) => le_u16(i as u16),
            KOSValueView::Int32(i) | KOSValueView::ScalarInt(i) => le_u32(i as u32),
            KOSValueView::Float(f) => le_u32(f),
            KOSValueView::Double(d) | KOSValueView::ScalarDouble(d) => le_u64(d),
            KOSValueView::String(s) | KOSValueView::StringValue(s) => seq![
                encode_utf8(s).len() as u8,
            ] + encode_utf8(s),
        },
{
    match v {
        KOSValueView::Null | KOSValueView::ArgMarker => {
            assert(value_bytes(v) =~= seq![kos_type_byte(value_kind(v))] + Seq::<u8>::empty());
        },
        KOSValueView::Bool(_) | KOSValueView::BoolValue(_) | KOSValueView::Byte(_) => {
            assert(value_bytes(v) =~= seq![kos_type_byte(value_kind(v))] + seq![value_bytes(v)[1]]);
        },
        KOSValueView::String(s) | KOSValueView::StringValue(s) => {
            assert(value_bytes(v) =~= seq![kos_type_byte(value_kind(v))] + (seq![
                encode_utf8(s).len() as u8,
            ] + encode_utf8(s)));
        },
        _ => {},
    }
}

/// The first byte a value is written as is its type byte, at most 12.
pub proof fn lemma_value_first_byte(v: KOSValueView)
    ensures
        value_bytes(v).len() > 0,
        value_bytes(v)[0] <= 12,
{
}

/// Appending a value adds its size to the total.
pub proof fn lemma_values_size_push(s: Seq<KOSValueView>, v: KOSValueView)
    ensures
        values_size(s.push(v)) == values_size(s) + value_size(v),
        values_bytes(s.push(v)) == values_bytes(s) + value_bytes(v),
{
    assert(s.push(v).drop_last() == s);
}

} // verus!
