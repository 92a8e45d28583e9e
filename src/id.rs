use vstd::prelude::*;

use crate::error::CodecError;

verus! {

/// A twelve-byte record identifier, ordered byte by byte.
#[derive(Debug, PartialEq, Eq, PartialOrd, Ord)]
pub struct Id {
    bytes: Vec<u8>,
}

/// The lowercase hexadecimal digit for a value below sixteen.
pub open spec fn hex_digit(n: int) -> char {
    if n < 10 {
        (48 + n) as char
    } else {
        (87 + n) as char
    }
}

pub open spec fn is_hex_char(c: char) -> bool {
    ('0' <= c <= '9') || ('a' <= c <= 'f') || ('A' <= c <= 'F')
}

/// The value of a hexadecimal digit of either case.
pub open spec fn hex_value(c: char) -> int {
    if '0' <= c <= '9' {
        c as int - 48
    } else if 'a' <= c <= 'f' {
        c as int - 87
    } else {
        c as int - 55
    }
}

/// Two lowercase hexadecimal digits per byte, high nibble first.
pub open spec fn hex_encode(b: Seq<u8>) -> Seq<char> {
    Seq::new(
        2 * b.len(),
        |k: int|
            if k % 2 == 0 {
                hex_digit(b[k / 2] as int / 16)
            } else {
                hex_digit(b[k / 2] as int % 16)
            },
    )
}

/// The bytes that pairs of hexadecimal digits denote.
pub open spec fn hex_decode(s: Seq<char>) -> Seq<u8> {
    Seq::new(s.len() / 2, |i: int| (hex_value(s[2 * i]) * 16 + hex_value(s[2 * i + 1])) as u8)
}

/// Exactly twenty-four hexadecimal digits.
pub open spec fn is_hex_id(s: Seq<char>) -> bool {
    s.len() == 24 && forall|i: int| 0 <= i < s.len() ==> is_hex_char(#[trigger] s[i])
}

/// Relies on `bson::oid::ObjectId::parse_str`, which hex-decodes its input
/// (either case) and accepts exactly twelve bytes.
#[verifier::external_body]
fn parse_object_id(s: &str) -> (r: Option<Vec<u8>>)
    ensures
        r is Some <==> is_hex_id(s@),
        r matches Some(b) ==> b@ == hex_decode(s@),
{
    match bson::oid::ObjectId::parse_str(s) {
        Ok(oid) => Some(oid.bytes().to_vec()),
        Err(_) => None,
    }
}

/// Relies on `bson::oid::ObjectId::to_hex`, which writes the twelve bytes
/// as lowercase hexadecimal.
#[verifier::external_body]
fn object_id_hex(b: &[u8]) -> (r: String)
    requires
        b@.len() == 12,
    ensures
        r@ == hex_encode(b@),
{
    let mut raw = [0u8; 12];
    raw.copy_from_slice(b);
    bson::oid::ObjectId::from_bytes(raw).to_hex()
}

impl View for Id {
    type V = Seq<u8>;

    closed spec fn view(&self) -> Seq<u8> {
        self.bytes@
    }
}

impl Id {
    #[verifier::type_invariant]
    spec fn inv(self) -> bool {
        self.bytes@.len() == 12
    }

    /// Reads an identifier from a binary column value.
    pub fn decode(bytes: &[u8]) -> (r: Result<Id, CodecError>)
        ensures
            r is Ok <==> bytes@.len() == 12,
            r matches Ok(id) ==> id@ == bytes@,
            r matches Err(e) ==> e == CodecError::InvalidIdentifierLength,
    {
        if bytes.len() != 12 {
            return Err(CodecError::InvalidIdentifierLength);
        }
        Ok(Id { bytes: vstd::slice::slice_to_vec(bytes) })
    }

    /// The twelve raw bytes, as bound to a binary column parameter.
    pub fn encode(&self) -> (r: Vec<u8>)
        ensures
            r@ == self@,
            r@.len() == 12,
    {
        proof {
            use_type_invariant(self);
        }
        vstd::slice::slice_to_vec(self.bytes.as_slice())
    }

    /// Reads an identifier from twenty-four hexadecimal digits.
    pub fn parse_str(s: &str) -> (r: Result<Id, CodecError>)
        ensures
            r is Ok <==> is_hex_id(s@),
            r matches Ok(id) ==> id@ == hex_decode(s@),
            r matches Err(e) ==> e == CodecError::InvalidIdentifierFormat,
    {
        match parse_object_id(s) {
            Some(bytes) => Ok(Id { bytes }),
            None => Err(CodecError::InvalidIdentifierFormat),
        }
    }

    /// The identifier as lowercase hexadecimal.
    pub fn to_hex(&self) -> (r: String)
        ensures
            r@ == hex_encode(self@),
    {
        proof {
            use_type_invariant(self);
        }
        object_id_hex(self.bytes.as_slice())
    }
}

/// Parsing the hexadecimal form of any twelve bytes gives the bytes back.
pub proof fn lemma_hex_round_trip(b: Seq<u8>)
    requires
        b.len() == 12,
    ensures
        is_hex_id(hex_encode(b)),
        hex_decode(hex_encode(b)) == b,
{
    let s = hex_encode(b);
    assert forall|i: int| 0 <= i < s.len() implies is_hex_char(#[trigger] s[i]) by {
        let byte = b[i / 2];
        assert(0 <= byte as int / 16 < 16 && 0 <= byte as int % 16 < 16);
    }
    assert forall|i: int| 0 <= i < b.len() implies #[trigger] hex_decode(s)[i] == b[i] by {
        assert((2 * i) / 2 == i && (2 * i) % 2 == 0);
        assert((2 * i + 1) / 2 == i && (2 * i + 1) % 2 == 1);
        let hi = b[i] as int / 16;
        let lo = b[i] as int % 16;
        assert(hex_value(hex_digit(hi)) == hi);
        assert(hex_value(hex_digit(lo)) == lo);
        assert(hi * 16 + lo == b[i]);
    }
    assert(hex_decode(s) =~= b);
}

} // verus!
