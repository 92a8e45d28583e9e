use vstd::prelude::*;

use crate::bytes::{
    be_bytes, be_value, decimal_digits, decimal_text, digits_value, from_twos_complement, is_digit,
    lemma_be_round_trip, lemma_be_value_bound, lemma_decimal_round_trip, lemma_twos_round_trip,
    pow256, push_be_bytes, push_decimal_digits, push_decimal_text, read_be_bytes, twos_complement,
};
use crate::error::CodecError;

verus! {

/// One concrete integer representation.
#[derive(Clone, Copy, Debug, PartialEq, Eq, Structural)]
pub enum NumberKind {
    I8,
    U8,
    I16,
    U16,
    I32,
    U32,
    I64,
    U64,
    I128,
    U128,
}

/// The server-side parameter type that a value is sent as.
#[derive(Clone, Copy, Debug, PartialEq, Eq, Structural)]
pub enum TypeDescriptor {
    /// A two-byte integer.
    Int2,
    /// A four-byte integer.
    Int4,
    /// An eight-byte integer.
    Int8,
    /// Text.
    Text,
    /// A JSONB document.
    Jsonb,
    /// A boolean.
    Bool,
}

/// A number tagged with its representation.
#[derive(Clone, Copy, Debug, PartialEq, Eq, Structural)]
pub enum Number {
    I8(i8),
    U8(u8),
    I16(i16),
    U16(u16),
    I32(i32),
    U32(u32),
    I64(i64),
    U64(u64),
    I128(i128),
    U128(u128),
}

impl NumberKind {
    /// The byte width of the signed wire integer, or zero where the kind is
    /// sent as decimal text.
    pub open spec fn width(self) -> nat {
        match self {
            NumberKind::I8 | NumberKind::U8 | NumberKind::I16 | NumberKind::U16 => 2,
            NumberKind::I32 | NumberKind::U32 => 4,
            NumberKind::I64 | NumberKind::U64 => 8,
            NumberKind::I128 | NumberKind::U128 => 0,
        }
    }

    /// What is subtracted from a value before it is sent: the offset-binary
    /// remap of an unsigned kind onto the signed integer of its width.
    pub open spec fn offset(self) -> int {
        match self {
            NumberKind::U16 => 0x8000,
            NumberKind::U32 => 0x8000_0000,
            NumberKind::U64 => 0x8000_0000_0000_0000,
            _ => 0,
        }
    }

    pub open spec fn min(self) -> int {
        match self {
            NumberKind::I8 => i8::MIN as int,
            NumberKind::I16 => i16::MIN as int,
            NumberKind::I32 => i32::MIN as int,
            NumberKind::I64 => i64::MIN as int,
            NumberKind::I128 => i128::MIN as int,
            _ => 0,
        }
    }

    pub open spec fn max(self) -> int {
        match self {
            NumberKind::I8 => i8::MAX as int,
            NumberKind::U8 => u8::MAX as int,
            NumberKind::I16 => i16::MAX as int,
            NumberKind::U16 => u16::MAX as int,
            NumberKind::I32 => i32::MAX as int,
            NumberKind::U32 => u32::MAX as int,
            NumberKind::I64 => i64::MAX as int,
            NumberKind::U64 => u64::MAX as int,
            NumberKind::I128 => i128::MAX as int,
            NumberKind::U128 => u128::MAX as int,
        }
    }

    pub open spec fn spec_descriptor(self) -> TypeDescriptor {
        if self.width() == 2 {
            TypeDescriptor::Int2
        } else if self.width() == 4 {
            TypeDescriptor::Int4
        } else if self.width() == 8 {
            TypeDescriptor::Int8
        } else {
            TypeDescriptor::Text
        }
    }

    /// The parameter type that numbers of this kind are sent as.
    #[verifier::when_used_as_spec(spec_descriptor)]
    pub fn descriptor(self) -> (r: TypeDescriptor)
        ensures
            r == self.spec_descriptor(),
    {
        match self {
            NumberKind::I8 | NumberKind::U8 | NumberKind::I16 | NumberKind::U16 => TypeDescriptor::Int2,
            NumberKind::I32 | NumberKind::U32 => TypeDescriptor::Int4,
            NumberKind::I64 | NumberKind::U64 => TypeDescriptor::Int8,
            NumberKind::I128 | NumberKind::U128 => TypeDescriptor::Text,
        }
    }

    /// The number of this kind with value `v`.
    pub open spec fn with_value(self, v: int) -> Number {
        match self {
            NumberKind::I8 => Number::I8(v as i8),
            NumberKind::U8 => Number::U8(v as u8),
            NumberKind::I16 => Number::I16(v as i16),
            NumberKind::U16 => Number::U16(v as u16),
            NumberKind::I32 => Number::I32(v as i32),
            NumberKind::U32 => Number::U32(v as u32),
            NumberKind::I64 => Number::I64(v as i64),
            NumberKind::U64 => Number::U64(v as u64),
            NumberKind::I128 => Number::I128(v as i128),
            NumberKind::U128 => Number::U128(v as u128),
        }
    }
}

/// A byte string that is an optional minus sign and then one or more ASCII
/// digits.
pub open spec fn is_decimal_text(s: Seq<u8>) -> bool {
    unsigned_part(s).len() > 0 && all_digits(unsigned_part(s))
}

/// A decimal text without its minus sign.
pub open spec fn unsigned_part(s: Seq<u8>) -> Seq<u8> {
    if s.len() > 0 && s[0] == 45 {
        s.skip(1)
    } else {
        s
    }
}

pub open spec fn all_digits(t: Seq<u8>) -> bool {
    forall|i: int| 0 <= i < t.len() ==> is_digit(#[trigger] t[i])
}

/// The value of a decimal text.
pub open spec fn decimal_text_value(s: Seq<u8>) -> int {
    if s.len() > 0 && s[0] == 45 {
        -digits_value(s.skip(1))
    } else {
        digits_value(s) as int
    }
}

/// The value that wire bytes denote for a kind, where they denote one that
/// the kind can hold.
pub open spec fn wire_value(kind: NumberKind, s: Seq<u8>) -> Option<int> {
    let v = if kind.width() == 0 {
        decimal_text_value(s)
    } else {
        from_twos_complement(be_value(s), kind.width()) + kind.offset()
    };
    let well_formed = if kind.width() == 0 {
        is_decimal_text(s)
    } else {
        s.len() == kind.width()
    };
    if well_formed && kind.min() <= v <= kind.max() {
        Some(v)
    } else {
        None
    }
}

/// What decoding wire bytes as a kind gives.
pub open spec fn decode_result(kind: NumberKind, s: Seq<u8>) -> Result<Number, CodecError> {
    match wire_value(kind, s) {
        Some(v) => Ok(kind.with_value(v)),
        None => Err(CodecError::InvalidNumber),
    }
}

impl Number {
    pub open spec fn spec_kind(&self) -> NumberKind {
        match self {
            Number::I8(_) => NumberKind::I8,
            Number::U8(_) => NumberKind::U8,
            Number::I16(_) => NumberKind::I16,
            Number::U16(_) => NumberKind::U16,
            Number::I32(_) => NumberKind::I32,
            Number::U32(_) => NumberKind::U32,
            Number::I64(_) => NumberKind::I64,
            Number::U64(_) => NumberKind::U64,
            Number::I128(_) => NumberKind::I128,
            Number::U128(_) => NumberKind::U128,
        }
    }

    /// The representation of this number.
    #[verifier::when_used_as_spec(spec_kind)]
    pub fn kind(&self) -> (r: NumberKind)
        ensures
            r == self.spec_kind(),
    {
        match self {
            Number::I8(_) => NumberKind::I8,
            Number::U8(_) => NumberKind::U8,
            Number::I16(_) => NumberKind::I16,
            Number::U16(_) => NumberKind::U16,
            Number::I32(_) => NumberKind::I32,
            Number::U32(_) => NumberKind::U32,
            Number::I64(_) => NumberKind::I64,
            Number::U64(_) => NumberKind::U64,
            Number::I128(_) => NumberKind::I128,
            Number::U128(_) => NumberKind::U128,
        }
    }

    /// The mathematical value.
    pub open spec fn value(self) -> int {
        match self {
            Number::I8(x) => x as int,
            Number::U8(x) => x as int,
            Number::I16(x) => x as int,
            Number::U16(x) => x as int,
            Number::I32(x) => x as int,
            Number::U32(x) => x as int,
            Number::I64(x) => x as int,
            Number::U64(x) => x as int,
            Number::I128(x) => x as int,
            Number::U128(x) => x as int,
        }
    }

    /// The signed integer sent for a fixed-width kind.
    pub open spec fn wire_int(self) -> int {
        self.value() - self.kind().offset()
    }

    /// The bytes sent for this number: the big-endian two's complement of
    /// its wire integer, or its decimal text for the 128-bit kinds.
    pub open spec fn wire_bytes(self) -> Seq<u8> {
        let w = self.kind().width();
        if w == 0 {
            decimal_text(self.value())
        } else {
            be_bytes(twos_complement(self.wire_int(), w), w)
        }
    }

    /// The parameter type this number is sent as.
    pub fn type_info(&self) -> (r: TypeDescriptor)
        ensures
            r == self.kind().descriptor(),
    {
        self.kind().descriptor()
    }

    /// Whether the number is zero.
    pub fn is_zero(&self) -> (r: bool)
        ensures
            r == (self.value() == 0),
    {
        match self {
            Number::I8(x) => *x == 0,
            Number::U8(x) => *x == 0,
            Number::I16(x) => *x == 0,
            Number::U16(x) => *x == 0,
            Number::I32(x) => *x == 0,
            Number::U32(x) => *x == 0,
            Number::I64(x) => *x == 0,
            Number::U64(x) => *x == 0,
            Number::I128(x) => *x == 0,
            Number::U128(x) => *x == 0,
        }
    }

    /// The wire integer of a fixed-width kind.
    fn fixed_wire_int(&self) -> (r: i64)
        requires
            self.kind().width() > 0,
        ensures
            r == self.wire_int(),
    {
        match self {
            Number::I8(x) => *x as i64,
            Number::U8(x) => *x as i64,
            Number::I16(x) => *x as i64,
            Number::U16(x) => *x as i64 - 0x8000,
            Number::I32(x) => *x as i64,
            Number::U32(x) => *x as i64 - 0x8000_0000,
            Number::I64(x) => *x,
            Number::U64(x) => {
                if *x >= 0x8000_0000_0000_0000 {
                    (*x - 0x8000_0000_0000_0000) as i64
                } else {
                    *x as i64 - 0x7fff_ffff_ffff_ffff - 1
                }
            },
            _ => 0,
        }
    }

    /// Appends the decimal text of the value.
    pub fn push_decimal(&self, buf: &mut Vec<u8>)
        ensures
            final(buf)@ == old(buf)@ + decimal_text(self.value()),
    {
        match self {
            Number::U128(x) => push_decimal_digits(buf, *x),
            Number::I8(x) => push_decimal_text(buf, *x as i128),
            Number::U8(x) => push_decimal_text(buf, *x as i128),
            Number::I16(x) => push_decimal_text(buf, *x as i128),
            Number::U16(x) => push_decimal_text(buf, *x as i128),
            Number::I32(x) => push_decimal_text(buf, *x as i128),
            Number::U32(x) => push_decimal_text(buf, *x as i128),
            Number::I64(x) => push_decimal_text(buf, *x as i128),
            Number::U64(x) => push_decimal_text(buf, *x as i128),
            Number::I128(x) => push_decimal_text(buf, *x),
        }
    }

    /// Appends the wire bytes of this number.
    pub fn encode_by_ref(&self, buf: &mut Vec<u8>)
        ensures
            final(buf)@ == old(buf)@ + self.wire_bytes(),
    {
        let width: usize = match self.kind() {
            NumberKind::I8 | NumberKind::U8 | NumberKind::I16 | NumberKind::U16 => 2,
            NumberKind::I32 | NumberKind::U32 => 4,
            NumberKind::I64 | NumberKind::U64 => 8,
            NumberKind::I128 | NumberKind::U128 => 0,
        };
        if width > 0 {
            proof {
                lemma_pow256_values();
            }
            let w = self.fixed_wire_int();
            let pattern = twos_pattern(w, width);
            push_be_bytes(buf, pattern, width);
        } else {
            match self {
                Number::I128(x) => push_decimal_text(buf, *x),
                Number::U128(x) => push_decimal_digits(buf, *x),
                _ => {},
            }
        }
    }

    /// The wire bytes of this number.
    pub fn encode(&self) -> (r: Vec<u8>)
        ensures
            r@ == self.wire_bytes(),
    {
        let mut buf: Vec<u8> = Vec::new();
        self.encode_by_ref(&mut buf);
        assert(buf@ == Seq::<u8>::empty() + self.wire_bytes());
        buf
    }

    /// Reads wire bytes back as a number of the given kind.
    pub fn decode(kind: NumberKind, s: &[u8]) -> (r: Result<Number, CodecError>)
        ensures
            r == decode_result(kind, s@),
    {
        match kind {
            NumberKind::I128 | NumberKind::U128 => decode_decimal(kind, s),
            _ => decode_fixed(kind, s),
        }
    }
}

proof fn lemma_pow256_values()
    ensures
        pow256(2) == 0x1_0000,
        pow256(4) == 0x1_0000_0000,
        pow256(8) == 0x1_0000_0000_0000_0000,
{
    reveal_with_fuel(pow256, 9);
}

/// The two's complement bit pattern of `w` over `n` bytes.
fn twos_pattern(w: i64, n: usize) -> (r: u128)
    requires
        n == 2 || n == 4 || n == 8,
        -(pow256(n as nat) / 2) <= w < pow256(n as nat) / 2,
    ensures
        r as nat == twos_complement(w as int, n as nat),
{
    proof {
        lemma_pow256_values();
    }
    let p: i128 = if n == 2 {
        0x1_0000
    } else if n == 4 {
        0x1_0000_0000
    } else {
        0x1_0000_0000_0000_0000
    };
    if w < 0 {
        (w as i128 + p) as u128
    } else {
        w as u128
    }
}

fn decode_fixed(kind: NumberKind, s: &[u8]) -> (r: Result<Number, CodecError>)
    requires
        kind.width() > 0,
    ensures
        r == decode_result(kind, s@),
{
    proof {
        lemma_pow256_values();
    }
    let (width, p): (usize, i128) = match kind {
        NumberKind::I8 | NumberKind::U8 | NumberKind::I16 | NumberKind::U16 => (2, 0x1_0000),
        NumberKind::I32 | NumberKind::U32 => (4, 0x1_0000_0000),
        _ => (8, 0x1_0000_0000_0000_0000),
    };
    if s.len() != width {
        return Err(CodecError::InvalidNumber);
    }
    let u = read_be_bytes(s);
    proof {
        lemma_be_value_bound(s@);
    }
    let w: i128 = if u as i128 >= p / 2 {
        u as i128 - p
    } else {
        u as i128
    };
    assert(w == from_twos_complement(be_value(s@), kind.width()));
    match kind {
        NumberKind::I8 => {
            if -128 <= w && w <= 127 {
                Ok(Number::I8(w as i8))
            } else {
                Err(CodecError::InvalidNumber)
            }
        },
        NumberKind::U8 => {
            if 0 <= w && w <= 255 {
                Ok(Number::U8(w as u8))
            } else {
                Err(CodecError::InvalidNumber)
            }
        },
        NumberKind::I16 => Ok(Number::I16(w as i16)),
        NumberKind::U16 => Ok(Number::U16((w + 0x8000) as u16)),
        NumberKind::I32 => Ok(Number::I32(w as i32)),
        NumberKind::U32 => Ok(Number::U32((w + 0x8000_0000) as u32)),
        NumberKind::I64 => Ok(Number::I64(w as i64)),
        _ => Ok(Number::U64((w + 0x8000_0000_0000_0000) as u64)),
    }
}

proof fn lemma_digits_prefix_le(s: Seq<u8>, i: int)
    requires
        0 <= i <= s.len(),
        forall|j: int| 0 <= j < s.len() ==> is_digit(#[trigger] s[j]),
    ensures
        digits_value(s.subrange(0, i)) <= digits_value(s),
    decreases s.len(),
{
    if i < s.len() {
        let t = s.drop_last();
        assert(t.subrange(0, i) == s.subrange(0, i));
        lemma_digits_prefix_le(t, i);
    } else {
        assert(s.subrange(0, i) == s);
    }
}

/// The value of the ASCII digits of `s` from `start` on, where they are one
/// or more digits whose value fits in a `u128`.
fn parse_digits(s: &[u8], start: usize) -> (r: Option<u128>)
    requires
        start <= s@.len(),
    ensures
        ({
            let t = s@.skip(start as int);
            r == if t.len() > 0 && all_digits(t) && digits_value(t) <= u128::MAX {
                Some(digits_value(t) as u128)
            } else {
                None::<u128>
            }
        }),
{
    let ghost t = s@.skip(start as int);
    if start == s.len() {
        return None;
    }
    let mut i: usize = start;
    while i < s.len()
        invariant
            start <= i <= s@.len(),
            t == s@.skip(start as int),
            forall|j: int| 0 <= j < i - start ==> is_digit(#[trigger] t[j]),
        decreases s@.len() - i,
    {
        if !(48 <= s[i] && s[i] <= 57) {
            assert(t[i - start] == s@[i as int]);
            assert(!is_digit(t[i - start]));
            return None;
        }
        i = i + 1;
    }
    let mut acc: u128 = 0;
    let mut k: usize = start;
    while k < s.len()
        invariant
            start <= k <= s@.len(),
            t == s@.skip(start as int),
            t.len() > 0,
            forall|j: int| 0 <= j < t.len() ==> is_digit(#[trigger] t[j]),
            acc as nat == digits_value(t.subrange(0, k - start)),
        decreases s@.len() - k,
    {
        let ghost prefix = t.subrange(0, k - start + 1);
        assert(prefix.drop_last() == t.subrange(0, k - start));
        assert(prefix.last() == s@[k as int]);
        let d = (s[k] - 48) as u128;
        match acc.checked_mul(10) {
            Some(m) => match m.checked_add(d) {
                Some(v) => {
                    acc = v;
                },
                None => {
                    proof {
                        lemma_digits_prefix_le(t, k - start + 1);
                    }
                    return None;
                },
            },
            None => {
                proof {
                    lemma_digits_prefix_le(t, k - start + 1);
                }
                return None;
            },
        }
        k = k + 1;
    }
    assert(t.subrange(0, k - start) == t);
    Some(acc)
}

fn decode_decimal(kind: NumberKind, s: &[u8]) -> (r: Result<Number, CodecError>)
    requires
        kind.width() == 0,
    ensures
        r == decode_result(kind, s@),
{
    let negative = s.len() > 0 && s[0] == 45;
    let start: usize = if negative { 1 } else { 0 };
    assert(s@.skip(0) == s@);
    assert(s@.skip(start as int) == unsigned_part(s@));
    let magnitude = match parse_digits(s, start) {
        Some(m) => m,
        None => {
            proof {
                let t = s@.skip(start as int);
                if is_decimal_text(s@) {
                    assert(digits_value(t) > u128::MAX);
                    if negative {
                        assert(decimal_text_value(s@) == -digits_value(t));
                    } else {
                        assert(decimal_text_value(s@) == digits_value(t));
                    }
                }
            }
            return Err(CodecError::InvalidNumber);
        },
    };
    match kind {
        NumberKind::U128 => {
            if negative && magnitude != 0 {
                Err(CodecError::InvalidNumber)
            } else {
                Ok(Number::U128(magnitude))
            }
        },
        _ => {
            if negative {
                if magnitude > 0x8000_0000_0000_0000_0000_0000_0000_0000 {
                    Err(CodecError::InvalidNumber)
                } else if magnitude == 0x8000_0000_0000_0000_0000_0000_0000_0000 {
                    Ok(Number::I128(i128::MIN))
                } else {
                    Ok(Number::I128(-(magnitude as i128)))
                }
            } else if magnitude > 0x7fff_ffff_ffff_ffff_ffff_ffff_ffff_ffff {
                Err(CodecError::InvalidNumber)
            } else {
                Ok(Number::I128(magnitude as i128))
            }
        },
    }
}

/// Decoding the bytes that a number encodes to gives the number back, for
/// every representation and every value it can hold.
pub proof fn lemma_number_round_trip(n: Number)
    ensures
        decode_result(n.kind(), n.wire_bytes()) == Ok::<Number, CodecError>(n),
{
    let kind = n.kind();
    let w = kind.width();
    lemma_pow256_values();
    if w == 0 {
        let v = n.value();
        let s = n.wire_bytes();
        if v < 0 {
            lemma_decimal_round_trip((-v) as nat);
            assert(s.skip(1) == decimal_digits((-v) as nat));
        } else {
            lemma_decimal_round_trip(v as nat);
            let d = decimal_digits(v as nat);
            assert(d[0] != 45);
        }
    } else {
        lemma_twos_round_trip(n.wire_int(), w);
        lemma_be_round_trip(twos_complement(n.wire_int(), w), w);
    }
}

} // verus!
