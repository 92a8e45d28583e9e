use vstd::prelude::*;
use vstd::slice::slice_to_vec;
use vstd::utf8::encode_utf8;

verus! {

/// `256` raised to the power `n`.
pub open spec fn pow256(n: nat) -> nat
    decreases n,
{
    if n == 0 {
        1
    } else {
        256 * pow256((n - 1) as nat)
    }
}

/// The `n` low-order bytes of `u`, most significant first.
pub open spec fn be_bytes(u: nat, n: nat) -> Seq<u8>
    decreases n,
{
    if n == 0 {
        Seq::empty()
    } else {
        be_bytes(u / 256, (n - 1) as nat).push((u % 256) as u8)
    }
}

/// The unsigned integer that a big-endian byte string denotes.
pub open spec fn be_value(s: Seq<u8>) -> nat
    decreases s.len(),
{
    if s.len() == 0 {
        0
    } else {
        (be_value(s.drop_last()) * 256 + s.last()) as nat
    }
}

/// The bit pattern of `v` in two's complement over `n` bytes.
pub open spec fn twos_complement(v: int, n: nat) -> nat {
    if v < 0 {
        (v + pow256(n)) as nat
    } else {
        v as nat
    }
}

/// The signed integer that an `n`-byte two's complement pattern denotes.
pub open spec fn from_twos_complement(u: nat, n: nat) -> int {
    if n > 0 && u >= pow256(n) / 2 {
        u - pow256(n)
    } else {
        u as int
    }
}

/// The ASCII decimal digits of `n`, without sign or leading zeros.
pub open spec fn decimal_digits(n: nat) -> Seq<u8>
    decreases n,
{
    if n < 10 {
        seq![(48 + n) as u8]
    } else {
        decimal_digits(n / 10).push((48 + n % 10) as u8)
    }
}

/// The decimal text of an integer: a minus sign before the digits of a
/// negative value.
pub open spec fn decimal_text(v: int) -> Seq<u8> {
    if v < 0 {
        seq![45u8] + decimal_digits((-v) as nat)
    } else {
        decimal_digits(v as nat)
    }
}

pub open spec fn is_digit(b: u8) -> bool {
    48 <= b <= 57
}

/// The value of a string of ASCII digits.
pub open spec fn digits_value(s: Seq<u8>) -> nat
    decreases s.len(),
{
    if s.len() == 0 {
        0
    } else {
        (digits_value(s.drop_last()) * 10 + (s.last() - 48)) as nat
    }
}

pub proof fn lemma_pow256_positive(n: nat)
    ensures
        pow256(n) >= 1,
    decreases n,
{
    if n > 0 {
        lemma_pow256_positive((n - 1) as nat);
    }
}

pub proof fn lemma_be_bytes_len(u: nat, n: nat)
    ensures
        be_bytes(u, n).len() == n,
    decreases n,
{
    if n > 0 {
        lemma_be_bytes_len(u / 256, (n - 1) as nat);
    }
}

/// Reading back the bytes of a value that fits gives the value.
pub proof fn lemma_be_round_trip(u: nat, n: nat)
    requires
        u < pow256(n),
    ensures
        be_value(be_bytes(u, n)) == u,
        be_bytes(u, n).len() == n,
    decreases n,
{
    lemma_be_bytes_len(u, n);
    if n > 0 {
        let m = (n - 1) as nat;
        assert(u / 256 < pow256(m)) by {
            assert(u < 256 * pow256(m));
        }
        lemma_be_round_trip(u / 256, m);
        let s = be_bytes(u, n);
        assert(s.drop_last() == be_bytes(u / 256, m));
        assert(s.last() == (u % 256) as u8);
        assert(u == (u / 256) * 256 + u % 256);
    } else {
        assert(u == 0);
    }
}

/// A byte string never denotes more than its length allows.
pub proof fn lemma_be_value_bound(s: Seq<u8>)
    ensures
        be_value(s) < pow256(s.len()),
    decreases s.len(),
{
    if s.len() > 0 {
        lemma_be_value_bound(s.drop_last());
        let p = pow256(s.drop_last().len());
        assert(be_value(s.drop_last()) * 256 + s.last() < p * 256) by (nonlinear_arith)
            requires
                be_value(s.drop_last()) < p,
                s.last() < 256,
        ;
    }
}

pub proof fn lemma_twos_round_trip(v: int, n: nat)
    requires
        n > 0,
        -(pow256(n) / 2) <= v < pow256(n) / 2,
    ensures
        twos_complement(v, n) < pow256(n),
        from_twos_complement(twos_complement(v, n), n) == v,
{
    lemma_pow256_positive((n - 1) as nat);
    assert(pow256(n) / 2 == 128 * pow256((n - 1) as nat));
}

proof fn lemma_digit_bytes(n: nat)
    ensures
        decimal_digits(n).len() >= 1,
        forall|i: int| 0 <= i < decimal_digits(n).len() ==> is_digit(#[trigger] decimal_digits(n)[i]),
    decreases n,
{
    if n >= 10 {
        lemma_digit_bytes(n / 10);
    }
}

/// Decimal digits read back as the number they were written from.
pub proof fn lemma_decimal_round_trip(n: nat)
    ensures
        digits_value(decimal_digits(n)) == n,
        decimal_digits(n).len() >= 1,
        forall|i: int| 0 <= i < decimal_digits(n).len() ==> is_digit(#[trigger] decimal_digits(n)[i]),
    decreases n,
{
    lemma_digit_bytes(n);
    if n >= 10 {
        lemma_decimal_round_trip(n / 10);
        let s = decimal_digits(n);
        assert(s.drop_last() == decimal_digits(n / 10));
        assert(s.last() == (48 + n % 10) as u8);
        assert(n == (n / 10) * 10 + n % 10);
        assert(digits_value(s) == digits_value(s.drop_last()) * 10 + (s.last() - 48));
    } else {
        let s = decimal_digits(n);
        assert(s.drop_last().len() == 0);
        assert(s.last() == (48 + n) as u8);
        assert(digits_value(s) == digits_value(s.drop_last()) * 10 + (s.last() - 48));
    }
}

/// Appends the `n` low-order bytes of `u`, most significant first.
pub fn push_be_bytes(buf: &mut Vec<u8>, u: u128, n: usize)
    ensures
        final(buf)@ == old(buf)@ + be_bytes(u as nat, n as nat),
    decreases n,
{
    if n > 0 {
        push_be_bytes(buf, u / 256, n - 1);
        buf.push((u % 256) as u8);
        assert(be_bytes(u as nat, n as nat) == be_bytes((u / 256) as nat, (n - 1) as nat).push(
            (u % 256) as u8,
        ));
    }
}

/// Reads a big-endian unsigned integer of at most sixteen bytes.
pub fn read_be_bytes(s: &[u8]) -> (r: u128)
    requires
        s@.len() <= 16,
    ensures
        r as nat == be_value(s@),
{
    let mut acc: u128 = 0;
    let mut i: usize = 0;
    while i < s.len()
        invariant
            i <= s@.len() <= 16,
            acc as nat == be_value(s@.subrange(0, i as int)),
        decreases s@.len() - i,
    {
        proof {
            let prefix = s@.subrange(0, i as int + 1);
            assert(prefix.drop_last() == s@.subrange(0, i as int));
            lemma_be_value_bound(s@.subrange(0, i as int));
            lemma_pow_le(i as nat, 15);
            lemma_pow256_15();
        }
        assert(acc * 256 + s@[i as int] < 0x1_0000_0000_0000_0000_0000_0000_0000_0000) by (nonlinear_arith)
            requires
                acc < pow256(i as nat),
                pow256(i as nat) <= pow256(15),
                pow256(15) == 0x1_0000_0000_0000_0000_0000_0000_0000_00,
                s@[i as int] < 256,
        ;
        acc = acc * 256 + s[i] as u128;
        i = i + 1;
    }
    assert(s@.subrange(0, i as int) == s@);
    acc
}

proof fn lemma_pow256_15()
    ensures
        pow256(15) == 0x1_0000_0000_0000_0000_0000_0000_0000_00,
{
    reveal_with_fuel(pow256, 16);
}

proof fn lemma_pow_le(a: nat, b: nat)
    requires
        a <= b,
    ensures
        pow256(a) <= pow256(b),
    decreases b,
{
    if a < b {
        lemma_pow_le(a, (b - 1) as nat);
        lemma_pow256_positive((b - 1) as nat);
    }
}

/// Appends the decimal digits of `n`.
pub fn push_decimal_digits(buf: &mut Vec<u8>, n: u128)
    ensures
        final(buf)@ == old(buf)@ + decimal_digits(n as nat),
    decreases n,
{
    if n >= 10 {
        push_decimal_digits(buf, n / 10);
    }
    buf.push(48u8 + (n % 10) as u8);
    assert(n < 10 ==> decimal_digits(n as nat) == seq![(48 + n) as u8]);
}

/// Appends the decimal text of `x`.
pub fn push_decimal_text(buf: &mut Vec<u8>, x: i128)
    ensures
        final(buf)@ == old(buf)@ + decimal_text(x as int),
{
    if x < 0 {
        buf.push(45u8);
        let magnitude: u128 = (-(x + 1)) as u128 + 1;
        push_decimal_digits(buf, magnitude);
        assert(final(buf)@ == old(buf)@ + decimal_text(x as int));
    } else {
        push_decimal_digits(buf, x as u128);
    }
}

/// Appends the UTF-8 bytes of a text.
pub fn push_text_bytes(buf: &mut Vec<u8>, s: &str)
    ensures
        final(buf)@ == old(buf)@ + encode_utf8(s@),
{
    let mut tail = slice_to_vec(s.as_bytes());
    buf.append(&mut tail);
}

} // verus!
