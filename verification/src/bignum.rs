//! Arbitrary-precision signed integers, held as two's-complement big-endian
//! bytes; the arithmetic itself is done by `substreams::scalar::BigInt`.
use substreams::scalar::BigInt;
use vstd::prelude::*;

verus! {

/// Unsigned big-endian value of a byte string (the empty string is 0).
pub open spec fn be_value(s: Seq<u8>) -> nat
    decreases s.len(),
{
    if s.len() == 0 {
        0
    } else {
        be_value(s.drop_last()) * 256 + s.last() as nat
    }
}

/// 256 to the power `n`.
pub open spec fn pow256(n: nat) -> nat
    decreases n,
{
    if n == 0 {
        1
    } else {
        256 * pow256((n - 1) as nat)
    }
}

/// Two's-complement big-endian value of a byte string (the empty string is 0).
pub open spec fn signed_be_value(s: Seq<u8>) -> int {
    if s.len() == 0 {
        0
    } else if s[0] >= 128 {
        be_value(s) - pow256(s.len())
    } else {
        be_value(s) as int
    }
}

/// The shortest big-endian encoding of `n`; zero is the single byte 0.
pub open spec fn minimal_be(n: nat) -> Seq<u8>
    decreases n,
{
    if n < 256 {
        seq![n as u8]
    } else {
        minimal_be(n / 256).push((n % 256) as u8)
    }
}

pub open spec fn abs(v: int) -> nat {
    if v < 0 {
        (-v) as nat
    } else {
        v as nat
    }
}

/// The bytes that `BigInt::to_bytes_be().1` gives for the value `v`: its
/// magnitude, big-endian, without leading zero bytes.
pub open spec fn magnitude_bytes(v: int) -> Seq<u8> {
    minimal_be(abs(v))
}

/// Decimal digit `d` as a character.
pub open spec fn digit_char(d: nat) -> char {
    (d + 48) as char
}

/// Decimal representation of a natural number, without leading zeros.
pub open spec fn nat_decimal(n: nat) -> Seq<char>
    decreases n,
{
    if n < 10 {
        seq![digit_char(n)]
    } else {
        nat_decimal(n / 10).push(digit_char(n % 10))
    }
}

/// Decimal representation of an integer, with a leading `-` when negative.
pub open spec fn int_decimal(v: int) -> Seq<char> {
    if v < 0 {
        seq!['-'] + nat_decimal((-v) as nat)
    } else {
        nat_decimal(v as nat)
    }
}

/// Law: the magnitude bytes read back as the magnitude, and carry no leading
/// zero byte except for zero itself.
pub proof fn lemma_minimal_be_roundtrip(n: nat)
    ensures
        be_value(minimal_be(n)) == n,
        minimal_be(n).len() >= 1,
        n > 0 ==> minimal_be(n)[0] != 0,
        n == 0 ==> minimal_be(n) == seq![0u8],
    decreases n,
{
    let s = minimal_be(n);
    if n < 256 {
        assert(s.drop_last() =~= Seq::<u8>::empty());
        assert(s.last() as nat == n);
        assert(be_value(s) == be_value(s.drop_last()) * 256 + s.last() as nat);
    } else {
        lemma_minimal_be_roundtrip(n / 256);
        assert(s.drop_last() =~= minimal_be(n / 256));
        assert(s.last() as nat == n % 256);
        assert(be_value(s) == be_value(s.drop_last()) * 256 + s.last() as nat);
        assert(s[0] == minimal_be(n / 256)[0]);
    }
}

/// An arbitrary-precision signed integer.
pub struct BigNum {
    repr: Vec<u8>,
}

impl View for BigNum {
    type V = int;

    closed spec fn view(&self) -> int {
        signed_be_value(self.repr@)
    }
}

impl BigNum {
    /// Two's-complement big-endian bytes of the value.
    pub fn to_signed_bytes_be(&self) -> (r: Vec<u8>)
        ensures
            signed_be_value(r@) == self@,
    {
        let mut out: Vec<u8> = Vec::new();
        let mut i: usize = 0;
        while i < self.repr.len()
            invariant
                i <= self.repr@.len(),
                out@ == self.repr@.take(i as int),
            decreases self.repr@.len() - i,
        {
            out.push(self.repr[i]);
            i += 1;
        }
        assert(self.repr@.take(self.repr@.len() as int) =~= self.repr@);
        out
    }

    /// A second value equal to this one.
    pub fn duplicate(&self) -> (r: BigNum)
        ensures
            r@ == self@,
    {
        BigNum { repr: self.to_signed_bytes_be() }
    }

    /// The value that the two's-complement big-endian bytes `bytes` hold.
    pub fn from_signed_bytes_be(bytes: Vec<u8>) -> (r: BigNum)
        ensures
            r@ == signed_be_value(bytes@),
    {
        BigNum { repr: bytes }
    }
}

/// `BigInt::from_unsigned_bytes_be`: reads `bytes` as an unsigned big-endian
/// number (the empty slice reads as 0). The result is kept in two's complement
/// through `BigInt::to_signed_bytes_be`.
#[verifier::external_body]
pub(crate) fn big_from_unsigned_be(bytes: &[u8]) -> (r: BigNum)
    ensures
        r@ == be_value(bytes@),
{
    BigNum { repr: BigInt::from_unsigned_bytes_be(bytes).to_signed_bytes_be() }
}

/// `BigInt::from(u64)`: the integer `v`.
#[verifier::external_body]
pub(crate) fn big_from_u64(v: u64) -> (r: BigNum)
    ensures
        r@ == v as int,
{
    BigNum { repr: BigInt::from(v).to_signed_bytes_be() }
}

/// `BigInt + BigInt`: the exact sum.
#[verifier::external_body]
pub(crate) fn big_add(a: &BigNum, b: &BigNum) -> (r: BigNum)
    ensures
        r@ == a@ + b@,
{
    let x = BigInt::from_signed_bytes_be(&a.repr);
    let y = BigInt::from_signed_bytes_be(&b.repr);
    BigNum { repr: (x + y).to_signed_bytes_be() }
}

/// `BigInt - BigInt`: the exact difference.
#[verifier::external_body]
pub(crate) fn big_sub(a: &BigNum, b: &BigNum) -> (r: BigNum)
    ensures
        r@ == a@ - b@,
{
    let x = BigInt::from_signed_bytes_be(&a.repr);
    let y = BigInt::from_signed_bytes_be(&b.repr);
    BigNum { repr: (x - y).to_signed_bytes_be() }
}

/// `BigInt * BigInt`: the exact product.
#[verifier::external_body]
pub(crate) fn big_mul(a: &BigNum, b: &BigNum) -> (r: BigNum)
    ensures
        r@ == a@ * b@,
{
    let x = BigInt::from_signed_bytes_be(&a.repr);
    let y = BigInt::from_signed_bytes_be(&b.repr);
    BigNum { repr: (x * y).to_signed_bytes_be() }
}

/// `BigInt < BigInt`: the numeric order.
#[verifier::external_body]
pub(crate) fn big_lt(a: &BigNum, b: &BigNum) -> (r: bool)
    ensures
        r == (a@ < b@),
{
    BigInt::from_signed_bytes_be(&a.repr) < BigInt::from_signed_bytes_be(&b.repr)
}

/// `BigInt::to_bytes_be().1`: the magnitude of the value, big-endian, with no
/// leading zero byte; zero gives the single byte 0.
#[verifier::external_body]
pub(crate) fn big_magnitude_be(a: &BigNum) -> (r: Vec<u8>)
    ensures
        r@ == magnitude_bytes(a@),
{
    BigInt::from_signed_bytes_be(&a.repr).to_bytes_be().1
}

/// `BigInt::to_string`: the decimal representation, `-` first when negative.
#[verifier::external_body]
pub(crate) fn big_to_decimal(a: &BigNum) -> (r: String)
    ensures
        r@ == int_decimal(a@),
{
    BigInt::from_signed_bytes_be(&a.repr).to_string()
}

} // verus!
