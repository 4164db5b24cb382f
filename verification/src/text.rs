//! Decimal and hexadecimal text of integers and bytes.
use crate::bignum::{digit_char, int_decimal, nat_decimal};
use substreams::Hex;
use vstd::prelude::*;

verus! {

/// Lower-case hexadecimal digit for `d < 16`.
pub open spec fn hex_digit(d: nat) -> char {
    if d < 10 {
        (d + 48) as char
    } else {
        (d + 87) as char
    }
}

/// Lower-case hexadecimal text of a byte string, two digits per byte, no prefix.
pub open spec fn lower_hex(s: Seq<u8>) -> Seq<char>
    decreases s.len(),
{
    if s.len() == 0 {
        Seq::empty()
    } else {
        lower_hex(s.drop_last()) + seq![hex_digit(s.last() as nat / 16), hex_digit(s.last() as nat % 16)]
    }
}

/// Whether every character is an ASCII decimal digit.
pub open spec fn all_digits(s: Seq<char>) -> bool {
    forall|i: int| 0 <= i < s.len() ==> '0' <= #[trigger] s[i] <= '9'
}

/// Value of a string of decimal digits (the empty string is 0).
pub open spec fn digits_value(s: Seq<char>) -> nat
    decreases s.len(),
{
    if s.len() == 0 {
        0
    } else {
        digits_value(s.drop_last()) * 10 + (s.last() as nat - 48) as nat
    }
}

/// What `str::parse::<i64>` gives: an optional sign (`+` or `-`) followed by at
/// least one decimal digit and nothing else, whose value lies in the range of
/// `i64`.
pub open spec fn parse_i64_spec(s: Seq<char>) -> Option<i64> {
    let neg = s.len() > 0 && s[0] == '-';
    let signed = s.len() > 0 && (s[0] == '-' || s[0] == '+');
    let d = if signed {
        s.drop_first()
    } else {
        s
    };
    if d.len() == 0 || !all_digits(d) {
        None
    } else {
        let v: int = if neg {
            -(digits_value(d) as int)
        } else {
            digits_value(d) as int
        };
        if i64::MIN <= v <= i64::MAX {
            Some(v as i64)
        } else {
            None
        }
    }
}

/// `String::push`: appends one character.
#[verifier::external_body]
fn string_push(s: &mut String, c: char)
    ensures
        final(s)@ == old(s)@.push(c),
{
    s.push(c)
}

/// `Hex::encode`: lower-case hexadecimal text of `bytes`, two digits per byte.
#[verifier::external_body]
pub(crate) fn hex_encode(bytes: &[u8]) -> (r: String)
    ensures
        r@ == lower_hex(bytes@),
{
    Hex::encode(bytes)
}

fn push_nat_decimal(out: &mut String, n: u64)
    ensures
        final(out)@ == old(out)@ + nat_decimal(n as nat),
    decreases n,
{
    if n >= 10 {
        push_nat_decimal(out, n / 10);
    }
    let d: u8 = (n % 10) as u8;
    let c: char = (d + 48u8) as char;
    assert(c == digit_char((n % 10) as nat));
    string_push(out, c);
    proof {
        if n >= 10 {
            assert(nat_decimal(n as nat) == nat_decimal((n / 10) as nat).push(digit_char((n % 10) as nat)));
        } else {
            assert(nat_decimal(n as nat) == seq![digit_char(n as nat)]);
        }
    }
    assert(out@ =~= old(out)@ + nat_decimal(n as nat));
}

/// Decimal text of a `u64`, as its `to_string` gives it.
pub fn u64_to_decimal(n: u64) -> (r: String)
    ensures
        r@ == int_decimal(n as int),
{
    let mut s = String::new();
    push_nat_decimal(&mut s, n);
    assert(s@ =~= nat_decimal(n as nat));
    s
}

/// Decimal text of an `i64`, as its `to_string` gives it.
pub fn i64_to_decimal(v: i64) -> (r: String)
    ensures
        r@ == int_decimal(v as int),
{
    let mut s = String::new();
    if v < 0 {
        string_push(&mut s, '-');
        let m: u64 = (-(v as i128)) as u64;
        push_nat_decimal(&mut s, m);
        assert(s@ =~= seq!['-'] + nat_decimal((-(v as int)) as nat));
    } else {
        push_nat_decimal(&mut s, v as u64);
        assert(s@ =~= nat_decimal(v as nat));
    }
    s
}

/// Decimal text of an `i32`, as its `to_string` gives it.
pub fn i32_to_decimal(v: i32) -> (r: String)
    ensures
        r@ == int_decimal(v as int),
{
    i64_to_decimal(v as i64)
}

proof fn lemma_digits_value_take_monotone(d: Seq<char>, i: int, j: int)
    requires
        all_digits(d),
        0 <= i <= j <= d.len(),
    ensures
        digits_value(d.take(i)) <= digits_value(d.take(j)),
    decreases j - i,
{
    if i < j {
        lemma_digits_value_take_monotone(d, i, j - 1);
        assert(d.take(j).drop_last() =~= d.take(j - 1));
        assert(d.take(j).last() == d[j - 1]);
    }
}

/// Reads a decimal `i64` as `str::parse::<i64>` does.
pub fn parse_i64(s: &str) -> (r: Option<i64>)
    ensures
        r == parse_i64_spec(s@),
{
    let n = s.unicode_len();
    let ghost sv = s@;
    if n == 0 {
        return None;
    }
    let first = s.get_char(0);
    let neg = first == '-';
    let start: usize = if first == '-' || first == '+' {
        1
    } else {
        0
    };
    let ghost d = if start == 1 {
        sv.drop_first()
    } else {
        sv
    };
    assert(d =~= sv.subrange(start as int, sv.len() as int));
    if start == n {
        return None;
    }
    assert(d == (if sv.len() > 0 && (sv[0] == '-' || sv[0] == '+') { sv.drop_first() } else { sv }));
    let bound: u128 = 0x8000_0000_0000_0000u128;
    let mut acc: u128 = 0;
    let mut i: usize = start;
    while i < n
        invariant
            n == sv.len(),
            s@ == sv,
            d == sv.subrange(start as int, sv.len() as int),
            start <= i <= n,
            acc <= bound,
            all_digits(d.take(i - start)),
            acc == digits_value(d.take(i - start)),
            bound == 0x8000_0000_0000_0000u128,
            d == (if sv.len() > 0 && (sv[0] == '-' || sv[0] == '+') { sv.drop_first() } else { sv }),
            neg == (sv.len() > 0 && sv[0] == '-'),
        decreases n - i,
    {
        let c = s.get_char(i);
        assert(c == d[i - start]);
        if !('0' <= c && c <= '9') {
            assert(!('0' <= d[i - start] <= '9'));
            assert(!all_digits(d));
            assert(d == (if sv.len() > 0 && (sv[0] == '-' || sv[0] == '+') { sv.drop_first() } else { sv }));
            return None;
        }
        let dig: u128 = (c as u32 - 48u32) as u128;
        assert(d.take(i - start + 1).drop_last() =~= d.take(i - start));
        assert(d.take(i - start + 1).last() == c);
        acc = acc * 10 + dig;
        i += 1;
        assert(all_digits(d.take(i - start)));
        if acc > bound {
            proof {
                assert(d == (if sv.len() > 0 && (sv[0] == '-' || sv[0] == '+') { sv.drop_first() } else { sv }));
                if all_digits(d) {
                    lemma_digits_value_take_monotone(d, i - start, d.len() as int);
                    assert(d.take(d.len() as int) =~= d);
                    assert(digits_value(d) > bound);
                }
            }
            return None;
        }
    }
    assert(d.take(i - start) =~= d);
    if neg {
        Some((-(acc as i128)) as i64)
    } else if acc < bound {
        Some(acc as i64)
    } else {
        None
    }
}

/// Properties of the decimal text of a natural number: digits only, at least
/// one of them, and read back it gives the number.
pub proof fn lemma_nat_decimal_digits(n: nat)
    ensures
        nat_decimal(n).len() >= 1,
        all_digits(nat_decimal(n)),
        digits_value(nat_decimal(n)) == n,
    decreases n,
{
    assert(digit_char(n % 10) as nat == n % 10 + 48);
    if n < 10 {
        let s = nat_decimal(n);
        assert(s.drop_last() =~= Seq::<char>::empty());
        assert(s.last() == digit_char(n));
        assert(digits_value(s) == digits_value(s.drop_last()) * 10 + (s.last() as nat - 48) as nat);
    } else {
        lemma_nat_decimal_digits(n / 10);
        let s = nat_decimal(n);
        assert(s.drop_last() =~= nat_decimal(n / 10));
        assert(s.last() == digit_char(n % 10));
        assert(digits_value(s) == digits_value(s.drop_last()) * 10 + (s.last() as nat - 48) as nat);
        assert(digits_value(s) == (n / 10) * 10 + n % 10);
        assert forall|i: int| 0 <= i < s.len() implies '0' <= #[trigger] s[i] <= '9' by {
            if i < s.len() - 1 {
                assert(s[i] == nat_decimal(n / 10)[i]);
            }
        }
    }
}

/// Law: reading back the decimal text of any `i64` with `str::parse::<i64>`
/// gives the same number.
pub proof fn lemma_decimal_parse_roundtrip(v: i64)
    ensures
        parse_i64_spec(int_decimal(v as int)) == Some(v),
{
    if v < 0 {
        let m = (-(v as int)) as nat;
        lemma_nat_decimal_digits(m);
        let s = int_decimal(v as int);
        assert(s.drop_first() =~= nat_decimal(m));
        assert(s[0] == '-');
    } else {
        lemma_nat_decimal_digits(v as nat);
        let s = nat_decimal(v as nat);
        assert('0' <= s[0] <= '9');
    }
}

} // verus!
