//! Big-endian byte and lowercase hexadecimal encodings of fixed-width
//! identifiers, with the lenient hexadecimal decoding used for propagated ids.

use vstd::arithmetic::div_mod::{lemma_div_denominator, lemma_fundamental_div_mod};
use vstd::prelude::*;

verus! {

/// `256` raised to the power `n`.
pub open spec fn byte_pow(n: nat) -> nat
    decreases n,
{
    if n == 0 {
        1
    } else {
        256 * byte_pow((n - 1) as nat)
    }
}

/// The number that `bytes` spell when read most significant byte first.
pub open spec fn be_value(bytes: Seq<u8>) -> nat
    decreases bytes.len(),
{
    if bytes.len() == 0 {
        0
    } else {
        be_value(bytes.drop_last()) * 256 + bytes.last() as nat
    }
}

/// The `n`-byte big-endian encoding of `v`: byte `k` holds the digit of
/// weight `256^(n - 1 - k)`.
pub open spec fn be_bytes(v: nat, n: nat) -> Seq<u8> {
    Seq::new(n, |k: int| ((v / byte_pow((n - 1 - k) as nat)) % 256) as u8)
}

/// The sixteen lowercase hexadecimal digits, in order of value.
pub open spec fn hex_alphabet() -> Seq<char> {
    seq!['0', '1', '2', '3', '4', '5', '6', '7', '8', '9', 'a', 'b', 'c', 'd', 'e', 'f']
}

/// Two lowercase hexadecimal digits per byte, high nibble first.
pub open spec fn hex_encode(bytes: Seq<u8>) -> Seq<char>
    decreases bytes.len(),
{
    if bytes.len() == 0 {
        Seq::empty()
    } else {
        hex_encode(bytes.drop_last()) + seq![
            hex_alphabet()[bytes.last() as int / 16],
            hex_alphabet()[bytes.last() as int % 16],
        ]
    }
}

/// The value of one hexadecimal digit, in either case.
pub open spec fn hex_digit_value(c: char) -> Option<nat> {
    if '0' <= c && c <= '9' {
        Some((c as u32 - '0' as u32) as nat)
    } else if 'a' <= c && c <= 'f' {
        Some((c as u32 - 'a' as u32 + 10) as nat)
    } else if 'A' <= c && c <= 'F' {
        Some((c as u32 - 'A' as u32 + 10) as nat)
    } else {
        None
    }
}

/// Every character of `s` is a hexadecimal digit.
pub open spec fn all_hex_digits(s: Seq<char>) -> bool {
    forall|i: int| 0 <= i < s.len() ==> (#[trigger] hex_digit_value(s[i])) is Some
}

/// The number that the hexadecimal digits `s` spell.
pub open spec fn hex_value(s: Seq<char>) -> nat
    decreases s.len(),
{
    if s.len() == 0 {
        0
    } else {
        hex_value(s.drop_last()) * 16 + hex_digit_value(s.last()).unwrap_or(0)
    }
}

/// The unsigned number that `s` spells in base 16 when it is a non-empty
/// string of hexadecimal digits with a value no greater than `max`; zero for
/// every other text.
pub open spec fn lenient_hex(s: Seq<char>, max: nat) -> nat {
    if s.len() > 0 && all_hex_digits(s) && hex_value(s) <= max {
        hex_value(s)
    } else {
        0
    }
}

pub proof fn lemma_byte_pow_positive(n: nat)
    ensures
        byte_pow(n) > 0,
    decreases n,
{
    if n > 0 {
        lemma_byte_pow_positive((n - 1) as nat);
    }
}

pub proof fn lemma_byte_pow_monotone(a: nat, b: nat)
    requires
        a <= b,
    ensures
        byte_pow(a) <= byte_pow(b),
    decreases b - a,
{
    if a < b {
        lemma_byte_pow_monotone(a, (b - 1) as nat);
        lemma_byte_pow_positive((b - 1) as nat);
    }
}

pub proof fn lemma_byte_pow_widths()
    ensures
        byte_pow(8) == 0x1_0000_0000_0000_0000,
        byte_pow(16) == 0x1_0000_0000_0000_0000_0000_0000_0000_0000,
{
    reveal_with_fuel(byte_pow, 17);
}

/// A big-endian byte string is less than `256` to the power of its length.
pub proof fn lemma_be_value_bound(bytes: Seq<u8>)
    ensures
        be_value(bytes) < byte_pow(bytes.len()),
    decreases bytes.len(),
{
    if bytes.len() > 0 {
        let rest = bytes.drop_last();
        lemma_be_value_bound(rest);
        let p = byte_pow(rest.len());
        assert(be_value(rest) * 256 + bytes.last() < 256 * p) by (nonlinear_arith)
            requires
                be_value(rest) < p,
                bytes.last() < 256,
        ;
    }
}

/// Reading back the `n`-byte encoding of a value below `256^n` gives the value.
pub proof fn lemma_be_bytes_value(v: nat, n: nat)
    requires
        v < byte_pow(n),
    ensures
        be_bytes(v, n).len() == n,
        be_value(be_bytes(v, n)) == v,
    decreases n,
{
    let s = be_bytes(v, n);
    if n > 0 {
        let m = (n - 1) as nat;
        let q = v / 256;
        let t = be_bytes(q, m);
        assert forall|k: int| 0 <= k < m implies s.drop_last()[k] == t[k] by {
            let e = (m - 1 - k) as nat;
            lemma_byte_pow_positive(e);
            lemma_div_denominator(v as int, 256, byte_pow(e) as int);
            assert(byte_pow((n - 1 - k) as nat) == 256 * byte_pow(e));
        }
        assert(s.drop_last() =~= t);
        lemma_byte_pow_positive(m);
        assert(q < byte_pow(m)) by (nonlinear_arith)
            requires
                v < 256 * byte_pow(m),
                q == v / 256,
        ;
        lemma_be_bytes_value(q, m);
        lemma_fundamental_div_mod(v as int, 256);
        assert(byte_pow(0) == 1);
        assert(v / 1 == v);
        assert(s.last() == v % 256);
    } else {
        assert(s =~= Seq::<u8>::empty());
    }
}

proof fn lemma_hex_alphabet_digit(d: nat)
    requires
        d < 16,
    ensures
        hex_digit_value(hex_alphabet()[d as int]) == Some(d),
{
}

/// Hex-encoding a byte string yields digits whose value is the bytes' value.
pub proof fn lemma_hex_encode_value(bytes: Seq<u8>)
    ensures
        hex_encode(bytes).len() == 2 * bytes.len(),
        all_hex_digits(hex_encode(bytes)),
        hex_value(hex_encode(bytes)) == be_value(bytes),
    decreases bytes.len(),
{
    if bytes.len() > 0 {
        let rest = bytes.drop_last();
        let b = bytes.last();
        lemma_hex_encode_value(rest);
        let x = hex_encode(rest);
        let hi = hex_alphabet()[b as int / 16];
        let lo = hex_alphabet()[b as int % 16];
        lemma_hex_alphabet_digit((b / 16) as nat);
        lemma_hex_alphabet_digit((b % 16) as nat);
        let s = hex_encode(bytes);
        assert(s == x + seq![hi, lo]);
        assert(s.drop_last() =~= x.push(hi));
        assert(s.drop_last().drop_last() =~= x);
        assert(s.last() == lo);
        assert(s.drop_last().last() == hi);
        assert(hex_value(s.drop_last()) == hex_value(x) * 16 + (b / 16) as nat);
        assert(hex_value(s) == (hex_value(x) * 16 + (b / 16) as nat) * 16 + (b % 16) as nat);
        assert((hex_value(x) * 16 + (b / 16) as nat) * 16 + (b % 16) as nat == hex_value(x)
            * 256 + b) by (nonlinear_arith);
        assert forall|i: int| 0 <= i < s.len() implies (#[trigger] hex_digit_value(s[i])) is Some by {
            if i < x.len() {
                assert(s[i] == x[i]);
            }
        }
    }
}

/// Extending a string of hexadecimal digits never lowers its value.
pub proof fn lemma_hex_value_prefix(s: Seq<char>, k: int)
    requires
        0 <= k <= s.len(),
        all_hex_digits(s),
    ensures
        hex_value(s.subrange(0, k)) <= hex_value(s),
    decreases s.len(),
{
    if k < s.len() {
        let rest = s.drop_last();
        assert(all_hex_digits(rest)) by {
            assert forall|i: int| 0 <= i < rest.len() implies (#[trigger] hex_digit_value(
                rest[i],
            )) is Some by {
                assert(rest[i] == s[i]);
            }
        }
        lemma_hex_value_prefix(rest, k);
        assert(rest.subrange(0, k) =~= s.subrange(0, k));
    } else {
        assert(s.subrange(0, k) =~= s);
    }
}

/// The value of one hexadecimal digit, if `c` is one.
fn hex_digit_of(c: char) -> (r: Option<u8>)
    ensures
        r matches Some(d) ==> hex_digit_value(c) == Some(d as nat),
        r is None ==> hex_digit_value(c) is None,
{
    if '0' <= c && c <= '9' {
        Some((c as u32 - '0' as u32) as u8)
    } else if 'a' <= c && c <= 'f' {
        Some((c as u32 - 'a' as u32 + 10) as u8)
    } else if 'A' <= c && c <= 'F' {
        Some((c as u32 - 'A' as u32 + 10) as u8)
    } else {
        None
    }
}

/// Parses `s` as base-16 digits with a value no greater than `max`,
/// yielding zero for any other text.
pub fn parse_hex_lenient(s: &str, max: u128) -> (r: u128)
    ensures
        r == lenient_hex(s@, max as nat),
{
    let n = s.unicode_len();
    if n == 0 {
        return 0;
    }
    let ghost digits = s@;
    let mut i: usize = 0;
    let mut v: u128 = 0;
    assert(digits.subrange(0, 0) =~= Seq::<char>::empty());
    while i < n
        invariant
            n == s@.len(),
            i <= n,
            digits == s@,
            forall|j: int| 0 <= j < i ==> (#[trigger] hex_digit_value(digits[j])) is Some,
            v == hex_value(digits.subrange(0, i as int)),
            v <= max,
        decreases n - i,
    {
        let c = s.get_char(i);
        let ghost k = i as int;
        assert(digits.subrange(0, k + 1).drop_last() =~= digits.subrange(0, k));
        let d = match hex_digit_of(c) {
            Some(d) => d,
            None => {
                assert(!all_hex_digits(digits)) by {
                    assert(hex_digit_value(digits[k]) is None);
                }
                return 0;
            },
        };
        assert(hex_value(digits.subrange(0, k + 1)) == v * 16 + d);
        let next = match v.checked_mul(16) {
            Some(m) => m.checked_add(d as u128),
            None => None,
        };
        match next {
            Some(w) if w <= max => {
                v = w;
            },
            _ => {
                proof {
                    if all_hex_digits(digits) {
                        lemma_hex_value_prefix(digits, k + 1);
                    }
                    assert(hex_value(digits.subrange(0, k + 1)) > max);
                }
                return 0;
            },
        }
        i = i + 1;
    }
    assert(digits.subrange(0, i as int) =~= digits);
    v
}

/// The lowercase hexadecimal text of `bytes`, two digits per byte.
pub fn encode_hex(bytes: &[u8]) -> (r: String)
    ensures
        r@ == hex_encode(bytes@),
{
    let digits = "0123456789abcdef";
    proof {
        reveal_strlit("0123456789abcdef");
    }
    assert(digits@ =~= hex_alphabet());
    let mut out = String::new();
    let mut i: usize = 0;
    while i < bytes.len()
        invariant
            0 <= i <= bytes@.len(),
            digits@ == hex_alphabet(),
            out@ == hex_encode(bytes@.subrange(0, i as int)),
        decreases bytes@.len() - i,
    {
        let b = bytes[i];
        let hi = (b / 16) as usize;
        let lo = (b % 16) as usize;
        out.append(digits.substring_char(hi, hi + 1));
        out.append(digits.substring_char(lo, lo + 1));
        let ghost next = bytes@.subrange(0, i + 1);
        assert(next.drop_last() =~= bytes@.subrange(0, i as int));
        i = i + 1;
        assert(out@ =~= hex_encode(next));
    }
    assert(bytes@.subrange(0, i as int) =~= bytes@);
    out
}

} // verus!
