//! Small text routines over ASCII bytes and strings: decimal and hexadecimal
//! digits, rendering of numbers, and case-insensitive comparison.

use vstd::prelude::*;
use vstd::string::*;

verus! {

/// The byte that writes the decimal digit `d`.
pub open spec fn dec_digit_byte(d: nat) -> u8 {
    (48 + d) as u8
}

/// The decimal digits of `n`, most significant first, without leading zeros.
pub open spec fn dec_bytes(n: nat) -> Seq<u8>
    decreases n,
{
    if n < 10 {
        seq![dec_digit_byte(n)]
    } else {
        dec_bytes(n / 10).push(dec_digit_byte(n % 10))
    }
}

/// Bytes read as characters, one for one.
pub open spec fn bytes_as_chars(s: Seq<u8>) -> Seq<char> {
    Seq::new(s.len(), |i: int| s[i] as char)
}

/// The decimal text of `n` as characters.
pub open spec fn dec_text(n: nat) -> Seq<char> {
    bytes_as_chars(dec_bytes(n))
}

/// The value of a decimal digit byte, if it is one.
pub open spec fn dec_digit_value(c: u8) -> Option<nat> {
    if 48 <= c <= 57 {
        Some((c - 48) as nat)
    } else {
        None
    }
}

/// The number that a non-empty run of decimal digits writes; `None` where the
/// run is empty or holds another byte.
pub open spec fn dec_value(s: Seq<u8>) -> Option<nat>
    decreases s.len(),
{
    if s.len() == 0 {
        None
    } else if s.len() == 1 {
        dec_digit_value(s[0])
    } else {
        match (dec_value(s.drop_last()), dec_digit_value(s.last())) {
            (Some(hi), Some(lo)) => Some(hi * 10 + lo),
            _ => None,
        }
    }
}

/// The value of an upper-case hexadecimal digit byte, if it is one.
pub open spec fn hex_digit_value(c: u8) -> Option<nat> {
    if 48 <= c <= 57 {
        Some((c - 48) as nat)
    } else if 65 <= c <= 70 {
        Some((c - 55) as nat)
    } else {
        None
    }
}

/// The upper-case hexadecimal digit byte of `d`, for `d` below sixteen.
pub open spec fn hex_digit_byte(d: nat) -> u8 {
    if d < 10 {
        (48 + d) as u8
    } else {
        (55 + d) as u8
    }
}

/// The lower-case hexadecimal digit byte of `d`, for `d` below sixteen.
pub open spec fn hex_digit_byte_lower(d: nat) -> u8 {
    if d < 10 {
        (48 + d) as u8
    } else {
        (87 + d) as u8
    }
}

/// The lower-case hexadecimal digits of `n`, without leading zeros.
pub open spec fn hex_bytes_lower(n: nat) -> Seq<u8>
    decreases n,
{
    if n < 16 {
        seq![hex_digit_byte_lower(n)]
    } else {
        hex_bytes_lower(n / 16).push(hex_digit_byte_lower(n % 16))
    }
}

/// An ASCII letter in lower case; any other character unchanged.
pub open spec fn lower_char(c: char) -> char {
    if 'A' <= c <= 'Z' {
        ((c as u8) + 32) as char
    } else {
        c
    }
}

/// A text with its ASCII letters in lower case.
pub open spec fn lower_text(s: Seq<char>) -> Seq<char> {
    Seq::new(s.len(), |i: int| lower_char(s[i]))
}

/// Reads one upper-case hexadecimal digit.
pub fn hex_digit(c: u8) -> (r: Option<u8>)
    ensures
        r is Some <==> hex_digit_value(c) is Some,
        r is Some ==> r.unwrap() as nat == hex_digit_value(c).unwrap() && r.unwrap() < 16,
{
    if 48 <= c && c <= 57 {
        Some(c - 48)
    } else if 65 <= c && c <= 70 {
        Some(c - 55)
    } else {
        None
    }
}

/// Writes one hexadecimal digit in upper case.
pub fn hex_digit_to_byte(d: u8) -> (r: u8)
    requires
        d < 16,
    ensures
        r == hex_digit_byte(d as nat),
        hex_digit_value(r) == Some(d as nat),
{
    if d < 10 {
        48 + d
    } else {
        55 + d
    }
}

/// Appends the decimal digits of `n` to `out`.
pub fn push_decimal(out: &mut Vec<u8>, n: u64)
    ensures
        final(out)@ == old(out)@ + dec_bytes(n as nat),
    decreases n,
{
    if n >= 10 {
        push_decimal(out, n / 10);
    }
    let d: u8 = (n % 10) as u8;
    out.push(48 + d);
    proof {
        if n >= 10 {
            assert(final(out)@ =~= old(out)@ + dec_bytes(n as nat));
        } else {
            assert(final(out)@ =~= old(out)@ + dec_bytes(n as nat));
        }
    }
}

/// Appends the lower-case hexadecimal digits of `n` to `out`.
pub fn push_hex_lower(out: &mut Vec<u8>, n: u32)
    ensures
        final(out)@ == old(out)@ + hex_bytes_lower(n as nat),
    decreases n,
{
    if n >= 16 {
        push_hex_lower(out, n / 16);
    }
    let d: u8 = (n % 16) as u8;
    if d < 10 {
        out.push(48 + d);
    } else {
        out.push(87 + d);
    }
    proof {
        assert(final(out)@ =~= old(out)@ + hex_bytes_lower(n as nat));
    }
}

/// The decimal text of `n`.
pub fn decimal_bytes(n: u64) -> (r: Vec<u8>)
    ensures
        r@ == dec_bytes(n as nat),
{
    let mut out: Vec<u8> = Vec::new();
    push_decimal(&mut out, n);
    proof {
        assert(out@ =~= dec_bytes(n as nat));
    }
    out
}

/// Reads a run of decimal digits as a number that fits in 64 bits.
pub fn parse_decimal(s: &Vec<u8>) -> (r: Option<u64>)
    ensures
        r is Some <==> (dec_value(s@) is Some && dec_value(s@).unwrap() <= u64::MAX),
        r is Some ==> r.unwrap() as nat == dec_value(s@).unwrap(),
{
    if s.len() == 0 {
        return None;
    }
    let mut acc: u64 = 0;
    let mut i: usize = 0;
    while i < s.len()
        invariant
            0 <= i <= s.len(),
            i > 0 ==> dec_value(s@.take(i as int)) == Some(acc as nat),
            i == 0 ==> acc == 0,
        decreases s.len() - i,
    {
        let c: u8 = s[i];
        proof {
            let t = s@.take(i as int + 1);
            assert(t.drop_last() =~= s@.take(i as int));
            assert(t.last() == c);
        }
        if !(48 <= c && c <= 57) {
            proof {
                assert(dec_value(s@.take(i as int + 1)) is None);
                lemma_dec_value_prefix(s@, i as int + 1);
            }
            return None;
        }
        let d: u64 = (c - 48) as u64;
        if acc > (u64::MAX - d) / 10 {
            proof {
                assert(acc * 10 + d > u64::MAX);
                assert(dec_value(s@.take(i as int + 1)) == Some((acc * 10 + d) as nat));
                if dec_value(s@) is Some {
                    lemma_dec_value_grows(s@, i as int + 1);
                }
            }
            return None;
        }
        acc = acc * 10 + d;
        i = i + 1;
    }
    proof {
        assert(s@.take(s.len() as int) =~= s@);
    }
    Some(acc)
}

/// A run of digits is a number only if each of its prefixes is one.
proof fn lemma_dec_value_prefix(s: Seq<u8>, k: int)
    requires
        1 <= k <= s.len(),
        dec_value(s.take(k)) is None,
    ensures
        dec_value(s) is None,
    decreases s.len(),
{
    if k < s.len() {
        assert(s.drop_last().take(k) =~= s.take(k));
        lemma_dec_value_prefix(s.drop_last(), k);
    } else {
        assert(s.take(k) =~= s);
    }
}

/// The number that a run of digits writes is at least that of each prefix.
proof fn lemma_dec_value_grows(s: Seq<u8>, k: int)
    requires
        1 <= k <= s.len(),
        dec_value(s) is Some,
    ensures
        dec_value(s.take(k)) is Some,
        dec_value(s.take(k)).unwrap() <= dec_value(s).unwrap(),
    decreases s.len(),
{
    if k < s.len() {
        assert(s.drop_last().take(k) =~= s.take(k));
        lemma_dec_value_grows(s.drop_last(), k);
    } else {
        assert(s.take(k) =~= s);
    }
}

/// Whether two texts are equal once their ASCII letters are in lower case.
pub fn eq_ignore_case(a: &str, b: &str) -> (r: bool)
    ensures
        r == (lower_text(a@) == lower_text(b@)),
{
    let n: usize = a.unicode_len();
    if n != b.unicode_len() {
        proof {
            assert(lower_text(a@).len() != lower_text(b@).len());
        }
        return false;
    }
    let mut i: usize = 0;
    while i < n
        invariant
            0 <= i <= n,
            n == a@.len(),
            n == b@.len(),
            forall|j: int| 0 <= j < i ==> lower_char(#[trigger] a@[j]) == lower_char(b@[j]),
        decreases n - i,
    {
        let x: char = to_lower(a.get_char(i));
        let y: char = to_lower(b.get_char(i));
        if x != y {
            proof {
                assert(lower_text(a@)[i as int] != lower_text(b@)[i as int]);
            }
            return false;
        }
        i = i + 1;
    }
    proof {
        assert(lower_text(a@) =~= lower_text(b@));
    }
    true
}

/// An ASCII letter in lower case; any other character unchanged.
pub fn to_lower(c: char) -> (r: char)
    ensures
        r == lower_char(c),
{
    if 'A' <= c && c <= 'Z' {
        ((c as u8) + 32) as char
    } else {
        c
    }
}

/// Whether a string holds exactly the given ASCII bytes.
pub fn text_is(s: &str, bytes: &Vec<u8>) -> (r: bool)
    ensures
        r == (s@ == bytes_as_chars(bytes@)),
{
    let n: usize = s.unicode_len();
    if n != bytes.len() {
        proof {
            assert(bytes_as_chars(bytes@).len() != s@.len());
        }
        return false;
    }
    let mut i: usize = 0;
    while i < n
        invariant
            0 <= i <= n,
            n == s@.len(),
            n == bytes@.len(),
            forall|j: int| 0 <= j < i ==> #[trigger] s@[j] == bytes@[j] as char,
        decreases n - i,
    {
        if s.get_char(i) != bytes[i] as char {
            proof {
                assert(bytes_as_chars(bytes@)[i as int] == bytes@[i as int] as char);
            }
            return false;
        }
        i = i + 1;
    }
    proof {
        assert(s@ =~= bytes_as_chars(bytes@));
    }
    true
}

} // verus!
