//! The kernel's socket tables: rows of hexadecimal endpoints, a state code
//! and a decimal socket handle, decoded into socket entries.
//!
//! An address is written as 32-bit words, eight upper-case hexadecimal digits
//! each, with the octets of a word in the reverse of their order on the wire:
//! `0100007F` is `127.0.0.1`. A port is four digits, most significant first.

use vstd::prelude::*;
use crate::schemas::{Endpoint, IpAddress, Protocol, SocketEntry, SocketState};
use crate::text::{
    dec_value, hex_digit, hex_digit_byte, hex_digit_to_byte, hex_digit_value, parse_decimal,
};

verus! {

/// The octet that the two digits at `i` write.
#[verifier::opaque]
pub open spec fn hex_pair(s: Seq<u8>, i: int) -> Option<nat> {
    match (hex_digit_value(s[i]), hex_digit_value(s[i + 1])) {
        (Some(h), Some(l)) => Some(h * 16 + l),
        _ => None,
    }
}

/// The word that the eight digits at `i` write: the first pair is its least
/// significant octet.
#[verifier::opaque]
pub open spec fn hex_word(s: Seq<u8>, i: int) -> Option<u32> {
    match (hex_pair(s, i), hex_pair(s, i + 2), hex_pair(s, i + 4), hex_pair(s, i + 6)) {
        (Some(b0), Some(b1), Some(b2), Some(b3)) => Some(
            (b3 * 16777216 + b2 * 65536 + b1 * 256 + b0) as u32,
        ),
        _ => None,
    }
}

/// The address that eight or thirty-two digits write.
pub open spec fn decode_address_spec(s: Seq<u8>) -> Option<IpAddress> {
    if s.len() == 8 {
        match hex_word(s, 0) {
            Some(w) => Some(IpAddress::V4(w)),
            None => None,
        }
    } else if s.len() == 32 {
        match (hex_word(s, 0), hex_word(s, 8), hex_word(s, 16), hex_word(s, 24)) {
            (Some(a), Some(b), Some(c), Some(d)) => Some(IpAddress::V6(a, b, c, d)),
            _ => None,
        }
    } else {
        None
    }
}

/// The port that four digits write.
pub open spec fn decode_port_spec(s: Seq<u8>) -> Option<u16> {
    if s.len() == 4 {
        match (hex_pair(s, 0), hex_pair(s, 2)) {
            (Some(h), Some(l)) => Some((h * 256 + l) as u16),
            _ => None,
        }
    } else {
        None
    }
}

/// The endpoint that a field writes: an address, a colon, a port.
pub open spec fn decode_endpoint_spec(s: Seq<u8>) -> Option<Endpoint> {
    if s.len() >= 5 && s[s.len() - 5] == 58u8 {
        match (
            decode_address_spec(s.subrange(0, s.len() - 5)),
            decode_port_spec(s.subrange(s.len() - 4, s.len() as int)),
        ) {
            (Some(address), Some(port)) => Some(Endpoint { address, port }),
            _ => None,
        }
    } else {
        None
    }
}

/// The two digits of an octet.
#[verifier::opaque]
pub open spec fn encode_pair(b: nat) -> Seq<u8> {
    seq![hex_digit_byte(b / 16), hex_digit_byte(b % 16)]
}

/// The eight digits of a word, least significant octet first.
#[verifier::opaque]
pub open spec fn encode_word(w: u32) -> Seq<u8> {
    encode_pair((w % 256) as nat) + encode_pair(((w / 256) % 256) as nat) + encode_pair(
        ((w / 65536) % 256) as nat,
    ) + encode_pair((w / 16777216) as nat)
}

/// The digits of an address.
pub open spec fn encode_address_spec(a: IpAddress) -> Seq<u8> {
    match a {
        IpAddress::V4(w) => encode_word(w),
        IpAddress::V6(a, b, c, d) => encode_word(a) + encode_word(b) + encode_word(c)
            + encode_word(d),
    }
}

/// The four digits of a port.
pub open spec fn encode_port_spec(p: u16) -> Seq<u8> {
    encode_pair((p / 256) as nat) + encode_pair((p % 256) as nat)
}

/// The field that writes an endpoint.
pub open spec fn encode_endpoint_spec(e: Endpoint) -> Seq<u8> {
    encode_address_spec(e.address) + seq![58u8] + encode_port_spec(e.port)
}

/// The state that a table of `proto` means by `code`. UDP has no connection
/// states: every code is the one pseudo-state.
pub open spec fn state_of(proto: Protocol, code: nat) -> SocketState {
    if proto == Protocol::Udp {
        SocketState::Open
    } else if code == 1 {
        SocketState::Established
    } else if code == 2 {
        SocketState::SynSent
    } else if code == 3 {
        SocketState::SynRecv
    } else if code == 4 {
        SocketState::FinWait1
    } else if code == 5 {
        SocketState::FinWait2
    } else if code == 6 {
        SocketState::TimeWait
    } else if code == 7 {
        SocketState::Close
    } else if code == 8 {
        SocketState::CloseWait
    } else if code == 9 {
        SocketState::LastAck
    } else if code == 10 {
        SocketState::Listen
    } else if code == 11 {
        SocketState::Closing
    } else {
        SocketState::Unknown
    }
}

/// Reads the octet at `i`.
fn read_pair(s: &Vec<u8>, i: usize) -> (r: Option<u8>)
    requires
        i + 1 < s.len(),
    ensures
        r is Some <==> hex_pair(s@, i as int) is Some,
        r is Some ==> r.unwrap() as nat == hex_pair(s@, i as int).unwrap(),
{
    proof {
        reveal(hex_pair);
    }
    match (hex_digit(s[i]), hex_digit(s[i + 1])) {
        (Some(h), Some(l)) => Some(h * 16 + l),
        _ => None,
    }
}

/// Reads the word at `i`.
fn read_word(s: &Vec<u8>, i: usize) -> (r: Option<u32>)
    requires
        i + 8 <= s.len(),
    ensures
        r == hex_word(s@, i as int),
{
    proof {
        reveal(hex_word);
    }
    match (read_pair(s, i), read_pair(s, i + 2), read_pair(s, i + 4), read_pair(s, i + 6)) {
        (Some(b0), Some(b1), Some(b2), Some(b3)) => {
            let w: u32 = (b3 as u32) * 16777216 + (b2 as u32) * 65536 + (b1 as u32) * 256 + (
            b0 as u32);
            Some(w)
        },
        _ => None,
    }
}

/// Copies the bytes of `s` from `from` up to `to`.
pub fn slice_of(s: &Vec<u8>, from: usize, to: usize) -> (r: Vec<u8>)
    requires
        from <= to <= s.len(),
    ensures
        r@ == s@.subrange(from as int, to as int),
{
    let mut out: Vec<u8> = Vec::new();
    let mut i: usize = from;
    while i < to
        invariant
            from <= i <= to,
            to <= s.len(),
            out@ == s@.subrange(from as int, i as int),
        decreases to - i,
    {
        out.push(s[i]);
        proof {
            assert(out@ =~= s@.subrange(from as int, i as int + 1));
        }
        i = i + 1;
    }
    out
}

/// Decodes an address of eight or thirty-two digits.
pub fn decode_address(s: &Vec<u8>) -> (r: Option<IpAddress>)
    ensures
        r == decode_address_spec(s@),
{
    if s.len() == 8 {
        match read_word(s, 0) {
            Some(w) => Some(IpAddress::V4(w)),
            None => None,
        }
    } else if s.len() == 32 {
        match (read_word(s, 0), read_word(s, 8), read_word(s, 16), read_word(s, 24)) {
            (Some(a), Some(b), Some(c), Some(d)) => Some(IpAddress::V6(a, b, c, d)),
            _ => None,
        }
    } else {
        None
    }
}

/// Decodes a port of four digits.
pub fn decode_port(s: &Vec<u8>) -> (r: Option<u16>)
    ensures
        r == decode_port_spec(s@),
{
    if s.len() == 4 {
        match (read_pair(s, 0), read_pair(s, 2)) {
            (Some(h), Some(l)) => Some((h as u16) * 256 + (l as u16)),
            _ => None,
        }
    } else {
        None
    }
}

/// Decodes an endpoint field such as `0100007F:1F90`; `None` where the field
/// is not an address of eight or thirty-two upper-case digits, a colon and a
/// port of four.
pub fn decode_endpoint(s: &Vec<u8>) -> (r: Option<Endpoint>)
    ensures
        r == decode_endpoint_spec(s@),
{
    let n: usize = s.len();
    if n < 5 || s[n - 5] != 58 {
        return None;
    }
    let a: Vec<u8> = slice_of(s, 0, n - 5);
    let p: Vec<u8> = slice_of(s, n - 4, n);
    match (decode_address(&a), decode_port(&p)) {
        (Some(address), Some(port)) => Some(Endpoint { address, port }),
        _ => None,
    }
}

/// Appends the two digits of an octet.
fn push_pair(out: &mut Vec<u8>, b: u8)
    ensures
        final(out)@ == old(out)@ + encode_pair(b as nat),
{
    out.push(hex_digit_to_byte(b / 16));
    out.push(hex_digit_to_byte(b % 16));
    proof {
        reveal(encode_pair);
        assert(final(out)@ =~= old(out)@ + encode_pair(b as nat));
    }
}

/// Appends the eight digits of a word.
fn push_word(out: &mut Vec<u8>, w: u32)
    ensures
        final(out)@ == old(out)@ + encode_word(w),
{
    push_pair(out, (w % 256) as u8);
    push_pair(out, ((w / 256) % 256) as u8);
    push_pair(out, ((w / 65536) % 256) as u8);
    push_pair(out, (w / 16777216) as u8);
    proof {
        reveal(encode_word);
        assert(final(out)@ =~= old(out)@ + encode_word(w));
    }
}

/// Writes an endpoint as the table does.
pub fn encode_endpoint(e: Endpoint) -> (r: Vec<u8>)
    ensures
        r@ == encode_endpoint_spec(e),
{
    let mut out: Vec<u8> = Vec::new();
    match e.address {
        IpAddress::V4(w) => {
            push_word(&mut out, w);
        },
        IpAddress::V6(a, b, c, d) => {
            push_word(&mut out, a);
            push_word(&mut out, b);
            push_word(&mut out, c);
            push_word(&mut out, d);
        },
    }
    proof {
        assert(out@ =~= encode_address_spec(e.address));
    }
    out.push(58);
    push_pair(&mut out, (e.port / 256) as u8);
    push_pair(&mut out, (e.port % 256) as u8);
    proof {
        assert(out@ =~= encode_endpoint_spec(e));
    }
    out
}

/// The state that a table of `proto` means by `code`.
pub fn decode_state(proto: Protocol, code: u8) -> (r: SocketState)
    ensures
        r == state_of(proto, code as nat),
{
    match proto {
        Protocol::Udp => SocketState::Open,
        Protocol::Tcp => {
            if code == 1 {
                SocketState::Established
            } else if code == 2 {
                SocketState::SynSent
            } else if code == 3 {
                SocketState::SynRecv
            } else if code == 4 {
                SocketState::FinWait1
            } else if code == 5 {
                SocketState::FinWait2
            } else if code == 6 {
                SocketState::TimeWait
            } else if code == 7 {
                SocketState::Close
            } else if code == 8 {
                SocketState::CloseWait
            } else if code == 9 {
                SocketState::LastAck
            } else if code == 10 {
                SocketState::Listen
            } else if code == 11 {
                SocketState::Closing
            } else {
                SocketState::Unknown
            }
        },
    }
}

/// An octet's digits have length two, a word's eight.
proof fn lemma_encoded_lengths(b: nat, w: u32)
    ensures
        encode_pair(b).len() == 2,
        encode_word(w).len() == 8,
{
    reveal(encode_pair);
    reveal(encode_word);
}

/// What the digits at `i` write depends on those digits alone.
proof fn lemma_pair_at(s: Seq<u8>, i: int, t: Seq<u8>, j: int)
    requires
        s[i] == t[j],
        s[i + 1] == t[j + 1],
    ensures
        hex_pair(s, i) == hex_pair(t, j),
{
    reveal(hex_pair);
}

/// What the eight digits at `i` write depends on those digits alone.
proof fn lemma_word_at(s: Seq<u8>, i: int, t: Seq<u8>)
    requires
        0 <= i,
        i + 8 <= s.len(),
        t == s.subrange(i, i + 8),
    ensures
        hex_word(s, i) == hex_word(t, 0),
{
    reveal(hex_word);
    lemma_pair_at(s, i, t, 0);
    lemma_pair_at(s, i + 2, t, 2);
    lemma_pair_at(s, i + 4, t, 4);
    lemma_pair_at(s, i + 6, t, 6);
}

/// The digits of an octet write that octet.
proof fn lemma_pair_decodes(b: nat)
    requires
        b < 256,
    ensures
        hex_pair(encode_pair(b), 0) == Some(b),
{
    reveal(hex_pair);
    reveal(encode_pair);
    let h = b / 16;
    let l = b % 16;
    assert(h < 16 && l < 16 && h * 16 + l == b);
    assert(hex_digit_value(hex_digit_byte(h)) == Some(h));
    assert(hex_digit_value(hex_digit_byte(l)) == Some(l));
}

/// The two digits that write an octet are the digits of that octet.
proof fn lemma_pair_encodes(t: Seq<u8>)
    requires
        t.len() == 2,
        hex_pair(t, 0) is Some,
    ensures
        hex_pair(t, 0).unwrap() < 256,
        encode_pair(hex_pair(t, 0).unwrap()) == t,
{
    reveal(hex_pair);
    reveal(encode_pair);
    let h = hex_digit_value(t[0]).unwrap();
    let l = hex_digit_value(t[1]).unwrap();
    assert(h < 16 && l < 16);
    assert((h * 16 + l) / 16 == h && (h * 16 + l) % 16 == l);
    assert(hex_digit_byte(h) == t[0]);
    assert(hex_digit_byte(l) == t[1]);
    assert(encode_pair(h * 16 + l) =~= t);
}

/// A word is the sum of its octets, each weighted by its place.
proof fn lemma_octets_of_word(w: u32)
    ensures
        (w / 16777216) * 16777216 + ((w / 65536) % 256) * 65536 + ((w / 256) % 256) * 256 + w % 256
            == w,
        w / 16777216 < 256,
{
}

/// The octets of a weighted sum of octets are those octets.
proof fn lemma_word_of_octets(b0: nat, b1: nat, b2: nat, b3: nat)
    requires
        b0 < 256,
        b1 < 256,
        b2 < 256,
        b3 < 256,
    ensures
        b3 * 16777216 + b2 * 65536 + b1 * 256 + b0 <= u32::MAX,
        (b3 * 16777216 + b2 * 65536 + b1 * 256 + b0) % 256 == b0,
        ((b3 * 16777216 + b2 * 65536 + b1 * 256 + b0) / 256) % 256 == b1,
        ((b3 * 16777216 + b2 * 65536 + b1 * 256 + b0) / 65536) % 256 == b2,
        (b3 * 16777216 + b2 * 65536 + b1 * 256 + b0) / 16777216 == b3,
{
}

/// The digits of a word write that word.
proof fn lemma_word_decodes(w: u32)
    ensures
        hex_word(encode_word(w), 0) == Some(w),
{
    let t = encode_word(w);
    let b0 = (w % 256) as nat;
    let b1 = ((w / 256) % 256) as nat;
    let b2 = ((w / 65536) % 256) as nat;
    let b3 = (w / 16777216) as nat;
    lemma_octets_of_word(w);
    lemma_encoded_lengths(b0, w);
    lemma_encoded_lengths(b1, w);
    lemma_encoded_lengths(b2, w);
    lemma_encoded_lengths(b3, w);
    assert(t == encode_pair(b0) + encode_pair(b1) + encode_pair(b2) + encode_pair(b3)) by {
        reveal(encode_word);
    }
    lemma_pair_at(t, 0, encode_pair(b0), 0);
    lemma_pair_at(t, 2, encode_pair(b1), 0);
    lemma_pair_at(t, 4, encode_pair(b2), 0);
    lemma_pair_at(t, 6, encode_pair(b3), 0);
    lemma_pair_decodes(b0);
    lemma_pair_decodes(b1);
    lemma_pair_decodes(b2);
    lemma_pair_decodes(b3);
    assert(hex_word(t, 0) == Some(w)) by {
        reveal(hex_word);
    }
}

/// The eight digits that write a word are the digits of that word.
proof fn lemma_word_encodes(t: Seq<u8>)
    requires
        t.len() == 8,
        hex_word(t, 0) is Some,
    ensures
        encode_word(hex_word(t, 0).unwrap()) == t,
{
    let pair0 = t.subrange(0, 2);
    let pair1 = t.subrange(2, 4);
    let pair2 = t.subrange(4, 6);
    let pair3 = t.subrange(6, 8);
    lemma_pair_at(t, 0, pair0, 0);
    lemma_pair_at(t, 2, pair1, 0);
    lemma_pair_at(t, 4, pair2, 0);
    lemma_pair_at(t, 6, pair3, 0);
    assert(hex_pair(pair0, 0) is Some && hex_pair(pair1, 0) is Some && hex_pair(pair2, 0) is Some
        && hex_pair(pair3, 0) is Some) by {
        reveal(hex_word);
    }
    lemma_pair_encodes(pair0);
    lemma_pair_encodes(pair1);
    lemma_pair_encodes(pair2);
    lemma_pair_encodes(pair3);
    let b0 = hex_pair(pair0, 0).unwrap();
    let b1 = hex_pair(pair1, 0).unwrap();
    let b2 = hex_pair(pair2, 0).unwrap();
    let b3 = hex_pair(pair3, 0).unwrap();
    lemma_word_of_octets(b0, b1, b2, b3);
    let w = hex_word(t, 0).unwrap();
    assert(w == b3 * 16777216 + b2 * 65536 + b1 * 256 + b0) by {
        reveal(hex_word);
    }
    assert(encode_word(w) == pair0 + pair1 + pair2 + pair3) by {
        reveal(encode_word);
    }
    assert(t =~= pair0 + pair1 + pair2 + pair3);
}

/// Decoding what was encoded gives the address back.
proof fn lemma_address_decodes(a: IpAddress)
    ensures
        decode_address_spec(encode_address_spec(a)) == Some(a),
{
    match a {
        IpAddress::V4(w) => {
            lemma_encoded_lengths(0, w);
            lemma_word_decodes(w);
        },
        IpAddress::V6(w0, w1, w2, w3) => {
            lemma_encoded_lengths(0, w0);
            lemma_encoded_lengths(0, w1);
            lemma_encoded_lengths(0, w2);
            lemma_encoded_lengths(0, w3);
            let t = encode_address_spec(a);
            assert(t.subrange(0, 8) =~= encode_word(w0));
            assert(t.subrange(8, 16) =~= encode_word(w1));
            assert(t.subrange(16, 24) =~= encode_word(w2));
            assert(t.subrange(24, 32) =~= encode_word(w3));
            lemma_word_at(t, 0, encode_word(w0));
            lemma_word_at(t, 8, encode_word(w1));
            lemma_word_at(t, 16, encode_word(w2));
            lemma_word_at(t, 24, encode_word(w3));
            lemma_word_decodes(w0);
            lemma_word_decodes(w1);
            lemma_word_decodes(w2);
            lemma_word_decodes(w3);
        },
    }
}

/// Encoding what was decoded gives the digits back.
proof fn lemma_address_encodes(t: Seq<u8>)
    requires
        decode_address_spec(t) is Some,
    ensures
        encode_address_spec(decode_address_spec(t).unwrap()) == t,
{
    if t.len() == 8 {
        lemma_word_encodes(t);
    } else {
        let q0 = t.subrange(0, 8);
        let q1 = t.subrange(8, 16);
        let q2 = t.subrange(16, 24);
        let q3 = t.subrange(24, 32);
        lemma_word_at(t, 0, q0);
        lemma_word_at(t, 8, q1);
        lemma_word_at(t, 16, q2);
        lemma_word_at(t, 24, q3);
        lemma_word_encodes(q0);
        lemma_word_encodes(q1);
        lemma_word_encodes(q2);
        lemma_word_encodes(q3);
        assert(t =~= q0 + q1 + q2 + q3);
    }
}

/// Decoding what was encoded gives the port back.
proof fn lemma_port_decodes(p: u16)
    ensures
        decode_port_spec(encode_port_spec(p)) == Some(p),
{
    let h = (p / 256) as nat;
    let l = (p % 256) as nat;
    let t = encode_port_spec(p);
    lemma_encoded_lengths(h, 0);
    lemma_encoded_lengths(l, 0);
    lemma_pair_at(t, 0, encode_pair(h), 0);
    lemma_pair_at(t, 2, encode_pair(l), 0);
    lemma_pair_decodes(h);
    lemma_pair_decodes(l);
    assert(h * 256 + l == p);
}

/// Encoding what was decoded gives the digits back.
proof fn lemma_port_encodes(t: Seq<u8>)
    requires
        decode_port_spec(t) is Some,
    ensures
        encode_port_spec(decode_port_spec(t).unwrap()) == t,
{
    let pair0 = t.subrange(0, 2);
    let pair1 = t.subrange(2, 4);
    lemma_pair_at(t, 0, pair0, 0);
    lemma_pair_at(t, 2, pair1, 0);
    lemma_pair_encodes(pair0);
    lemma_pair_encodes(pair1);
    let h = hex_pair(pair0, 0).unwrap();
    let l = hex_pair(pair1, 0).unwrap();
    assert((h * 256 + l) / 256 == h && (h * 256 + l) % 256 == l);
    assert(t =~= pair0 + pair1);
}

/// Decoding what was encoded gives the endpoint back.
pub proof fn lemma_decode_of_encode(e: Endpoint)
    ensures
        decode_endpoint_spec(encode_endpoint_spec(e)) == Some(e),
{
    let s = encode_endpoint_spec(e);
    let a = encode_address_spec(e.address);
    let p = encode_port_spec(e.port);
    lemma_encoded_lengths((e.port / 256) as nat, 0);
    lemma_encoded_lengths((e.port % 256) as nat, 0);
    assert(p.len() == 4);
    assert(s.len() == a.len() + 5);
    assert(s[s.len() - 5] == 58u8);
    assert(s.subrange(0, s.len() - 5) =~= a);
    assert(s.subrange(s.len() - 4, s.len() as int) =~= p);
    lemma_address_decodes(e.address);
    lemma_port_decodes(e.port);
}

/// Encoding what was decoded gives the field back: whatever field decodes to
/// an endpoint is the text of that endpoint, byte for byte.
pub proof fn lemma_encode_of_decode(s: Seq<u8>)
    requires
        decode_endpoint_spec(s) is Some,
    ensures
        encode_endpoint_spec(decode_endpoint_spec(s).unwrap()) == s,
{
    let n = s.len() as int;
    let a = s.subrange(0, n - 5);
    let p = s.subrange(n - 4, n);
    lemma_address_encodes(a);
    lemma_port_encodes(p);
    assert(s =~= a + seq![58u8] + p);
}

/// Whether a byte separates the fields of a row: a space or a tab.
pub open spec fn is_blank(c: u8) -> bool {
    c == 32 || c == 9
}

/// The first position from `i` on that holds no blank, or the end.
pub open spec fn skip_blanks(s: Seq<u8>, i: int) -> int
    decreases s.len() - i,
{
    if 0 <= i < s.len() && is_blank(s[i]) {
        skip_blanks(s, i + 1)
    } else {
        i
    }
}

/// The first position from `i` on that holds a blank, or the end.
pub open spec fn skip_word(s: Seq<u8>, i: int) -> int
    decreases s.len() - i,
{
    if 0 <= i < s.len() && !is_blank(s[i]) {
        skip_word(s, i + 1)
    } else {
        i
    }
}

/// Where the field `k` of a row begins, counting from zero: behind the blanks
/// that follow the field before it.
pub open spec fn field_start(s: Seq<u8>, k: nat) -> int
    decreases k,
{
    if k == 0 {
        skip_blanks(s, 0)
    } else {
        skip_blanks(s, skip_word(s, field_start(s, (k - 1) as nat)))
    }
}

/// The field `k` of a row; empty where the row has fewer fields.
pub open spec fn field(s: Seq<u8>, k: nat) -> Seq<u8> {
    s.subrange(field_start(s, k), skip_word(s, field_start(s, k)))
}

/// The state code that a field of two digits writes.
pub open spec fn state_code(s: Seq<u8>) -> Option<nat> {
    if s.len() == 2 {
        hex_pair(s, 0)
    } else {
        None
    }
}

/// The handle that a field of decimal digits writes, where it fits 64 bits.
pub open spec fn handle_of(s: Seq<u8>) -> Option<u64> {
    match dec_value(s) {
        Some(n) => if n <= u64::MAX {
            Some(n as u64)
        } else {
            None
        },
        None => None,
    }
}

/// The entry that a row of a table of `proto` writes. Of its fields, counted
/// from zero, the second and third are the local and the remote endpoint, the
/// fourth the state code, the tenth the socket handle. `None` where one of
/// them is missing or malformed, or the two endpoints differ in family.
pub open spec fn parse_row_spec(line: Seq<u8>, proto: Protocol) -> Option<SocketEntry> {
    match (
        decode_endpoint_spec(field(line, 1)),
        decode_endpoint_spec(field(line, 2)),
        state_code(field(line, 3)),
        handle_of(field(line, 9)),
    ) {
        (Some(local), Some(remote), Some(code), Some(handle)) => {
            if local.address.spec_family() == remote.address.spec_family() {
                Some(
                    SocketEntry { proto, local, remote, state: state_of(proto, code), handle },
                )
            } else {
                None
            }
        },
        _ => None,
    }
}

/// The end of the line that begins at `i`: the next line feed, or the end.
pub open spec fn line_end(s: Seq<u8>, i: int) -> int
    decreases s.len() - i,
{
    if 0 <= i < s.len() && s[i] != 10u8 {
        line_end(s, i + 1)
    } else {
        i
    }
}

/// The entries of the lines of `s` from position `from` on, in their order:
/// one for each line that is a well-formed row, none for any other line.
pub open spec fn table_entries(s: Seq<u8>, from: int, proto: Protocol) -> Seq<SocketEntry>
    decreases s.len() + 1 - from,
{
    if 0 <= from < s.len() {
        let end = line_end(s, from);
        if end < from || end > s.len() {
            Seq::empty()
        } else {
            let rest = table_entries(s, end + 1, proto);
            match parse_row_spec(s.subrange(from, end), proto) {
                Some(e) => seq![e] + rest,
                None => rest,
            }
        }
    } else {
        Seq::empty()
    }
}

/// Where the lines of `s` from position `from` on begin that hold something
/// and are no well-formed row, in their order.
pub open spec fn table_rejects(s: Seq<u8>, from: int, proto: Protocol) -> Seq<usize>
    decreases s.len() + 1 - from,
{
    if 0 <= from < s.len() {
        let end = line_end(s, from);
        if end < from || end > s.len() {
            Seq::empty()
        } else {
            let rest = table_rejects(s, end + 1, proto);
            if end > from && parse_row_spec(s.subrange(from, end), proto) is None {
                seq![from as usize] + rest
            } else {
                rest
            }
        }
    } else {
        Seq::empty()
    }
}

/// The end of the run of blanks that begins at `i`.
fn blanks_end(s: &Vec<u8>, i: usize) -> (r: usize)
    requires
        i <= s.len(),
    ensures
        r == skip_blanks(s@, i as int),
        i <= r <= s.len(),
{
    let mut j: usize = i;
    while j < s.len() && (s[j] == 32 || s[j] == 9)
        invariant
            i <= j <= s.len(),
            skip_blanks(s@, j as int) == skip_blanks(s@, i as int),
        decreases s.len() - j,
    {
        j = j + 1;
    }
    j
}

/// The end of the field that begins at `i`.
fn word_end(s: &Vec<u8>, i: usize) -> (r: usize)
    requires
        i <= s.len(),
    ensures
        r == skip_word(s@, i as int),
        i <= r <= s.len(),
{
    let mut j: usize = i;
    while j < s.len() && !(s[j] == 32 || s[j] == 9)
        invariant
            i <= j <= s.len(),
            skip_word(s@, j as int) == skip_word(s@, i as int),
        decreases s.len() - j,
    {
        j = j + 1;
    }
    j
}

/// The field `k` of a row, counting from zero; empty where the row has fewer.
pub fn field_of(line: &Vec<u8>, k: usize) -> (r: Vec<u8>)
    ensures
        r@ == field(line@, k as nat),
{
    let mut start: usize = blanks_end(line, 0);
    let mut n: usize = 0;
    while n < k
        invariant
            0 <= n <= k,
            start <= line.len(),
            start == field_start(line@, n as nat),
        decreases k - n,
    {
        let e: usize = word_end(line, start);
        start = blanks_end(line, e);
        n = n + 1;
    }
    let end: usize = word_end(line, start);
    slice_of(line, start, end)
}

/// Decodes one row of a table of `proto`; `None` for a row that is not
/// well formed, the header among them.
pub fn parse_row(line: &Vec<u8>, proto: Protocol) -> (r: Option<SocketEntry>)
    ensures
        r == parse_row_spec(line@, proto),
{
    let local_field: Vec<u8> = field_of(line, 1);
    let remote_field: Vec<u8> = field_of(line, 2);
    let state_field: Vec<u8> = field_of(line, 3);
    let handle_field: Vec<u8> = field_of(line, 9);
    let local: Option<Endpoint> = decode_endpoint(&local_field);
    let remote: Option<Endpoint> = decode_endpoint(&remote_field);
    let code: Option<u8> = if state_field.len() == 2 {
        read_pair(&state_field, 0)
    } else {
        None
    };
    let handle: Option<u64> = parse_decimal(&handle_field);
    match (local, remote, code, handle) {
        (Some(l), Some(r), Some(c), Some(h)) => {
            if l.address.family() == r.address.family() {
                Some(
                    SocketEntry {
                        proto,
                        local: l,
                        remote: r,
                        state: decode_state(proto, c),
                        handle: h,
                    },
                )
            } else {
                None
            }
        },
        _ => None,
    }
}

/// Decodes a whole table of `proto`, line by line, and says which lines it
/// passed over: the first of the pair are the entries of the well-formed
/// rows, the second the positions at which the other lines begin, empty
/// lines left out. The heading of a table is such a line.
pub fn scan_table(text: &Vec<u8>, proto: Protocol) -> (r: (Vec<SocketEntry>, Vec<usize>))
    ensures
        r.0@ == table_entries(text@, 0, proto),
        r.1@ == table_rejects(text@, 0, proto),
{
    let mut out: Vec<SocketEntry> = Vec::new();
    let mut rejects: Vec<usize> = Vec::new();
    let mut pos: usize = 0;
    while pos < text.len()
        invariant
            0 <= pos <= text.len(),
            out@ + table_entries(text@, pos as int, proto) == table_entries(text@, 0, proto),
            rejects@ + table_rejects(text@, pos as int, proto) == table_rejects(text@, 0, proto),
        decreases text.len() - pos,
    {
        let mut end: usize = pos;
        while end < text.len() && text[end] != 10
            invariant
                pos <= end <= text.len(),
                line_end(text@, end as int) == line_end(text@, pos as int),
            decreases text.len() - end,
        {
            end = end + 1;
        }
        let line: Vec<u8> = slice_of(text, pos, end);
        let ghost before = out@;
        let ghost rest = table_entries(text@, end as int + 1, proto);
        let ghost passed = rejects@;
        let ghost others = table_rejects(text@, end as int + 1, proto);
        proof {
            assert(line_end(text@, end as int) == end);
            assert(table_entries(text@, pos as int, proto) == match parse_row_spec(line@, proto) {
                Some(e) => seq![e] + rest,
                None => rest,
            });
            assert(table_rejects(text@, pos as int, proto) == if end > pos && parse_row_spec(
                line@,
                proto,
            ) is None {
                seq![pos] + others
            } else {
                others
            });
            assert(table_entries(text@, text.len() as int, proto) == Seq::<SocketEntry>::empty());
            assert(table_entries(text@, text.len() as int + 1, proto) == Seq::<
                SocketEntry,
            >::empty());
            assert(table_rejects(text@, text.len() as int, proto) == Seq::<usize>::empty());
            assert(table_rejects(text@, text.len() as int + 1, proto) == Seq::<usize>::empty());
        }
        match parse_row(&line, proto) {
            Some(e) => {
                out.push(e);
                proof {
                    assert(before.push(e) + rest =~= before + (seq![e] + rest));
                }
            },
            None => {
                if end > pos {
                    rejects.push(pos);
                    proof {
                        assert(passed.push(pos) + others =~= passed + (seq![pos] + others));
                    }
                }
            },
        }
        if end < text.len() {
            pos = end + 1;
        } else {
            pos = end;
        }
    }
    proof {
        assert(out@ + Seq::<SocketEntry>::empty() =~= out@);
        assert(rejects@ + Seq::<usize>::empty() =~= rejects@);
    }
    (out, rejects)
}

/// Decodes a whole table of `proto`, line by line. A line that is not a
/// well-formed row is passed over, and the rows after it are still read.
pub fn parse_table(text: &Vec<u8>, proto: Protocol) -> (r: Vec<SocketEntry>)
    ensures
        r@ == table_entries(text@, 0, proto),
{
    let (entries, _) = scan_table(text, proto);
    entries
}

/// Appends copies of the entries of `more` to `out`.
fn append_entries(out: &mut Vec<SocketEntry>, more: &Vec<SocketEntry>)
    ensures
        final(out)@ == old(out)@ + more@,
{
    let mut i: usize = 0;
    while i < more.len()
        invariant
            0 <= i <= more.len(),
            out@ == old(out)@ + more@.take(i as int),
        decreases more.len() - i,
    {
        out.push(more[i]);
        proof {
            assert(out@ =~= old(out)@ + more@.take(i as int + 1));
        }
        i = i + 1;
    }
    proof {
        assert(more@.take(more.len() as int) =~= more@);
    }
}

/// Decodes the four tables of one snapshot. The entries come in the order
/// of the tables: TCP over IPv4, TCP over IPv6, UDP over IPv4, UDP over
/// IPv6, and within each in the order of its rows. A table that could not
/// be read is handed in empty and gives no entry.
pub fn parse_tables(tcp4: &Vec<u8>, tcp6: &Vec<u8>, udp4: &Vec<u8>, udp6: &Vec<u8>) -> (r: Vec<
    SocketEntry,
>)
    ensures
        r@ == table_entries(tcp4@, 0, Protocol::Tcp) + table_entries(tcp6@, 0, Protocol::Tcp)
            + table_entries(udp4@, 0, Protocol::Udp) + table_entries(udp6@, 0, Protocol::Udp),
{
    let mut out: Vec<SocketEntry> = parse_table(tcp4, Protocol::Tcp);
    let b: Vec<SocketEntry> = parse_table(tcp6, Protocol::Tcp);
    let c: Vec<SocketEntry> = parse_table(udp4, Protocol::Udp);
    let d: Vec<SocketEntry> = parse_table(udp6, Protocol::Udp);
    append_entries(&mut out, &b);
    append_entries(&mut out, &c);
    append_entries(&mut out, &d);
    out
}

/// The program's short name as the kernel gives it: the first line of the
/// text, without its line feed.
pub fn first_line(text: &Vec<u8>) -> (r: Vec<u8>)
    ensures
        r@ == text@.subrange(0, line_end(text@, 0)),
{
    let mut end: usize = 0;
    while end < text.len() && text[end] != 10
        invariant
            0 <= end <= text.len(),
            line_end(text@, end as int) == line_end(text@, 0),
        decreases text.len() - end,
    {
        end = end + 1;
    }
    slice_of(text, 0, end)
}

} // verus!
