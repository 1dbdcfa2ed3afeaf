//! The choice of a process to end: the numbers that the menu offers, one for
//! each connection shown, and the pid that a chosen number stands for.

use vstd::prelude::*;
use vstd::string::*;
use crate::schemas::Connection;
use crate::text::{dec_value, parse_decimal};

verus! {

/// Characters read as bytes, one for one.
pub open spec fn chars_as_bytes(s: Seq<char>) -> Seq<u8> {
    Seq::new(s.len(), |i: int| s[i] as u8)
}

/// Whether every character is a decimal digit.
pub open spec fn is_digits(s: Seq<char>) -> bool {
    forall|i: int| 0 <= i < s.len() ==> '0' <= #[trigger] s[i] <= '9'
}

/// The number that a non-empty run of decimal digits writes.
pub open spec fn digits_value(s: Seq<char>) -> Option<nat> {
    if is_digits(s) {
        dec_value(chars_as_bytes(s))
    } else {
        None
    }
}

/// The 32-bit signed number that a text writes: an optional sign, then
/// decimal digits, at least one; `None` for any other text and for a number
/// out of range.
pub open spec fn i32_of_text(s: Seq<char>) -> Option<i32> {
    if s.len() > 0 && s[0] == '-' {
        match digits_value(s.skip(1)) {
            Some(n) => if n <= 2147483648 {
                Some((0 - n) as i32)
            } else {
                None
            },
            None => None,
        }
    } else if s.len() > 0 && s[0] == '+' {
        match digits_value(s.skip(1)) {
            Some(n) => if n <= 2147483647 {
                Some(n as i32)
            } else {
                None
            },
            None => None,
        }
    } else {
        match digits_value(s) {
            Some(n) => if n <= 2147483647 {
                Some(n as i32)
            } else {
                None
            },
            None => None,
        }
    }
}

/// Reads the digits of `s` from `start` on.
fn read_digits(s: &str, start: usize) -> (r: Option<u64>)
    requires
        start <= s@.len(),
    ensures
        r is Some <==> (digits_value(s@.skip(start as int)) is Some && digits_value(
            s@.skip(start as int),
        ).unwrap() <= u64::MAX),
        r is Some ==> r.unwrap() as nat == digits_value(s@.skip(start as int)).unwrap(),
{
    let n: usize = s.unicode_len();
    let ghost tail = s@.skip(start as int);
    let mut digits: Vec<u8> = Vec::new();
    let mut i: usize = start;
    while i < n
        invariant
            start <= i <= n,
            n == s@.len(),
            tail == s@.skip(start as int),
            digits@.len() == i - start,
            forall|j: int| 0 <= j < i - start ==> '0' <= #[trigger] tail[j] <= '9',
            forall|j: int| 0 <= j < i - start ==> #[trigger] digits@[j] == tail[j] as u8,
        decreases n - i,
    {
        let c: char = s.get_char(i);
        proof {
            assert(tail[i - start] == c);
        }
        if !('0' <= c && c <= '9') {
            return None;
        }
        digits.push(c as u8);
        i = i + 1;
    }
    proof {
        assert(is_digits(tail));
        assert(digits@ =~= chars_as_bytes(tail));
    }
    parse_decimal(&digits)
}

/// Reads a text as a 32-bit signed number.
pub fn parse_i32(s: &str) -> (r: Option<i32>)
    ensures
        r == i32_of_text(s@),
{
    let n: usize = s.unicode_len();
    if n > 0 && s.get_char(0) == '-' {
        match read_digits(s, 1) {
            Some(v) => {
                if v <= 2147483648 {
                    let w: i64 = 0 - (v as i64);
                    Some(w as i32)
                } else {
                    None
                }
            },
            None => None,
        }
    } else if n > 0 && s.get_char(0) == '+' {
        match read_digits(s, 1) {
            Some(v) => {
                if v <= 2147483647 {
                    Some(v as i32)
                } else {
                    None
                }
            },
            None => None,
        }
    } else {
        proof {
            assert(s@.skip(0) =~= s@);
        }
        match read_digits(s, 0) {
            Some(v) => {
                if v <= 2147483647 {
                    Some(v as i32)
                } else {
                    None
                }
            },
            None => None,
        }
    }
}

/// The numbers that the menu offers for `count` connections: one to `count`.
pub fn menu_choices(count: usize) -> (r: Vec<u32>)
    requires
        count <= u32::MAX,
    ensures
        r@.len() == count,
        forall|i: int| 0 <= i < count ==> #[trigger] r@[i] == i + 1,
{
    let mut out: Vec<u32> = Vec::new();
    let mut i: usize = 0;
    while i < count
        invariant
            0 <= i <= count,
            count <= u32::MAX,
            out@.len() == i,
            forall|j: int| 0 <= j < i ==> #[trigger] out@[j] == j + 1,
        decreases count - i,
    {
        out.push((i + 1) as u32);
        i = i + 1;
    }
    out
}

/// The pid of the connection that the number `choice` of the menu stands
/// for, the first connection being number one; `None` where that connection
/// has no pid that is a number.
pub fn chosen_pid(connections: &Vec<Connection>, choice: u32) -> (r: Option<i32>)
    requires
        1 <= choice <= connections@.len(),
    ensures
        r == i32_of_text(connections@[choice - 1].pid@),
{
    let k: usize = (choice - 1) as usize;
    parse_i32(connections[k].pid.as_str())
}

/// What to do once the prompt has ended.
#[derive(Debug, Clone, Copy, PartialEq, Eq, Structural)]
pub enum KillStep {
    /// End the process with this pid.
    Signal(i32),
    /// The chosen connection has no pid that is a number.
    NoPid,
    /// Nothing was chosen.
    Cancelled,
}

/// The step that follows the prompt: none where it was cancelled; else the
/// signal to the process of the chosen connection, where that has a pid.
pub fn after_prompt(connections: &Vec<Connection>, answer: Option<u32>) -> (r: KillStep)
    requires
        answer matches Some(k) ==> 1 <= k <= connections@.len(),
    ensures
        r == (match answer {
            None => KillStep::Cancelled,
            Some(k) => match i32_of_text(connections@[k - 1].pid@) {
                Some(n) => KillStep::Signal(n),
                None => KillStep::NoPid,
            },
        }),
{
    match answer {
        None => KillStep::Cancelled,
        Some(k) => match chosen_pid(connections, k) {
            Some(n) => KillStep::Signal(n),
            None => KillStep::NoPid,
        },
    }
}

} // verus!
