//! Identifier generation: fixed-length identifiers sampled uniformly from a
//! character-set policy, retried until a caller-supplied predicate reports
//! the candidate unused.
//!
//! The sampling logic is verified; only the raw random draw is trusted.

use vstd::prelude::*;
use vstd::string::StringExecFns;

use crate::error::{Error, InternalError};
use crate::trusted::random_u32;

verus! {

/// Whether every character of `s` is an ASCII digit.
pub open spec fn all_digits(s: Seq<char>) -> bool {
    forall|i: int| 0 <= i < s.len() ==> '0' <= #[trigger] s[i] <= '9'
}

/// The ASCII digit a raw draw maps to, if the rejection sampling accepts it.
pub open spec fn spec_numeric_sample(draw: u32) -> Option<u8> {
    let v = draw >> 28;
    if v < 10 {
        Some((48 + v) as u8)
    } else {
        None
    }
}

/// Samples ASCII digits, rejecting draws that fall outside the range so the
/// ten digits stay uniformly distributed.
#[derive(Debug, Clone, Copy, PartialEq, Eq, Structural)]
pub struct NumericAscii;

impl NumericAscii {
    /// Maps a raw 32-bit draw to an ASCII digit, or rejects it. The top four
    /// bits are used; values of ten and above are rejected rather than
    /// wrapped, to avoid biased output.
    pub fn sample(&self, draw: u32) -> (r: Option<u8>)
        ensures
            r == spec_numeric_sample(draw),
            r matches Some(d) ==> 48 <= d <= 57,
    {
        let v = draw >> 28;
        proof {
            assert(draw >> 28 < 16) by (bit_vector);
        }
        if v < 10 {
            Some(48 + (v as u8))
        } else {
            None
        }
    }
}

/// The character of the bcrypt base64 alphabet (`./A-Za-z0-9`) at index `i`.
pub open spec fn spec_base64_ascii(i: u32) -> u8 {
    if i == 0 {
        46
    } else if i == 1 {
        47
    } else if i < 28 {
        (63 + i) as u8
    } else if i < 54 {
        (69 + i) as u8
    } else {
        (i - 6) as u8
    }
}

/// Samples ASCII characters of the bcrypt base64 alphabet; every draw maps to
/// a character, since the alphabet size divides the sampling domain evenly.
#[derive(Debug, Clone, Copy, PartialEq, Eq, Structural)]
pub struct Base64;

impl Base64 {
    /// Maps a raw 32-bit draw to a character of the alphabet, using the top
    /// six bits.
    pub fn sample(&self, draw: u32) -> (r: u8)
        ensures
            r == spec_base64_ascii(draw >> 26),
    {
        let i = draw >> 26;
        proof {
            assert(draw >> 26 < 64) by (bit_vector);
        }
        if i == 0 {
            46
        } else if i == 1 {
            47
        } else if i < 28 {
            63 + (i as u8)
        } else if i < 54 {
            69 + (i as u8)
        } else {
            (i as u8) - 6
        }
    }
}

/// The one-character string for an ASCII digit byte.
pub(crate) fn digit_str(d: u8) -> (r: &'static str)
    requires
        48 <= d <= 57,
    ensures
        r@ == seq![d as char],
        '0' <= r@[0] <= '9',
{
    let s: &'static str = match d {
        48 => "0",
        49 => "1",
        50 => "2",
        51 => "3",
        52 => "4",
        53 => "5",
        54 => "6",
        55 => "7",
        56 => "8",
        _ => "9",
    };
    proof {
        reveal_strlit("0");
        reveal_strlit("1");
        reveal_strlit("2");
        reveal_strlit("3");
        reveal_strlit("4");
        reveal_strlit("5");
        reveal_strlit("6");
        reveal_strlit("7");
        reveal_strlit("8");
        reveal_strlit("9");
    }
    s
}

/// Draws one ASCII digit, retrying rejected draws a bounded number of times.
fn sample_digit() -> (r: Option<u8>)
    ensures
        r matches Some(d) ==> 48 <= d <= 57,
{
    let mut t: u64 = 0;
    while t < 64
        invariant
            t <= 64,
        decreases 64 - t,
    {
        match NumericAscii.sample(random_u32()) {
            Some(d) => return Some(d),
            None => (),
        }
        t += 1;
    }
    None
}

/// Draws a string of `length` ASCII digits, or gives up when the random
/// source keeps producing rejected draws.
fn sample_digit_string(length: usize) -> (r: Option<String>)
    ensures
        r matches Some(s) ==> s@.len() == length as int && all_digits(s@),
{
    let mut s = String::new();
    let mut i: usize = 0;
    while i < length
        invariant
            i <= length,
            s@.len() == i as int,
            all_digits(s@),
        decreases length - i,
    {
        match sample_digit() {
            Some(d) => {
                let piece = digit_str(d);
                let ghost prev = s@;
                s.append(piece);
                proof {
                    assert(s@ == prev + piece@);
                    assert forall|k: int| 0 <= k < s@.len() implies '0' <= #[trigger] s@[k]
                        <= '9' by {
                        if k < prev.len() {
                            assert(s@[k] == prev[k]);
                        } else {
                            assert(s@[k] == piece@[0]);
                        }
                    }
                }
            },
            None => {
                return None;
            },
        }
        i += 1;
    }
    Some(s)
}

/// Generates an unused identifier of `length` ASCII digits.
///
/// Candidates are sampled uniformly and checked against `in_use` until one is
/// reported unused; after `max_attempts` failed candidates the generator
/// gives up with an internal error, guarding against pathological exhaustion
/// of the identifier space. On success, the returned identifier was reported
/// unused by `in_use`.
pub fn gen_new_id<P: Fn(&String) -> bool>(length: usize, max_attempts: u64, in_use: P) -> (r:
    Result<String, Error>)
    requires
        forall|s: &String| #[trigger] call_requires(in_use, (s,)),
    ensures
        r matches Ok(id) ==> id@.len() == length as int && all_digits(id@) && call_ensures(
            in_use,
            (&id,),
            false,
        ),
        r matches Err(e) ==> !(e is User),
{
    let mut attempts: u64 = 0;
    while attempts < max_attempts
        invariant
            forall|s: &String| #[trigger] call_requires(in_use, (s,)),
        decreases max_attempts - attempts,
    {
        if let Some(candidate) = sample_digit_string(length) {
            if !in_use(&candidate) {
                return Ok(candidate);
            }
        }
        attempts += 1;
    }
    Err(Error::NoContext(InternalError::Storage("identifier generation exhausted its attempts")))
}

} // verus!
