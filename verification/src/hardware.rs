//! Hardware-facing values: the error type shared by every brightness
//! backend, and the pure conversions the backends apply around their
//! reads and writes. The reads and writes themselves live with the
//! caller.

use vstd::prelude::*;
use vstd::string::StringExecFns;

use crate::digits::{
    lemma_digits_end_bounds, spec_digits_end, spec_is_ascii_digit, spec_num_val,
};

verus! {

/// What a brightness backend can fail with.
#[derive(Debug, Clone)]
pub enum HardwareError {
    Io(String),
    CommandFailed(String),
    NotSupported,
    OutOfRange,
}

impl HardwareError {
    /// A human-readable description of the failure.
    pub fn message(&self) -> (r: String)
        ensures
            self matches HardwareError::Io(e) ==> r@ == "IO Error: "@ + e@,
            self matches HardwareError::CommandFailed(e) ==> r@ == "Command failed: "@ + e@,
            self matches HardwareError::NotSupported ==> r@ == "Not supported"@,
            self matches HardwareError::OutOfRange ==> r@ == "Value out of range"@,
    {
        match self {
            HardwareError::Io(e) => {
                let mut s = String::from_str("IO Error: ");
                s.append(e.as_str());
                s
            },
            HardwareError::CommandFailed(e) => {
                let mut s = String::from_str("Command failed: ");
                s.append(e.as_str());
                s
            },
            HardwareError::NotSupported => String::from_str("Not supported"),
            HardwareError::OutOfRange => String::from_str("Value out of range"),
        }
    }
}

/// A display reached over the DDC/CI command-line tool; the record
/// only carries which display to address.
pub struct DdcUtilController {
    pub display_id: u8,
}

impl DdcUtilController {
    pub fn new(display_id: u8) -> (r: Self)
        ensures
            r.display_id == display_id,
    {
        Self { display_id }
    }
}

pub open spec fn spec_is_split_ws(b: u8) -> bool {
    b == 9 || b == 10 || b == 11 || b == 12 || b == 13 || b == 32
}

/// First position at or after `p` that is not separator whitespace.
pub open spec fn spec_skip_split_ws(b: Seq<u8>, p: int) -> int
    decreases b.len() - p,
{
    if p < b.len() && spec_is_split_ws(b[p]) {
        spec_skip_split_ws(b, p + 1)
    } else {
        p
    }
}

/// First position at or after `p` that ends the current token.
pub open spec fn spec_tok_end(b: Seq<u8>, p: int) -> int
    decreases b.len() - p,
{
    if p < b.len() && !spec_is_split_ws(b[p]) {
        spec_tok_end(b, p + 1)
    } else {
        p
    }
}

fn skip_split_ws(data: &[u8], start: usize) -> (r: usize)
    requires
        start <= data.len(),
    ensures
        r == spec_skip_split_ws(data@, start as int),
        start <= r <= data.len(),
{
    let mut p = start;
    while p < data.len() && (data[p] == 9 || data[p] == 10 || data[p] == 11 || data[p] == 12
        || data[p] == 13 || data[p] == 32)
        invariant
            start <= p <= data.len(),
            spec_skip_split_ws(data@, p as int) == spec_skip_split_ws(data@, start as int),
        decreases data.len() - p,
    {
        p = p + 1;
    }
    p
}

fn tok_end(data: &[u8], start: usize) -> (r: usize)
    requires
        start <= data.len(),
    ensures
        r == spec_tok_end(data@, start as int),
        start <= r <= data.len(),
{
    let mut p = start;
    while p < data.len() && !(data[p] == 9 || data[p] == 10 || data[p] == 11 || data[p] == 12
        || data[p] == 13 || data[p] == 32)
        invariant
            start <= p <= data.len(),
            spec_tok_end(data@, p as int) == spec_tok_end(data@, start as int),
        decreases data.len() - p,
    {
        p = p + 1;
    }
    p
}

/// Start of the fourth whitespace-separated token.
pub open spec fn spec_fourth_tok_start(b: Seq<u8>) -> int {
    let s0 = spec_skip_split_ws(b, 0);
    let s1 = spec_skip_split_ws(b, spec_tok_end(b, s0));
    let s2 = spec_skip_split_ws(b, spec_tok_end(b, s1));
    spec_skip_split_ws(b, spec_tok_end(b, s2))
}

/// The brightness reported by the DDC/CI tool's brief output: the
/// fourth whitespace-separated token, taken as a decimal percentage
/// no larger than a million, in milli-percent. Anything else is
/// unreadable.
pub open spec fn spec_parse_vcp_brightness(b: Seq<u8>) -> Option<int> {
    let s3 = spec_fourth_tok_start(b);
    let e3 = spec_tok_end(b, s3);
    if s3 == e3 || spec_digits_end(b, s3) != e3 {
        None
    } else {
        let v = spec_num_val(b, s3, e3);
        if v > 1000000 {
            None
        } else {
            Some(v * 1000)
        }
    }
}

proof fn lemma_tok_end_boundary(b: Seq<u8>, p: int)
    requires
        0 <= p <= b.len(),
    ensures
        p <= spec_tok_end(b, p) <= b.len(),
        spec_tok_end(b, p) == b.len() || spec_is_split_ws(b[spec_tok_end(b, p)]),
    decreases b.len() - p,
{
    if p < b.len() && !spec_is_split_ws(b[p]) {
        lemma_tok_end_boundary(b, p + 1);
    }
}

/// Extract the brightness from the DDC/CI tool's brief output.
pub fn parse_vcp_brightness(data: &[u8]) -> (r: Option<i64>)
    ensures
        match r {
            Some(v) => spec_parse_vcp_brightness(data@) == Some(v as int) && 0 <= v
                <= 1000000000,
            None => spec_parse_vcp_brightness(data@) is None,
        },
{
    let s0 = skip_split_ws(data, 0);
    let e0 = tok_end(data, s0);
    let s1 = skip_split_ws(data, e0);
    let e1 = tok_end(data, s1);
    let s2 = skip_split_ws(data, e1);
    let e2 = tok_end(data, s2);
    let s3 = skip_split_ws(data, e2);
    let e3 = tok_end(data, s3);

    if s3 == e3 {
        return None;
    }

    proof {
        lemma_digits_end_bounds(data@, s3 as int);
        lemma_tok_end_boundary(data@, s3 as int);
    }
    let ghost dend = spec_digits_end(data@, s3 as int);
    let mut p = s3;
    let mut val: u64 = 0;
    while p < e3
        invariant
            s3 <= p <= e3 <= data.len(),
            s3 < e3,
            s3 == spec_fourth_tok_start(data@),
            e3 == spec_tok_end(data@, s3 as int),
            e3 == data.len() || spec_is_split_ws(data@[e3 as int]),
            dend == spec_digits_end(data@, p as int),
            dend == spec_digits_end(data@, s3 as int),
            s3 <= dend <= data.len(),
            val == spec_num_val(data@, s3 as int, p as int),
            val <= 1000000,
        decreases e3 - p,
    {
        if !(data[p] >= 48 && data[p] <= 57) {
            // a non-digit inside the token: the digit run stops short
            proof {
                assert(dend == p);
            }
            return None;
        }
        let d = data[p] - 48;
        val = val * 10 + d as u64;
        p = p + 1;
        proof {
            lemma_digits_end_bounds(data@, p as int);
        }
        if val > 1000000 {
            // the token's value is already beyond the accepted range
            proof {
                assert forall|j: int| p <= j < dend implies 48 <= data@[j] by {
                    crate::digits::lemma_digits_all(data@, s3 as int, j);
                }
                crate::digits::lemma_num_val_extend(data@, s3 as int, p as int, dend);
            }
            return None;
        }
    }
    proof {
        assert(dend == e3);
    }
    Some((val * 1000) as i64)
}

/// A backlight reading as a milli-percent of its maximum raw value.
pub fn backlight_raw_to_percent(raw: u64, max: u64) -> (r: i64)
    requires
        1 <= max,
        raw <= max,
    ensures
        r == (raw * 100000) as int / max as int,
        0 <= r <= 100000,
{
    let prod = (raw as u128) * 100000;
    let q = prod / (max as u128);
    proof {
        assert(raw * 100000 <= max * 100000) by (nonlinear_arith)
            requires
                raw <= max,
                0 <= raw,
        ;
        vstd::arithmetic::div_mod::lemma_div_is_ordered(
            prod as int,
            max as int * 100000,
            max as int,
        );
        vstd::arithmetic::div_mod::lemma_div_multiples_vanish(100000, max as int);
        vstd::arithmetic::div_mod::lemma_div_pos_is_pos(prod as int, max as int);
    }
    q as i64
}

/// The raw backlight value for a milli-percent brightness, clamped
/// into range and rounded to the nearest step.
pub fn percent_to_backlight_raw(value: i64, max: u64) -> (r: u64)
    requires
        1 <= max,
    ensures
        ({
            let clamped = if value < 0 {
                0int
            } else if value > 100000 {
                100000int
            } else {
                value as int
            };
            r == (clamped * max + 50000) / 100000
        }),
        r <= max,
{
    let clamped: u64 = if value < 0 {
        0
    } else if value > 100000 {
        100000
    } else {
        value as u64
    };
    proof {
        assert(clamped * max <= 100000 * max) by (nonlinear_arith)
            requires
                0 <= clamped <= 100000,
                0 <= max,
        ;
        assert(clamped * max >= 0) by (nonlinear_arith)
            requires
                0 <= clamped,
                0 <= max,
        ;
    }
    let prod = (clamped as u128) * (max as u128) + 50000;
    let q = prod / 100000;
    proof {
        vstd::arithmetic::div_mod::lemma_div_is_ordered(
            prod as int,
            100000 * (max as int) + 50000,
            100000,
        );
        vstd::arithmetic::div_mod::lemma_fundamental_div_mod_converse(
            100000 * (max as int) + 50000,
            100000,
            max as int,
            50000,
        );
    }
    q as u64
}

/// A milli-percent brightness rounded to whole percent for backends
/// that only take integers.
pub fn round_percent(value: i64) -> (r: i64)
    requires
        0 <= value <= 100000,
    ensures
        r == (value + 500) / 1000,
        0 <= r <= 100,
{
    proof {
        vstd::arithmetic::div_mod::lemma_div_is_ordered(value as int + 500, 100500, 1000);
        vstd::arithmetic::div_mod::lemma_div_pos_is_pos(value as int + 500, 1000);
    }
    ((value as u64 + 500) / 1000) as i64
}

} // verus!
