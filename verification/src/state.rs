//! Durable snapshot of the engine's user-visible settings, written
//! and read as a small JSON object.
//!
//! The canonical field order — `brightness`, `wake_time`,
//! `transition_duration_ms`, `flashbang_protection`, `last_updated`
//! — is part of the on-disk format: the writer always emits it, and
//! the reader accepts the fields only in that order (with any amount
//! of whitespace between tokens). A hand edit may change values
//! freely but must keep the order; a reordered or otherwise
//! ungrammatical file reads as the defaults.
//!
//! Reading never fails: anything that does not parse — a missing
//! file, a corrupt file, an edit that breaks the grammar — falls
//! back to the documented defaults. File input and output live with
//! the caller; this module only turns snapshots into bytes and back.

use vstd::prelude::*;

use crate::digits::{
    lemma_digits_end_bounds, spec_digits_end, spec_is_ascii_digit, spec_num_val, spec_u64_dec,
    push_u64_dec,
};

verus! {

/// Default duration of a smooth transition, in milliseconds.
pub fn default_transition_duration() -> (r: u64)
    ensures
        r == 750,
{
    750
}

/// Flashbang protection is on unless the user turned it off.
pub fn default_flashbang() -> (r: bool)
    ensures
        r,
{
    true
}

/// The persisted record: brightness in milli-percent, the wake time
/// if one was set, the transition duration, the protection flag, and
/// the time of the last write in milliseconds since the epoch.
#[derive(Debug, Clone, Copy, PartialEq, Eq)]
pub struct AppState {
    pub brightness: i64,
    pub wake_time: Option<(u8, u8)>,
    pub transition_duration_ms: u64,
    pub flashbang_protection: bool,
    pub last_updated_ms: u64,
}

/// The documented defaults: a safe dim level, no stored wake time,
/// the default transition duration, protection on.
pub open spec fn spec_default_state() -> AppState {
    AppState {
        brightness: 15000,
        wake_time: None,
        transition_duration_ms: 750,
        flashbang_protection: true,
        last_updated_ms: 0,
    }
}

impl Default for AppState {
    fn default() -> (r: Self)
        ensures
            r == spec_default_state(),
    {
        AppState {
            brightness: 15000,
            wake_time: None,
            transition_duration_ms: 750,
            flashbang_protection: true,
            last_updated_ms: 0,
        }
    }
}

pub open spec fn spec_key_brightness() -> Seq<u8> {
    seq![34u8, 98u8, 114u8, 105u8, 103u8, 104u8, 116u8, 110u8, 101u8, 115u8, 115u8, 34u8]
}

pub open spec fn spec_key_wake() -> Seq<u8> {
    seq![34u8, 119u8, 97u8, 107u8, 101u8, 95u8, 116u8, 105u8, 109u8, 101u8, 34u8]
}

pub open spec fn spec_key_transition() -> Seq<u8> {
    seq![34u8, 116u8, 114u8, 97u8, 110u8, 115u8, 105u8, 116u8, 105u8, 111u8, 110u8, 95u8, 100u8, 117u8, 114u8, 97u8, 116u8, 105u8, 111u8, 110u8, 95u8, 109u8, 115u8, 34u8]
}

pub open spec fn spec_key_flashbang() -> Seq<u8> {
    seq![34u8, 102u8, 108u8, 97u8, 115u8, 104u8, 98u8, 97u8, 110u8, 103u8, 95u8, 112u8, 114u8, 111u8, 116u8, 101u8, 99u8, 116u8, 105u8, 111u8, 110u8, 34u8]
}

pub open spec fn spec_key_last_updated() -> Seq<u8> {
    seq![34u8, 108u8, 97u8, 115u8, 116u8, 95u8, 117u8, 112u8, 100u8, 97u8, 116u8, 101u8, 100u8, 34u8]
}

pub open spec fn spec_lit_true() -> Seq<u8> {
    seq![116u8, 114u8, 117u8, 101u8]
}

pub open spec fn spec_lit_false() -> Seq<u8> {
    seq![102u8, 97u8, 108u8, 115u8, 101u8]
}

pub open spec fn spec_lit_null() -> Seq<u8> {
    seq![110u8, 117u8, 108u8, 108u8]
}

/// Three zero-padded decimal digits for the fractional milli part.
pub open spec fn spec_frac3(f: int) -> Seq<u8> {
    seq![(48 + f / 100) as u8, (48 + (f / 10) % 10) as u8, (48 + f % 10) as u8]
}

/// The brightness value as percent with three decimals.
pub open spec fn spec_brightness_bytes(b: int) -> Seq<u8> {
    spec_u64_dec(b / 1000) + seq![46u8] + spec_frac3(b % 1000)
}

pub open spec fn spec_wake_bytes(w: Option<(u8, u8)>) -> Seq<u8> {
    match w {
        None => spec_lit_null(),
        Some((h, m)) => seq![91u8] + spec_u64_dec(h as int) + seq![44u8] + spec_u64_dec(m as int)
            + seq![93u8],
    }
}

pub open spec fn spec_bool_bytes(v: bool) -> Seq<u8> {
    if v {
        spec_lit_true()
    } else {
        spec_lit_false()
    }
}

/// The canonical JSON form of a snapshot.
pub open spec fn spec_encode_state(s: AppState) -> Seq<u8> {
    seq![123u8] + spec_key_brightness() + seq![58u8] + spec_brightness_bytes(
        s.brightness as int,
    ) + seq![44u8] + spec_key_wake() + seq![58u8] + spec_wake_bytes(s.wake_time) + seq![44u8]
        + spec_key_transition() + seq![58u8] + spec_u64_dec(s.transition_duration_ms as int)
        + seq![44u8] + spec_key_flashbang() + seq![58u8] + spec_bool_bytes(
        s.flashbang_protection,
    ) + seq![44u8] + spec_key_last_updated() + seq![58u8] + spec_u64_dec(
        s.last_updated_ms as int,
    ) + seq![125u8]
}

/// Serialize a snapshot to its canonical JSON bytes.
pub fn encode_state(s: &AppState) -> (out: Vec<u8>)
    requires
        0 <= s.brightness,
    ensures
        out@ == spec_encode_state(*s),
{
    let mut out: Vec<u8> = Vec::new();
    out.extend_from_slice(
        &[123u8, 34, 98, 114, 105, 103, 104, 116, 110, 101, 115, 115, 34, 58],
    );
    proof {
        assert(out@ =~= seq![123u8] + spec_key_brightness() + seq![58u8]);
    }

    let bu = s.brightness as u64;
    push_u64_dec(&mut out, bu / 1000);
    out.push(46);
    let f = bu % 1000;
    proof {
        vstd::arithmetic::div_mod::lemma_mod_division_less_than_divisor(bu as int, 1000);
        vstd::arithmetic::div_mod::lemma_mod_division_less_than_divisor(f as int, 10);
    }
    out.push(48 + (f / 100) as u8);
    out.push(48 + ((f / 10) % 10) as u8);
    out.push(48 + (f % 10) as u8);
    proof {
        assert(out@ =~= seq![123u8] + spec_key_brightness() + seq![58u8] + spec_brightness_bytes(s.brightness as int));
    }
    let ghost part1 = out@;

    out.extend_from_slice(&[44u8, 34, 119, 97, 107, 101, 95, 116, 105, 109, 101, 34, 58]);
    proof {
        assert(out@ =~= part1 + seq![44u8] + spec_key_wake() + seq![58u8]);
    }
    let ghost part2 = out@;
    match s.wake_time {
        None => {
            out.extend_from_slice(&[110u8, 117, 108, 108]);
            proof {
                assert(out@ =~= part2 + spec_wake_bytes(s.wake_time));
            }
        },
        Some((h, m)) => {
            out.push(91);
            push_u64_dec(&mut out, h as u64);
            out.push(44);
            push_u64_dec(&mut out, m as u64);
            out.push(93);
            proof {
                assert(out@ =~= part2 + spec_wake_bytes(s.wake_time));
            }
        },
    }
    let ghost part3 = out@;

    out.extend_from_slice(
        &[
            44u8,
            34,
            116,
            114,
            97,
            110,
            115,
            105,
            116,
            105,
            111,
            110,
            95,
            100,
            117,
            114,
            97,
            116,
            105,
            111,
            110,
            95,
            109,
            115,
            34,
            58,
        ],
    );
    proof {
        assert(out@ =~= part3 + seq![44u8] + spec_key_transition() + seq![58u8]);
    }
    push_u64_dec(&mut out, s.transition_duration_ms);
    let ghost part4 = out@;

    out.extend_from_slice(
        &[
            44u8,
            34,
            102,
            108,
            97,
            115,
            104,
            98,
            97,
            110,
            103,
            95,
            112,
            114,
            111,
            116,
            101,
            99,
            116,
            105,
            111,
            110,
            34,
            58,
        ],
    );
    proof {
        assert(out@ =~= part4 + seq![44u8] + spec_key_flashbang() + seq![58u8]);
    }
    let ghost part5 = out@;
    if s.flashbang_protection {
        out.extend_from_slice(&[116u8, 114, 117, 101]);
        proof {
            assert(out@ =~= part5 + spec_bool_bytes(s.flashbang_protection));
        }
    } else {
        out.extend_from_slice(&[102u8, 97, 108, 115, 101]);
        proof {
            assert(out@ =~= part5 + spec_bool_bytes(s.flashbang_protection));
        }
    }
    let ghost part6 = out@;

    out.extend_from_slice(
        &[44u8, 34, 108, 97, 115, 116, 95, 117, 112, 100, 97, 116, 101, 100, 34, 58],
    );
    proof {
        assert(out@ =~= part6 + seq![44u8] + spec_key_last_updated() + seq![58u8]);
    }
    push_u64_dec(&mut out, s.last_updated_ms);
    out.push(125);
    proof {
        assert(out@ =~= spec_encode_state(*s));
    }
    out
}

pub open spec fn spec_is_sp(c: u8) -> bool {
    c == 32 || c == 9 || c == 10 || c == 13
}

/// Position of the first byte at or after `p` that is not JSON
/// whitespace.
pub open spec fn spec_sp(b: Seq<u8>, p: int) -> int
    decreases b.len() - p,
{
    if p < b.len() && spec_is_sp(b[p]) {
        spec_sp(b, p + 1)
    } else {
        p
    }
}

fn skip_sp(data: &[u8], start: usize) -> (r: usize)
    requires
        start <= data.len(),
    ensures
        r == spec_sp(data@, start as int),
        start <= r <= data.len(),
{
    let mut p = start;
    while p < data.len() && (data[p] == 32 || data[p] == 9 || data[p] == 10 || data[p] == 13)
        invariant
            start <= p <= data.len(),
            spec_sp(data@, p as int) == spec_sp(data@, start as int),
        decreases data.len() - p,
    {
        p = p + 1;
    }
    p
}

/// Whether the bytes of `t` stand at `p` in `b`.
pub open spec fn spec_match_at(b: Seq<u8>, p: int, t: Seq<u8>) -> bool {
    0 <= p && p + t.len() <= b.len() && b.subrange(p, p + t.len() as int) == t
}

fn match_at(data: &[u8], p: usize, t: &[u8]) -> (r: bool)
    requires
        p <= data.len(),
    ensures
        r == spec_match_at(data@, p as int, t@),
{
    if data.len() - p < t.len() {
        return false;
    }
    let mut i: usize = 0;
    while i < t.len()
        invariant
            0 <= i <= t.len(),
            p + t.len() <= data.len(),
            forall|k: int| 0 <= k < i ==> data@[p + k] == t@[k],
        decreases t.len() - i,
    {
        if data[p + i] != t[i] {
            proof {
                assert(data@.subrange(p as int, p as int + t@.len() as int)[i as int] == data@[p
                    + i]);
            }
            return false;
        }
        i = i + 1;
    }
    proof {
        assert(data@.subrange(p as int, p as int + t@.len() as int) =~= t@);
    }
    true
}

/// A plain decimal number at `p`: a non-empty digit run whose value
/// fits an unsigned 64-bit integer.
pub open spec fn spec_parse_u64_at(b: Seq<u8>, p: int) -> Option<(int, int)> {
    let end = spec_digits_end(b, p);
    if end == p {
        None
    } else {
        let v = spec_num_val(b, p, end);
        if v > u64::MAX {
            None
        } else {
            Some((v, end))
        }
    }
}

fn parse_u64_at(data: &[u8], start: usize) -> (r: Option<(u64, usize)>)
    requires
        start <= data.len(),
    ensures
        match r {
            Some(ve) => spec_parse_u64_at(data@, start as int) == Some(
                (ve.0 as int, ve.1 as int),
            ) && start <= ve.1 <= data.len(),
            None => spec_parse_u64_at(data@, start as int) is None,
        },
{
    proof {
        lemma_digits_end_bounds(data@, start as int);
    }
    let ghost end = spec_digits_end(data@, start as int);
    let mut p = start;
    let mut val: u64 = 0;
    while p < data.len() && data[p] >= 48 && data[p] <= 57
        invariant
            start <= p <= data.len(),
            end == spec_digits_end(data@, p as int),
            end == spec_digits_end(data@, start as int),
            p <= end <= data.len(),
            val == spec_num_val(data@, start as int, p as int),
        decreases data.len() - p,
    {
        let d = data[p] - 48;
        if val > (u64::MAX - d as u64) / 10 {
            proof {
                assert(spec_num_val(data@, start as int, p as int + 1) == val * 10 + d);
                vstd::arithmetic::div_mod::lemma_fundamental_div_mod(u64::MAX - d as int, 10);
                vstd::arithmetic::div_mod::lemma_mod_division_less_than_divisor(
                    u64::MAX - d as int,
                    10,
                );
                assert(val * 10 + d > u64::MAX);
                assert(end == spec_digits_end(data@, p as int + 1));
                lemma_digits_end_bounds(data@, p as int + 1);
                assert forall|j: int| p + 1 <= j < end implies 48 <= data@[j] by {
                    crate::digits::lemma_digits_all(data@, start as int, j);
                }
                crate::digits::lemma_num_val_extend(data@, start as int, p as int + 1, end);
            }
            return None;
        }
        val = val * 10 + d as u64;
        p = p + 1;
        proof {
            lemma_digits_end_bounds(data@, p as int);
        }
    }
    if p == start {
        return None;
    }
    Some((val, p))
}

/// A brightness value at `p`: integer percent with an optional
/// fraction of one to three digits, capped at a million percent.
pub open spec fn spec_parse_brightness_at(b: Seq<u8>, p: int) -> Option<(int, int)> {
    match spec_parse_u64_at(b, p) {
        None => None,
        Some((ip, p1)) => if ip > 1000000 {
            None
        } else if p1 < b.len() && b[p1] == 46 {
            let fend = spec_digits_end(b, p1 + 1);
            let k = fend - (p1 + 1);
            if k < 1 || k > 3 {
                None
            } else {
                let f = spec_num_val(b, p1 + 1, fend);
                let scaled = if k == 1 {
                    f * 100
                } else if k == 2 {
                    f * 10
                } else {
                    f
                };
                Some((ip * 1000 + scaled, fend))
            }
        } else {
            Some((ip * 1000, p1))
        },
    }
}

fn parse_brightness_at(data: &[u8], start: usize) -> (r: Option<(i64, usize)>)
    requires
        start <= data.len(),
    ensures
        match r {
            Some(ve) => spec_parse_brightness_at(data@, start as int) == Some(
                (ve.0 as int, ve.1 as int),
            ) && start <= ve.1 <= data.len() && 0 <= ve.0,
            None => spec_parse_brightness_at(data@, start as int) is None,
        },
{
    let (ip, p1) = match parse_u64_at(data, start) {
        Some(x) => x,
        None => {
            return None;
        },
    };
    if ip > 1000000 {
        return None;
    }
    if p1 < data.len() && data[p1] == 46 {
        let (f, fend) = match parse_u64_at(data, p1 + 1) {
            Some(x) => x,
            None => {
                proof {
                    let fend = spec_digits_end(data@, p1 as int + 1);
                    lemma_digits_end_bounds(data@, p1 as int + 1);
                    if fend != p1 + 1 && fend - (p1 + 1) <= 3 {
                        // a run of at most three digits cannot have
                        // overflowed the number parser
                        assert forall|j: int| p1 + 1 <= j < fend implies spec_is_ascii_digit(
                            data@[j],
                        ) by {
                            crate::digits::lemma_digits_all(data@, p1 as int + 1, j);
                        }
                        lemma_num_val_upper(data@, p1 as int + 1, fend);
                        assert(false);
                    }
                }
                return None;
            },
        };
        let k = fend - (p1 + 1);
        if k < 1 || k > 3 {
            return None;
        }
        proof {
            assert forall|j: int| p1 + 1 <= j < fend implies spec_is_ascii_digit(data@[j]) by {
                crate::digits::lemma_digits_all(data@, p1 as int + 1, j);
            }
            lemma_num_val_upper(data@, p1 as int + 1, fend as int);
        }
        let scaled = if k == 1 {
            f * 100
        } else if k == 2 {
            f * 10
        } else {
            f
        };
        Some(((ip * 1000 + scaled) as i64, fend))
    } else {
        Some((ip as i64 * 1000, p1))
    }
}

/// A digit run of length at most three values below one thousand.
proof fn lemma_num_val_upper(data: Seq<u8>, p: int, end: int)
    requires
        0 <= p <= end <= data.len(),
        end - p <= 3,
        forall|j: int| p <= j < end ==> spec_is_ascii_digit(data[j]),
    ensures
        0 <= spec_num_val(data, p, end) < 1000,
    decreases end - p,
{
    if end > p {
        lemma_num_val_upper_helper(data, p, end);
    }
}

proof fn lemma_num_val_upper_helper(data: Seq<u8>, p: int, end: int)
    requires
        0 <= p <= end <= data.len(),
        end - p <= 3,
        forall|j: int| p <= j < end ==> spec_is_ascii_digit(data[j]),
    ensures
        0 <= spec_num_val(data, p, end),
        end - p == 0 ==> spec_num_val(data, p, end) == 0,
        end - p == 1 ==> spec_num_val(data, p, end) <= 9,
        end - p == 2 ==> spec_num_val(data, p, end) <= 99,
        end - p == 3 ==> spec_num_val(data, p, end) <= 999,
    decreases end - p,
{
    if end > p {
        lemma_num_val_upper_helper(data, p, end - 1);
    }
}

/// A wake time value at `p`: `null` or a two-element array of small
/// numbers.
pub open spec fn spec_parse_wake_at(b: Seq<u8>, p: int) -> Option<(Option<(u8, u8)>, int)> {
    if spec_match_at(b, p, spec_lit_null()) {
        Some((None, p + 4))
    } else if p < b.len() && b[p] == 91 {
        let p1 = spec_sp(b, p + 1);
        match spec_parse_u64_at(b, p1) {
            None => None,
            Some((h, p2)) => {
                let p3 = spec_sp(b, p2);
                if p3 < b.len() && b[p3] == 44 {
                    let p4 = spec_sp(b, p3 + 1);
                    match spec_parse_u64_at(b, p4) {
                        None => None,
                        Some((m, p5)) => {
                            let p6 = spec_sp(b, p5);
                            if p6 < b.len() && b[p6] == 93 && h <= 255 && m <= 255 {
                                Some((Some((h as u8, m as u8)), p6 + 1))
                            } else {
                                None
                            }
                        },
                    }
                } else {
                    None
                }
            },
        }
    } else {
        None
    }
}

fn parse_wake_at(data: &[u8], start: usize) -> (r: Option<(Option<(u8, u8)>, usize)>)
    requires
        start <= data.len(),
    ensures
        match r {
            Some(ve) => spec_parse_wake_at(data@, start as int) == Some(
                (ve.0, ve.1 as int),
            ) && start <= ve.1 <= data.len(),
            None => spec_parse_wake_at(data@, start as int) is None,
        },
{
    let null_lit: [u8; 4] = [110, 117, 108, 108];
    proof {
        assert(null_lit@ =~= spec_lit_null());
    }
    if match_at(data, start, &null_lit) {
        return Some((None, start + 4));
    }
    if start < data.len() && data[start] == 91 {
        let p1 = skip_sp(data, start + 1);
        let (h, p2) = match parse_u64_at(data, p1) {
            Some(x) => x,
            None => {
                return None;
            },
        };
        let p3 = skip_sp(data, p2);
        if p3 < data.len() && data[p3] == 44 {
            let p4 = skip_sp(data, p3 + 1);
            let (m, p5) = match parse_u64_at(data, p4) {
                Some(x) => x,
                None => {
                    return None;
                },
            };
            let p6 = skip_sp(data, p5);
            if p6 < data.len() && data[p6] == 93 && h <= 255 && m <= 255 {
                Some((Some((h as u8, m as u8)), p6 + 1))
            } else {
                None
            }
        } else {
            None
        }
    } else {
        None
    }
}

/// A boolean value at `p`.
pub open spec fn spec_parse_bool_at(b: Seq<u8>, p: int) -> Option<(bool, int)> {
    if spec_match_at(b, p, spec_lit_true()) {
        Some((true, p + 4))
    } else if spec_match_at(b, p, spec_lit_false()) {
        Some((false, p + 5))
    } else {
        None
    }
}

fn parse_bool_at(data: &[u8], start: usize) -> (r: Option<(bool, usize)>)
    requires
        start <= data.len(),
    ensures
        match r {
            Some(ve) => spec_parse_bool_at(data@, start as int) == Some(
                (ve.0, ve.1 as int),
            ) && start <= ve.1 <= data.len(),
            None => spec_parse_bool_at(data@, start as int) is None,
        },
{
    let true_lit: [u8; 4] = [116, 114, 117, 101];
    let false_lit: [u8; 5] = [102, 97, 108, 115, 101];
    proof {
        assert(true_lit@ =~= spec_lit_true());
        assert(false_lit@ =~= spec_lit_false());
    }
    if match_at(data, start, &true_lit) {
        Some((true, start + 4))
    } else if match_at(data, start, &false_lit) {
        Some((false, start + 5))
    } else {
        None
    }
}

/// The whole snapshot grammar, fields in their canonical order, any
/// amount of whitespace between tokens, nothing after the closing
/// brace.
pub open spec fn spec_parse_state(b: Seq<u8>) -> Option<AppState> {
    let p0 = spec_sp(b, 0);
    if !(p0 < b.len() && b[p0] == 123) {
        None
    } else {
        let p1 = spec_sp(b, p0 + 1);
        if !spec_match_at(b, p1, spec_key_brightness()) {
            None
        } else {
            let p2 = spec_sp(b, p1 + 12);
            if !(p2 < b.len() && b[p2] == 58) {
                None
            } else {
                match spec_parse_brightness_at(b, spec_sp(b, p2 + 1)) {
                    None => None,
                    Some((bv, p4)) => spec_parse_state_wake(b, p4, bv),
                }
            }
        }
    }
}

pub open spec fn spec_parse_state_wake(b: Seq<u8>, p: int, bv: int) -> Option<AppState> {
    let p5 = spec_sp(b, p);
    if !(p5 < b.len() && b[p5] == 44) {
        None
    } else {
        let p6 = spec_sp(b, p5 + 1);
        if !spec_match_at(b, p6, spec_key_wake()) {
            None
        } else {
            let p7 = spec_sp(b, p6 + 11);
            if !(p7 < b.len() && b[p7] == 58) {
                None
            } else {
                match spec_parse_wake_at(b, spec_sp(b, p7 + 1)) {
                    None => None,
                    Some((wv, p9)) => spec_parse_state_transition(b, p9, bv, wv),
                }
            }
        }
    }
}

pub open spec fn spec_parse_state_transition(
    b: Seq<u8>,
    p: int,
    bv: int,
    wv: Option<(u8, u8)>,
) -> Option<AppState> {
    let p10 = spec_sp(b, p);
    if !(p10 < b.len() && b[p10] == 44) {
        None
    } else {
        let p11 = spec_sp(b, p10 + 1);
        if !spec_match_at(b, p11, spec_key_transition()) {
            None
        } else {
            let p12 = spec_sp(b, p11 + 24);
            if !(p12 < b.len() && b[p12] == 58) {
                None
            } else {
                match spec_parse_u64_at(b, spec_sp(b, p12 + 1)) {
                    None => None,
                    Some((tv, p14)) => spec_parse_state_flashbang(b, p14, bv, wv, tv),
                }
            }
        }
    }
}

pub open spec fn spec_parse_state_flashbang(
    b: Seq<u8>,
    p: int,
    bv: int,
    wv: Option<(u8, u8)>,
    tv: int,
) -> Option<AppState> {
    let p15 = spec_sp(b, p);
    if !(p15 < b.len() && b[p15] == 44) {
        None
    } else {
        let p16 = spec_sp(b, p15 + 1);
        if !spec_match_at(b, p16, spec_key_flashbang()) {
            None
        } else {
            let p17 = spec_sp(b, p16 + 22);
            if !(p17 < b.len() && b[p17] == 58) {
                None
            } else {
                match spec_parse_bool_at(b, spec_sp(b, p17 + 1)) {
                    None => None,
                    Some((fv, p19)) => spec_parse_state_last(b, p19, bv, wv, tv, fv),
                }
            }
        }
    }
}

pub open spec fn spec_parse_state_last(
    b: Seq<u8>,
    p: int,
    bv: int,
    wv: Option<(u8, u8)>,
    tv: int,
    fv: bool,
) -> Option<AppState> {
    let p20 = spec_sp(b, p);
    if !(p20 < b.len() && b[p20] == 44) {
        None
    } else {
        let p21 = spec_sp(b, p20 + 1);
        if !spec_match_at(b, p21, spec_key_last_updated()) {
            None
        } else {
            let p22 = spec_sp(b, p21 + 14);
            if !(p22 < b.len() && b[p22] == 58) {
                None
            } else {
                match spec_parse_u64_at(b, spec_sp(b, p22 + 1)) {
                    None => None,
                    Some((lv, p24)) => {
                        let p25 = spec_sp(b, p24);
                        if !(p25 < b.len() && b[p25] == 125) {
                            None
                        } else if spec_sp(b, p25 + 1) != b.len() {
                            None
                        } else {
                            Some(
                                AppState {
                                    brightness: bv as i64,
                                    wake_time: wv,
                                    transition_duration_ms: tv as u64,
                                    flashbang_protection: fv,
                                    last_updated_ms: lv as u64,
                                },
                            )
                        }
                    },
                }
            }
        }
    }
}

/// Deserialize a snapshot. The canonical field order is part of the
/// format; anything that does not fit the grammar yields the
/// documented defaults.
pub fn parse_state(data: &[u8]) -> (r: AppState)
    ensures
        r == match spec_parse_state(data@) {
            Some(s) => s,
            None => spec_default_state(),
        },
{
    let key_b: [u8; 12] = [34, 98, 114, 105, 103, 104, 116, 110, 101, 115, 115, 34];
    let key_w: [u8; 11] = [34, 119, 97, 107, 101, 95, 116, 105, 109, 101, 34];
    let key_t: [u8; 24] = [
        34,
        116,
        114,
        97,
        110,
        115,
        105,
        116,
        105,
        111,
        110,
        95,
        100,
        117,
        114,
        97,
        116,
        105,
        111,
        110,
        95,
        109,
        115,
        34,
    ];
    let key_f: [u8; 22] = [
        34,
        102,
        108,
        97,
        115,
        104,
        98,
        97,
        110,
        103,
        95,
        112,
        114,
        111,
        116,
        101,
        99,
        116,
        105,
        111,
        110,
        34,
    ];
    let key_l: [u8; 14] = [34, 108, 97, 115, 116, 95, 117, 112, 100, 97, 116, 101, 100, 34];
    proof {
        assert(key_b@ =~= spec_key_brightness());
        assert(key_w@ =~= spec_key_wake());
        assert(key_t@ =~= spec_key_transition());
        assert(key_f@ =~= spec_key_flashbang());
        assert(key_l@ =~= spec_key_last_updated());
    }

    let p0 = skip_sp(data, 0);
    if !(p0 < data.len() && data[p0] == 123) {
        return AppState::default();
    }
    let p1 = skip_sp(data, p0 + 1);
    if !match_at(data, p1, &key_b) {
        return AppState::default();
    }
    let p2 = skip_sp(data, p1 + 12);
    if !(p2 < data.len() && data[p2] == 58) {
        return AppState::default();
    }
    let p3 = skip_sp(data, p2 + 1);
    let (bv, p4) = match parse_brightness_at(data, p3) {
        Some(x) => x,
        None => {
            return AppState::default();
        },
    };

    let p5 = skip_sp(data, p4);
    if !(p5 < data.len() && data[p5] == 44) {
        return AppState::default();
    }
    let p6 = skip_sp(data, p5 + 1);
    if !match_at(data, p6, &key_w) {
        return AppState::default();
    }
    let p7 = skip_sp(data, p6 + 11);
    if !(p7 < data.len() && data[p7] == 58) {
        return AppState::default();
    }
    let p8 = skip_sp(data, p7 + 1);
    let (wv, p9) = match parse_wake_at(data, p8) {
        Some(x) => x,
        None => {
            return AppState::default();
        },
    };

    let p10 = skip_sp(data, p9);
    if !(p10 < data.len() && data[p10] == 44) {
        return AppState::default();
    }
    let p11 = skip_sp(data, p10 + 1);
    if !match_at(data, p11, &key_t) {
        return AppState::default();
    }
    let p12 = skip_sp(data, p11 + 24);
    if !(p12 < data.len() && data[p12] == 58) {
        return AppState::default();
    }
    let p13 = skip_sp(data, p12 + 1);
    let (tv, p14) = match parse_u64_at(data, p13) {
        Some(x) => x,
        None => {
            return AppState::default();
        },
    };

    let p15 = skip_sp(data, p14);
    if !(p15 < data.len() && data[p15] == 44) {
        return AppState::default();
    }
    let p16 = skip_sp(data, p15 + 1);
    if !match_at(data, p16, &key_f) {
        return AppState::default();
    }
    let p17 = skip_sp(data, p16 + 22);
    if !(p17 < data.len() && data[p17] == 58) {
        return AppState::default();
    }
    let p18 = skip_sp(data, p17 + 1);
    let (fv, p19) = match parse_bool_at(data, p18) {
        Some(x) => x,
        None => {
            return AppState::default();
        },
    };

    let p20 = skip_sp(data, p19);
    if !(p20 < data.len() && data[p20] == 44) {
        return AppState::default();
    }
    let p21 = skip_sp(data, p20 + 1);
    if !match_at(data, p21, &key_l) {
        return AppState::default();
    }
    let p22 = skip_sp(data, p21 + 14);
    if !(p22 < data.len() && data[p22] == 58) {
        return AppState::default();
    }
    let p23 = skip_sp(data, p22 + 1);
    let (lv, p24) = match parse_u64_at(data, p23) {
        Some(x) => x,
        None => {
            return AppState::default();
        },
    };

    let p25 = skip_sp(data, p24);
    if !(p25 < data.len() && data[p25] == 125) {
        return AppState::default();
    }
    let p26 = skip_sp(data, p25 + 1);
    if p26 != data.len() {
        return AppState::default();
    }

    AppState {
        brightness: bv,
        wake_time: wv,
        transition_duration_ms: tv,
        flashbang_protection: fv,
        last_updated_ms: lv,
    }
}

/// Splitting a value below one thousand into three zero-padded
/// decimal digits and reassembling them gives the value back.
proof fn lemma_frac3_value(f: int)
    requires
        0 <= f <= 999,
    ensures
        100 * (f / 100) + 10 * ((f / 10) % 10) + f % 10 == f,
        0 <= f / 100 <= 9,
        0 <= (f / 10) % 10 <= 9,
        0 <= f % 10 <= 9,
{
    let x = f / 100;
    let r = f % 100;
    vstd::arithmetic::div_mod::lemma_fundamental_div_mod(f, 100);
    vstd::arithmetic::div_mod::lemma_mod_division_less_than_divisor(f, 100);
    vstd::arithmetic::div_mod::lemma_fundamental_div_mod(r, 10);
    vstd::arithmetic::div_mod::lemma_mod_division_less_than_divisor(r, 10);
    vstd::arithmetic::div_mod::lemma_div_is_ordered(f, 999, 100);
    vstd::arithmetic::div_mod::lemma_div_pos_is_pos(f, 100);
    vstd::arithmetic::div_mod::lemma_div_is_ordered(r, 99, 10);
    vstd::arithmetic::div_mod::lemma_div_pos_is_pos(r, 10);
    // f == 10 * (10x + r/10) + r%10, so f/10 == 10x + r/10 and
    // f%10 == r%10
    vstd::arithmetic::div_mod::lemma_fundamental_div_mod_converse(
        f,
        10,
        10 * x + r / 10,
        r % 10,
    );
    // (10x + r/10) % 10 == (r/10) % 10 == r/10
    vstd::arithmetic::div_mod::lemma_mod_multiples_vanish(x, r / 10, 10);
    vstd::arithmetic::div_mod::lemma_small_mod((r / 10) as nat, 10);
    vstd::arithmetic::div_mod::lemma_mod_division_less_than_divisor(f, 10);
}


// Byte offsets of the value fields inside a canonical encoding.
spec fn off_after_brightness(s: AppState) -> int {
    14 + spec_u64_dec(s.brightness as int / 1000).len() as int + 4
}

spec fn off_wake_value(s: AppState) -> int {
    off_after_brightness(s) + 13
}

spec fn off_after_wake(s: AppState) -> int {
    off_wake_value(s) + spec_wake_bytes(s.wake_time).len() as int
}

spec fn off_duration_value(s: AppState) -> int {
    off_after_wake(s) + 26
}

spec fn off_after_duration(s: AppState) -> int {
    off_duration_value(s) + spec_u64_dec(s.transition_duration_ms as int).len()
}

spec fn off_flag_value(s: AppState) -> int {
    off_after_duration(s) + 24
}

spec fn off_after_flag(s: AppState) -> int {
    off_flag_value(s) + spec_bool_bytes(s.flashbang_protection).len() as int
}

spec fn off_stamp_value(s: AppState) -> int {
    off_after_flag(s) + 16
}

spec fn off_after_stamp(s: AppState) -> int {
    off_stamp_value(s) + spec_u64_dec(s.last_updated_ms as int).len() as int
}

#[verifier::rlimit(100)]
proof fn lemma_layout_head(s: AppState)
    requires
        0 <= s.brightness,
    ensures
        spec_encode_state(s).len() == off_after_stamp(s) + 1,
        spec_encode_state(s)[0] == 123,
        spec_encode_state(s).subrange(1, 13) == spec_key_brightness(),
        spec_encode_state(s)[13] == 58,
        spec_encode_state(s).subrange(
            14,
            14 + spec_u64_dec(s.brightness as int / 1000).len() as int,
        ) == spec_u64_dec(s.brightness as int / 1000),
        spec_encode_state(s)[off_after_brightness(s) - 4] == 46,
        spec_encode_state(s).subrange(off_after_brightness(s) - 3, off_after_brightness(s)) == spec_frac3(
            s.brightness as int % 1000,
        ),
        spec_encode_state(s)[off_after_brightness(s)] == 44,
{
    let b = spec_encode_state(s);
    assert(b.subrange(1, 13) =~= spec_key_brightness());
    assert(b.subrange(14, 14 + spec_u64_dec(s.brightness as int / 1000).len() as int)
        =~= spec_u64_dec(s.brightness as int / 1000));
    assert(b.subrange(off_after_brightness(s) - 3, off_after_brightness(s)) =~= spec_frac3(s.brightness as int % 1000));
}

#[verifier::rlimit(100)]
proof fn lemma_layout_mid(s: AppState)
    requires
        0 <= s.brightness,
    ensures
        spec_encode_state(s).subrange(off_after_brightness(s) + 1, off_after_brightness(s) + 12) == spec_key_wake(),
        spec_encode_state(s)[off_after_brightness(s) + 12] == 58,
        spec_encode_state(s).subrange(off_wake_value(s), off_after_wake(s)) == spec_wake_bytes(s.wake_time),
        spec_encode_state(s)[off_after_wake(s)] == 44,
        spec_encode_state(s).subrange(off_after_wake(s) + 1, off_after_wake(s) + 25) == spec_key_transition(),
        spec_encode_state(s)[off_after_wake(s) + 25] == 58,
        spec_encode_state(s).subrange(off_duration_value(s), off_after_duration(s)) == spec_u64_dec(
            s.transition_duration_ms as int,
        ),
        spec_encode_state(s)[off_after_duration(s)] == 44,
{
    let b = spec_encode_state(s);
    assert(b.subrange(off_after_brightness(s) + 1, off_after_brightness(s) + 12) =~= spec_key_wake());
    assert(b.subrange(off_wake_value(s), off_after_wake(s)) =~= spec_wake_bytes(s.wake_time));
    assert(b.subrange(off_after_wake(s) + 1, off_after_wake(s) + 25) =~= spec_key_transition());
    assert(b.subrange(off_duration_value(s), off_after_duration(s)) =~= spec_u64_dec(
        s.transition_duration_ms as int,
    ));
}

#[verifier::rlimit(100)]
proof fn lemma_layout_tail(s: AppState)
    requires
        0 <= s.brightness,
    ensures
        spec_encode_state(s).subrange(off_after_duration(s) + 1, off_after_duration(s) + 23) == spec_key_flashbang(),
        spec_encode_state(s)[off_after_duration(s) + 23] == 58,
        spec_encode_state(s).subrange(off_flag_value(s), off_after_flag(s)) == spec_bool_bytes(
            s.flashbang_protection,
        ),
        spec_encode_state(s)[off_after_flag(s)] == 44,
        spec_encode_state(s).subrange(off_after_flag(s) + 1, off_after_flag(s) + 15) == spec_key_last_updated(),
        spec_encode_state(s)[off_after_flag(s) + 15] == 58,
        spec_encode_state(s).subrange(off_stamp_value(s), off_after_stamp(s)) == spec_u64_dec(
            s.last_updated_ms as int,
        ),
        spec_encode_state(s)[off_after_stamp(s)] == 125,
{
    let b = spec_encode_state(s);
    assert(b.subrange(off_after_duration(s) + 1, off_after_duration(s) + 23) =~= spec_key_flashbang());
    assert(b.subrange(off_flag_value(s), off_after_flag(s)) =~= spec_bool_bytes(s.flashbang_protection));
    assert(b.subrange(off_after_flag(s) + 1, off_after_flag(s) + 15) =~= spec_key_last_updated());
    assert(b.subrange(off_stamp_value(s), off_after_stamp(s)) =~= spec_u64_dec(s.last_updated_ms as int));
}


#[verifier::rlimit(100)]
proof fn lemma_parse_brightness_of_layout(b: Seq<u8>, s: AppState)
    requires
        0 <= s.brightness <= 100000,
        b.len() == off_after_stamp(s) + 1,
        b[0] == 123,
        b.subrange(1, 13) == spec_key_brightness(),
        b[13] == 58,
        b.subrange(14, 14 + spec_u64_dec(s.brightness as int / 1000).len() as int)
            == spec_u64_dec(s.brightness as int / 1000),
        b[off_after_brightness(s) - 4] == 46,
        b.subrange(off_after_brightness(s) - 3, off_after_brightness(s)) == spec_frac3(s.brightness as int % 1000),
        b[off_after_brightness(s)] == 44,
        spec_parse_state_wake(b, off_after_brightness(s), s.brightness as int) == Some(s),
    ensures
        spec_parse_state(b) == Some(s),
{
    let ip = s.brightness as int / 1000;
    let f = s.brightness as int % 1000;
    let dip = spec_u64_dec(ip);
    let o4 = 14 + dip.len() as int;
    let o5 = o4 + 1;
    let p4 = off_after_brightness(s);
    vstd::arithmetic::div_mod::lemma_fundamental_div_mod(s.brightness as int, 1000);
    vstd::arithmetic::div_mod::lemma_mod_division_less_than_divisor(s.brightness as int, 1000);
    vstd::arithmetic::div_mod::lemma_div_pos_is_pos(s.brightness as int, 1000);
    vstd::arithmetic::div_mod::lemma_div_is_ordered(s.brightness as int, 100000, 1000);
    lemma_frac3_value(f);
    crate::digits::lemma_dec_digits(ip);

    assert(spec_sp(b, 0) == 0);
    assert(b[1] == spec_key_brightness()[0]) by {
        assert(b.subrange(1, 13)[0] == b[1]);
    }
    assert(spec_sp(b, 1) == 1);
    assert(spec_match_at(b, 1, spec_key_brightness()));
    assert(spec_sp(b, 13) == 13);
    assert(b[14] == dip[0]) by {
        assert(b.subrange(14, 14 + dip.len() as int)[0] == b[14]);
    }
    assert(spec_sp(b, 14) == 14);
    crate::digits::lemma_dec_reads_back(b, 14, ip);
    assert(spec_parse_u64_at(b, 14) == Some((ip, o4)));
    assert(b[o5] == 48 + f / 100) by {
        assert(b.subrange(o5, p4)[0] == b[o5]);
    }
    assert(b[o5 + 1] == 48 + (f / 10) % 10) by {
        assert(b.subrange(o5, p4)[1] == b[o5 + 1]);
    }
    assert(b[o5 + 2] == 48 + f % 10) by {
        assert(b.subrange(o5, p4)[2] == b[o5 + 2]);
    }
    crate::digits::lemma_digits_end_at(b, o5, p4);
    assert(spec_num_val(b, o5, o5) == 0);
    assert(spec_num_val(b, o5, o5 + 1) == spec_num_val(b, o5, o5) * 10 + (b[o5] - 48));
    assert(spec_num_val(b, o5, o5 + 2) == spec_num_val(b, o5, o5 + 1) * 10 + (b[o5 + 1] - 48));
    assert(spec_num_val(b, o5, o5 + 3) == spec_num_val(b, o5, o5 + 2) * 10 + (b[o5 + 2] - 48));
    assert(spec_num_val(b, o5, p4) == f);
    assert(spec_parse_brightness_at(b, 14) == Some((s.brightness as int, p4)));
}

#[verifier::rlimit(100)]
proof fn lemma_parse_wake_of_layout(b: Seq<u8>, s: AppState)
    requires
        0 <= s.brightness,
        off_after_wake(s) < b.len(),
        b[off_after_brightness(s)] == 44,
        b.subrange(off_after_brightness(s) + 1, off_after_brightness(s) + 12) == spec_key_wake(),
        b[off_after_brightness(s) + 12] == 58,
        b.subrange(off_wake_value(s), off_after_wake(s)) == spec_wake_bytes(s.wake_time),
        b[off_after_wake(s)] == 44,
        spec_parse_state_transition(b, off_after_wake(s), s.brightness as int, s.wake_time) == Some(s),
    ensures
        spec_parse_state_wake(b, off_after_brightness(s), s.brightness as int) == Some(s),
{
    let p4 = off_after_brightness(s);
    let o8 = off_wake_value(s);
    let p9 = off_after_wake(s);
    let wb = spec_wake_bytes(s.wake_time);
    assert(spec_sp(b, p4) == p4);
    assert(b[p4 + 1] == spec_key_wake()[0]) by {
        assert(b.subrange(p4 + 1, p4 + 12)[0] == b[p4 + 1]);
    }
    assert(spec_sp(b, p4 + 1) == p4 + 1);
    assert(spec_match_at(b, p4 + 1, spec_key_wake()));
    assert(spec_sp(b, p4 + 12) == p4 + 12);
    assert(b[o8] == wb[0]) by {
        assert(b.subrange(o8, p9)[0] == b[o8]);
    }
    match s.wake_time {
        None => {
            assert(spec_sp(b, o8) == o8);
            assert(b.subrange(o8, o8 + 4) =~= spec_lit_null()) by {
                assert(wb == spec_lit_null());
                assert forall|i: int| 0 <= i < 4 implies b.subrange(o8, o8 + 4)[i]
                    == spec_lit_null()[i] by {
                    assert(b.subrange(o8, p9)[i] == b[o8 + i]);
                }
            }
            assert(spec_match_at(b, o8, spec_lit_null()));
            assert(spec_parse_wake_at(b, o8) == Some((s.wake_time, p9)));
        },
        Some((h, m)) => {
            crate::digits::lemma_dec_digits(h as int);
            crate::digits::lemma_dec_digits(m as int);
            let dh = spec_u64_dec(h as int);
            let dm = spec_u64_dec(m as int);
            let w1 = o8 + 1;
            let w2 = w1 + dh.len() as int;
            let w3 = w2 + 1;
            let w4 = w3 + dm.len() as int;
            assert(wb == seq![91u8] + dh + seq![44u8] + dm + seq![93u8]);
            assert(b[o8] == 91);
            assert(spec_sp(b, o8) == o8);
            assert(!spec_match_at(b, o8, spec_lit_null())) by {
                if spec_match_at(b, o8, spec_lit_null()) {
                    assert(b.subrange(o8, o8 + 4)[0] == b[o8]);
                }
            }
            assert(b.subrange(w1, w2) =~= dh) by {
                assert forall|i: int| 0 <= i < dh.len() implies b.subrange(w1, w2)[i] == dh[i] by {
                    assert(b.subrange(o8, p9)[1 + i] == b[o8 + 1 + i]);
                    assert(wb[1 + i] == dh[i]);
                }
            }
            assert(b[w2] == 44) by {
                assert(b.subrange(o8, p9)[w2 - o8] == b[w2]);
                assert(wb[w2 - o8] == 44);
            }
            assert(b.subrange(w3, w4) =~= dm) by {
                assert forall|i: int| 0 <= i < dm.len() implies b.subrange(w3, w4)[i] == dm[i] by {
                    assert(b.subrange(o8, p9)[w3 - o8 + i] == b[w3 + i]);
                    assert(wb[w3 - o8 + i] == dm[i]);
                }
            }
            assert(b[w4] == 93) by {
                assert(b.subrange(o8, p9)[w4 - o8] == b[w4]);
                assert(wb[w4 - o8] == 93);
            }
            assert(b[w1] == dh[0]) by {
                assert(b.subrange(w1, w2)[0] == b[w1]);
            }
            assert(spec_sp(b, w1) == w1);
            crate::digits::lemma_dec_reads_back(b, w1, h as int);
            assert(spec_parse_u64_at(b, w1) == Some((h as int, w2)));
            assert(spec_sp(b, w2) == w2);
            assert(b[w3] == dm[0]) by {
                assert(b.subrange(w3, w4)[0] == b[w3]);
            }
            assert(spec_sp(b, w3) == w3);
            crate::digits::lemma_dec_reads_back(b, w3, m as int);
            assert(spec_parse_u64_at(b, w3) == Some((m as int, w4)));
            assert(spec_sp(b, w4) == w4);
            assert(spec_parse_wake_at(b, o8) == Some((s.wake_time, p9)));
        },
    }
}

#[verifier::rlimit(100)]
proof fn lemma_parse_tail_of_layout(b: Seq<u8>, s: AppState)
    requires
        0 <= s.brightness,
        b.len() == off_after_stamp(s) + 1,
        b[off_after_wake(s)] == 44,
        b.subrange(off_after_wake(s) + 1, off_after_wake(s) + 25) == spec_key_transition(),
        b[off_after_wake(s) + 25] == 58,
        b.subrange(off_duration_value(s), off_after_duration(s)) == spec_u64_dec(s.transition_duration_ms as int),
        b[off_after_duration(s)] == 44,
        b.subrange(off_after_duration(s) + 1, off_after_duration(s) + 23) == spec_key_flashbang(),
        b[off_after_duration(s) + 23] == 58,
        b.subrange(off_flag_value(s), off_after_flag(s)) == spec_bool_bytes(s.flashbang_protection),
        b[off_after_flag(s)] == 44,
        b.subrange(off_after_flag(s) + 1, off_after_flag(s) + 15) == spec_key_last_updated(),
        b[off_after_flag(s) + 15] == 58,
        b.subrange(off_stamp_value(s), off_after_stamp(s)) == spec_u64_dec(s.last_updated_ms as int),
        b[off_after_stamp(s)] == 125,
    ensures
        spec_parse_state_transition(b, off_after_wake(s), s.brightness as int, s.wake_time) == Some(s),
{
    let p9 = off_after_wake(s);
    let o11 = off_duration_value(s);
    let p14 = off_after_duration(s);
    let o14 = off_flag_value(s);
    let p19 = off_after_flag(s);
    let o17 = off_stamp_value(s);
    let p24 = off_after_stamp(s);
    let dt = spec_u64_dec(s.transition_duration_ms as int);
    let fbb = spec_bool_bytes(s.flashbang_protection);
    let dl = spec_u64_dec(s.last_updated_ms as int);
    crate::digits::lemma_dec_digits(s.transition_duration_ms as int);
    crate::digits::lemma_dec_digits(s.last_updated_ms as int);

    assert(spec_sp(b, p9) == p9);
    assert(b[p9 + 1] == spec_key_transition()[0]) by {
        assert(b.subrange(p9 + 1, p9 + 25)[0] == b[p9 + 1]);
    }
    assert(spec_sp(b, p9 + 1) == p9 + 1);
    assert(spec_match_at(b, p9 + 1, spec_key_transition()));
    assert(spec_sp(b, p9 + 25) == p9 + 25);
    assert(b[o11] == dt[0]) by {
        assert(b.subrange(o11, p14)[0] == b[o11]);
    }
    assert(spec_sp(b, o11) == o11);
    crate::digits::lemma_dec_reads_back(b, o11, s.transition_duration_ms as int);
    assert(spec_parse_u64_at(b, o11) == Some((s.transition_duration_ms as int, p14)));

    assert(spec_sp(b, p14) == p14);
    assert(b[p14 + 1] == spec_key_flashbang()[0]) by {
        assert(b.subrange(p14 + 1, p14 + 23)[0] == b[p14 + 1]);
    }
    assert(spec_sp(b, p14 + 1) == p14 + 1);
    assert(spec_match_at(b, p14 + 1, spec_key_flashbang()));
    assert(spec_sp(b, p14 + 23) == p14 + 23);
    assert(b[o14] == fbb[0]) by {
        assert(b.subrange(o14, p19)[0] == b[o14]);
    }
    assert(spec_sp(b, o14) == o14);
    if s.flashbang_protection {
        assert(b.subrange(o14, o14 + 4) =~= spec_lit_true()) by {
            assert forall|i: int| 0 <= i < 4 implies b.subrange(o14, o14 + 4)[i]
                == spec_lit_true()[i] by {
                assert(b.subrange(o14, p19)[i] == b[o14 + i]);
            }
        }
        assert(spec_match_at(b, o14, spec_lit_true()));
        assert(spec_parse_bool_at(b, o14) == Some((true, p19)));
    } else {
        assert(b[o14] == 102);
        assert(!spec_match_at(b, o14, spec_lit_true())) by {
            if spec_match_at(b, o14, spec_lit_true()) {
                assert(b.subrange(o14, o14 + 4)[0] == b[o14]);
            }
        }
        assert(b.subrange(o14, o14 + 5) =~= spec_lit_false()) by {
            assert forall|i: int| 0 <= i < 5 implies b.subrange(o14, o14 + 5)[i]
                == spec_lit_false()[i] by {
                assert(b.subrange(o14, p19)[i] == b[o14 + i]);
            }
        }
        assert(spec_match_at(b, o14, spec_lit_false()));
        assert(spec_parse_bool_at(b, o14) == Some((false, p19)));
    }

    assert(spec_sp(b, p19) == p19);
    assert(b[p19 + 1] == spec_key_last_updated()[0]) by {
        assert(b.subrange(p19 + 1, p19 + 15)[0] == b[p19 + 1]);
    }
    assert(spec_sp(b, p19 + 1) == p19 + 1);
    assert(spec_match_at(b, p19 + 1, spec_key_last_updated()));
    assert(spec_sp(b, p19 + 15) == p19 + 15);
    assert(b[o17] == dl[0]) by {
        assert(b.subrange(o17, p24)[0] == b[o17]);
    }
    assert(spec_sp(b, o17) == o17);
    crate::digits::lemma_dec_reads_back(b, o17, s.last_updated_ms as int);
    assert(spec_parse_u64_at(b, o17) == Some((s.last_updated_ms as int, p24)));
    assert(spec_sp(b, p24) == p24);
    assert(spec_sp(b, p24 + 1) == b.len());
    assert(s.transition_duration_ms as int as u64 == s.transition_duration_ms);
    assert(s.last_updated_ms as int as u64 == s.last_updated_ms);
}

/// Law: a snapshot survives the byte round trip; parsing what
/// `encode_state` produced yields exactly the saved record, while
/// bytes that do not fit the grammar fall back to the defaults by
/// `parse_state`'s own contract.
pub proof fn lemma_state_roundtrip(s: AppState)
    requires
        0 <= s.brightness <= 100000,
    ensures
        spec_parse_state(spec_encode_state(s)) == Some(s),
{
    let b = spec_encode_state(s);
    lemma_layout_head(s);
    lemma_layout_mid(s);
    lemma_layout_tail(s);
    lemma_parse_tail_of_layout(b, s);
    lemma_parse_wake_of_layout(b, s);
    lemma_parse_brightness_of_layout(b, s);
}

} // verus!
