//! Screen-content analysis: parsing a binary PPM frame into a mean
//! luminance, and the flashbang-protection multiplier policy driven
//! by that luminance.
//!
//! Luminance and the content multiplier are milli-units: `1000` is
//! full white / no dimming.

use vstd::prelude::*;

use crate::digits::{lemma_digits_all, lemma_digits_end_bounds, lemma_num_val_extend,
    spec_digits_end, spec_is_ascii_digit, spec_num_val};

verus! {

/// The single-byte characters the PPM header treats as whitespace.
pub open spec fn spec_is_ppm_ws(b: u8) -> bool {
    b == 9 || b == 10 || b == 11 || b == 12 || b == 13 || b == 32 || b == 0x85 || b == 0xa0
}

fn is_ppm_ws(b: u8) -> (r: bool)
    ensures
        r == spec_is_ppm_ws(b),
{
    b == 9 || b == 10 || b == 11 || b == 12 || b == 13 || b == 32 || b == 0x85 || b == 0xa0
}

pub open spec fn spec_flag(b: bool) -> int {
    if b {
        1
    } else {
        0
    }
}

/// Position after skipping whitespace and `#`-to-end-of-line comments
/// from `p`; `in_comment` records whether `p` currently sits inside a
/// comment.
pub open spec fn spec_skip_ws_comments(data: Seq<u8>, p: int, in_comment: bool) -> int
    decreases data.len() - p, spec_flag(in_comment),
{
    if in_comment {
        if p < data.len() && data[p] != 10 {
            spec_skip_ws_comments(data, p + 1, true)
        } else {
            spec_skip_ws_comments(data, p, false)
        }
    } else {
        if p < data.len() && spec_is_ppm_ws(data[p]) {
            spec_skip_ws_comments(data, p + 1, false)
        } else if p < data.len() && data[p] == 35 {
            spec_skip_ws_comments(data, p + 1, true)
        } else {
            p
        }
    }
}

fn skip_ws_comments(data: &[u8], start: usize) -> (r: usize)
    requires
        start <= data.len(),
    ensures
        r == spec_skip_ws_comments(data@, start as int, false),
        start <= r <= data.len(),
{
    let mut p = start;
    let mut in_comment = false;
    loop
        invariant
            start <= p <= data.len(),
            spec_skip_ws_comments(data@, p as int, in_comment) == spec_skip_ws_comments(
                data@,
                start as int,
                false,
            ),
        decreases 2 * (data.len() - p) + spec_flag(in_comment),
    {
        if in_comment {
            if p < data.len() && data[p] != 10 {
                p = p + 1;
            } else {
                in_comment = false;
            }
        } else {
            if p < data.len() && is_ppm_ws(data[p]) {
                p = p + 1;
            } else if p < data.len() && data[p] == 35 {
                p = p + 1;
                in_comment = true;
            } else {
                return p;
            }
        }
    }
}

/// A number read from the header: skip whitespace and comments, then
/// take the digit run, rejecting an empty run and a value beyond the
/// unsigned 64-bit range.
pub open spec fn spec_read_number(data: Seq<u8>, p: int) -> Option<(int, int)> {
    let q = spec_skip_ws_comments(data, p, false);
    let end = spec_digits_end(data, q);
    if end == q {
        None
    } else {
        let v = spec_num_val(data, q, end);
        if v > u64::MAX {
            None
        } else {
            Some((v, end))
        }
    }
}

fn read_number(data: &[u8], start: usize) -> (r: Option<(u64, usize)>)
    requires
        start <= data.len(),
    ensures
        match r {
            Some(ve) => spec_read_number(data@, start as int) == Some(
                (ve.0 as int, ve.1 as int),
            ) && start <= ve.1 <= data.len(),
            None => spec_read_number(data@, start as int) is None,
        },
{
    let q = skip_ws_comments(data, start);
    proof {
        lemma_digits_end_bounds(data@, q as int);
    }
    let ghost end = spec_digits_end(data@, q as int);
    let mut p = q;
    let mut val: u64 = 0;
    while p < data.len() && data[p] >= 48 && data[p] <= 57
        invariant
            start <= q <= p <= data.len(),
            q == spec_skip_ws_comments(data@, start as int, false),
            end == spec_digits_end(data@, p as int),
            end == spec_digits_end(data@, q as int),
            p <= end <= data.len(),
            val == spec_num_val(data@, q as int, p as int),
        decreases data.len() - p,
    {
        let d = data[p] - 48;
        if val > (u64::MAX - d as u64) / 10 {
            // the full digit run overflows: the value read so far
            // already exceeds the range once this digit is appended
            proof {
                assert(spec_num_val(data@, q as int, p as int + 1) == val * 10 + d);
                vstd::arithmetic::div_mod::lemma_fundamental_div_mod(u64::MAX - d as int, 10);
                vstd::arithmetic::div_mod::lemma_mod_division_less_than_divisor(
                    u64::MAX - d as int,
                    10,
                );
                assert(val * 10 + d > u64::MAX);
                assert(end == spec_digits_end(data@, p as int + 1));
                lemma_digits_end_bounds(data@, p as int + 1);
                assert forall|j: int| p + 1 <= j < end implies 48 <= data@[j] by {
                    lemma_digits_all(data@, q as int, j);
                }
                lemma_num_val_extend(data@, q as int, p as int + 1, end);
            }
            return None;
        }
        val = val * 10 + d as u64;
        p = p + 1;
        proof {
            lemma_digits_end_bounds(data@, p as int);
        }
    }
    if p == q {
        return None;
    }
    Some((val, p))
}

pub open spec fn spec_clamp0(x: int) -> int {
    if x < 0 {
        0
    } else {
        x
    }
}

/// Sum of the Rec. 601 luma numerators (299 r + 587 g + 114 b) of the
/// pixels sampled every fifty pixels (150 bytes) from `j` on.
pub open spec fn spec_luma_total(data: Seq<u8>, j: int) -> int
    decreases spec_clamp0(data.len() - j),
{
    if j < 0 || j + 2 >= data.len() {
        0
    } else {
        299 * data[j] + 587 * data[j + 1] + 114 * data[j + 2] + spec_luma_total(data, j + 150)
    }
}

/// How many pixels the sampling from `j` takes.
pub open spec fn spec_luma_count(data: Seq<u8>, j: int) -> int
    decreases spec_clamp0(data.len() - j),
{
    if j < 0 || j + 2 >= data.len() {
        0
    } else {
        1 + spec_luma_count(data, j + 150)
    }
}

/// Mean luminance, in milli-units clamped to [0, 1000], of a binary
/// PPM frame: magic `P6`, width, height and maximum channel value in
/// the header (whitespace- and comment-separated), then raw RGB
/// bytes. `None` for anything malformed, too short, with a zero
/// maximum value, or without a complete pixel.
pub open spec fn spec_analyze_ppm(data: Seq<u8>) -> Option<int> {
    if data.len() < 20 {
        None
    } else if data[0] != 80 || data[1] != 54 {
        None
    } else {
        match spec_read_number(data, 2) {
            None => None,
            Some((_w, p1)) => match spec_read_number(data, p1) {
                None => None,
                Some((_h, p2)) => match spec_read_number(data, p2) {
                    None => None,
                    Some((maxval, p3)) => {
                        let p4 = if p3 < data.len() && spec_is_ppm_ws(data[p3]) {
                            p3 + 1
                        } else {
                            p3
                        };
                        if p4 >= data.len() || maxval == 0 {
                            None
                        } else {
                            let total = spec_luma_total(data, p4);
                            let count = spec_luma_count(data, p4);
                            if count == 0 {
                                None
                            } else {
                                let v = total / (maxval * count);
                                Some(
                                    if v > 1000 {
                                        1000int
                                    } else {
                                        v
                                    },
                                )
                            }
                        }
                    },
                },
            },
        }
    }
}

/// Extract the mean luminance of a binary PPM frame, in milli-units.
pub fn analyze_ppm_frame(data: &[u8]) -> (r: Option<i64>)
    ensures
        match r {
            Some(v) => spec_analyze_ppm(data@) == Some(v as int) && 0 <= v <= 1000,
            None => spec_analyze_ppm(data@) is None,
        },
{
    if data.len() < 20 {
        return None;
    }
    if data[0] != 80 || data[1] != 54 {
        return None;
    }
    let (_w, p1) = match read_number(data, 2) {
        Some(x) => x,
        None => {
            return None;
        },
    };
    let (_h, p2) = match read_number(data, p1) {
        Some(x) => x,
        None => {
            return None;
        },
    };
    let (maxval, p3) = match read_number(data, p2) {
        Some(x) => x,
        None => {
            return None;
        },
    };

    let p4 = if p3 < data.len() && is_ppm_ws(data[p3]) {
        p3 + 1
    } else {
        p3
    };

    if p4 >= data.len() || maxval == 0 {
        return None;
    }

    let mut j = p4;
    let mut total: u128 = 0;
    let mut count: u128 = 0;
    while j < data.len() - 2
        invariant
            data.len() >= 20,
            p4 < data.len(),
            p4 <= j <= data.len(),
            total + spec_luma_total(data@, j as int) == spec_luma_total(data@, p4 as int),
            count + spec_luma_count(data@, j as int) == spec_luma_count(data@, p4 as int),
            total <= 255000 * count,
            count <= j,
        decreases data.len() - j,
    {
        let r = data[j] as u64;
        let g = data[j + 1] as u64;
        let b = data[j + 2] as u64;
        let sample = 299 * r + 587 * g + 114 * b;

        total = total + sample as u128;
        count = count + 1;

        let rem = data.len() - 2 - j;
        if rem > 150 {
            j = j + 150;
        } else {
            proof {
                assert(spec_luma_total(data@, j as int + 150) == 0);
                assert(spec_luma_count(data@, j as int + 150) == 0);
                assert(spec_luma_total(data@, data@.len() as int) == 0);
                assert(spec_luma_count(data@, data@.len() as int) == 0);
            }
            j = data.len();
        }
    }

    if count == 0 {
        return None;
    }

    let mv = maxval as u128;
    proof {
        assert(1 <= mv * count) by (nonlinear_arith)
            requires
                1 <= mv,
                1 <= count,
        ;
        assert(mv * count <= 340282366920938463426481119284349108225) by (nonlinear_arith)
            requires
                mv <= 18446744073709551615,
                count <= 18446744073709551615,
        ;
    }
    let denom = mv * count;
    let v = total / denom;
    let vc: u128 = if v > 1000 {
        1000
    } else {
        v
    };
    Some(vc as i64)
}

/// Samples screen luminance at most once per second; the capture
/// itself happens outside, this only keeps the cadence.
pub struct ContentAnalyzer {
    pub last_check_ms: Option<u64>,
}

impl ContentAnalyzer {
    /// A fresh analyzer; the first sample is due immediately,
    /// whatever the clock reads.
    pub fn new() -> (r: Self)
        ensures
            r.last_check_ms is None,
    {
        Self { last_check_ms: None }
    }

    /// Whether a new capture is due at `now_ms`: always before the
    /// first one, then only once at least a second has passed since
    /// the last.
    pub fn should_sample(&self, now_ms: u64) -> (r: bool)
        ensures
            r == match self.last_check_ms {
                Some(last) => crate::epilepsy::spec_elapsed(last, now_ms) >= 1000,
                None => true,
            },
    {
        match self.last_check_ms {
            Some(last) => {
                let elapsed = if now_ms >= last {
                    now_ms - last
                } else {
                    0
                };
                elapsed >= 1000
            },
            None => true,
        }
    }

    /// Record that a capture was made at `now_ms`.
    pub fn mark_sampled(&mut self, now_ms: u64)
        ensures
            final(self).last_check_ms == Some(now_ms),
    {
        self.last_check_ms = Some(now_ms);
    }
}

/// The multiplier a luminance reading asks for: above half brightness
/// the curve falls steeply, reaching 50 (five percent) on a fully
/// white screen.
pub open spec fn spec_content_desired(luma: int) -> int {
    1000 - ((luma - 500) * 1900) / 1000
}

/// The content multiplier after one fast tick: relaxes to full when
/// protection is off, holds without a sample, drops immediately to
/// the desired floor on hot content, and otherwise recovers by 50
/// per tick without overshooting the floor or full brightness.
pub open spec fn spec_update_content_multiplier(
    current: i64,
    luma: Option<i64>,
    enabled: bool,
) -> int {
    if !enabled {
        1000
    } else {
        match luma {
            None => current as int,
            Some(l) => if l > 500 {
                let desired = spec_content_desired(l as int);
                if desired < current {
                    desired
                } else {
                    crate::epilepsy::spec_min(current + 50, desired)
                }
            } else {
                crate::epilepsy::spec_min(current + 50, 1000)
            },
        }
    }
}

/// Advance the content multiplier by one fast tick. The result never
/// exceeds full brightness and never falls below the desired floor
/// computed from the same sample.
pub fn update_content_multiplier(current: i64, luma: Option<i64>, enabled: bool) -> (r: i64)
    requires
        0 < current <= 1000,
        luma matches Some(l) ==> 0 <= l <= 1000,
    ensures
        r == spec_update_content_multiplier(current, luma, enabled),
        0 < r <= 1000,
        luma matches Some(l) ==> ((enabled && l > 500) ==> r >= crate::epilepsy::spec_min(
            current as int,
            spec_content_desired(l as int),
        )),
{
    if !enabled {
        return 1000;
    }
    match luma {
        None => current,
        Some(l) => {
            if l > 500 {
                let excess = (l - 500) as u64;
                let drop = (excess * 1900) / 1000;
                proof {
                    vstd::arithmetic::div_mod::lemma_div_pos_is_pos(excess as int * 1900, 1000);
                    lemma_div_is_ordered_local(excess as int * 1900, 950000, 1000);
                }
                let desired = 1000 - drop as i64;
                if desired < current {
                    desired
                } else {
                    let up = current + 50;
                    if up <= desired {
                        up
                    } else {
                        desired
                    }
                }
            } else {
                let up = current + 50;
                if up <= 1000 {
                    up
                } else {
                    1000
                }
            }
        },
    }
}

proof fn lemma_div_is_ordered_local(x: int, y: int, z: int)
    requires
        x <= y,
        0 < z,
    ensures
        x / z <= y / z,
{
    vstd::arithmetic::div_mod::lemma_div_is_ordered(x, y, z);
}

} // verus!
