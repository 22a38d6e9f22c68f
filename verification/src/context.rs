//! Solar position and circadian brightness targets.
//!
//! All arithmetic is integer fixed-point: angles are milli-degrees
//! (micro-degrees in the configuration), trigonometric values are
//! parts-per-million, and brightness is milli-percent. The sine uses
//! Bhaskara's rational approximation and the arcsine inverts it by
//! binary search, giving a deterministic low-precision solar
//! elevation in the spirit of the standard simplified algorithm.

use vstd::prelude::*;
use vstd::arithmetic::div_mod::{
    lemma_div_is_ordered, lemma_div_multiples_vanish, lemma_div_nonincreasing,
    lemma_div_pos_is_pos,
    lemma_fundamental_div_mod, lemma_fundamental_div_mod_converse,
    lemma_mod_division_less_than_divisor, lemma_mod_multiples_vanish,
};

use vstd::string::StringSliceAdditionalSpecFns;

use crate::config::LocationConfig;
use crate::digits::spec_is_ascii_digit;

verus! {

/// A moment of civil time in UTC: day of the year (1 to 366) plus
/// hour, minute and second.
#[derive(Debug, Clone, Copy, PartialEq, Eq, Structural)]
pub struct UtcMoment {
    pub ordinal: u16,
    pub hour: u8,
    pub minute: u8,
    pub second: u8,
}

impl UtcMoment {
    pub open spec fn wf(self) -> bool {
        &&& 1 <= self.ordinal <= 366
        &&& self.hour <= 23
        &&& self.minute <= 59
        &&& self.second <= 59
    }
}

/// Euclidean (floor) division by a positive divisor.
fn ediv(a: i64, d: i64) -> (q: i64)
    requires
        1 <= d <= 1_000_000_000,
        -1_000_000_000_000_000_000 <= a <= 1_000_000_000_000_000_000,
    ensures
        q == a as int / d as int,
        a >= 0 ==> 0 <= q <= a,
        a < 0 ==> a <= q <= 0,
{
    if a >= 0 {
        let au = a as u64;
        let du = d as u64;
        let qu = au / du;
        proof {
            lemma_div_nonincreasing(au as int, du as int);
        }
        qu as i64
    } else {
        let m = (-a) as u64;
        let du = d as u64;
        let mq = m / du;
        let mr = m % du;
        proof {
            lemma_fundamental_div_mod(m as int, du as int);
            lemma_div_nonincreasing(m as int, du as int);
        }
        if mr == 0 {
            proof {
                assert(a as int == (-(mq as int)) * (d as int) + 0) by (nonlinear_arith)
                    requires
                        m as int == (d as int) * (mq as int),
                        a as int == -(m as int),
                ;
                lemma_fundamental_div_mod_converse(a as int, d as int, -(mq as int), 0);
            }
            -(mq as i64)
        } else {
            proof {
                assert(a as int == (-(mq as int) - 1) * (d as int) + ((d as int) - (mr as int)))
                    by (nonlinear_arith)
                    requires
                        m as int == (d as int) * (mq as int) + (mr as int),
                        a as int == -(m as int),
                ;
                lemma_fundamental_div_mod_converse(
                    a as int,
                    d as int,
                    -(mq as int) - 1,
                    (d as int) - (mr as int),
                );
                assert(mq as int <= (du as int) * (mq as int)) by (nonlinear_arith)
                    requires
                        1 <= du as int,
                        0 <= mq as int,
                ;
            }
            -(mq as i64) - 1
        }
    }
}

/// Bhaskara's rational approximation of the sine on a half turn:
/// for `x` in milli-degrees within [0, 180000] this is close to
/// `1_000_000 * sin(x)`.
pub open spec fn spec_bhaskara_ppm(x: int) -> int {
    let p = x * (180000 - x);
    (4000000 * p) / (40500000000 - p)
}

/// Sine of an angle in milli-degrees, in parts per million.
pub open spec fn spec_sin_ppm(x: int) -> int {
    let y = x % 360000;
    if y <= 180000 {
        spec_bhaskara_ppm(y)
    } else {
        -spec_bhaskara_ppm(y - 180000)
    }
}

/// Cosine of an angle in milli-degrees, in parts per million.
pub open spec fn spec_cos_ppm(x: int) -> int {
    spec_sin_ppm(x + 90000)
}

fn bhaskara_ppm(x: u64) -> (r: u64)
    requires
        x <= 180000,
    ensures
        r == spec_bhaskara_ppm(x as int),
        r <= 1000000,
{
    let w = 180000 - x;
    proof {
        assert(x * w <= 8100000000) by (nonlinear_arith)
            requires
                w == 180000 - x,
                0 <= x <= 180000,
        ;
        assert(x * w >= 0) by (nonlinear_arith)
            requires
                0 <= x,
                0 <= w,
        ;
    }
    let p = x * w;
    let num = 4000000 * p;
    let den = 40500000000 - p;
    let q = num / den;
    proof {
        assert(num <= 1000000 * den) by (nonlinear_arith)
            requires
                num == 4000000 * p,
                den == 40500000000 - p,
                0 <= p <= 8100000000,
        ;
        lemma_div_is_ordered(num as int, 1000000 * den, den as int);
        lemma_div_multiples_vanish(1000000, den as int);
    }
    q
}

fn sin_ppm(x: i64) -> (r: i64)
    requires
        -2_000_000_000 <= x <= 2_000_000_000,
    ensures
        r == spec_sin_ppm(x as int),
        -1000000 <= r <= 1000000,
{
    let shifted = x + 2_000_160_000;
    let y = (shifted as u64) % 360000;
    proof {
        lemma_mod_multiples_vanish(5556, x as int, 360000);
        assert(360000 * 5556 + x as int == shifted as int);
        lemma_mod_division_less_than_divisor(shifted as int, 360000);
    }
    if y <= 180000 {
        let b = bhaskara_ppm(y);
        b as i64
    } else {
        let b = bhaskara_ppm(y - 180000);
        -(b as i64)
    }
}

fn cos_ppm(x: i64) -> (r: i64)
    requires
        -1_999_000_000 <= x <= 1_999_000_000,
    ensures
        r == spec_cos_ppm(x as int),
        -1000000 <= r <= 1000000,
{
    sin_ppm(x + 90000)
}

/// Binary search for the angle (shifted by 90000 so the domain is
/// [0, 180000]) whose sine is nearest `v` from below; inverts the
/// monotone sine on a quarter turn and so defines our arcsine.
pub open spec fn spec_asin_search(lo: int, hi: int, v: int) -> int
    decreases hi - lo,
{
    if hi - lo <= 1 {
        lo
    } else {
        let mid = (lo + hi) / 2;
        if spec_sin_ppm(mid - 90000) < v {
            spec_asin_search(mid, hi, v)
        } else {
            spec_asin_search(lo, mid, v)
        }
    }
}

fn asin_mdeg(v: i64) -> (r: i64)
    requires
        -1000000 <= v <= 1000000,
    ensures
        r == spec_asin_search(0, 180000, v as int) - 90000,
        -90000 <= r <= 90000,
{
    let mut lo: i64 = 0;
    let mut hi: i64 = 180000;
    while hi - lo > 1
        invariant
            0 <= lo < hi <= 180000,
            spec_asin_search(lo as int, hi as int, v as int) == spec_asin_search(
                0,
                180000,
                v as int,
            ),
            -1000000 <= v <= 1000000,
        decreases hi - lo,
    {
        let mid = (lo + hi) / 2;
        let s = sin_ppm(mid - 90000);
        if s < v {
            lo = mid;
        } else {
            hi = mid;
        }
    }
    lo - 90000
}

/// The result of the standard simplified solar-position algorithm in
/// integer fixed point: elevation above the horizon in milli-degrees
/// for the given location (micro-degrees) and UTC moment.
pub open spec fn spec_solar_elevation(lat_udeg: int, lon_udeg: int, t: UtcMoment) -> int {
    let secs = 3600 * (t.hour as int) + 60 * (t.minute as int) + (t.second as int);
    let n = (t.ordinal - 1) * 86400 + secs - 43200;
    let gamma = (5 * n) / 438;
    let sin_g = spec_sin_ppm(gamma);
    let cos_g = spec_cos_ppm(gamma);
    let sin_2g = spec_sin_ppm(2 * gamma);
    let cos_2g = spec_cos_ppm(2 * gamma);
    let sin_3g = spec_sin_ppm(3 * gamma);
    let cos_3g = spec_cos_ppm(3 * gamma);
    let eq_time_mmin = (229180 * (75000 + 1868 * cos_g - 32077 * sin_g - 14615 * cos_2g - 40849
        * sin_2g)) / 1000000000;
    let decl_mdeg = (57296 * (6918000 - 399912 * cos_g + 70257 * sin_g - 6758 * cos_2g + 907
        * sin_2g - 2697 * cos_3g + 1480 * sin_3g)) / 1000000000;
    let lat_mdeg = lat_udeg / 1000;
    let lon_mdeg = lon_udeg / 1000;
    let tst_mmin = (50 * secs) / 3 + eq_time_mmin + 4 * lon_mdeg;
    let ha_mdeg = tst_mmin / 4 - 180000;
    let part1 = (spec_sin_ppm(lat_mdeg) * spec_sin_ppm(decl_mdeg)) / 1000000;
    let part2 = (((spec_cos_ppm(lat_mdeg) * spec_cos_ppm(decl_mdeg)) / 1000000) * spec_cos_ppm(
        ha_mdeg,
    )) / 1000000;
    let cz0 = part1 + part2;
    let cz = if cz0 < -1000000 {
        -1000000
    } else if cz0 > 1000000 {
        1000000
    } else {
        cz0
    };
    spec_asin_search(0, 180000, cz) - 90000
}

/// Holds the geographic position and the configured wake time; maps
/// sun position and time of day to a circadian brightness target.
pub struct ContextManager {
    pub lat_udeg: i64,
    pub lon_udeg: i64,
    pub wake_hour: u8,
    pub wake_minute: u8,
}

pub open spec fn spec_digit_val(c: u8) -> int {
    c - 48
}

/// A wake time written as hours and minutes separated by a colon,
/// each one or two digits, nothing else in the string.
pub open spec fn spec_parse_wake_fields(b: Seq<u8>) -> Option<(int, int)> {
    if b.len() == 5 && spec_is_ascii_digit(b[0]) && spec_is_ascii_digit(b[1]) && b[2] == 58
        && spec_is_ascii_digit(b[3]) && spec_is_ascii_digit(b[4]) {
        Some(
            (
                10 * spec_digit_val(b[0]) + spec_digit_val(b[1]),
                10 * spec_digit_val(b[3]) + spec_digit_val(b[4]),
            ),
        )
    } else if b.len() == 4 && spec_is_ascii_digit(b[0]) && b[1] == 58 && spec_is_ascii_digit(b[2])
        && spec_is_ascii_digit(b[3]) {
        Some((spec_digit_val(b[0]), 10 * spec_digit_val(b[2]) + spec_digit_val(b[3])))
    } else if b.len() == 4 && spec_is_ascii_digit(b[0]) && spec_is_ascii_digit(b[1]) && b[2] == 58
        && spec_is_ascii_digit(b[3]) {
        Some((10 * spec_digit_val(b[0]) + spec_digit_val(b[1]), spec_digit_val(b[3])))
    } else if b.len() == 3 && spec_is_ascii_digit(b[0]) && b[1] == 58 && spec_is_ascii_digit(
        b[2],
    ) {
        Some((spec_digit_val(b[0]), spec_digit_val(b[2])))
    } else {
        None
    }
}

/// A parsed wake time, rejected unless the hour is below 24 and the
/// minute below 60.
pub open spec fn spec_parse_wake(b: Seq<u8>) -> Option<(int, int)> {
    match spec_parse_wake_fields(b) {
        Some((h, m)) => if 0 <= h <= 23 && 0 <= m <= 59 {
            Some((h, m))
        } else {
            None
        },
        None => None,
    }
}

/// Parse a wake time of the form hours, colon, minutes.
pub fn parse_wake_time(s: &str) -> (r: Option<(u8, u8)>)
    ensures
        match r {
            Some((h, m)) => spec_parse_wake(s.spec_bytes()) == Some((h as int, m as int)),
            None => spec_parse_wake(s.spec_bytes()) is None,
        },
{
    let b = s.as_bytes();
    let n = b.len();
    let fields: Option<(u8, u8)> = if n == 5 && b[0] >= 48 && b[0] <= 57 && b[1] >= 48 && b[1]
        <= 57 && b[2] == 58 && b[3] >= 48 && b[3] <= 57 && b[4] >= 48 && b[4] <= 57 {
        Some((10 * (b[0] - 48) + (b[1] - 48), 10 * (b[3] - 48) + (b[4] - 48)))
    } else if n == 4 && b[0] >= 48 && b[0] <= 57 && b[1] == 58 && b[2] >= 48 && b[2] <= 57 && b[3]
        >= 48 && b[3] <= 57 {
        Some((b[0] - 48, 10 * (b[2] - 48) + (b[3] - 48)))
    } else if n == 4 && b[0] >= 48 && b[0] <= 57 && b[1] >= 48 && b[1] <= 57 && b[2] == 58 && b[3]
        >= 48 && b[3] <= 57 {
        Some((10 * (b[0] - 48) + (b[1] - 48), b[3] - 48))
    } else if n == 3 && b[0] >= 48 && b[0] <= 57 && b[1] == 58 && b[2] >= 48 && b[2] <= 57 {
        Some((b[0] - 48, b[2] - 48))
    } else {
        None
    };
    match fields {
        Some((h, m)) => if h <= 23 && m <= 59 {
            Some((h, m))
        } else {
            None
        },
        None => None,
    }
}

impl ContextManager {
    pub open spec fn wf(self) -> bool {
        &&& -90_000_000 <= self.lat_udeg <= 90_000_000
        &&& -180_000_000 <= self.lon_udeg <= 180_000_000
        &&& self.wake_hour <= 23
        &&& self.wake_minute <= 59
    }

    /// Build a context from the configured location (falling back to
    /// the built-in default coordinates) and a wake time string
    /// (falling back to seven o'clock when it does not parse).
    pub fn new(config: &LocationConfig, wake_time_str: &str) -> (r: Self)
        requires
            config.wf(),
        ensures
            r.wf(),
            r.lat_udeg as int == match config.latitude {
                Some(v) => v as int,
                None => 41_008_200,
            },
            r.lon_udeg as int == match config.longitude {
                Some(v) => v as int,
                None => 28_978_400,
            },
            (r.wake_hour as int, r.wake_minute as int) == match spec_parse_wake(
                wake_time_str.spec_bytes(),
            ) {
                Some(hm) => hm,
                None => (7int, 0int),
            },
    {
        let lat = match config.latitude {
            Some(v) => v,
            None => 41_008_200,
        };
        let lon = match config.longitude {
            Some(v) => v,
            None => 28_978_400,
        };
        let (wake_hour, wake_minute) = match parse_wake_time(wake_time_str) {
            Some(hm) => hm,
            None => (7, 0),
        };
        Self { lat_udeg: lat, lon_udeg: lon, wake_hour, wake_minute }
    }

    pub fn get_wake_time(&self) -> (r: (u8, u8))
        ensures
            r == (self.wake_hour, self.wake_minute),
    {
        (self.wake_hour, self.wake_minute)
    }

    /// Update the wake time; an out-of-range pair is ignored.
    pub fn set_wake_time(&mut self, hour: u8, minute: u8)
        ensures
            final(self).lat_udeg == old(self).lat_udeg,
            final(self).lon_udeg == old(self).lon_udeg,
            hour <= 23 && minute <= 59 ==> final(self).wake_hour == hour
                && final(self).wake_minute == minute,
            !(hour <= 23 && minute <= 59) ==> final(self).wake_hour == old(self).wake_hour
                && final(self).wake_minute == old(self).wake_minute,
    {
        if hour <= 23 && minute <= 59 {
            self.wake_hour = hour;
            self.wake_minute = minute;
        }
    }

    /// Solar elevation in milli-degrees at the given UTC moment;
    /// positive above the horizon.
    #[verifier::rlimit(60)]
    pub fn calculate_solar_elevation(&self, t: UtcMoment) -> (r: i64)
        requires
            self.wf(),
            t.wf(),
        ensures
            r == spec_solar_elevation(self.lat_udeg as int, self.lon_udeg as int, t),
            -90000 <= r <= 90000,
    {
        let secs: i64 = 3600 * (t.hour as i64) + 60 * (t.minute as i64) + (t.second as i64);
        let n: i64 = ((t.ordinal as i64) - 1) * 86400 + secs - 43200;
        let gamma = ediv(5 * n, 438);

        let sin_g = sin_ppm(gamma);
        let cos_g = cos_ppm(gamma);
        let sin_2g = sin_ppm(2 * gamma);
        let cos_2g = cos_ppm(2 * gamma);
        let sin_3g = sin_ppm(3 * gamma);
        let cos_3g = cos_ppm(3 * gamma);

        let eq_inner: i64 = 75000 + 1868 * cos_g - 32077 * sin_g - 14615 * cos_2g - 40849
            * sin_2g;
        let eq_time_mmin = ediv(229180 * eq_inner, 1000000000);

        let decl_inner: i64 = 6918000 - 399912 * cos_g + 70257 * sin_g - 6758 * cos_2g + 907
            * sin_2g - 2697 * cos_3g + 1480 * sin_3g;
        let decl_mdeg = ediv(57296 * decl_inner, 1000000000);

        let lat_mdeg = ediv(self.lat_udeg, 1000);
        let lon_mdeg = ediv(self.lon_udeg, 1000);

        let tst_mmin = ediv(50 * secs, 3) + eq_time_mmin + 4 * lon_mdeg;
        let ha_mdeg = ediv(tst_mmin, 4) - 180000;

        let sin_lat = sin_ppm(lat_mdeg);
        let cos_lat = cos_ppm(lat_mdeg);
        let sin_decl = sin_ppm(decl_mdeg);
        let cos_decl = cos_ppm(decl_mdeg);
        let cos_ha = cos_ppm(ha_mdeg);

        proof {
            assert(-1000000000000 <= (sin_lat as int) * (sin_decl as int) <= 1000000000000)
                by (nonlinear_arith)
                requires
                    -1000000 <= sin_lat as int <= 1000000,
                    -1000000 <= sin_decl as int <= 1000000,
            ;
            assert(-1000000000000 <= (cos_lat as int) * (cos_decl as int) <= 1000000000000)
                by (nonlinear_arith)
                requires
                    -1000000 <= cos_lat as int <= 1000000,
                    -1000000 <= cos_decl as int <= 1000000,
            ;
        }
        let part1 = ediv(sin_lat * sin_decl, 1000000);
        let prod_cc = cos_lat * cos_decl;
        let cc = ediv(prod_cc, 1000000);
        proof {
            lemma_div_is_ordered(prod_cc as int, 1000000000000, 1000000);
            lemma_div_is_ordered(-1000000000000, prod_cc as int, 1000000);
            assert(-1000000 <= cc as int <= 1000000);
            assert(-1000000000000 <= (cc as int) * (cos_ha as int) <= 1000000000000)
                by (nonlinear_arith)
                requires
                    -1000000 <= cc as int <= 1000000,
                    -1000000 <= cos_ha as int <= 1000000,
            ;
        }
        let part2 = ediv(cc * cos_ha, 1000000);

        let cz0 = part1 + part2;
        let cz = if cz0 < -1000000 {
            -1000000
        } else if cz0 > 1000000 {
            1000000
        } else {
            cz0
        };

        asin_mdeg(cz)
    }
}

/// Stepwise-linear mapping of solar elevation (milli-degrees) to a
/// circadian brightness target (milli-percent): full daylight ramp
/// above 6 degrees, twilight ramps down to -12 degrees, flat night
/// below.
pub open spec fn spec_circadian_curve(elev: int) -> int {
    if elev > 6000 {
        let p = elev - 6000;
        let cl = if p > 40000 {
            40000
        } else {
            p
        };
        50000 + (cl * 50000) / 40000
    } else if elev > -6000 {
        50000 - ((6000 - elev) * 20000) / 12000
    } else if elev > -12000 {
        30000 - ((-6000 - elev) * 10000) / 6000
    } else {
        20000
    }
}

/// The elevation-to-brightness mapping on its own, for callers that
/// already know the sun's elevation.
pub fn circadian_target_from_elevation(elev: i64) -> (r: i64)
    requires
        -1_000_000_000 <= elev <= 1_000_000_000,
    ensures
        r == spec_circadian_curve(elev as int),
        20000 <= r <= 100000,
{
    proof {
        lemma_circadian_bounds(elev as int);
    }
    if elev > 6000 {
        let p = elev - 6000;
        let cl: u64 = if p > 40000 {
            40000
        } else {
            p as u64
        };
        50000 + ((cl * 50000) / 40000) as i64
    } else if elev > -6000 {
        let d = (6000 - elev) as u64;
        50000 - ((d * 20000) / 12000) as i64
    } else if elev > -12000 {
        let d = (-6000 - elev) as u64;
        30000 - ((d * 10000) / 6000) as i64
    } else {
        20000
    }
}

impl ContextManager {
    /// The circadian brightness target at the given UTC moment: the
    /// fixed sleep brightness while the local hour (UTC plus a fixed
    /// offset of three) is before the wake hour, else the elevation
    /// mapping of `spec_circadian_curve`.
    pub open spec fn spec_circadian_target(self, t: UtcMoment) -> int {
        if t.hour + 3 < self.wake_hour {
            10000
        } else {
            spec_circadian_curve(
                spec_solar_elevation(self.lat_udeg as int, self.lon_udeg as int, t),
            )
        }
    }

    pub fn get_circadian_target(&self, t: UtcMoment) -> (r: i64)
        requires
            self.wf(),
            t.wf(),
        ensures
            r == self.spec_circadian_target(t),
            10000 <= r <= 100000,
    {
        let elevation = self.calculate_solar_elevation(t);

        let now_local = t.hour + 3;
        if now_local < self.wake_hour {
            return 10000;
        }

        circadian_target_from_elevation(elevation)
    }
}

/// Law: the circadian mapping never leaves [20%, 100%].
pub proof fn lemma_circadian_bounds(e: int)
    ensures
        20000 <= spec_circadian_curve(e) <= 100000,
{
    if e > 6000 {
        let p = e - 6000;
        let cl = if p > 40000 {
            40000int
        } else {
            p
        };
        lemma_div_pos_is_pos(cl * 50000, 40000);
        lemma_div_is_ordered(cl * 50000, 2000000000, 40000);
    } else if e > -6000 {
        let num = (6000 - e) * 20000;
        lemma_div_pos_is_pos(num, 12000);
        lemma_div_is_ordered(num, 239980000, 12000);
    } else if e > -12000 {
        let num = (-6000 - e) * 10000;
        lemma_div_pos_is_pos(num, 6000);
        lemma_div_is_ordered(num, 59990000, 6000);
    }
}

/// Law: the circadian mapping is monotonically non-decreasing in the
/// solar elevation.
pub proof fn lemma_circadian_monotone(e1: int, e2: int)
    requires
        e1 <= e2,
    ensures
        spec_circadian_curve(e1) <= spec_circadian_curve(e2),
{
    lemma_circadian_bounds(e1);
    lemma_circadian_bounds(e2);
    if e2 > 6000 {
        if e1 > 6000 {
            let p1 = e1 - 6000;
            let cl1 = if p1 > 40000 {
                40000int
            } else {
                p1
            };
            let p2 = e2 - 6000;
            let cl2 = if p2 > 40000 {
                40000int
            } else {
                p2
            };
            lemma_div_is_ordered(cl1 * 50000, cl2 * 50000, 40000);
        } else {
            let num = (6000 - e1) * 20000;
            if e1 > -6000 {
                lemma_div_pos_is_pos(num, 12000);
            }
            lemma_div_pos_is_pos((if e2 - 6000 > 40000 {
                40000int
            } else {
                e2 - 6000
            }) * 50000, 40000);
        }
    } else if e2 > -6000 {
        if e1 > -6000 {
            lemma_div_is_ordered((6000 - e2) * 20000, (6000 - e1) * 20000, 12000);
        } else {
            lemma_div_is_ordered((6000 - e2) * 20000, 239980000, 12000);
            if e1 > -12000 {
                lemma_div_pos_is_pos((-6000 - e1) * 10000, 6000);
            }
        }
    } else if e2 > -12000 {
        if e1 > -12000 {
            lemma_div_is_ordered((-6000 - e2) * 10000, (-6000 - e1) * 10000, 6000);
        } else {
            lemma_div_is_ordered((-6000 - e2) * 10000, 59990000, 6000);
        }
    }
}

/// Law: the circadian mapping is continuous at milli-degree
/// resolution: one milli-degree of elevation moves the target by at
/// most two milli-percent, and the segment joins at -12, -6 and 6
/// degrees meet exactly.
pub proof fn lemma_circadian_continuity(e: int)
    ensures
        spec_circadian_curve(e) <= spec_circadian_curve(e + 1),
        spec_circadian_curve(e + 1) - spec_circadian_curve(e) <= 2,
        spec_circadian_curve(6000) == 50000,
        spec_circadian_curve(-6000) == 30000,
        spec_circadian_curve(-12000) == 20000,
{
    lemma_circadian_monotone(e, e + 1);
    assert(spec_circadian_curve(6000) == 50000);
    assert(spec_circadian_curve(-6000) == 30000);
    assert(spec_circadian_curve(-12000) == 20000);
    if e + 1 > 6000 {
        if e > 6000 {
            let p1 = e - 6000;
            let cl1 = if p1 > 40000 {
                40000int
            } else {
                p1
            };
            let p2 = e + 1 - 6000;
            let cl2 = if p2 > 40000 {
                40000int
            } else {
                p2
            };
            assert(cl2 <= cl1 + 1);
            vstd::arithmetic::div_mod::lemma_hoist_over_denominator(cl1 * 50000, 2, 40000nat);
            lemma_div_is_ordered(cl2 * 50000, cl1 * 50000 + 2 * 40000, 40000);
        } else {
            assert(e == 6000);
            assert(spec_circadian_curve(6001) == 50001);
        }
    } else if e + 1 > -6000 {
        if e > -6000 {
            let n2 = (6000 - (e + 1)) * 20000;
            vstd::arithmetic::div_mod::lemma_hoist_over_denominator(n2, 2, 12000nat);
            lemma_div_is_ordered((6000 - e) * 20000, n2 + 2 * 12000, 12000);
        } else {
            assert(e == -6000);
            assert(spec_circadian_curve(-5999) == 30002);
        }
    } else if e + 1 > -12000 {
        if e > -12000 {
            let n2 = (-6000 - (e + 1)) * 10000;
            vstd::arithmetic::div_mod::lemma_hoist_over_denominator(n2, 2, 6000nat);
            lemma_div_is_ordered((-6000 - e) * 10000, n2 + 2 * 6000, 6000);
        } else {
            assert(e == -12000);
            assert(spec_circadian_curve(-11999) == 20002);
        }
    }
}

} // verus!
