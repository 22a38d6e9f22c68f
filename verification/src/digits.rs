//! Decimal digit runs in byte buffers: scanning them, valuing them,
//! and emitting them, with the lemmas that tie the three together.

use vstd::prelude::*;

verus! {

pub open spec fn spec_is_ascii_digit(c: u8) -> bool {
    48 <= c <= 57
}

/// Position of the first non-digit at or after `p`.
pub open spec fn spec_digits_end(data: Seq<u8>, p: int) -> int
    decreases data.len() - p,
{
    if p < data.len() && spec_is_ascii_digit(data[p]) {
        spec_digits_end(data, p + 1)
    } else {
        p
    }
}

/// Value of the decimal digits between `p` and `end`.
pub open spec fn spec_num_val(data: Seq<u8>, p: int, end: int) -> int
    decreases end - p,
{
    if end <= p {
        0
    } else {
        spec_num_val(data, p, end - 1) * 10 + (data[end - 1] - 48)
    }
}

pub proof fn lemma_digits_end_bounds(data: Seq<u8>, p: int)
    requires
        0 <= p <= data.len(),
    ensures
        p <= spec_digits_end(data, p) <= data.len(),
    decreases data.len() - p,
{
    if p < data.len() && spec_is_ascii_digit(data[p]) {
        lemma_digits_end_bounds(data, p + 1);
    }
}

pub proof fn lemma_digits_all(data: Seq<u8>, p: int, i: int)
    requires
        0 <= p <= data.len(),
        p <= i < spec_digits_end(data, p),
    ensures
        spec_is_ascii_digit(data[i]),
    decreases i - p,
{
    lemma_digits_end_bounds(data, p);
    if i > p {
        lemma_digits_all(data, p + 1, i);
    }
}

pub proof fn lemma_num_val_extend(data: Seq<u8>, p: int, mid: int, end: int)
    requires
        p <= mid <= end,
        spec_num_val(data, p, mid) >= 0,
        forall|j: int| mid <= j < end ==> 48 <= data[j],
    ensures
        spec_num_val(data, p, end) >= spec_num_val(data, p, mid),
        spec_num_val(data, p, end) >= 0,
    decreases end - mid,
{
    if mid < end {
        lemma_num_val_extend(data, p, mid, end - 1);
    }
}

/// The decimal digits of `n`, most significant first.
pub open spec fn spec_u64_dec(n: int) -> Seq<u8>
    decreases n,
{
    if n < 10 {
        seq![(48 + if n >= 0 { n } else { 0 }) as u8]
    } else {
        spec_u64_dec(n / 10) + seq![(48 + n % 10) as u8]
    }
}

pub proof fn lemma_dec_digits(n: int)
    requires
        0 <= n,
    ensures
        spec_u64_dec(n).len() >= 1,
        forall|i: int| #![auto] 0 <= i < spec_u64_dec(n).len() ==> spec_is_ascii_digit(
            spec_u64_dec(n)[i],
        ),
    decreases n,
{
    if n >= 10 {
        vstd::arithmetic::div_mod::lemma_fundamental_div_mod(n, 10);
        vstd::arithmetic::div_mod::lemma_mod_division_less_than_divisor(n, 10);
        vstd::arithmetic::div_mod::lemma_div_pos_is_pos(n, 10);
        lemma_dec_digits(n / 10);
    }
}

/// A digit run that spells `n` and stops at a non-digit reads back as
/// `n`: the digit scan ends exactly at its end and the valuation is
/// `n`.
pub proof fn lemma_dec_reads_back(data: Seq<u8>, p: int, n: int)
    requires
        0 <= n,
        0 <= p,
        p + spec_u64_dec(n).len() <= data.len(),
        data.subrange(p, p + spec_u64_dec(n).len() as int) == spec_u64_dec(n),
        p + spec_u64_dec(n).len() == data.len() || !spec_is_ascii_digit(
            data[p + spec_u64_dec(n).len()],
        ),
    ensures
        spec_digits_end(data, p) == p + spec_u64_dec(n).len(),
        spec_num_val(data, p, p + spec_u64_dec(n).len() as int) == n,
{
    let d = spec_u64_dec(n);
    lemma_dec_digits(n);
    assert forall|j: int| p <= j < p + d.len() implies spec_is_ascii_digit(data[j]) by {
        assert(data[j] == data.subrange(p, p + d.len() as int)[j - p]);
    }
    lemma_digits_end_at(data, p, p + d.len() as int);
    lemma_dec_value(data, p, n);
}

/// The digit scan from `p` stops exactly at `end` when everything
/// before `end` is a digit and `end` is the buffer's end or a
/// non-digit.
pub proof fn lemma_digits_end_at(data: Seq<u8>, p: int, end: int)
    requires
        0 <= p <= end <= data.len(),
        forall|j: int| p <= j < end ==> spec_is_ascii_digit(data[j]),
        end == data.len() || !spec_is_ascii_digit(data[end]),
    ensures
        spec_digits_end(data, p) == end,
    decreases end - p,
{
    if p < end {
        lemma_digits_end_at(data, p + 1, end);
    }
}

proof fn lemma_dec_value(data: Seq<u8>, p: int, n: int)
    requires
        0 <= n,
        0 <= p,
        p + spec_u64_dec(n).len() <= data.len(),
        data.subrange(p, p + spec_u64_dec(n).len() as int) == spec_u64_dec(n),
    ensures
        spec_num_val(data, p, p + spec_u64_dec(n).len() as int) == n,
    decreases n,
{
    let d = spec_u64_dec(n);
    if n < 10 {
        assert(d.len() == 1);
        assert(data[p] == data.subrange(p, p + 1)[0]);
        assert(data[p] == 48 + n);
        assert(spec_num_val(data, p, p + 1) == spec_num_val(data, p, p) * 10 + (data[p] - 48));
        assert(spec_num_val(data, p, p) == 0);
    } else {
        vstd::arithmetic::div_mod::lemma_fundamental_div_mod(n, 10);
        vstd::arithmetic::div_mod::lemma_mod_division_less_than_divisor(n, 10);
        vstd::arithmetic::div_mod::lemma_div_pos_is_pos(n, 10);
        let dh = spec_u64_dec(n / 10);
        assert(data.subrange(p, p + dh.len() as int) =~= dh) by {
            assert forall|i: int| 0 <= i < dh.len() implies data.subrange(
                p,
                p + dh.len() as int,
            )[i] == dh[i] by {
                assert(data[p + i] == data.subrange(p, p + d.len() as int)[i]);
                assert(d[i] == dh[i]);
            }
        }
        lemma_dec_value(data, p, n / 10);
        assert(data[p + d.len() - 1] == data.subrange(p, p + d.len() as int)[d.len() - 1]);
        assert(data[p + d.len() - 1] == 48 + n % 10);
    }
}

/// Append the decimal digits of `n` to `out`.
pub fn push_u64_dec(out: &mut Vec<u8>, n: u64)
    ensures
        final(out)@ == old(out)@ + spec_u64_dec(n as int),
    decreases n,
{
    if n < 10 {
        out.push(48 + n as u8);
        assert(out@ =~= old(out)@ + spec_u64_dec(n as int));
    } else {
        proof {
            vstd::arithmetic::div_mod::lemma_div_decreases(n as int, 10);
            vstd::arithmetic::div_mod::lemma_mod_division_less_than_divisor(n as int, 10);
        }
        push_u64_dec(out, n / 10);
        out.push(48 + (n % 10) as u8);
        assert(out@ =~= old(out)@ + spec_u64_dec(n as int));
    }
}

} // verus!
