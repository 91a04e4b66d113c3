//! Percentage and proportional bar-width computation over integer byte
//! counts. Percentages carry exactly two decimal digits; they are computed in
//! hundredths of a percent, rounding half up, so no floating point is needed.
use vstd::prelude::*;

use crate::text::{dec_str, digit_char};

verus! {

/// The percentage of `count` out of `sum`, in hundredths of a percent,
/// rounded half up. When `sum` is zero every entry reports zero, so the
/// all-zero-counts edge case renders as `0.00%` instead of faulting.
pub open spec fn percent_scaled(sum: nat, count: nat) -> nat {
    if sum == 0 {
        0
    } else {
        (20000 * count + sum) / (2 * sum)
    }
}

/// The rendered percentage text: the integer part, a point, exactly two
/// fractional digits, and a percent sign.
pub open spec fn percent_chars(sum: nat, count: nat) -> Seq<char> {
    let p = percent_scaled(sum, count);
    dec_str(p / 100) + seq!['.', digit_char((p / 10) % 10), digit_char(p % 10), '%']
}

/// The length of the proportional bar for `count` out of `sum` bytes, with
/// `bar_width` columns standing for the whole: `floor(count * bar_width / sum)`,
/// and zero when `sum` is zero.
pub open spec fn bar_len(sum: nat, count: nat, bar_width: nat) -> nat {
    if sum == 0 {
        0
    } else {
        (count * bar_width) / sum
    }
}

/// Bounds that pin `percent_scaled` to the exact ratio: the scaled value `p`
/// satisfies `20000 * count - sum < 2 * sum * p <= 20000 * count + sum`,
/// that is, `p` is within half a hundredth of `100 * count / sum` percent.
pub proof fn lemma_percent_scaled_bounds(sum: nat, count: nat)
    requires
        sum > 0,
    ensures
        20000 * count - sum < 2 * sum * percent_scaled(sum, count),
        2 * sum * percent_scaled(sum, count) <= 20000 * count + sum,
{
    let x = (20000 * count + sum) as int;
    let d = (2 * sum) as int;
    vstd::arithmetic::div_mod::lemma_fundamental_div_mod(x, d);
    vstd::arithmetic::div_mod::lemma_mod_bound(x, d);
}

/// Larger byte count, larger or equal percentage (for a fixed total).
pub proof fn lemma_percentage_monotonic(sum: nat, count1: nat, count2: nat)
    requires
        count1 <= count2,
    ensures
        percent_scaled(sum, count1) <= percent_scaled(sum, count2),
{
    if sum > 0 {
        vstd::arithmetic::div_mod::lemma_div_is_ordered(
            (20000 * count1 + sum) as int,
            (20000 * count2 + sum) as int,
            (2 * sum) as int,
        );
    }
}

/// A count equal to the whole total reports exactly one hundred percent.
pub proof fn lemma_percentage_full(sum: nat)
    requires
        sum > 0,
    ensures
        percent_scaled(sum, sum) == 10000,
{
    let d = (2 * sum) as int;
    assert(20000 * sum + sum == 10000 * d + sum);
    vstd::arithmetic::div_mod::lemma_fundamental_div_mod_converse_div(
        (20000 * sum + sum) as int,
        d,
        10000,
        sum as int,
    );
}

/// A count no larger than the total reports at most one hundred percent.
pub proof fn lemma_percent_scaled_le_10000(sum: nat, count: nat)
    requires
        count <= sum,
    ensures
        percent_scaled(sum, count) <= 10000,
{
    if sum > 0 {
        lemma_percentage_monotonic(sum, count, sum);
        lemma_percentage_full(sum);
    }
}

/// The sum of a sequence of byte counts.
pub open spec fn sum_counts(s: Seq<u64>) -> int
    decreases s.len(),
{
    if s.len() == 0 {
        0
    } else {
        sum_counts(s.drop_last()) + s.last()
    }
}

/// The sum of the scaled percentages of a sequence of byte counts, out of a
/// total of `sum` bytes.
pub open spec fn sum_percents(s: Seq<u64>, sum: nat) -> int
    decreases s.len(),
{
    if s.len() == 0 {
        0
    } else {
        sum_percents(s.drop_last(), sum) + percent_scaled(sum, s.last() as nat)
    }
}

/// A sum of byte counts is never negative.
pub proof fn lemma_sum_counts_nonneg(s: Seq<u64>)
    ensures
        sum_counts(s) >= 0,
    decreases s.len(),
{
    if s.len() > 0 {
        lemma_sum_counts_nonneg(s.drop_last());
    }
}

/// Sums add up over concatenation.
pub proof fn lemma_sum_counts_concat(a: Seq<u64>, b: Seq<u64>)
    ensures
        sum_counts(a + b) == sum_counts(a) + sum_counts(b),
    decreases b.len(),
{
    if b.len() == 0 {
        assert(a + b =~= a);
    } else {
        assert((a + b).drop_last() =~= a + b.drop_last());
        lemma_sum_counts_concat(a, b.drop_last());
    }
}

/// Extending a prefix by one element adds that element to its sum.
pub proof fn lemma_sum_counts_take_step(s: Seq<u64>, i: int)
    requires
        0 <= i < s.len(),
    ensures
        sum_counts(s.take(i + 1)) == sum_counts(s.take(i)) + s[i],
{
    assert(s.take(i + 1).drop_last() =~= s.take(i));
}

/// A prefix never sums to more than the whole sequence.
pub proof fn lemma_sum_counts_prefix_le(s: Seq<u64>, i: int)
    requires
        0 <= i <= s.len(),
    ensures
        sum_counts(s.take(i)) <= sum_counts(s),
    decreases s.len() - i,
{
    if i == s.len() {
        assert(s.take(i) =~= s);
    } else {
        lemma_sum_counts_take_step(s, i);
        lemma_sum_counts_prefix_le(s, i + 1);
    }
}

/// No single byte count exceeds the total.
pub proof fn lemma_elem_le_sum(s: Seq<u64>, i: int)
    requires
        0 <= i < s.len(),
    ensures
        s[i] <= sum_counts(s),
    decreases s.len(),
{
    if i == s.len() - 1 {
        lemma_sum_counts_nonneg(s.drop_last());
    } else {
        lemma_elem_le_sum(s.drop_last(), i);
    }
}

proof fn lemma_sum_percents_bounds(s: Seq<u64>, sum: nat)
    requires
        sum > 0,
    ensures
        20000 * sum_counts(s) - s.len() * sum <= 2 * sum * sum_percents(s, sum),
        2 * sum * sum_percents(s, sum) <= 20000 * sum_counts(s) + s.len() * sum,
    decreases s.len(),
{
    if s.len() == 0 {
        assert(2 * sum * 0 == 0) by (nonlinear_arith);
    } else {
        let prefix = s.drop_last();
        let c = s.last() as nat;
        let n = prefix.len() as int;
        let t = sum as int;
        lemma_sum_percents_bounds(prefix, sum);
        lemma_percent_scaled_bounds(sum, c);
        let sp = sum_percents(prefix, sum);
        let p = percent_scaled(sum, c) as int;
        let sc = sum_counts(prefix);
        assert(20000 * (sc + c) - (n + 1) * t <= 2 * t * (sp + p) <= 20000 * (sc + c) + (n + 1)
            * t) by (nonlinear_arith)
            requires
                t > 0,
                20000 * sc - n * t <= 2 * t * sp,
                2 * t * sp <= 20000 * sc + n * t,
                20000 * c - t < 2 * t * p,
                2 * t * p <= 20000 * c + t,
        ;
        assert(sum_counts(s) == sc + c);
        assert(sum_percents(s, sum) == sp + p);
    }
}

/// The percentages of a non-empty set of language byte counts add up to one
/// hundred percent, within a rounding tolerance of one hundredth of a percent
/// per entry: the scaled percentages (hundredths of a percent) sum to
/// `10000`, give or take at most the number of entries.
pub proof fn lemma_percentages_sum_to_100(counts: Seq<u64>, sum: nat)
    requires
        sum == sum_counts(counts),
        sum > 0,
    ensures
        10000 - counts.len() <= sum_percents(counts, sum) <= 10000 + counts.len(),
{
    lemma_sum_percents_bounds(counts, sum);
    let n = counts.len() as int;
    let t = sum as int;
    let sp = sum_percents(counts, sum);
    assert(10000 - n <= sp <= 10000 + n) by (nonlinear_arith)
        requires
            t > 0,
            n >= 0,
            20000 * t - n * t <= 2 * t * sp,
            2 * t * sp <= 20000 * t + n * t,
    ;
}

/// The rendered percentage of `count` out of `sum` bytes, with exactly two
/// decimal digits, for example `"60.00%"`. The ratio is rounded half up in
/// hundredths of a percent; a zero total renders as `"0.00%"`.
pub fn percentage(sum: u64, count: u64) -> (r: String)
    requires
        count <= sum,
    ensures
        r@ == percent_chars(sum as nat, count as nat),
{
    let p: u64 = if sum == 0 {
        0
    } else {
        let num: u128 = 20000 * (count as u128) + (sum as u128);
        let den: u128 = 2 * (sum as u128);
        let q: u128 = num / den;
        proof {
            lemma_percent_scaled_le_10000(sum as nat, count as nat);
        }
        q as u64
    };
    proof {
        reveal_strlit(".");
        reveal_strlit("%");
    }
    let mut s = crate::text::u64_to_string(p / 100);
    s.append(".");
    s.append(crate::text::digit_str((p / 10) % 10));
    s.append(crate::text::digit_str(p % 10));
    s.append("%");
    proof {
        assert(s@ =~= percent_chars(sum as nat, count as nat));
    }
    s
}

/// The number of bar columns for `count` out of `sum` bytes when `bar_width`
/// columns stand for the whole: `floor(count * bar_width / sum)`, zero when
/// the total is zero, and never more than `bar_width`.
pub fn bar_length(sum: u64, count: u64, bar_width: usize) -> (r: usize)
    requires
        count <= sum,
    ensures
        r == bar_len(sum as nat, count as nat, bar_width as nat),
        r <= bar_width,
{
    if sum == 0 {
        0
    } else {
        proof {
            vstd::arithmetic::mul::lemma_mul_upper_bound(
                count as int,
                0xffff_ffff_ffff_ffff,
                bar_width as int,
                0xffff_ffff_ffff_ffff,
            );
        }
        let num: u128 = (count as u128) * (bar_width as u128);
        let q: u128 = num / (sum as u128);
        proof {
            lemma_bar_len_le_width(sum as nat, count as nat, bar_width as nat);
        }
        q as usize
    }
}

/// The bar never overruns the drawable width.
pub proof fn lemma_bar_len_le_width(sum: nat, count: nat, bar_width: nat)
    requires
        count <= sum,
    ensures
        bar_len(sum, count, bar_width) <= bar_width,
{
    if sum > 0 {
        lemma_bar_monotonic(sum, count, sum, bar_width);
        lemma_bar_full(sum, bar_width);
    }
}

/// Larger byte count, larger or equal bar (for a fixed total and width).
pub proof fn lemma_bar_monotonic(sum: nat, count1: nat, count2: nat, bar_width: nat)
    requires
        count1 <= count2,
    ensures
        bar_len(sum, count1, bar_width) <= bar_len(sum, count2, bar_width),
{
    if sum > 0 {
        vstd::arithmetic::mul::lemma_mul_inequality(count1 as int, count2 as int, bar_width as int);
        vstd::arithmetic::div_mod::lemma_div_is_ordered(
            (count1 * bar_width) as int,
            (count2 * bar_width) as int,
            sum as int,
        );
    }
}

/// A language owning every byte fills the whole drawable width.
pub proof fn lemma_bar_full(sum: nat, bar_width: nat)
    requires
        sum > 0,
    ensures
        bar_len(sum, sum, bar_width) == bar_width,
{
    assert((sum * bar_width) as int == bar_width as int * sum as int + 0) by (nonlinear_arith);
    vstd::arithmetic::div_mod::lemma_fundamental_div_mod_converse_div(
        (sum * bar_width) as int,
        sum as int,
        bar_width as int,
        0,
    );
}

/// A language owning no byte gets an empty bar.
pub proof fn lemma_bar_empty(sum: nat, bar_width: nat)
    ensures
        bar_len(sum, 0, bar_width) == 0,
{
    if sum > 0 {
        vstd::arithmetic::div_mod::lemma_fundamental_div_mod_converse_div(0, sum as int, 0, 0);
    }
}

} // verus!
