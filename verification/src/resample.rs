//! Linear-interpolation sample-rate conversion over 16-bit samples.
//!
//! For a conversion from `from` Hz to `to` Hz the output holds
//! `floor(len * to / from)` samples; output index `i` sits at source
//! position `i * from / to`, and its value interpolates linearly between
//! the two neighbouring source samples, with the upper neighbour clamped
//! to the last sample.

use vstd::prelude::*;
use vstd::arithmetic::div_mod::{
    lemma_fundamental_div_mod, lemma_div_is_ordered, lemma_div_multiples_vanish,
    lemma_multiply_divide_lt, lemma_mod_division_less_than_divisor, lemma_div_pos_is_pos,
    lemma_multiply_divide_le,
};
use vstd::arithmetic::mul::{lemma_mul_inequality, lemma_mul_is_distributive_add, lemma_mul_is_commutative};

verus! {

/// Output length of a rate conversion: floor(len * to / from).
pub open spec fn resampled_len(len: int, from: int, to: int) -> int {
    len * to / from
}

/// A 16-bit sample shifted into 0..=65535.
pub open spec fn biased(x: i16) -> int {
    x + 32768
}

/// Floor-rounded linear interpolation between `a` and `b` at fraction
/// `rem / den`.
pub open spec fn interp(a: int, b: int, rem: int, den: int) -> int {
    (a * (den - rem) + b * rem) / den
}

/// The value of output sample `i` of a conversion of `s` from rate `from`
/// to rate `to`, as an unbounded integer.
pub open spec fn resampled_at(s: Seq<i16>, from: int, to: int, i: int) -> int {
    let num = i * from;
    let idx = num / to;
    let rem = num % to;
    let j = if idx + 1 < s.len() { idx + 1 } else { s.len() - 1 };
    interp(biased(s[idx]), biased(s[j]), rem, to) - 32768
}

/// The whole resampled sequence.
pub open spec fn resampled_seq(s: Seq<i16>, from: int, to: int) -> Seq<i16> {
    Seq::new(
        resampled_len(s.len() as int, from, to) as nat,
        |i: int| resampled_at(s, from, to, i) as i16,
    )
}

/// Convert `samples` from `from_rate` Hz to `to_rate` Hz by linear
/// interpolation.
pub fn resample(samples: &Vec<i16>, from_rate: u32, to_rate: u32) -> (r: Vec<i16>)
    requires
        from_rate > 0,
        to_rate > 0,
        samples@.len() * to_rate <= u64::MAX,
        resampled_len(samples@.len() as int, from_rate as int, to_rate as int) <= usize::MAX,
    ensures
        r@.len() == resampled_len(samples@.len() as int, from_rate as int, to_rate as int),
        forall|i: int| 0 <= i < r@.len()
            ==> r@[i] == resampled_at(samples@, from_rate as int, to_rate as int, i),
        r@ == resampled_seq(samples@, from_rate as int, to_rate as int),
{
    let ghost gl: int = samples@.len() as int;
    let ghost gf: int = from_rate as int;
    let ghost gt: int = to_rate as int;
    let len = samples.len();
    if len == 0 {
        proof {
            assert(resampled_len(0, gf, gt) == 0) by {
                assert(0int * gt == 0) by (nonlinear_arith);
                assert(0int / gf == 0);
            }
        }
        let empty: Vec<i16> = Vec::new();
        proof {
            assert(empty@ =~= resampled_seq(samples@, gf, gt));
        }
        return empty;
    }
    let new_len_wide: u64 = (len as u64) * (to_rate as u64) / (from_rate as u64);
    proof {
        assert(new_len_wide == resampled_len(gl, gf, gt));
        lemma_div_pos_is_pos(gl * gt, gf);
        assert(gl * gt >= 0) by (nonlinear_arith)
            requires gl >= 0 && gt >= 0;
    }
    let new_len: usize = new_len_wide as usize;
    let mut out: Vec<i16> = Vec::new();
    let mut i: usize = 0;
    while i < new_len
        invariant
            gl == samples@.len(),
            len == gl,
            gf == from_rate,
            gt == to_rate,
            0 < gf,
            0 < gt,
            0 < gl,
            gl * gt <= u64::MAX,
            new_len == resampled_len(gl, gf, gt),
            i <= new_len,
            out@.len() == i,
            forall|k: int| 0 <= k < i ==> out@[k] == resampled_at(samples@, gf, gt, k),
        decreases new_len - i,
    {
        proof {
            // i < len * to / from, so i * from < len * to.
            lemma_fundamental_div_mod(gl * gt, gf);
            lemma_mod_division_less_than_divisor(gl * gt, gf);
            lemma_mul_inequality(i + 1, gl * gt / gf, gf);
            assert((gl * gt / gf) * gf <= gl * gt) by {
                assert(gf * (gl * gt / gf) <= gl * gt);
                lemma_mul_is_commutative(gl * gt / gf, gf);
            }
            assert((i + 1) * gf == i * gf + gf) by (nonlinear_arith);
            assert(i * gf < gl * gt);
            // hence the floor index is below len
            assert(gt * gl == gl * gt) by (nonlinear_arith);
            lemma_multiply_divide_lt(i * gf, gt, gl);
            assert((i * gf) / gt < gl);
            lemma_mod_division_less_than_divisor(i * gf, gt);
            lemma_div_pos_is_pos(i * gf, gt);
            assert(i * gf >= 0) by (nonlinear_arith)
                requires i >= 0 && gf >= 0;
        }
        let num: u64 = (i as u64) * (from_rate as u64);
        let den: u64 = to_rate as u64;
        let idx_wide: u64 = num / den;
        let rem: u64 = num % den;
        let idx: usize = idx_wide as usize;
        let j: usize = if idx + 1 < len {
            idx + 1
        } else {
            len - 1
        };
        let a: u64 = (samples[idx] as i64 + 32768) as u64;
        let b: u64 = (samples[j] as i64 + 32768) as u64;
        proof {
            let numer = a * (gt - rem) + b * rem;
            assert(a * (gt - rem) <= 65535 * (gt - rem)) by {
                lemma_mul_inequality(a as int, 65535, gt - rem);
            }
            assert(b * rem <= 65535 * rem) by {
                lemma_mul_inequality(b as int, 65535, rem as int);
            }
            assert(65535 * (gt - rem) + 65535 * rem == 65535 * gt) by (nonlinear_arith);
            assert(65535 * gt <= 65535 * 0xffff_ffffu64) by {
                lemma_mul_inequality(gt, 0xffff_ffffu64 as int, 65535);
                lemma_mul_is_commutative(gt, 65535);
                lemma_mul_is_commutative(0xffff_ffffu64 as int, 65535);
            }
            assert(numer <= 65535 * gt);
            lemma_multiply_divide_le(numer, gt, 65535);
            lemma_div_pos_is_pos(numer, gt);
            assert(a * (gt - rem) >= 0 && b * rem >= 0) by (nonlinear_arith)
                requires a >= 0 && b >= 0 && rem >= 0 && gt - rem >= 0;
        }
        let numer: u64 = a * (den - rem) + b * rem;
        let q: u64 = numer / den;
        let val: i16 = ((q as i64) - 32768) as i16;
        out.push(val);
        proof {
            assert(out@[i as int] == resampled_at(samples@, gf, gt, i as int));
        }
        i += 1;
    }
    proof {
        assert(out@ =~= resampled_seq(samples@, gf, gt));
    }
    out
}

/// Resampling there and back again preserves the length up to rounding:
/// converting a sequence of length `len` from rate `r1` to `r2` and back
/// yields a length no greater than `len` and within `r1 / r2 + 1` of it.
pub proof fn lemma_round_trip_len(len: int, r1: int, r2: int)
    requires
        len >= 0,
        r1 > 0,
        r2 > 0,
    ensures
        resampled_len(resampled_len(len, r1, r2), r2, r1) <= len,
        len < resampled_len(resampled_len(len, r1, r2), r2, r1) + r1 / r2 + 2,
{
    let m = resampled_len(len, r1, r2);
    let k = resampled_len(m, r2, r1);
    // len * r2 == r1 * m + e1 with 0 <= e1 < r1
    lemma_fundamental_div_mod(len * r2, r1);
    lemma_mod_division_less_than_divisor(len * r2, r1);
    let e1 = (len * r2) % r1;
    // m * r1 == r2 * k + e2 with 0 <= e2 < r2
    lemma_fundamental_div_mod(m * r1, r2);
    lemma_mod_division_less_than_divisor(m * r1, r2);
    let e2 = (m * r1) % r2;
    assert(len * r2 >= 0) by (nonlinear_arith)
        requires len >= 0 && r2 >= 0;
    lemma_div_pos_is_pos(len * r2, r1);
    assert(m * r1 >= 0) by (nonlinear_arith)
        requires m >= 0 && r1 >= 0;
    lemma_div_pos_is_pos(m * r1, r2);
    // upper bound: m * r1 <= len * r2, so k <= len
    assert(r1 * m == m * r1) by (nonlinear_arith);
    assert(m * r1 <= len * r2);
    lemma_div_is_ordered(m * r1, len * r2, r2);
    assert((len * r2) / r2 == len) by {
        lemma_mul_is_commutative(len, r2);
        lemma_div_multiples_vanish(len, r2);
    }
    assert(k <= len);
    // lower bound: (len - k) * r2 == e1 + e2 < r1 + r2
    assert(r2 * k == k * r2) by (nonlinear_arith);
    assert(len * r2 == k * r2 + e2 + e1);
    assert((len - k) * r2 == e1 + e2) by (nonlinear_arith)
        requires len * r2 == k * r2 + e2 + e1;
    let d = len - k;
    assert(d * r2 < r1 + r2);
    // so d < r1 / r2 + 2
    lemma_fundamental_div_mod(r1, r2);
    lemma_mod_division_less_than_divisor(r1, r2);
    assert(d * r2 < (r1 / r2 + 2) * r2) by (nonlinear_arith)
        requires
            d * r2 < r1 + r2,
            r1 == r2 * (r1 / r2) + r1 % r2,
            r1 % r2 < r2;
    assert(d < r1 / r2 + 2) by (nonlinear_arith)
        requires d * r2 < (r1 / r2 + 2) * r2 && r2 > 0;
}

} // verus!

