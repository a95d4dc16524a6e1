use vstd::prelude::*;

verus! {

/// Number of samples that `n` samples at rate `from` become at rate `to`:
/// `ceil(n * to / from)`, or `n` itself when nothing is converted.
pub open spec fn resampled_len(n: nat, from: nat, to: nat) -> nat {
    if from == to || n == 0 {
        n
    } else {
        ((n * to + from - 1) / (from as int)) as nat
    }
}

/// Linear blend of `a` and `b` at the fraction `r / t`, rounded down.
pub open spec fn lerp(a: int, b: int, r: int, t: int) -> int {
    (a * (t - r) + b * r) / t
}

/// Index of the input sample just after `idx`, clamped to the last one.
pub open spec fn next_index(idx: int, n: int) -> int {
    if idx + 1 < n {
        idx + 1
    } else {
        n - 1
    }
}

/// Output sample `i`: the input evaluated at the virtual index `i * from / to`.
pub open spec fn resample_at(x: Seq<i32>, from: nat, to: nat, i: int) -> int {
    let p = i * from;
    let idx = p / (to as int);
    lerp(x[idx] as int, x[next_index(idx, x.len() as int)] as int, p % (to as int), to as int)
}

/// What `resample` returns: a copy when the rates agree or the input is empty,
/// else `resampled_len` linearly interpolated samples.
pub open spec fn resample_spec(x: Seq<i32>, from: nat, to: nat) -> Seq<i32> {
    if from == to || x.len() == 0 {
        x
    } else {
        Seq::new(resampled_len(x.len(), from, to), |i: int| resample_at(x, from, to, i) as i32)
    }
}

/// A blend lies between its two ends.
proof fn lemma_lerp_bounds(a: int, b: int, r: int, t: int)
    requires
        0 <= r < t,
    ensures
        a <= b ==> a <= lerp(a, b, r, t) <= b,
        b < a ==> b <= lerp(a, b, r, t) <= a,
{
    let num = a * (t - r) + b * r;
    assert(num == a * t + (b - a) * r) by (nonlinear_arith)
        requires num == a * (t - r) + b * r;
    vstd::arithmetic::div_mod::lemma_div_multiples_vanish(a, t);
    vstd::arithmetic::div_mod::lemma_div_multiples_vanish(b, t);
    assert(a * t == t * a) by (nonlinear_arith);
    assert(b * t == t * b) by (nonlinear_arith);
    if a <= b {
        assert(a * t <= num <= b * t) by (nonlinear_arith)
            requires num == a * t + (b - a) * r, a <= b, 0 <= r < t;
        vstd::arithmetic::div_mod::lemma_div_is_ordered(a * t, num, t);
        vstd::arithmetic::div_mod::lemma_div_is_ordered(num, b * t, t);
    } else {
        assert(b * t <= num <= a * t) by (nonlinear_arith)
            requires num == a * t + (b - a) * r, b < a, 0 <= r < t;
        vstd::arithmetic::div_mod::lemma_div_is_ordered(b * t, num, t);
        vstd::arithmetic::div_mod::lemma_div_is_ordered(num, a * t, t);
    }
}

/// Blends two samples at the fraction `r / t`.
fn blend(a: i32, b: i32, r: u64, t: u64) -> (out: i32)
    requires
        r < t,
    ensures
        out as int == lerp(a as int, b as int, r as int, t as int),
{
    let ghost ti = t as int;
    proof {
        lemma_lerp_bounds(a as int, b as int, r as int, ti);
        assert(a * (t - r) + b * r == a * t + (b - a) * r) by (nonlinear_arith);
    }
    if a <= b {
        let d: u128 = (b as i64 - a as i64) as u128;
        proof {
            assert(d * r <= d * t) by (nonlinear_arith) requires r < t, d >= 0;
            assert(d * r < 0x1_0000_0000_0000_0000_0000_0000) by (nonlinear_arith)
                requires d < 0x1_0000_0000, r < 0x1_0000_0000_0000_0000;
        }
        let m: u128 = d * (r as u128) / (t as u128);
        proof {
            vstd::arithmetic::div_mod::lemma_fundamental_div_mod(d * r, ti);
            let q = (d * r) / ti;
            let k = (d * r) % ti;
            assert(d == b - a);
            assert(a * t + d * r == (a + q) * t + k) by (nonlinear_arith)
                requires d * r == ti * q + k, ti == t;
            vstd::arithmetic::div_mod::lemma_fundamental_div_mod_converse(a * t + d * r, ti, a + q, k);
            assert(a * (ti - r) + b * r == a * t + d * r) by (nonlinear_arith)
                requires d == b - a, ti == t;
            assert(lerp(a as int, b as int, r as int, ti) == a + q);
            assert(q <= d) by (nonlinear_arith)
                requires d * r == ti * q + k, 0 <= k, d * r <= d * ti, ti > 0;
            vstd::arithmetic::div_mod::lemma_div_pos_is_pos(d * r, ti);
        }
        (a as i64 + m as i64) as i32
    } else {
        let d: u128 = (a as i64 - b as i64) as u128;
        proof {
            assert(d * r <= d * t) by (nonlinear_arith) requires r < t, d >= 0;
            assert(d * r < 0x1_0000_0000_0000_0000_0000_0000) by (nonlinear_arith)
                requires d < 0x1_0000_0000, r < 0x1_0000_0000_0000_0000;
        }
        let m: u128 = (d * (r as u128) + (t as u128) - 1) / (t as u128);
        proof {
            let x = d * r + t - 1;
            vstd::arithmetic::div_mod::lemma_fundamental_div_mod(x, ti);
            let q = x / ti;
            let k = x % ti;
            assert(d == a - b);
            assert(a * t - d * r == (a - q) * t + (t - 1 - k)) by (nonlinear_arith)
                requires x == ti * q + k, x == d * r + t - 1, ti == t;
            vstd::arithmetic::div_mod::lemma_fundamental_div_mod_converse(
                a * t - d * r, ti, a - q, t - 1 - k);
            assert(a * (ti - r) + b * r == a * t - d * r) by (nonlinear_arith)
                requires d == a - b, ti == t;
            assert(lerp(a as int, b as int, r as int, ti) == a - q);
            assert(d * r <= d * (ti - 1)) by (nonlinear_arith) requires r <= ti - 1, d >= 0;
            assert(q <= d) by (nonlinear_arith)
                requires x == ti * q + k, x == d * r + ti - 1, 0 <= k < ti, d * r <= d * (ti - 1), ti > 0;
            assert(q >= 0) by (nonlinear_arith)
                requires x == ti * q + k, x >= 0, k < ti, ti > 0;
        }
        (a as i64 - m as i64) as i32
    }
}

/// An output index below `resampled_len` reads inside the input.
proof fn lemma_index_in_range(i: int, n: int, from: int, to: int)
    requires
        from > 0,
        to > 0,
        n > 0,
        0 <= i < (n * to + from - 1) / from,
    ensures
        i * from < n * to,
        0 <= (i * from) / to < n,
{
    let x = n * to + from - 1;
    assert(x >= 0) by (nonlinear_arith) requires n > 0, to > 0, from > 0, x == n * to + from - 1;
    vstd::arithmetic::div_mod::lemma_fundamental_div_mod(x, from);
    let q = x / from;
    assert((i + 1) * from <= q * from) by (nonlinear_arith) requires i + 1 <= q, from > 0;
    assert(i * from < n * to) by (nonlinear_arith)
        requires x == from * q + x % from, 0 <= x % from < from, (i + 1) * from <= q * from,
            x == n * to + from - 1;
    assert(i * from >= 0) by (nonlinear_arith) requires i >= 0, from > 0;
    vstd::arithmetic::div_mod::lemma_div_pos_is_pos(i * from, to);
    vstd::arithmetic::div_mod::lemma_div_is_ordered(i * from, n * to - 1, to);
    vstd::arithmetic::div_mod::lemma_fundamental_div_mod(n * to - 1, to);
    assert((n * to - 1) / to < n) by (nonlinear_arith)
        requires n * to - 1 == to * ((n * to - 1) / to) + (n * to - 1) % to,
            (n * to - 1) % to >= 0, to > 0;
}

/// With a zero target rate nothing is produced.
proof fn lemma_zero_target_len(n: int, from: int)
    requires
        from > 0,
        n >= 0,
    ensures
        (n * 0 + from - 1) / from == 0,
{
    vstd::arithmetic::div_mod::lemma_basic_div(from - 1, from);
}

/// Converts `samples` taken at `from_rate` to `to_rate` by linear
/// interpolation, without any anti-aliasing filter.
pub fn resample(samples: &[i32], from_rate: u32, to_rate: u32) -> (r: Vec<i32>)
    requires
        from_rate > 0 || from_rate == to_rate || samples@.len() == 0,
        resampled_len(samples@.len(), from_rate as nat, to_rate as nat) <= usize::MAX,
    ensures
        r@ == resample_spec(samples@, from_rate as nat, to_rate as nat),
{
    let n = samples.len();
    let mut out: Vec<i32> = Vec::new();
    if from_rate == to_rate || n == 0 {
        let mut i: usize = 0;
        while i < n
            invariant
                i <= n == samples@.len(),
                out@ == samples@.subrange(0, i as int),
            decreases n - i,
        {
            out.push(samples[i]);
            i = i + 1;
        }
        assert(out@ == samples@);
        return out;
    }
    if to_rate == 0 {
        proof {
            lemma_zero_target_len(n as int, from_rate as int);
        }
        assert(out@ =~= resample_spec(samples@, from_rate as nat, to_rate as nat));
        return out;
    }
    let from = from_rate as u128;
    let to = to_rate as u128;
    proof {
        assert((n as int) * to <= 0xffff_ffff_ffff_ffff * 0xffff_ffff) by (nonlinear_arith)
            requires n <= 0xffff_ffff_ffff_ffff, to <= 0xffff_ffff, n >= 0, to >= 0;
    }
    let new_len = ((n as u128) * to + from - 1) / from;
    let new_len = new_len as usize;
    let ghost spec_out = resample_spec(samples@, from_rate as nat, to_rate as nat);
    let mut i: usize = 0;
    while i < new_len
        invariant
            n == samples@.len() > 0,
            from_rate != to_rate,
            from == from_rate > 0,
            to == to_rate > 0,
            new_len == resampled_len(n as nat, from_rate as nat, to_rate as nat),
            spec_out == resample_spec(samples@, from_rate as nat, to_rate as nat),
            i <= new_len,
            out@ == spec_out.subrange(0, i as int),
        decreases new_len - i,
    {
        proof {
            lemma_index_in_range(i as int, n as int, from as int, to as int);
            assert((i as int) * from <= 0xffff_ffff_ffff_ffff * 0xffff_ffff) by (nonlinear_arith)
                requires i <= 0xffff_ffff_ffff_ffff, from <= 0xffff_ffff, i >= 0, from >= 0;
        }
        let p: u128 = (i as u128) * from;
        let idx = (p / to) as usize;
        let frac = (p % to) as u64;
        let hi = if idx + 1 < n { idx + 1 } else { n - 1 };
        let s = blend(samples[idx], samples[hi], frac, to_rate as u64);
        out.push(s);
        proof {
            assert(s as int == resample_at(samples@, from_rate as nat, to_rate as nat, i as int));
        }
        i = i + 1;
    }
    assert(out@ =~= spec_out);
    out
}

/// Resampling between equal rates returns the input unchanged.
pub proof fn lemma_resample_same_rate(x: Seq<i32>, rate: nat)
    ensures
        resample_spec(x, rate, rate) == x,
{
}

/// Between distinct rates a non-empty input becomes `ceil(len * to / from)`
/// samples.
pub proof fn lemma_resample_len(x: Seq<i32>, from: nat, to: nat)
    requires
        from != to,
        from > 0,
        x.len() > 0,
    ensures
        resample_spec(x, from, to).len() == (x.len() * to + from - 1) / (from as int),
{
}

/// Resampling an empty input gives an empty output.
pub proof fn lemma_resample_empty(from: nat, to: nat)
    ensures
        resample_spec(Seq::<i32>::empty(), from, to) == Seq::<i32>::empty(),
{
}

} // verus!
