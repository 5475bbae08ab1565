use vstd::arithmetic::div_mod::{
    lemma_fundamental_div_mod, lemma_fundamental_div_mod_converse, lemma_mod_bound,
    lemma_small_mod,
};
use vstd::arithmetic::power2::{lemma2_to64, lemma_pow2_pos, lemma_pow2_strictly_increases, lemma_pow2_unfold, pow2};
use vstd::prelude::*;

verus! {

/// `2^e`, as an integer.
pub open spec fn two_to(e: nat) -> int {
    pow2(e) as int
}

/// The bound that the search for a shift is held against: one less than the
/// largest multiple of `d` that does not exceed `2^w + 1`.
pub open spec fn magic_nc(d: int, w: nat) -> int {
    two_to(w) - ((two_to(w) - d + 1) % d)
}

/// How far `2^p` falls short of the next multiple of `d`.
pub open spec fn magic_delta(d: int, p: nat) -> int {
    d - 1 - ((two_to(p) - 1) % d)
}

/// Whether the precision `p` is enough for every `w`-bit dividend.
pub open spec fn magic_precise(d: int, w: nat, p: nat) -> bool {
    two_to(p) > magic_nc(d, w) * magic_delta(d, p)
}

/// The first precision from `p` on that is enough, and `2 * w` where none below it is.
pub open spec fn magic_shift_from(d: int, w: nat, p: nat) -> nat
    decreases 2 * w - p,
{
    if p >= 2 * w || magic_precise(d, w, p) {
        p
    } else {
        magic_shift_from(d, w, p + 1)
    }
}

/// The shift that goes with the divisor `d` of `w`-bit dividends.
pub open spec fn magic_shift(d: int, w: nat) -> nat {
    magic_shift_from(d, w, w)
}

/// The multiplier that goes with the divisor `d` of `w`-bit dividends: `2^shift / d`, rounded up.
pub open spec fn magic_multiplier(d: int, w: nat) -> int {
    (two_to(magic_shift(d, w)) - 1) / d + 1
}

proof fn lemma_shift_bounds(d: int, w: nat, p: nat)
    requires
        w <= p <= 2 * w,
    ensures
        p <= magic_shift_from(d, w, p) <= 2 * w,
    decreases 2 * w - p,
{
    if p >= 2 * w || magic_precise(d, w, p) {
    } else {
        lemma_shift_bounds(d, w, p + 1);
    }
}

/// The shift lies between `w` and `2 * w`.
pub proof fn lemma_magic_shift_bounds(d: int, w: nat)
    ensures
        w <= magic_shift(d, w) <= 2 * w,
{
    lemma_shift_bounds(d, w, w);
}

proof fn lemma_shift_precise(d: int, w: nat, p: nat)
    requires
        d >= 1,
        w <= p <= 2 * w,
        d <= two_to(w),
    ensures
        magic_precise(d, w, magic_shift_from(d, w, p)),
    decreases 2 * w - p,
{
    if p >= 2 * w {
        lemma_nc_shape(d, w);
        let nc = magic_nc(d, w);
        let delta = magic_delta(d, p);
        lemma_mod_bound(two_to(p) - 1, d);
        vstd::arithmetic::power2::lemma_pow2_adds(w, w);
        let t = two_to(w);
        assert(two_to(p) == t * t);
        assert(nc * delta < t * t) by (nonlinear_arith)
            requires
                0 <= nc <= t,
                0 <= delta < d,
                d <= t,
        ;
    } else if magic_precise(d, w, p) {
    } else {
        lemma_shift_precise(d, w, p + 1);
    }
}

/// `nc + 1` is the largest multiple of `d` up to `2^w + 1`.
proof fn lemma_nc_shape(d: int, w: nat)
    requires
        d >= 1,
        d <= two_to(w),
    ensures
        magic_nc(d, w) + 1 == d * ((two_to(w) + 1) / d),
        d - 1 <= magic_nc(d, w) <= two_to(w),
        (two_to(w) + 1) / d >= 1,
{
    let n = two_to(w) + 1;
    let di = d;
    // (n - d) % d == n % d
    lemma_fundamental_div_mod(n, di);
    let q = n / di;
    let r = n % di;
    lemma_mod_bound(n, di);
    assert(n - di == (q - 1) * di + r) by (nonlinear_arith)
        requires
            n == di * q + r,
    ;
    lemma_fundamental_div_mod_converse(n - di, di, q - 1, r);
    assert(magic_nc(d, w) == two_to(w) - r);
    assert(di * q == n - r);
    assert(q >= 1) by (nonlinear_arith)
        requires
            di * q == n - r,
            0 <= r < di,
            n >= di + 1,
            di >= 1,
    ;
    assert(di * q >= di) by (nonlinear_arith)
        requires
            q >= 1,
            di >= 1,
    ;
}

/// Multiplying by `m` and dividing by `e` divides by `d`, for every dividend
/// below `n - 1`, where `nc + 1` is the largest multiple of `d` up to `n`.
proof fn lemma_multiply_shift_divides(x: int, d: int, n: int, nc: int, e: int, m: int, delta: int)
    requires
        d >= 1,
        e >= 1,
        0 <= x,
        x + 1 <= n,
        nc + 1 == d * (n / d),
        nc >= d - 1,
        0 <= delta < d,
        m * d == e + delta,
        e > nc * delta,
    ensures
        (x * m) / e == x / d,
{
    let q = x / d;
    let r = x % d;
    let k = n / d;
    let rn = n % d;
    lemma_fundamental_div_mod(x, d);
    lemma_mod_bound(x, d);
    lemma_fundamental_div_mod(n, d);
    lemma_mod_bound(n, d);
    assert(x == d * q + r);
    assert(n == d * k + rn);
    assert(q >= 0) by (nonlinear_arith)
        requires
            x == d * q + r,
            0 <= r < d,
            x >= 0,
    ;
    assert(x * delta < (d - r) * e) by {
        if r == d - 1 {
            // x + 1 is a multiple of d, so it is at most nc + 1
            assert(q + 1 <= k) by (nonlinear_arith)
                requires
                    x == d * q + r,
                    r == d - 1,
                    x + 1 <= n,
                    n == d * k + rn,
                    0 <= rn < d,
            ;
            assert(d * q + d <= d * k) by (nonlinear_arith)
                requires
                    q + 1 <= k,
                    d >= 1,
            ;
            assert(x <= nc);
            assert(x * delta <= nc * delta) by (nonlinear_arith)
                requires
                    x <= nc,
                    delta >= 0,
            ;
            assert((d - r) * e == e) by (nonlinear_arith)
                requires
                    d - r == 1,
            ;
        } else {
            assert(q <= k) by (nonlinear_arith)
                requires
                    x == d * q + r,
                    0 <= r,
                    x + 1 <= n,
                    n == d * k + rn,
                    0 <= rn < d,
            ;
            assert(d * q <= d * k) by (nonlinear_arith)
                requires
                    q <= k,
                    d >= 1,
            ;
            assert(x <= nc + nc);
            assert(x * delta <= nc * delta + nc * delta) by (nonlinear_arith)
                requires
                    0 <= x <= nc + nc,
                    delta >= 0,
            ;
            assert((d - r) * e >= 2 * e) by (nonlinear_arith)
                requires
                    d - r >= 2,
                    e >= 1,
            ;
        }
    }
    // x * m lies in [q * e, (q + 1) * e)
    let y = x * m;
    assert(y * d == x * e + x * delta) by (nonlinear_arith)
        requires
            y == x * m,
            m * d == e + delta,
    ;
    assert(q * e <= y) by (nonlinear_arith)
        requires
            y * d == x * e + x * delta,
            x == d * q + r,
            r >= 0,
            x >= 0,
            delta >= 0,
            d >= 1,
            e >= 1,
    ;
    assert(y < (q + 1) * e) by (nonlinear_arith)
        requires
            y * d == x * e + x * delta,
            x == d * q + r,
            x * delta < (d - r) * e,
            d >= 1,
            e >= 1,
    ;
    let rem = y - q * e;
    assert(y == q * e + rem);
    assert(rem < e) by (nonlinear_arith)
        requires
            rem == y - q * e,
            y < (q + 1) * e,
    ;
    lemma_fundamental_div_mod_converse(y, e, q, rem);
}

/// Multiplication by the multiplier followed by the shift is division by `d`,
/// for every `w`-bit dividend.
pub proof fn lemma_magic_divides(d: int, w: nat, x: int)
    requires
        1 <= d <= two_to(w),
        0 <= x < two_to(w),
    ensures
        (x * magic_multiplier(d, w)) / two_to(magic_shift(d, w)) == x / d,
{
    let p = magic_shift(d, w);
    let e = two_to(p);
    let nc = magic_nc(d, w);
    let delta = magic_delta(d, p);
    let m = magic_multiplier(d, w);
    lemma_pow2_pos(p);
    lemma_nc_shape(d, w);
    lemma_shift_precise(d, w, w);
    // m * d == e + delta
    let q2 = (e - 1) / d;
    let r2 = (e - 1) % d;
    lemma_fundamental_div_mod(e - 1, d);
    lemma_mod_bound(e - 1, d);
    assert(m == q2 + 1);
    assert(m * d == e + delta) by (nonlinear_arith)
        requires
            m == q2 + 1,
            e - 1 == d * q2 + r2,
            delta == d - 1 - r2,
    ;
    lemma_multiply_shift_divides(x, d, two_to(w) + 1, nc, e, m, delta);
}

/// The multiplier is at least 1.
pub proof fn lemma_magic_multiplier_positive(d: int, w: nat)
    requires
        d >= 1,
    ensures
        magic_multiplier(d, w) >= 1,
{
    let e = two_to(magic_shift(d, w));
    lemma_pow2_pos(magic_shift(d, w));
    let q = (e - 1) / d;
    let r = (e - 1) % d;
    lemma_fundamental_div_mod(e - 1, d);
    lemma_mod_bound(e - 1, d);
    assert(q >= 0) by (nonlinear_arith)
        requires
            e - 1 == d * q + r,
            0 <= r < d,
            e >= 1,
            d >= 1,
    ;
}

/// Division by multiplication is division: for a divisor `d` of `bits`-wide
/// values, multiplying a `bits`-wide `x` by the multiplier that
/// [`compute_magic`] returns and dropping as many bits as its shift says
/// gives `x / d`. The product is taken at full width.
pub proof fn lemma_magic_division(d: u64, bits: u32, x: u64)
    requires
        d != 0,
        1 <= bits <= 64,
        d <= two_to(bits as nat),
        x < two_to(bits as nat),
    ensures
        (x * magic_multiplier(d as int, bits as nat)) / two_to(magic_shift(d as int, bits as nat))
            == x / d,
{
    lemma_magic_divides(d as int, bits as nat, x as int);
}

proof fn lemma_two_to_128()
    ensures
        two_to(64) == 0x1_0000_0000_0000_0000,
        two_to(128) == 0x1_0000_0000_0000_0000_0000_0000_0000_0000,
{
    lemma2_to64();
    vstd::arithmetic::power2::lemma_pow2_adds(64, 64);
}

proof fn lemma_two_to_monotonic(a: nat, b: nat)
    requires
        a <= b,
    ensures
        two_to(a) <= two_to(b),
{
    if a < b {
        lemma_pow2_strictly_increases(a, b);
    }
}

/// `2^e`.
fn power_of_two(e: u32) -> (r: u128)
    requires
        e <= 127,
    ensures
        r == two_to(e as nat),
{
    let mut r: u128 = 1;
    let mut i: u32 = 0;
    proof {
        lemma2_to64();
    }
    while i < e
        invariant
            i <= e <= 127,
            r == two_to(i as nat),
        decreases e - i,
    {
        proof {
            lemma_pow2_unfold((i + 1) as nat);
            lemma_two_to_monotonic((i + 1) as nat, 127);
            lemma_pow2_unfold(128);
            lemma_two_to_128();
        }
        r = r * 2;
        i += 1;
    }
    r
}

/// The test that ends the search says that the precision is enough.
proof fn lemma_precise_by_quotient(d: int, w: nat, p: nat, q1: int, r1: int, r2: int)
    requires
        d >= 1,
        magic_nc(d, w) >= 1,
        q1 * magic_nc(d, w) + r1 == two_to(p),
        0 <= r1 < magic_nc(d, w),
        r2 == (two_to(p) - 1) % d,
    ensures
        magic_precise(d, w, p) == !(q1 < d - 1 - r2 || (q1 == d - 1 - r2 && r1 == 0)),
{
    let nc = magic_nc(d, w);
    let delta = d - 1 - r2;
    let e = two_to(p);
    assert(delta == magic_delta(d, p));
    if q1 < delta {
        assert((q1 + 1) * nc <= delta * nc) by (nonlinear_arith)
            requires
                q1 + 1 <= delta,
                nc >= 0,
        ;
        assert(e < nc * delta) by (nonlinear_arith)
            requires
                q1 * nc + r1 == e,
                r1 < nc,
                (q1 + 1) * nc <= delta * nc,
        ;
    } else if q1 == delta {
        assert(q1 * nc == nc * delta) by (nonlinear_arith)
            requires
                q1 == delta,
        ;
    } else {
        assert(e > nc * delta) by (nonlinear_arith)
            requires
                q1 * nc + r1 == e,
                r1 >= 0,
                nc >= 1,
                q1 >= delta + 1,
        ;
    }
}

/// The multiplier and the shift that turn division of a `bits`-wide unsigned
/// value by `d` into a multiplication and a right shift. The multiplier may
/// need one bit more than `bits`, so it is given at full width.
pub fn compute_magic(d: u64, bits: u32) -> (r: (u128, u32))
    requires
        d != 0,
        1 <= bits <= 64,
        d <= two_to(bits as nat),
    ensures
        r.0 == magic_multiplier(d as int, bits as nat),
        r.1 == magic_shift(d as int, bits as nat),
{
    let ghost dg = d as int;
    let ghost wg = bits as nat;
    let d: u128 = d as u128;
    let w: u32 = bits;
    let half: u128 = power_of_two(w - 1);
    proof {
        lemma_pow2_unfold(wg);
        lemma_two_to_monotonic((wg - 1) as nat, 63);
        lemma_two_to_monotonic(wg, 64);
        lemma_two_to_128();
        lemma2_to64();
        lemma_nc_shape(dg, wg);
        lemma_pow2_pos((wg - 1) as nat);
    }
    let two_to_w: u128 = half * 2;
    let nc: u128 = two_to_w - ((two_to_w - d + 1) % d);
    assert(nc == magic_nc(dg, wg));
    // nc is at least 1, and at least 2 where w is 64
    assert(nc >= 1 && (wg == 64 ==> nc >= 2)) by {
        lemma_mod_bound(two_to(wg) - dg + 1, dg);
    }
    let mut p: u32 = w - 1;
    let mut q1: u128 = half / nc;
    let mut q2: u128 = (half - 1) / d;
    proof {
        lemma_fundamental_div_mod(half as int, nc as int);
        lemma_mod_bound(half as int, nc as int);
        lemma_fundamental_div_mod(half as int - 1, dg);
        lemma_mod_bound(half as int - 1, dg);
        assert(q1 * nc == nc * q1) by (nonlinear_arith);
        assert(q2 * d == d * q2) by (nonlinear_arith);
    }
    let mut r1: u128 = half - q1 * nc;
    let mut r2: u128 = (half - 1) - q2 * d;
    loop
        invariant_except_break
            w - 1 <= p < 2 * w,
            magic_shift(dg, wg) == magic_shift_from(dg, wg, (p + 1) as nat),
            d == 1 ==> p == w - 1,
        invariant
            w == bits,
            wg == bits as nat,
            1 <= w <= 64,
            dg == d,
            1 <= d <= two_to(wg),
            d < 0x1_0000_0000_0000_0000,
            nc == magic_nc(dg, wg),
            nc >= 1,
            wg == 64 ==> nc >= 2,
            nc <= two_to(wg),
            w - 1 <= p <= 2 * w,
            q1 * nc + r1 == two_to(p as nat),
            0 <= r1 < nc,
            q2 * d + r2 == two_to(p as nat) - 1,
            0 <= r2 < d,
        ensures
            p == magic_shift(dg, wg),
            d == 1 ==> p <= w,
        decreases 2 * w - p,
    {
        proof {
            lemma_pow2_unfold((p + 1) as nat);
            lemma_two_to_monotonic((p + 1) as nat, 128);
            lemma_two_to_monotonic(p as nat, 127);
            lemma_two_to_monotonic(wg, 64);
            lemma_pow2_unfold(128);
            lemma_two_to_128();
            // q1 < 2^127 and q2 < 2^127
            assert(q1 <= two_to(p as nat)) by (nonlinear_arith)
                requires
                    q1 * nc + r1 == two_to(p as nat),
                    nc >= 1,
                    r1 >= 0,
                    q1 >= 0,
            ;
            if p == 127 {
                assert(2 * q1 <= two_to(p as nat)) by (nonlinear_arith)
                    requires
                        q1 * nc + r1 == two_to(p as nat),
                        nc >= 2,
                        r1 >= 0,
                        q1 >= 0,
                ;
            } else {
                lemma_two_to_monotonic(p as nat, 126);
                lemma_pow2_unfold(127);
            }
            assert(q2 <= two_to(p as nat) - 1) by (nonlinear_arith)
                requires
                    q2 * d + r2 == two_to(p as nat) - 1,
                    d >= 1,
                    r2 >= 0,
                    q2 >= 0,
            ;
        }
        let ghost q1_old = q1 as int;
        let ghost q2_old = q2 as int;
        let ghost r1_old = r1 as int;
        let ghost r2_old = r2 as int;
        p = p + 1;
        if r1 >= nc - r1 {
            q1 = q1 * 2 + 1;
            r1 = r1 * 2 - nc;
        } else {
            q1 = q1 * 2;
            r1 = r1 * 2;
        }
        if r2 + 1 >= d - r2 {
            q2 = q2 * 2 + 1;
            r2 = r2 * 2 + 1 - d;
        } else {
            q2 = q2 * 2;
            r2 = r2 * 2 + 1;
        }
        proof {
            assert(q1 * nc + r1 == 2 * (q1_old * nc + r1_old)) by (nonlinear_arith)
                requires
                    (q1 == q1_old * 2 + 1 && r1 == r1_old * 2 - nc) || (q1 == q1_old * 2 && r1
                        == r1_old * 2),
            ;
            assert(q2 * d + r2 == 2 * (q2_old * d + r2_old) + 1) by (nonlinear_arith)
                requires
                    (q2 == q2_old * 2 + 1 && r2 == r2_old * 2 + 1 - d) || (q2 == q2_old * 2 && r2
                        == r2_old * 2 + 1),
            ;
            lemma_fundamental_div_mod_converse(two_to(p as nat) - 1, dg, q2 as int, r2 as int);
            lemma_precise_by_quotient(dg, wg, p as nat, q1 as int, r1 as int, r2 as int);
        }
        let delta: u128 = d - 1 - r2;
        proof {
            lemma_pow2_pos(p as nat);
            if d == 1 && q1 == 0 {
                assert(q1 * nc == 0) by (nonlinear_arith)
                    requires
                        q1 == 0,
                ;
            }
        }
        if p >= w * 2 || !(q1 < delta || (q1 == delta && r1 == 0)) {
            break;
        }
    }
    proof {
        lemma_fundamental_div_mod_converse(two_to(p as nat) - 1, dg, q2 as int, r2 as int);
        lemma_two_to_128();
        lemma_two_to_monotonic(p as nat, 128);
        if d == 1 {
            lemma_two_to_monotonic(p as nat, 64);
            assert(q2 * d == q2) by (nonlinear_arith)
                requires
                    d == 1,
            ;
        } else {
            assert(2 * q2 <= two_to(p as nat) - 1) by (nonlinear_arith)
                requires
                    q2 * d + r2 == two_to(p as nat) - 1,
                    d >= 2,
                    r2 >= 0,
                    q2 >= 0,
            ;
        }
    }
    let magic: u128 = q2 + 1;
    (magic, p)
}

} // verus!
