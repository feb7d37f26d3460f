use vstd::prelude::*;

verus! {

/// The fixed-point one used for cosines and other unit-range factors.
pub const FIXED_ONE: u64 = 65536;

/// A direction in space with integer components.
///
/// Only the direction of a vector matters to the shading, so any real
/// direction with rational ratios between its components can be written
/// exactly as one of these (for instance `(0.5, 0.75, 1.0)` as `(2, 3, 4)`).
#[derive(Clone, Copy, Debug, PartialEq, Eq, Structural)]
pub struct Vec3 {
    pub x: i16,
    pub y: i16,
    pub z: i16,
}

/// The largest `r` in `[0, k]` with `r * r * y <= x`, or 0 when there is none.
pub open spec fn floor_root(x: int, y: int, k: nat) -> nat
    decreases k,
{
    if k == 0 {
        0
    } else if k * k * y <= x {
        k
    } else {
        floor_root(x, y, (k - 1) as nat)
    }
}

/// The cosine of the angle between `a` and `b` in fixed point (scaled by
/// `FIXED_ONE`), truncated toward zero.
///
/// A zero vector has no direction: its cosine with anything is 0, which is
/// what normalizing it to the zero vector and taking a dot product gives.
pub open spec fn cos_fp(a: Vec3, b: Vec3) -> int {
    let d = a.dot_spec(b);
    let y = a.norm_sq_spec() * b.norm_sq_spec();
    if y == 0 {
        0
    } else {
        let m = floor_root(FIXED_ONE * FIXED_ONE * (d * d), y, FIXED_ONE as nat) as int;
        if d < 0 {
            -m
        } else {
            m
        }
    }
}

impl Vec3 {
    pub open spec fn dot_spec(self, o: Vec3) -> int {
        self.x * o.x + self.y * o.y + self.z * o.z
    }

    pub open spec fn norm_sq_spec(self) -> int {
        self.dot_spec(self)
    }

    /// Whether this is `v` scaled by the integer `k`.
    pub open spec fn is_scaled_of(self, v: Vec3, k: int) -> bool {
        self.x == k * v.x && self.y == k * v.y && self.z == k * v.z
    }

    /// The dot product.
    pub fn dot(&self, o: &Vec3) -> (r: i64)
        ensures
            r == self.dot_spec(*o),
    {
        proof {
            lemma_component_product(self.x as int, o.x as int);
            lemma_component_product(self.y as int, o.y as int);
            lemma_component_product(self.z as int, o.z as int);
        }
        (self.x as i64) * (o.x as i64) + (self.y as i64) * (o.y as i64) + (self.z as i64) * (o.z
            as i64)
    }

    /// The squared length.
    pub fn norm_sq(&self) -> (r: i64)
        ensures
            r == self.norm_sq_spec(),
    {
        self.dot(self)
    }
}

proof fn lemma_component_product(a: int, b: int)
    requires
        -32768 <= a <= 32767,
        -32768 <= b <= 32767,
    ensures
        -1073741824 <= a * b <= 1073741824,
        0 <= a * a <= 1073741824,
{
    assert(-1073741824 <= a * b <= 1073741824) by (nonlinear_arith)
        requires
            -32768 <= a <= 32767,
            -32768 <= b <= 32767,
    ;
    assert(0 <= a * a <= 1073741824) by (nonlinear_arith)
        requires
            -32768 <= a <= 32767,
    ;
}

/// Bounds on dot products and squared lengths of vectors with 16-bit components.
pub proof fn lemma_dot_bounds(a: Vec3, b: Vec3)
    ensures
        -3221225472 <= a.dot_spec(b) <= 3221225472,
        0 <= a.norm_sq_spec() <= 3221225472,
{
    lemma_component_product(a.x as int, b.x as int);
    lemma_component_product(a.y as int, b.y as int);
    lemma_component_product(a.z as int, b.z as int);
    lemma_component_product(a.x as int, a.x as int);
    lemma_component_product(a.y as int, a.y as int);
    lemma_component_product(a.z as int, a.z as int);
}

/// `floor_root(x, y, k)` is the `r <= k` with `r * r * y <= x` that is
/// either `k` or has `x < (r + 1) * (r + 1) * y`.
pub proof fn lemma_floor_root(x: int, y: int, k: nat)
    requires
        y > 0,
        0 <= x,
    ensures
        floor_root(x, y, k) <= k,
        floor_root(x, y, k) * floor_root(x, y, k) * y <= x,
        floor_root(x, y, k) == k || x < (floor_root(x, y, k) + 1) * (floor_root(x, y, k) + 1) * y,
    decreases k,
{
    if k == 0 {
        assert(0 * 0 * y == 0) by (nonlinear_arith);
    } else if k * k * y <= x {
    } else {
        lemma_floor_root(x, y, (k - 1) as nat);
    }
}

/// Any `c <= k` with `c * c * y <= x` that is either `k` or has
/// `x < (c + 1) * (c + 1) * y` is `floor_root(x, y, k)`.
pub proof fn lemma_floor_root_unique(x: int, y: int, k: nat, c: nat)
    requires
        y > 0,
        c <= k,
        c * c * y <= x,
        c == k || x < (c + 1) * (c + 1) * y,
    ensures
        floor_root(x, y, k) == c,
    decreases k,
{
    if k == 0 {
    } else if k * k * y <= x {
        if k > c {
            assert((c + 1) * (c + 1) * y <= k * k * y) by (nonlinear_arith)
                requires
                    c + 1 <= k,
                    y > 0,
                    c >= 0,
            ;
        }
    } else {
        lemma_floor_root_unique(x, y, (k - 1) as nat, c);
    }
}

/// The fixed-point cosine has the sign of the dot product.
pub proof fn lemma_cos_fp_sign(a: Vec3, b: Vec3)
    ensures
        a.dot_spec(b) <= 0 ==> cos_fp(a, b) <= 0,
        a.dot_spec(b) >= 0 ==> cos_fp(a, b) >= 0,
{
    let y = a.norm_sq_spec() * b.norm_sq_spec();
    if a.dot_spec(b) == 0 && y != 0 {
        lemma_dot_bounds(a, a);
        lemma_dot_bounds(b, b);
        assert(y > 0) by (nonlinear_arith)
            requires
                y == a.norm_sq_spec() * b.norm_sq_spec(),
                a.norm_sq_spec() >= 0,
                b.norm_sq_spec() >= 0,
                y != 0,
        ;
        assert(0 * 0 * y == 0 && 1 * 1 * y == y) by (nonlinear_arith);
        assert(FIXED_ONE * FIXED_ONE * (0 * 0) == 0);
        lemma_floor_root_unique(0, y, FIXED_ONE as nat, 0);
    }
}

proof fn lemma_scaled_products(k: int, a: int, sa: int, b: int)
    requires
        sa == k * a,
    ensures
        sa * b == k * (a * b),
        sa * sa == (k * k) * (a * a),
{
    assert(sa * b == k * (a * b)) by (nonlinear_arith)
        requires
            sa == k * a,
    ;
    assert(sa * sa == (k * k) * (a * a)) by (nonlinear_arith)
        requires
            sa == k * a,
    ;
}

proof fn lemma_distrib3(k: int, p: int, q: int, r: int)
    ensures
        k * (p + q + r) == k * p + k * q + k * r,
{
    assert(k * (p + q + r) == k * p + k * q + k * r) by (nonlinear_arith);
}

/// Scaling the first vector by a positive factor leaves the fixed-point
/// cosine unchanged.
pub proof fn lemma_cos_fp_scale(a: Vec3, b: Vec3, sa: Vec3, k: int)
    requires
        k > 0,
        sa.is_scaled_of(a, k),
    ensures
        cos_fp(sa, b) == cos_fp(a, b),
{
    let d = a.dot_spec(b);
    let sd = sa.dot_spec(b);
    let n = a.norm_sq_spec();
    let sn = sa.norm_sq_spec();
    let m = b.norm_sq_spec();
    let (ax, ay, az) = (a.x as int, a.y as int, a.z as int);
    let (sx, sy, sz) = (sa.x as int, sa.y as int, sa.z as int);
    let (bx, by, bz) = (b.x as int, b.y as int, b.z as int);
    lemma_scaled_products(k, ax, sx, bx);
    lemma_scaled_products(k, ay, sy, by);
    lemma_scaled_products(k, az, sz, bz);
    lemma_distrib3(k, ax * bx, ay * by, az * bz);
    lemma_distrib3(k * k, ax * ax, ay * ay, az * az);
    assert(sd == k * d);
    assert(sn == (k * k) * n);
    let y = n * m;
    let sy2 = sn * m;
    assert(sy2 == (k * k) * y) by (nonlinear_arith)
        requires
            sy2 == sn * m,
            sn == (k * k) * n,
            y == n * m,
    ;
    lemma_dot_bounds(a, a);
    lemma_dot_bounds(b, b);
    assert(y >= 0 && k * k > 0) by (nonlinear_arith)
        requires
            y == n * m,
            n >= 0,
            m >= 0,
            k > 0,
    ;
    assert(sy2 == 0 <==> y == 0) by (nonlinear_arith)
        requires
            sy2 == (k * k) * y,
            k * k > 0,
    ;
    assert(sd < 0 <==> d < 0) by (nonlinear_arith)
        requires
            sd == k * d,
            k > 0,
    ;
    if y != 0 {
        let one = FIXED_ONE as int;
        let x = one * one * (d * d);
        let sx2 = one * one * (sd * sd);
        assert(sx2 == (k * k) * x) by (nonlinear_arith)
            requires
                sx2 == one * one * (sd * sd),
                x == one * one * (d * d),
                sd == k * d,
        ;
        assert(x >= 0) by (nonlinear_arith)
            requires
                x == one * one * (d * d),
        ;
        lemma_floor_root(x, y, FIXED_ONE as nat);
        let r = floor_root(x, y, FIXED_ONE as nat) as int;
        assert(r * r * sy2 <= sx2) by (nonlinear_arith)
            requires
                r * r * y <= x,
                sy2 == (k * k) * y,
                sx2 == (k * k) * x,
                k * k > 0,
        ;
        assert(x < (r + 1) * (r + 1) * y ==> sx2 < (r + 1) * (r + 1) * sy2) by (nonlinear_arith)
            requires
                sy2 == (k * k) * y,
                sx2 == (k * k) * x,
                k * k > 0,
        ;
        lemma_floor_root_unique(sx2, sy2, FIXED_ONE as nat, r as nat);
    }
}

/// The fixed-point cosine of the angle between `a` and `b`, as `cos_fp` defines it.
pub fn cos_fixed(a: &Vec3, b: &Vec3) -> (r: i64)
    ensures
        r == cos_fp(*a, *b),
        -(FIXED_ONE as int) <= r <= FIXED_ONE,
{
    let d = a.dot(b);
    let na = a.norm_sq();
    let nb = b.norm_sq();
    proof {
        lemma_dot_bounds(*a, *b);
        lemma_dot_bounds(*b, *a);
    }
    if na == 0 || nb == 0 {
        assert(na * nb == 0) by (nonlinear_arith)
            requires
                na == 0 || nb == 0,
        ;
        return 0;
    }
    let ad: u128 = if d < 0 {
        (-d) as u128
    } else {
        d as u128
    };
    let ghost yi: int = na * nb;
    let ghost xi: int = FIXED_ONE * FIXED_ONE * (d * d);
    assert(0 < yi <= 3221225472 * 3221225472) by (nonlinear_arith)
        requires
            yi == na * nb,
            0 < na <= 3221225472,
            0 < nb <= 3221225472,
    ;
    assert(ad * ad == d * d) by (nonlinear_arith)
        requires
            ad == d || ad == -d,
    ;
    let y: u128 = (na as u128) * (nb as u128);
    let one: u128 = FIXED_ONE as u128;
    assert(ad * ad <= 3221225472 * 3221225472) by (nonlinear_arith)
        requires
            0 <= ad <= 3221225472,
    ;
    assert(one * one * (ad * ad) <= 65536 * 65536 * (3221225472 * 3221225472)) by (nonlinear_arith)
        requires
            one == 65536,
            0 <= ad * ad <= 3221225472 * 3221225472,
    ;
    let x: u128 = one * one * (ad * ad);
    let mut lo: u128 = 0;
    let mut hi: u128 = one + 1;
    assert(lo * lo * yi == 0) by (nonlinear_arith)
        requires
            lo == 0,
    ;
    while lo + 1 < hi
        invariant
            0 <= lo < hi <= one + 1,
            one == FIXED_ONE,
            y == yi,
            x == xi,
            0 < yi <= 3221225472 * 3221225472,
            lo * lo * yi <= xi,
            hi <= one ==> xi < hi * hi * yi,
        decreases hi - lo,
    {
        let mid: u128 = lo + (hi - lo) / 2;
        assert(mid * mid * yi <= 65537 * 65537 * (3221225472 * 3221225472)) by (nonlinear_arith)
            requires
                0 <= mid <= 65537,
                0 < yi <= 3221225472 * 3221225472,
        ;
        assert(mid * mid <= 65537 * 65537) by (nonlinear_arith)
            requires
                0 <= mid <= 65537,
        ;
        if mid * mid * y <= x {
            lo = mid;
        } else {
            hi = mid;
        }
    }
    proof {
        assert(lo * lo * yi >= 0) by (nonlinear_arith)
            requires
                yi > 0,
        ;
        lemma_floor_root_unique(xi, yi, FIXED_ONE as nat, lo as nat);
    }
    let m = lo as i64;
    if d < 0 {
        -m
    } else {
        m
    }
}

} // verus!
