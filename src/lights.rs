use crate::color::{Coeffs, RGB};
use crate::vector::{cos_fixed, cos_fp, lemma_cos_fp_scale, lemma_cos_fp_sign, Vec3, FIXED_ONE};
use vstd::prelude::*;

verus! {

/// The specular exponent ("shininess").
pub const SHININESS: u64 = 10;

/// One step of an output channel in term units. A term is a color channel
/// times a coefficient in thousandths times a factor in fixed point, so one
/// channel step is `1000 * FIXED_ONE` term units.
pub const TERM_UNIT: u64 = 65536000;

/// The largest value a single term may take: 255 channel steps.
pub const TERM_CAP: u64 = 16711680000;

/// A term clamped to `[0, 255]` channel steps.
pub open spec fn clamp_term(t: int) -> int {
    if t < 0 {
        0
    } else if t > TERM_CAP {
        TERM_CAP as int
    } else {
        t
    }
}

/// The diffuse factor: the cosine between normal and light direction,
/// clamped below at zero (fixed point).
pub open spec fn diffuse_factor(normal: Vec3, dir: Vec3) -> int {
    let c = cos_fp(normal, dir);
    if c < 0 {
        0
    } else {
        c
    }
}

/// `(2 n (n . l) - l) . v` for the unit vectors `n`, `l`, `v` along normal,
/// light and view, where `n . l` is the clamped diffuse factor: the cosine
/// between the mirrored light direction and the view, scaled by
/// `FIXED_ONE * FIXED_ONE`.
pub open spec fn reflect_view(normal: Vec3, dir: Vec3, view: Vec3) -> int {
    2 * diffuse_factor(normal, dir) * cos_fp(normal, view) - FIXED_ONE * cos_fp(dir, view)
}

/// `reflect_view` clamped below at zero, in fixed point (rounded down).
pub open spec fn highlight_base(normal: Vec3, dir: Vec3, view: Vec3) -> int {
    let r = reflect_view(normal, dir, view);
    if r <= 0 {
        0
    } else {
        r / (FIXED_ONE as int)
    }
}

/// `p` to the power `e` in fixed point, rounding down after each product.
pub open spec fn pow_fp(p: int, e: nat) -> int
    decreases e,
{
    if e == 0 {
        FIXED_ONE as int
    } else {
        pow_fp(p, (e - 1) as nat) * p / (FIXED_ONE as int)
    }
}

/// The specular factor: the clamped highlight base to the power `SHININESS`.
pub open spec fn specular_factor(normal: Vec3, dir: Vec3, view: Vec3) -> int {
    pow_fp(highlight_base(normal, dir, view), SHININESS as nat)
}

/// Three to the power `e`: a bound on `pow_fp` of a base of at most three.
pub open spec fn three_pow(e: nat) -> int
    decreases e,
{
    if e == 0 {
        1
    } else {
        3 * three_pow((e - 1) as nat)
    }
}

proof fn lemma_three_pow_mono(i: nat, j: nat)
    requires
        i <= j,
    ensures
        1 <= three_pow(i) <= three_pow(j),
    decreases j,
{
    if i < j {
        lemma_three_pow_mono(i, (j - 1) as nat);
    } else if i > 0 {
        lemma_three_pow_mono((i - 1) as nat, (i - 1) as nat);
    }
}

proof fn lemma_three_pow_shininess()
    ensures
        three_pow(SHININESS as nat) == 59049,
{
    reveal_with_fuel(three_pow, 11);
}

fn clamp_term_exec(t: u64) -> (r: u64)
    ensures
        r == clamp_term(t as int),
{
    if t > TERM_CAP {
        TERM_CAP
    } else {
        t
    }
}

/// `pow_fp(p, e)`, computed by `e` fixed-point products.
fn pow_fixed(p: u64, e: u64) -> (r: u64)
    requires
        p <= 3 * FIXED_ONE,
        e <= SHININESS,
    ensures
        r == pow_fp(p as int, e as nat),
        r <= 59049 * FIXED_ONE,
{
    proof {
        lemma_three_pow_shininess();
    }
    let mut acc: u64 = FIXED_ONE;
    let mut i: u64 = 0;
    while i < e
        invariant
            i <= e <= SHININESS,
            p <= 3 * FIXED_ONE,
            three_pow(SHININESS as nat) == 59049,
            acc == pow_fp(p as int, i as nat),
            acc <= three_pow(i as nat) * FIXED_ONE,
        decreases e - i,
    {
        proof {
            lemma_three_pow_mono((i + 1) as nat, SHININESS as nat);
            assert(three_pow((i + 1) as nat) == 3 * three_pow(i as nat));
            assert(acc * p <= (three_pow(i as nat) * FIXED_ONE) * (3 * FIXED_ONE)) by (nonlinear_arith)
                requires
                    0 <= acc <= three_pow(i as nat) * FIXED_ONE,
                    0 <= p <= 3 * FIXED_ONE,
            ;
            assert(acc * p / (FIXED_ONE as int) <= three_pow((i + 1) as nat) * FIXED_ONE)
                by (nonlinear_arith)
                requires
                    acc * p <= (three_pow(i as nat) * FIXED_ONE) * (3 * FIXED_ONE),
                    three_pow((i + 1) as nat) == 3 * three_pow(i as nat),
                    acc * p >= 0,
                    FIXED_ONE == 65536,
            ;
        }
        acc = acc * p / FIXED_ONE;
        i = i + 1;
    }
    proof {
        lemma_three_pow_mono(i as nat, SHININESS as nat);
    }
    acc
}

/// `highlight_base` of the given normal, light direction and view.
fn highlight(normal: &Vec3, dir: &Vec3, view: &Vec3) -> (r: u64)
    ensures
        r == highlight_base(*normal, *dir, *view),
        r <= 3 * FIXED_ONE,
{
    let c = cos_fixed(normal, dir);
    let df: i64 = if c < 0 {
        0
    } else {
        c
    };
    let nv = cos_fixed(normal, view);
    let dv = cos_fixed(dir, view);
    assert(-65536 * 65536 <= df * nv <= 65536 * 65536) by (nonlinear_arith)
        requires
            0 <= df <= 65536,
            -65536 <= nv <= 65536,
    ;
    assert(-65536 * 65536 <= 65536 * dv <= 65536 * 65536) by (nonlinear_arith)
        requires
            -65536 <= dv <= 65536,
    ;
    let rv: i64 = 2 * (df * nv) - (FIXED_ONE as i64) * dv;
    assert(2 * (df * nv) == 2 * df * nv) by (nonlinear_arith);
    if rv <= 0 {
        0
    } else {
        assert(rv / 65536 <= 3 * 65536) by (nonlinear_arith)
            requires
                0 < rv <= 3 * 65536 * 65536,
        ;
        (rv as u64) / FIXED_ONE
    }
}

/// One output channel: the ambient, diffuse and specular terms, each clamped
/// to `[0, 255]` channel steps, summed, rounded down to whole steps and
/// saturated at 255.
pub open spec fn channel_value(
    acoef: int,
    ambient: int,
    dcoef: int,
    scoef: int,
    light: int,
    dfac: int,
    sfac: int,
) -> int {
    let sum = clamp_term(acoef * ambient * FIXED_ONE) + clamp_term(light * dcoef * dfac)
        + clamp_term(light * scoef * sfac);
    let steps = sum / (TERM_UNIT as int);
    if steps > 255 {
        255
    } else {
        steps
    }
}

/// The lighting of a scene: one ambient light, one directional light, the
/// direction toward the viewer and the reflection coefficients of the surface.
#[derive(Clone, Copy, Debug, PartialEq, Eq, Structural)]
pub struct LightConfig {
    /// Direction from the surface toward the viewer.
    pub view: Vec3,
    /// Color of the ambient light.
    pub ambient_color: RGB,
    /// Color of the directional light.
    pub dir_color: RGB,
    /// Direction from the surface toward the directional light.
    pub dir_vec: Vec3,
    /// Ambient reflection coefficients.
    pub areflect: Coeffs,
    /// Diffuse reflection coefficients.
    pub dreflect: Coeffs,
    /// Specular reflection coefficients.
    pub sreflect: Coeffs,
}

/// `channel_value` of the given coefficients, colors and factors.
fn shade_one(
    acoef: u16,
    ambient: u8,
    dcoef: u16,
    scoef: u16,
    light: u8,
    dfac: u64,
    sfac: u64,
) -> (r: u8)
    requires
        dfac <= FIXED_ONE,
        sfac <= 59049 * FIXED_ONE,
    ensures
        r == channel_value(
            acoef as int,
            ambient as int,
            dcoef as int,
            scoef as int,
            light as int,
            dfac as int,
            sfac as int,
        ),
{
    assert(acoef * ambient * 65536 <= 65535 * 255 * 65536) by (nonlinear_arith)
        requires
            acoef <= 65535,
            ambient <= 255,
    ;
    assert(light * dcoef * dfac <= 255 * 65535 * 65536) by (nonlinear_arith)
        requires
            light <= 255,
            dcoef <= 65535,
            dfac <= 65536,
    ;
    assert(light * scoef * sfac <= 255 * 65535 * (59049 * 65536)) by (nonlinear_arith)
        requires
            light <= 255,
            scoef <= 65535,
            sfac <= 59049 * 65536,
    ;
    assert(light * dcoef <= 255 * 65535 && light * scoef <= 255 * 65535) by (nonlinear_arith)
        requires
            light <= 255,
            dcoef <= 65535,
            scoef <= 65535,
    ;
    let a = clamp_term_exec((acoef as u64) * (ambient as u64) * FIXED_ONE);
    let d = clamp_term_exec((light as u64) * (dcoef as u64) * dfac);
    let s = clamp_term_exec((light as u64) * (scoef as u64) * sfac);
    let steps = (a + d + s) / TERM_UNIT;
    if steps > 255 {
        255
    } else {
        steps as u8
    }
}

impl LightConfig {
    /// The color of a surface point with the given normal: the sum of the
    /// ambient, diffuse and specular terms of each channel, each term
    /// clamped to `[0, 255]`, the sum saturated at 255.
    ///
    /// The normal need not have unit length. A zero normal has no direction
    /// and counts as perpendicular to every direction.
    pub fn get_color_from_norm(&self, normal: Vec3) -> (r: RGB)
        ensures
            r.red == self.shade_channel(normal, 0),
            r.green == self.shade_channel(normal, 1),
            r.blue == self.shade_channel(normal, 2),
    {
        let c = cos_fixed(&normal, &self.dir_vec);
        let dfac: u64 = if c < 0 {
            0
        } else {
            c as u64
        };
        let sfac = pow_fixed(highlight(&normal, &self.dir_vec, &self.view), SHININESS);
        let red = shade_one(
            self.areflect.red,
            self.ambient_color.red,
            self.dreflect.red,
            self.sreflect.red,
            self.dir_color.red,
            dfac,
            sfac,
        );
        let green = shade_one(
            self.areflect.green,
            self.ambient_color.green,
            self.dreflect.green,
            self.sreflect.green,
            self.dir_color.green,
            dfac,
            sfac,
        );
        let blue = shade_one(
            self.areflect.blue,
            self.ambient_color.blue,
            self.dreflect.blue,
            self.sreflect.blue,
            self.dir_color.blue,
            dfac,
            sfac,
        );
        RGB { red, green, blue }
    }

    /// The ambient term of channel `k`, in term units.
    pub open spec fn ambient_term(self, k: int) -> int {
        clamp_term(self.areflect.channel(k) * self.ambient_color.channel(k) * FIXED_ONE)
    }

    /// The diffuse term of channel `k`, in term units.
    pub open spec fn diffuse_term(self, normal: Vec3, k: int) -> int {
        clamp_term(
            self.dir_color.channel(k) * self.dreflect.channel(k) * diffuse_factor(
                normal,
                self.dir_vec,
            ),
        )
    }

    /// The specular term of channel `k`, in term units.
    pub open spec fn specular_term(self, normal: Vec3, k: int) -> int {
        clamp_term(
            self.dir_color.channel(k) * self.sreflect.channel(k) * specular_factor(
                normal,
                self.dir_vec,
                self.view,
            ),
        )
    }

    /// Channel `k` of the color of a surface point with the given normal.
    pub open spec fn shade_channel(self, normal: Vec3, k: int) -> int {
        channel_value(
            self.areflect.channel(k),
            self.ambient_color.channel(k),
            self.dreflect.channel(k),
            self.sreflect.channel(k),
            self.dir_color.channel(k),
            diffuse_factor(normal, self.dir_vec),
            specular_factor(normal, self.dir_vec, self.view),
        )
    }
}

impl LightConfig {
    /// A sample lighting: no ambient light, a yellow light from `(2, 3, 4)`,
    /// the viewer along `z`, and coefficients 0.1 (ambient), 0.5 (diffuse)
    /// and 0.5 (specular) on every channel.
    pub fn test_light() -> (r: LightConfig)
        ensures
            r.view == (Vec3 { x: 0, y: 0, z: 1 }),
            r.ambient_color == (RGB { red: 0, green: 0, blue: 0 }),
            r.dir_color == (RGB { red: 252, green: 219, blue: 3 }),
            r.dir_vec == (Vec3 { x: 2, y: 3, z: 4 }),
            r.areflect == (Coeffs { red: 100, green: 100, blue: 100 }),
            r.dreflect == (Coeffs { red: 500, green: 500, blue: 500 }),
            r.sreflect == (Coeffs { red: 500, green: 500, blue: 500 }),
    {
        LightConfig {
            view: Vec3 { x: 0, y: 0, z: 1 },
            ambient_color: RGB { red: 0, green: 0, blue: 0 },
            dir_color: RGB { red: 252, green: 219, blue: 3 },
            dir_vec: Vec3 { x: 2, y: 3, z: 4 },
            areflect: Coeffs { red: 100, green: 100, blue: 100 },
            dreflect: Coeffs { red: 500, green: 500, blue: 500 },
            sreflect: Coeffs { red: 500, green: 500, blue: 500 },
        }
    }
}

/// Every channel of the color is the sum of its ambient, diffuse and
/// specular terms, rounded down to whole channel steps and saturated at 255,
/// and each of the three terms lies in `[0, 255]` channel steps before the sum.
pub proof fn lemma_terms_clamped(light: LightConfig, normal: Vec3, k: int)
    ensures
        0 <= light.ambient_term(k) <= TERM_CAP,
        0 <= light.diffuse_term(normal, k) <= TERM_CAP,
        0 <= light.specular_term(normal, k) <= TERM_CAP,
        light.shade_channel(normal, k) == (if (light.ambient_term(k) + light.diffuse_term(normal, k)
            + light.specular_term(normal, k)) / (TERM_UNIT as int) > 255 {
            255
        } else {
            (light.ambient_term(k) + light.diffuse_term(normal, k) + light.specular_term(normal, k))
                / (TERM_UNIT as int)
        }),
        0 <= light.shade_channel(normal, k) <= 255,
{
}

/// `pow_fp` of a zero base to a positive power is zero.
proof fn lemma_pow_fp_zero(e: nat)
    requires
        e > 0,
    ensures
        pow_fp(0, e) == 0,
{
}

/// Light from behind the surface (normal and light direction at more than a
/// right angle) gives no diffuse term; it gives no specular term either,
/// unless the viewer faces against the light.
pub proof fn lemma_light_behind(light: LightConfig, normal: Vec3, k: int)
    requires
        normal.dot_spec(light.dir_vec) <= 0,
    ensures
        diffuse_factor(normal, light.dir_vec) == 0,
        light.diffuse_term(normal, k) == 0,
        light.dir_vec.dot_spec(light.view) >= 0 ==> light.specular_term(normal, k) == 0,
{
    lemma_cos_fp_sign(normal, light.dir_vec);
    lemma_cos_fp_sign(light.dir_vec, light.view);
    lemma_pow_fp_zero(SHININESS as nat);
    if light.dir_vec.dot_spec(light.view) >= 0 {
        assert(reflect_view(normal, light.dir_vec, light.view) <= 0) by (nonlinear_arith)
            requires
                reflect_view(normal, light.dir_vec, light.view) == 2 * 0 * cos_fp(
                    normal,
                    light.view,
                ) - FIXED_ONE * cos_fp(light.dir_vec, light.view),
                cos_fp(light.dir_vec, light.view) >= 0,
        ;
    }
}

/// The color depends on the normal only through its direction: scaling the
/// normal by a positive factor leaves every channel unchanged.
pub proof fn lemma_normal_scale_invariant(light: LightConfig, normal: Vec3, scaled: Vec3, k: int)
    requires
        k > 0,
        scaled.is_scaled_of(normal, k),
    ensures
        forall|c: int| #[trigger]
            light.shade_channel(scaled, c) == light.shade_channel(normal, c),
{
    lemma_cos_fp_scale(normal, light.dir_vec, scaled, k);
    lemma_cos_fp_scale(normal, light.view, scaled, k);
}

/// With a black directional light the diffuse and specular terms vanish
/// and each channel is the ambient term alone.
pub proof fn lemma_ambient_only(light: LightConfig, normal: Vec3, k: int)
    requires
        light.dir_color == (RGB { red: 0, green: 0, blue: 0 }),
    ensures
        light.diffuse_term(normal, k) == 0,
        light.specular_term(normal, k) == 0,
        light.shade_channel(normal, k) == (if light.ambient_term(k) / (TERM_UNIT as int) > 255 {
            255
        } else {
            light.ambient_term(k) / (TERM_UNIT as int)
        }),
{
    let c = light.dir_color.channel(k);
    let dfac = diffuse_factor(normal, light.dir_vec);
    let sfac = specular_factor(normal, light.dir_vec, light.view);
    assert(c * light.dreflect.channel(k) * dfac == 0 && c * light.sreflect.channel(k) * sfac == 0)
        by (nonlinear_arith)
        requires
            c == 0,
    ;
}

/// A zero normal has a fixed outcome: it counts as perpendicular to the
/// light, so the diffuse term vanishes, and the mirrored light direction is
/// the reversed light direction.
pub proof fn lemma_zero_normal(light: LightConfig, normal: Vec3, k: int)
    requires
        normal == (Vec3 { x: 0, y: 0, z: 0 }),
    ensures
        diffuse_factor(normal, light.dir_vec) == 0,
        light.diffuse_term(normal, k) == 0,
        reflect_view(normal, light.dir_vec, light.view) == -(FIXED_ONE * cos_fp(
            light.dir_vec,
            light.view,
        )),
{
    assert(normal.norm_sq_spec() == 0);
}

} // verus!
