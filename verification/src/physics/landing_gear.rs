//! Spring-damper landing gear.
//!
//! Each wheel is a suspension strut: a downward ray from a fixed mount point on
//! the airframe. When the strut would intersect the ground it produces a spring
//! force, proportional to how far it is compressed, plus a damper force,
//! proportional to the compression speed. Lengths are in nanometres, forces in
//! nanonewtons.

use super::flight_config::{FlightModelConfig, LandingGearConfig};
use crate::fixed::{clamped, floor_div, root, root_exists, scale, scaled, sqrt_floor, ONE};
use crate::vector::{vec3, Vec3};
use vstd::prelude::*;

verus! {

/// One strut: where it mounts to the airframe, and how far it hangs straight down
/// when uncompressed.
#[derive(Clone, Copy, Debug, PartialEq, Eq, Structural)]
pub struct GearLeg {
    pub mount: Vec3,
    pub rest_length: i64,
}

/// The three struts, in the order nose, main left, main right. The nose has its
/// own rest length; both mains share theirs.
pub fn gear_legs(config: &FlightModelConfig) -> (legs: [GearLeg; 3])
    requires
        config.landing_gear.gear_track > i64::MIN,
    ensures
        ({
            let g = config.landing_gear;
            let half = g.gear_track as int / 2;
            legs@ == seq![
                GearLeg {
                    mount: Vec3 { x: 0, y: g.gear_nose_mount_height, z: g.gear_nose_z },
                    rest_length: g.gear_nose_rest_length,
                },
                GearLeg {
                    mount: Vec3 {
                        x: (-half) as i64,
                        y: g.gear_main_mount_height,
                        z: g.gear_main_z,
                    },
                    rest_length: g.gear_rest_length,
                },
                GearLeg {
                    mount: Vec3 { x: half as i64, y: g.gear_main_mount_height, z: g.gear_main_z },
                    rest_length: g.gear_rest_length,
                },
            ]
        }),
{
    let g: LandingGearConfig = config.landing_gear;
    let half: i64 = floor_div(g.gear_track as i128, 2) as i64;
    let legs: [GearLeg; 3] = [
        GearLeg {
            mount: vec3(0, g.gear_nose_mount_height, g.gear_nose_z),
            rest_length: g.gear_nose_rest_length,
        },
        GearLeg {
            mount: vec3(-half, g.gear_main_mount_height, g.gear_main_z),
            rest_length: g.gear_rest_length,
        },
        GearLeg {
            mount: vec3(half, g.gear_main_mount_height, g.gear_main_z),
            rest_length: g.gear_rest_length,
        },
    ];
    legs
}

/// Where a strut touches the ground: how far along it, and how far it is pushed
/// in.
#[derive(Clone, Copy, Debug, PartialEq, Eq, Structural)]
pub struct StrutContact {
    pub reach: i64,
    pub compression: i64,
}

/// A strut does not point meaningfully downward when the aircraft is on its side
/// or inverted.
pub const MIN_DOWN: i64 = 1_000_000;

/// Distance along the strut from the mount to the ground; `down` is how far the
/// strut's direction points down, as a positive fraction.
pub open spec fn strut_distance(mount_y: int, ground_y: int, down: int) -> int {
    ((mount_y - ground_y) * ONE) / down
}

/// The contact of a strut of the given rest length: none while the wheel hangs
/// above the ground or the strut points sideways or up. A mount below the ground
/// bottoms out.
pub open spec fn contact_of(mount_y: int, ground_y: int, down: int, rest: int) -> Option<
    StrutContact,
> {
    let t = strut_distance(mount_y, ground_y, down);
    if down < MIN_DOWN || t >= rest {
        None
    } else {
        Some(
            StrutContact {
                reach: clamped(t, 0, rest) as i64,
                compression: (rest - clamped(t, 0, rest)) as i64,
            },
        )
    }
}

/// A height that can be combined without leaving the range of the arithmetic: up
/// to a thousand kilometres.
pub open spec fn height_in_range(y: int) -> bool {
    -1_000_000_000_000_000 <= y <= 1_000_000_000_000_000
}

/// The contact of one strut.
pub fn strut_contact(mount_y: i64, ground_y: i64, down: i64, rest: i64) -> (c: Option<StrutContact>)
    requires
        height_in_range(mount_y as int),
        height_in_range(ground_y as int),
        rest >= 0,
    ensures
        c == contact_of(mount_y as int, ground_y as int, down as int, rest as int),
        c matches Some(s) ==> 0 <= s.compression <= rest && 0 <= s.reach <= rest,
{
    if down < MIN_DOWN {
        return None;
    }
    let n: i128 = (mount_y as i128 - ground_y as i128) * 1_000_000_000;
    let t: i128 = floor_div(n, down as i128);
    if t >= rest as i128 {
        return None;
    }
    let reach: i64 = if t < 0 {
        0
    } else {
        t as i64
    };
    Some(StrutContact { reach, compression: rest - reach })
}

/// A wheel clear of the ground makes no contact; a lower mount never compresses
/// the strut less.
pub proof fn lower_means_more_compressed(
    high: int,
    low: int,
    ground_y: int,
    down: int,
    rest: int,
)
    requires
        low <= high,
        down >= MIN_DOWN,
        0 <= rest <= i64::MAX,
    ensures
        contact_of(high, ground_y, down, rest) matches Some(a) ==> {
            &&& contact_of(low, ground_y, down, rest) matches Some(b)
            &&& b.compression >= a.compression
        },
{
    vstd::arithmetic::div_mod::lemma_div_is_ordered(
        (low - ground_y) * ONE,
        (high - ground_y) * ONE,
        down,
    );
}

impl LandingGearConfig {
    /// Stiffness, damping, grip and rest lengths are not negative and can be combined
    /// without leaving the range of the arithmetic.
    pub open spec fn sound(self) -> bool {
        &&& 0 <= self.gear_spring <= 1_000_000_000_000_000
        &&& 0 <= self.gear_damping <= 1_000_000_000_000_000
        &&& 0 <= self.gear_rest_length <= 1_000_000_000_000
        &&& 0 <= self.gear_nose_rest_length <= 1_000_000_000_000
        &&& 0 <= self.gear_grip <= 1_000_000_000_000_000
        &&& 0 <= self.gear_rolling_resistance <= 1_000_000_000_000
        &&& 0 <= self.gear_brake_strength <= 1_000_000_000_000
    }
}

/// Load on a strut: spring times compression plus damping times compression
/// speed; a strut can push but never pull.
pub open spec fn load_of(gear: LandingGearConfig, compression: int, speed: int) -> int {
    let f = scaled(gear.gear_spring as int, compression) + scaled(gear.gear_damping as int, speed);
    if f > 0 {
        f
    } else {
        0
    }
}

proof fn lemma_product_bound(a: int, b: int, x: int, y: int)
    requires
        0 <= a <= x,
        -y <= b <= y,
    ensures
        -(x * y) <= a * b <= x * y,
{
    assert(-(x * y) <= a * b <= x * y) by (nonlinear_arith)
        requires
            0 <= a <= x,
            -y <= b <= y,
    ;
}

/// Normal force of a strut.
pub fn normal_force(gear: &LandingGearConfig, compression: i64, speed: i64) -> (force: i64)
    requires
        gear.sound(),
        0 <= compression <= 1_000_000_000_000,
        -1_000_000_000_000 <= speed <= 1_000_000_000_000,
    ensures
        force == load_of(*gear, compression as int, speed as int),
        force >= 0,
{
    proof {
        lemma_product_bound(
            gear.gear_spring as int,
            compression as int,
            1_000_000_000_000_000,
            1_000_000_000_000,
        );
        lemma_product_bound(
            gear.gear_damping as int,
            speed as int,
            1_000_000_000_000_000,
            1_000_000_000_000,
        );
    }
    let f: i128 = scale(gear.gear_spring, compression) + scale(gear.gear_damping, speed);
    if f > 0 {
        f as i64
    } else {
        0
    }
}

/// Rolling resistance coefficient, with the brakes' share while they are held.
pub fn rolling_coefficient(gear: &LandingGearConfig, braking: bool) -> (crr: i64)
    requires
        gear.sound(),
    ensures
        crr == gear.gear_rolling_resistance + if braking {
            gear.gear_brake_strength as int
        } else {
            0
        },
{
    if braking {
        gear.gear_rolling_resistance + gear.gear_brake_strength
    } else {
        gear.gear_rolling_resistance
    }
}

/// The brakes never make the wheels roll more easily, and an unloaded strut does
/// not push.
pub proof fn gear_never_helps(gear: LandingGearConfig, speed: int)
    requires
        gear.sound(),
    ensures
        gear.gear_rolling_resistance + gear.gear_brake_strength >= gear.gear_rolling_resistance,
        speed <= 0 ==> load_of(gear, 0, speed) == 0,
{
    let d = gear.gear_damping as int;
    assert(speed <= 0 ==> d * speed <= 0) by (nonlinear_arith)
        requires
            d >= 0,
    ;
}

/// A resistance against a motion: the two of them in proportion, in opposite
/// directions, rounded toward zero.
pub open spec fn resisting(strength: int, v: int) -> int {
    if v >= 0 {
        -scaled(strength, v)
    } else {
        scaled(strength, -v)
    }
}

/// The viscous grip of a tyre that slides, before it is limited.
pub open spec fn grip_of(gear: LandingGearConfig, slide: Vec3) -> (int, int, int) {
    let g = gear.gear_grip as int;
    (resisting(g, slide.x as int), resisting(g, slide.y as int), resisting(g, slide.z as int))
}

/// The square of a force.
pub open spec fn strength_sq(f: (int, int, int)) -> int {
    f.0 * f.0 + f.1 * f.1 + f.2 * f.2
}

/// The square root of `n`, rounded up.
pub open spec fn root_above(n: int) -> int {
    if root(n) * root(n) == n {
        root(n)
    } else {
        root(n) + 1
    }
}

/// A component taken down to the share `limit / strength`, rounded toward zero.
pub open spec fn reduced(c: int, limit: int, strength: int) -> int {
    if c >= 0 {
        (c * limit) / strength
    } else {
        -(((-c) * limit) / strength)
    }
}

/// A force held to a limit: unchanged within it, else shortened to it.
pub open spec fn limited(f: (int, int, int), limit: int) -> (int, int, int) {
    let sq = strength_sq(f);
    if sq <= limit * limit {
        f
    } else {
        let l = root_above(sq);
        (reduced(f.0, limit, l), reduced(f.1, limit, l), reduced(f.2, limit, l))
    }
}

/// Rolling resistance of a wheel under a load, along the heading: the fraction
/// `crr` of the load, against the rolling. `rolling` is the direction of rolling,
/// between minus one and one, smoothed through zero.
pub open spec fn rolling_drag(crr: int, load: int, rolling: int) -> int {
    resisting(scaled(crr, load), rolling)
}

/// What a tyre does: it resists sliding sideways, and a little, or much while the
/// brakes are held, rolling.
#[derive(Clone, Copy, Debug, PartialEq, Eq, Structural)]
pub struct TyreForce {
    pub lateral: Vec3,
    /// Along the heading.
    pub rolling: i128,
}

fn resist(strength: i64, v: i64) -> (r: i64)
    requires
        0 <= strength <= 1_000_000_000_000_000,
        -1_000_000_000_000 <= v <= 1_000_000_000_000,
    ensures
        r == resisting(strength as int, v as int),
        -1_000_000_000_000_000_000 <= r <= 1_000_000_000_000_000_000,
{
    let m: i64 = if v >= 0 {
        v
    } else {
        -v
    };
    proof {
        lemma_product_bound(
            strength as int,
            m as int,
            1_000_000_000_000_000,
            1_000_000_000_000,
        );
        let p = strength * m;
        assert(p >= 0) by (nonlinear_arith)
            requires
                p == strength * m,
                0 <= strength,
                0 <= m,
        ;
    }
    let f: i64 = scale(strength, m) as i64;
    if v >= 0 {
        -f
    } else {
        f
    }
}

proof fn lemma_root_above(n: int)
    requires
        n > 0,
    ensures
        root_above(n) > 0,
        n <= root_above(n) * root_above(n),
{
    root_exists(n);
    let r = root(n);
    if r == 0 {
        assert(r * r == 0);
    }
}

proof fn lemma_reduced(c: int, limit: int, l: int)
    requires
        limit >= 0,
        l > 0,
    ensures
        (l * l) * (reduced(c, limit, l) * reduced(c, limit, l)) <= (limit * limit) * (c * c),
        c >= 0 ==> reduced(c, limit, l) >= 0,
        c <= 0 ==> reduced(c, limit, l) <= 0,
{
    let m = if c >= 0 {
        c
    } else {
        -c
    };
    let p = m * limit;
    let q = p / l;
    vstd::arithmetic::div_mod::lemma_fundamental_div_mod(p, l);
    let r = p % l;
    assert(p >= 0) by (nonlinear_arith)
        requires
            p == m * limit,
            m >= 0,
            limit >= 0,
    ;
    vstd::arithmetic::div_mod::lemma_div_pos_is_pos(p, l);
    assert(0 <= l * q <= p) by (nonlinear_arith)
        requires
            p == l * q + r,
            0 <= r,
            0 <= q,
            0 < l,
    ;
    if c == 0 {
        assert(p == 0) by (nonlinear_arith)
            requires
                p == m * limit,
                m == 0,
        ;
        vstd::arithmetic::div_mod::lemma_div_basics(l);
    }
    let a = l * q;
    assert(a * a <= p * p) by (nonlinear_arith)
        requires
            0 <= a <= p,
    ;
    assert(a * a == (l * l) * (q * q)) by (nonlinear_arith)
        requires
            a == l * q,
    ;
    assert(p * p == (limit * limit) * (m * m)) by (nonlinear_arith)
        requires
            p == m * limit,
    ;
    assert(m * m == c * c) by (nonlinear_arith)
        requires
            m == c || m == -c,
    ;
    let g = reduced(c, limit, l);
    assert(g * g == q * q) by (nonlinear_arith)
        requires
            g == q || g == -q,
    ;
}

/// A tyre cannot grip harder than the weight that presses it down.
pub proof fn grip_never_exceeds_the_load(f: (int, int, int), limit: int)
    requires
        limit >= 0,
    ensures
        strength_sq(limited(f, limit)) <= limit * limit,
{
    let sq = strength_sq(f);
    if sq > limit * limit {
        assert(0 <= limit * limit) by (nonlinear_arith);
        let l = root_above(sq);
        lemma_root_above(sq);
        let g = limited(f, limit);
        lemma_reduced(f.0, limit, l);
        lemma_reduced(f.1, limit, l);
        lemma_reduced(f.2, limit, l);
        let nn = limit * limit;
        let ll = l * l;
        let gg = strength_sq(g);
        assert(ll * gg == ll * (g.0 * g.0) + ll * (g.1 * g.1) + ll * (g.2 * g.2))
            by (nonlinear_arith)
            requires
                gg == g.0 * g.0 + g.1 * g.1 + g.2 * g.2,
        ;
        assert(nn * sq == nn * (f.0 * f.0) + nn * (f.1 * f.1) + nn * (f.2 * f.2))
            by (nonlinear_arith)
            requires
                sq == f.0 * f.0 + f.1 * f.1 + f.2 * f.2,
        ;
        assert(gg <= nn) by (nonlinear_arith)
            requires
                ll * gg <= nn * sq,
                sq <= ll,
                0 < ll,
                0 <= nn,
        ;
    }
}

proof fn lemma_resisting_sign(strength: int, v: int)
    requires
        strength >= 0,
    ensures
        v >= 0 ==> resisting(strength, v) <= 0,
        v <= 0 ==> resisting(strength, v) >= 0,
{
    assert(v >= 0 ==> strength * v >= 0) by (nonlinear_arith)
        requires
            strength >= 0,
    ;
    assert(v <= 0 ==> strength * -v >= 0) by (nonlinear_arith)
        requires
            strength >= 0,
    ;
}

/// Tyres only resist: along no axis does one push the way it slides, and rolling
/// resistance never drives the wheel on.
pub proof fn tyres_only_resist(
    gear: LandingGearConfig,
    slide: Vec3,
    load: int,
    crr: int,
    rolling: int,
)
    requires
        gear.gear_grip >= 0,
        load >= 0,
        crr >= 0,
    ensures
        ({
            let f = limited(grip_of(gear, slide), load);
            &&& slide.x >= 0 ==> f.0 <= 0
            &&& slide.x <= 0 ==> f.0 >= 0
            &&& slide.y >= 0 ==> f.1 <= 0
            &&& slide.y <= 0 ==> f.1 >= 0
            &&& slide.z >= 0 ==> f.2 <= 0
            &&& slide.z <= 0 ==> f.2 >= 0
        }),
        rolling >= 0 ==> rolling_drag(crr, load, rolling) <= 0,
        rolling <= 0 ==> rolling_drag(crr, load, rolling) >= 0,
{
    let g = grip_of(gear, slide);
    let k = gear.gear_grip as int;
    lemma_resisting_sign(k, slide.x as int);
    lemma_resisting_sign(k, slide.y as int);
    lemma_resisting_sign(k, slide.z as int);
    let sq = strength_sq(g);
    if sq > load * load {
        assert(0 <= load * load) by (nonlinear_arith);
        lemma_root_above(sq);
        let l = root_above(sq);
        lemma_reduced(g.0, load, l);
        lemma_reduced(g.1, load, l);
        lemma_reduced(g.2, load, l);
    }
    assert(crr * load >= 0) by (nonlinear_arith)
        requires
            crr >= 0,
            load >= 0,
    ;
    lemma_resisting_sign(scaled(crr, load), rolling);
}

fn reduce(c: i64, limit: i64, l: i64) -> (r: i64)
    requires
        -1_000_000_000_000_000_000 <= c <= 1_000_000_000_000_000_000,
        0 <= limit <= l,
        0 < l,
    ensures
        r == reduced(c as int, limit as int, l as int),
{
    let m: i128 = if c >= 0 {
        c as i128
    } else {
        -(c as i128)
    };
    let n: i128 = limit as i128;
    assert(0 <= m * n <= 1_000_000_000_000_000_000 * 0x7fff_ffff_ffff_ffff) by (nonlinear_arith)
        requires
            0 <= m <= 1_000_000_000_000_000_000,
            0 <= n <= 0x7fff_ffff_ffff_ffff,
    ;
    let q: i128 = m * n / l as i128;
    proof {
        let d = l as int;
        let p = (m * n) as int;
        vstd::arithmetic::div_mod::lemma_fundamental_div_mod(p, d);
        let r = p % d;
        assert(0 <= q <= m) by (nonlinear_arith)
            requires
                p == m * n,
                p == d * q + r,
                0 <= r < d,
                0 <= n <= d,
                0 <= m,
        ;
    }
    if c >= 0 {
        q as i64
    } else {
        -(q as i64)
    }
}

fn square(c: i64) -> (r: i128)
    requires
        -1_000_000_000_000_000_000 <= c <= 1_000_000_000_000_000_000,
    ensures
        r == c * c,
        0 <= r <= 1_000_000_000_000_000_000_000_000_000_000_000_000,
{
    let x: i128 = c as i128;
    assert(0 <= x * x <= 1_000_000_000_000_000_000_000_000_000_000_000_000) by (nonlinear_arith)
        requires
            -1_000_000_000_000_000_000 <= x <= 1_000_000_000_000_000_000,
    ;
    x * x
}

fn limit_force(f: &Vec3, limit: i64) -> (r: Vec3)
    requires
        -1_000_000_000_000_000_000 <= f.x <= 1_000_000_000_000_000_000,
        -1_000_000_000_000_000_000 <= f.y <= 1_000_000_000_000_000_000,
        -1_000_000_000_000_000_000 <= f.z <= 1_000_000_000_000_000_000,
        limit >= 0,
    ensures
        (r.x as int, r.y as int, r.z as int) == limited(
            (f.x as int, f.y as int, f.z as int),
            limit as int,
        ),
{
    let sq: i128 = square(f.x) + square(f.y) + square(f.z);
    let n: i128 = limit as i128;
    assert(0 <= n * n <= 0x7fff_ffff_ffff_ffff * 0x7fff_ffff_ffff_ffff) by (nonlinear_arith)
        requires
            0 <= n <= 0x7fff_ffff_ffff_ffff,
    ;
    if sq <= n * n {
        return *f;
    }
    let down: i64 = sqrt_floor(sq);
    let d: i128 = down as i128;
    assert(d <= 2_000_000_000_000_000_000) by (nonlinear_arith)
        requires
            0 <= d,
            d * d <= sq,
            sq <= 3_000_000_000_000_000_000_000_000_000_000_000_000,
    ;
    assert(0 <= d * d <= 4_000_000_000_000_000_000_000_000_000_000_000_000) by (nonlinear_arith)
        requires
            0 <= d <= 2_000_000_000_000_000_000,
    ;
    let l: i64 = if d * d == sq {
        down
    } else {
        down + 1
    };
    assert(n <= l) by (nonlinear_arith)
        requires
            n * n < sq,
            sq < (d + 1) * (d + 1),
            0 <= d,
            l == d || l == d + 1,
            l == d ==> d * d == sq,
    ;
    proof {
        lemma_root_above(sq as int);
    }
    vec3(reduce(f.x, limit, l), reduce(f.y, limit, l), reduce(f.z, limit, l))
}

/// The force of a tyre on the ground: `load` is what presses it down, `slide` its
/// sideways velocity, `rolling` the direction in which it rolls, smoothed through
/// zero so that a parked aircraft does not jitter.
pub fn tyre_force(
    gear: &LandingGearConfig,
    load: i64,
    slide: &Vec3,
    rolling: i64,
    braking: bool,
) -> (f: TyreForce)
    requires
        gear.sound(),
        load >= 0,
        -1_000_000_000_000 <= slide.x <= 1_000_000_000_000,
        -1_000_000_000_000 <= slide.y <= 1_000_000_000_000,
        -1_000_000_000_000 <= slide.z <= 1_000_000_000_000,
        -ONE <= rolling <= ONE,
    ensures
        (f.lateral.x as int, f.lateral.y as int, f.lateral.z as int) == limited(
            grip_of(*gear, *slide),
            load as int,
        ),
        f.rolling == rolling_drag(
            gear.gear_rolling_resistance + if braking {
                gear.gear_brake_strength as int
            } else {
                0
            },
            load as int,
            rolling as int,
        ),
{
    let grip: Vec3 = vec3(
        resist(gear.gear_grip, slide.x),
        resist(gear.gear_grip, slide.y),
        resist(gear.gear_grip, slide.z),
    );
    let lateral: Vec3 = limit_force(&grip, load);
    let drag: i128 = scale(rolling_coefficient(gear, braking), load);
    let m: i128 = if rolling >= 0 {
        rolling as i128
    } else {
        -(rolling as i128)
    };
    assert(-90_000_000_000_000_000_000_000_000_000 * 1_000_000_000 <= drag * m
        <= 90_000_000_000_000_000_000_000_000_000 * 1_000_000_000) by (nonlinear_arith)
        requires
            -90_000_000_000_000_000_000_000_000_000 <= drag
                <= 90_000_000_000_000_000_000_000_000_000,
            0 <= m <= 1_000_000_000,
    ;
    let held: i128 = floor_div(drag * m, 1_000_000_000);
    TyreForce {
        lateral,
        rolling: if rolling >= 0 {
            -held
        } else {
            held
        },
    }
}

/// Ground contact of the whole gear.
#[derive(Clone, Copy, Debug, PartialEq, Eq)]
pub struct GearContacts {
    pub nose: Option<StrutContact>,
    pub left: Option<StrutContact>,
    pub right: Option<StrutContact>,
    /// At least one strut touches the ground.
    pub on_ground: bool,
    pub braking: bool,
    /// Rolling resistance coefficient of every wheel.
    pub rolling: i64,
}

/// Which struts touch the ground. `mounts` and `grounds` are the heights of each
/// strut's mount and of the ground under it, in the order of [`gear_legs`].
pub fn apply_landing_gear(
    gear: &LandingGearConfig,
    down: i64,
    mounts: &[i64; 3],
    grounds: &[i64; 3],
    braking: bool,
) -> (c: GearContacts)
    requires
        gear.sound(),
        forall|i: int| 0 <= i < 3 ==> height_in_range(#[trigger] mounts@[i] as int),
        forall|i: int| 0 <= i < 3 ==> height_in_range(#[trigger] grounds@[i] as int),
    ensures
        c.nose == contact_of(
            mounts@[0] as int,
            grounds@[0] as int,
            down as int,
            gear.gear_nose_rest_length as int,
        ),
        c.left == contact_of(
            mounts@[1] as int,
            grounds@[1] as int,
            down as int,
            gear.gear_rest_length as int,
        ),
        c.right == contact_of(
            mounts@[2] as int,
            grounds@[2] as int,
            down as int,
            gear.gear_rest_length as int,
        ),
        c.on_ground <==> c.nose is Some || c.left is Some || c.right is Some,
        c.braking == braking,
        c.rolling == gear.gear_rolling_resistance + if braking {
            gear.gear_brake_strength as int
        } else {
            0
        },
{
    let nose: Option<StrutContact> = strut_contact(
        mounts[0],
        grounds[0],
        down,
        gear.gear_nose_rest_length,
    );
    let left: Option<StrutContact> = strut_contact(
        mounts[1],
        grounds[1],
        down,
        gear.gear_rest_length,
    );
    let right: Option<StrutContact> = strut_contact(
        mounts[2],
        grounds[2],
        down,
        gear.gear_rest_length,
    );
    let on_ground: bool = nose.is_some() || left.is_some() || right.is_some();
    GearContacts {
        nose,
        left,
        right,
        on_ground,
        braking,
        rolling: rolling_coefficient(gear, braking),
    }
}

/// An aircraft that is not the right way up has no wheel on the ground.
pub proof fn inverted_gear_is_airborne(mount_y: int, ground_y: int, down: int, rest: int)
    requires
        down < MIN_DOWN,
    ensures
        contact_of(mount_y, ground_y, down, rest) is None,
{
}

}
