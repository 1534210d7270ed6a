//! The aircraft's own state and the forces that follow from it directly.

use crate::fixed::{clamp, clamped, floor_div, scaled, ONE};
use crate::plane::PlaneState;
use crate::vector::{mixed, vec3, Vec3, Wide3};
use vstd::prelude::*;

verus! {

/// Running state of the piston engine. `Off` is cold and dark, `Cranking` while
/// the starter is engaged, `Running` once it fires on its own.
#[derive(Clone, Copy, PartialEq, Eq, Debug, Structural)]
pub enum EngineState {
    Off,
    Cranking,
    Running,
}

impl Default for EngineState {
    fn default() -> (state: Self)
        ensures
            state == EngineState::Running,
    {
        EngineState::Running
    }
}

/// Runtime state of one aircraft. Levers have nine decimals, angles are in
/// nanoradians, the crank timer in nanoseconds.
#[derive(Clone, Copy, PartialEq, Eq, Debug, Structural)]
pub struct AircraftRoot {
    /// Throttle lever, zero to one.
    pub throttle_percent: i64,
    /// Live engine speed (rev/s). The throttle sets a target that this value
    /// spools toward.
    pub engine_rps: i64,
    pub engine_state: EngineState,
    /// How long the starter has been cranking.
    pub crank_timer: u64,
    /// Mixture lever, zero (idle cutoff) to one (full rich).
    pub mixture: i64,
    /// Commanded flap deflection.
    pub flap_target: i64,
    /// Actual flap deflection, which moves toward the target at a finite rate.
    pub flap_setting: i64,
}

impl AircraftRoot {
    /// The levers are between their stops, the engine does not turn backwards,
    /// and the flaps stay within a turn and a half.
    pub open spec fn wf(self) -> bool {
        &&& 0 <= self.throttle_percent <= ONE
        &&& 0 <= self.mixture <= ONE
        &&& 0 <= self.engine_rps
        &&& -10_000_000_000 <= self.flap_target <= 10_000_000_000
        &&& -10_000_000_000 <= self.flap_setting <= 10_000_000_000
    }
}

impl Default for AircraftRoot {
    fn default() -> (root: Self)
        ensures
            root == (AircraftRoot {
                throttle_percent: ONE,
                engine_rps: 0,
                engine_state: EngineState::Running,
                crank_timer: 0,
                mixture: ONE,
                flap_target: 0,
                flap_setting: 0,
            }),
            root.wf(),
    {
        AircraftRoot {
            throttle_percent: ONE,
            engine_rps: 0,
            engine_state: EngineState::default(),
            crank_timer: 0,
            mixture: ONE,
            flap_target: 0,
            flap_setting: 0,
        }
    }
}

/// Engine speed as a fraction of full speed.
pub open spec fn rpm_share(engine_rps: int, max_rps: int) -> int {
    clamped(
        (engine_rps * ONE) / (if max_rps > 1_000_000 {
            max_rps
        } else {
            1_000_000
        }),
        0,
        ONE as int,
    )
}

/// Static thrust: full thrust times the square of the engine speed's fraction.
pub open spec fn thrust_of(thrust_max: int, engine_rps: int, max_rps: int) -> int {
    let f = rpm_share(engine_rps, max_rps);
    scaled(thrust_max, scaled(f, f))
}

/// Thrust at the live engine speed. A fixed-pitch propeller's static thrust grows
/// with the square of its speed, so idle makes only a gentle creep.
pub fn thrust(thrust_max: i64, engine_rps: i64, max_rps: i64) -> (newtons: i64)
    requires
        thrust_max >= 0,
        engine_rps >= 0,
    ensures
        newtons == thrust_of(thrust_max as int, engine_rps as int, max_rps as int),
        0 <= newtons <= thrust_max,
{
    let d: i128 = if max_rps > 1_000_000 {
        max_rps as i128
    } else {
        1_000_000
    };
    let q: i128 = floor_div(engine_rps as i128 * 1_000_000_000, d);
    let f: i128 = if q < 0 {
        0
    } else if q > 1_000_000_000 {
        1_000_000_000
    } else {
        q
    };
    assert(0 <= f * f <= 1_000_000_000_000_000_000) by (nonlinear_arith)
        requires
            0 <= f <= 1_000_000_000,
    ;
    let sq: i128 = floor_div(f * f, 1_000_000_000);
    let t: i128 = thrust_max as i128;
    assert(0 <= t * sq <= t * 1_000_000_000) by (nonlinear_arith)
        requires
            0 <= t,
            0 <= sq <= 1_000_000_000,
    ;
    floor_div(t * sq, 1_000_000_000) as i64
}

/// Faster turning never gives less thrust; full speed gives all of it, standstill
/// none.
pub proof fn thrust_follows_engine_speed(thrust_max: int, slow: int, fast: int, max_rps: int)
    requires
        thrust_max >= 0,
        0 <= slow <= fast,
        max_rps > 1_000_000,
    ensures
        thrust_of(thrust_max, slow, max_rps) <= thrust_of(thrust_max, fast, max_rps),
        thrust_of(thrust_max, 0, max_rps) == 0,
        thrust_of(thrust_max, max_rps, max_rps) == thrust_max,
{
    let a = rpm_share(slow, max_rps);
    let b = rpm_share(fast, max_rps);
    vstd::arithmetic::div_mod::lemma_div_is_ordered(slow * ONE, fast * ONE, max_rps);
    assert(a * a <= b * b) by (nonlinear_arith)
        requires
            0 <= a <= b,
    ;
    let p = scaled(a, a);
    let q = scaled(b, b);
    assert(thrust_max * p <= thrust_max * q) by (nonlinear_arith)
        requires
            0 <= thrust_max,
            p <= q,
    ;
    vstd::arithmetic::div_mod::lemma_div_basics(max_rps);
    assert(rpm_share(0, max_rps) == 0);
    assert(thrust_max * 0 == 0);
    vstd::arithmetic::div_mod::lemma_div_multiples_vanish(ONE as int, max_rps);
    assert(max_rps * ONE == ONE * max_rps);
    assert(rpm_share(max_rps, max_rps) == ONE);
    assert(scaled(ONE as int, ONE as int) == ONE);
}

/// Share of the static thrust that is left at an airspeed: a fixed-pitch propeller's
/// thrust falls linearly to nothing at `zero_speed`.
pub open spec fn speed_share(airspeed: int, zero_speed: int) -> int {
    clamped(
        ONE - (airspeed * ONE) / (if zero_speed > 1_000_000 {
            zero_speed
        } else {
            1_000_000
        }),
        0,
        ONE as int,
    )
}

/// Thrust in flight: the static thrust, less what the airspeed takes away.
pub fn thrust_in_flight(static_thrust: i64, airspeed: i64, zero_speed: i64) -> (newtons: i64)
    requires
        static_thrust >= 0,
        airspeed >= 0,
    ensures
        newtons == scaled(
            static_thrust as int,
            speed_share(airspeed as int, zero_speed as int),
        ),
        0 <= newtons <= static_thrust,
{
    let d: i128 = if zero_speed > 1_000_000 {
        zero_speed as i128
    } else {
        1_000_000
    };
    let lost: i128 = floor_div(airspeed as i128 * 1_000_000_000, d);
    proof {
        vstd::arithmetic::div_mod::lemma_div_pos_is_pos(airspeed * ONE, d as int);
    }
    let share: i64 = if lost > 1_000_000_000 {
        0
    } else {
        1_000_000_000 - lost as i64
    };
    proof {
        crate::fixed::blend_stays_between(0, static_thrust as int, share as int);
    }
    crate::fixed::blend(0, static_thrust, share)
}

/// Flying faster never gives more thrust; all of it is there at a standstill, none
/// at the speed where the blades stall.
pub proof fn thrust_falls_with_airspeed(slow: int, fast: int, zero_speed: int)
    requires
        0 <= slow <= fast,
        zero_speed > 1_000_000,
    ensures
        speed_share(fast, zero_speed) <= speed_share(slow, zero_speed),
        speed_share(0, zero_speed) == ONE,
        speed_share(zero_speed, zero_speed) == 0,
{
    vstd::arithmetic::div_mod::lemma_div_is_ordered(slow * ONE, fast * ONE, zero_speed);
    vstd::arithmetic::div_mod::lemma_div_basics(zero_speed);
    vstd::arithmetic::div_mod::lemma_div_multiples_vanish(ONE as int, zero_speed);
    assert(zero_speed * ONE == ONE * zero_speed);
}

/// The base of the standard atmosphere's density ratio at an altitude (m): one at
/// sea level, falling linearly to nothing. The ratio is this base to the power of
/// 4.2559.
pub open spec fn density_base(altitude: int) -> int {
    let b = ONE - (altitude * 22_557) / 1_000_000_000;
    if b > 0 {
        b
    } else {
        0
    }
}

/// The base of the standard atmosphere's density ratio at an altitude.
pub fn isa_density_base(altitude: i64) -> (base: i64)
    ensures
        base == density_base(altitude as int),
        0 <= base,
{
    let b: i64 = (1_000_000_000 - floor_div(altitude as i128 * 22_557, 1_000_000_000)) as i64;
    if b > 0 {
        b
    } else {
        0
    }
}

/// The air's density at altitude: the sea-level density times the density ratio.
pub fn local_density(sea_level: i64, ratio: i64) -> (density: i128)
    ensures
        density == scaled(sea_level as int, ratio as int),
{
    crate::fixed::scale(sea_level, ratio)
}

/// The air never thickens with height, and is full at sea level.
pub proof fn air_thins_with_height(low: int, high: int)
    requires
        low <= high,
    ensures
        density_base(high) <= density_base(low),
        density_base(0) == ONE,
{
}

/// Strength of the drag of the bare fuselage along one body axis: half the
/// density times Cd A times the square of the speed.
pub open spec fn drag_strength(density: int, cda: int, v: int) -> int {
    (scaled(density, cda) * scaled(v, v)) / 2_000_000_000
}

/// Fuselage form drag along one body axis: against the motion, growing with the
/// square of the speed.
pub open spec fn drag_along(density: int, cda: int, v: int) -> int {
    if v >= 0 {
        -drag_strength(density, cda, v)
    } else {
        drag_strength(density, cda, v)
    }
}

/// The drag along one body axis, in newtons.
pub fn axis_drag(density: i64, cda: i64, v: i64) -> (newtons: i128)
    requires
        0 <= density <= 10_000_000_000,
        0 <= cda <= 1_000_000_000_000,
        -3_000_000_000_000_000 <= v <= 3_000_000_000_000_000,
    ensures
        newtons == drag_along(density as int, cda as int, v as int),
        -45_000_000_000_000_000_000_000_000 <= newtons <= 45_000_000_000_000_000_000_000_000,
        -1_000_000_000_000 <= v <= 1_000_000_000_000 ==> -5_000_000_000_000_000_000 <= newtons
            <= 5_000_000_000_000_000_000,
{
    let w: i128 = v as i128;
    assert(0 <= w * w <= 9_000_000_000_000_000_000_000_000_000_000) by (nonlinear_arith)
        requires
            -3_000_000_000_000_000 <= w <= 3_000_000_000_000_000,
    ;
    assert(-1_000_000_000_000 <= w <= 1_000_000_000_000 ==> w * w
        <= 1_000_000_000_000_000_000_000_000) by (nonlinear_arith);
    let sq: i128 = w * w / 1_000_000_000;
    let p: i128 = density as i128;
    let c: i128 = cda as i128;
    assert(0 <= p * c <= 10_000_000_000_000_000_000_000) by (nonlinear_arith)
        requires
            0 <= p <= 10_000_000_000,
            0 <= c <= 1_000_000_000_000,
    ;
    let k: i128 = p * c / 1_000_000_000;
    assert(0 <= k * sq <= 10_000_000_000_000 * sq) by (nonlinear_arith)
        requires
            0 <= k <= 10_000_000_000_000,
            0 <= sq,
    ;
    let d: i128 = k * sq / 2_000_000_000;
    if v >= 0 {
        -d
    } else {
        d
    }
}

/// Fuselage form drag along one body axis at up to 1000 m/s, in newtons.
pub fn fuselage_drag(density: i64, cda: i64, v: i64) -> (newtons: i64)
    requires
        0 <= density <= 10_000_000_000,
        0 <= cda <= 1_000_000_000_000,
        -1_000_000_000_000 <= v <= 1_000_000_000_000,
    ensures
        newtons == drag_along(density as int, cda as int, v as int),
{
    axis_drag(density, cda, v) as i64
}

/// Doubling the speed quadruples the drag, but for the last decimals.
pub proof fn drag_is_quadratic(density: int, cda: int, v: int)
    requires
        0 <= density,
        0 <= cda,
    ensures
        drag_strength(density, cda, 2 * v) >= 4 * drag_strength(density, cda, v),
        drag_strength(density, cda, 2 * v) <= 4 * drag_strength(density, cda, v) + 4 + (3 * scaled(
            density,
            cda,
        )) / 2_000_000_000,
{
    let k = scaled(density, cda);
    let s = scaled(v, v);
    let t = scaled(2 * v, 2 * v);
    assert((2 * v) * (2 * v) == 4 * (v * v)) by (nonlinear_arith);
    assert(density * cda >= 0) by (nonlinear_arith)
        requires
            0 <= density,
            0 <= cda,
    ;
    assert(v * v >= 0) by (nonlinear_arith);
    assert(4 * s <= t <= 4 * s + 3);
    assert(k * (4 * s) <= k * t <= k * (4 * s + 3)) by (nonlinear_arith)
        requires
            k >= 0,
            4 * s <= t <= 4 * s + 3,
    ;
    assert(k * (4 * s) == 4 * (k * s)) by (nonlinear_arith);
    assert(k * (4 * s + 3) == 4 * (k * s) + 3 * k) by (nonlinear_arith);
}

/// The velocity along one axis a part of a step ahead: the acceleration of the
/// force on the mass, less gravity where it acts, over that part of the step.
pub open spec fn predicted(v: int, force: int, mass: int, gravity: int, ahead: int) -> int {
    v + scaled((force * ONE) / mass - gravity, ahead)
}

/// The acceleration of a force on a mass.
fn acceleration(force: i128, mass: i64) -> (a: i128)
    requires
        -10_000_000_000_000_000_000_000_000_000_000_000 <= force
            <= 10_000_000_000_000_000_000_000_000_000_000_000,
        ONE <= mass,
    ensures
        a == (force * ONE) / (mass as int),
        -10_000_000_000_000_000_000_000_000_000_000_001 <= a
            <= 10_000_000_000_000_000_000_000_000_000_000_000,
{
    let m: i128 = mass as i128;
    let whole: i128 = floor_div(force, m);
    proof {
        vstd::arithmetic::div_mod::lemma_fundamental_div_mod(force as int, m as int);
        let r = force as int % m as int;
        assert(-10_000_000_000_000_000_000_000_001 <= whole
            <= 10_000_000_000_000_000_000_000_000) by (nonlinear_arith)
            requires
                force == m * whole + r,
                0 <= r < m,
                m >= 1_000_000_000,
                -10_000_000_000_000_000_000_000_000_000_000_000 <= force
                    <= 10_000_000_000_000_000_000_000_000_000_000_000,
        ;
        assert(m * whole == force - r);
    }
    let left: i128 = force - m * whole;
    let rest: i128 = left * 1_000_000_000 / m;
    proof {
        let (n, d, k) = (left * 1_000_000_000, m as int, whole * 1_000_000_000);
        vstd::arithmetic::div_mod::lemma_fundamental_div_mod(n, d);
        let s = n % d;
        let f = force * 1_000_000_000;
        assert(f == d * (k + rest) + s) by (nonlinear_arith)
            requires
                f == force * 1_000_000_000,
                force == d * whole + left,
                n == left * 1_000_000_000,
                n == d * rest + s,
                k == whole * 1_000_000_000,
        ;
        vstd::arithmetic::div_mod::lemma_fundamental_div_mod_converse(f, d, k + rest, s);
        assert(-10_000_000_000_000_000_000_000_000_000_000_001 <= k + rest
            <= 10_000_000_000_000_000_000_000_000_000_000_000) by (nonlinear_arith)
            requires
                f == d * (k + rest) + s,
                0 <= s < d,
                d >= 1_000_000_000,
                -10_000_000_000_000_000_000_000_000_000_000_000 * 1_000_000_000 <= f
                    <= 10_000_000_000_000_000_000_000_000_000_000_000 * 1_000_000_000,
        ;
        assert(0 <= rest <= 1_000_000_000) by (nonlinear_arith)
            requires
                n == left * 1_000_000_000,
                n == d * rest + s,
                0 <= s < d,
                0 <= left < d,
        ;
    }
    whole * 1_000_000_000 + rest
}

/// The velocity along one axis, predicted for the second evaluation of the forces;
/// `gravity` is zero but for the vertical axis, `fraction` the part of the step
/// that is looked ahead.
pub fn predict_velocity(v: i64, force: i128, mass: i64, gravity: i64, dt: u64, fraction: i64) -> (r:
    i128)
    requires
        -10_000_000_000_000_000_000_000_000_000_000_000 <= force
            <= 10_000_000_000_000_000_000_000_000_000_000_000,
        ONE <= mass,
        0 <= fraction <= ONE,
        dt <= 10_000_000_000,
    ensures
        r == predicted(
            v as int,
            force as int,
            mass as int,
            gravity as int,
            scaled(dt as int, fraction as int),
        ),
{
    let d: i128 = dt as i128;
    let f: i128 = fraction as i128;
    assert(0 <= d * f <= 10_000_000_000_000_000_000) by (nonlinear_arith)
        requires
            0 <= d <= 10_000_000_000,
            0 <= f <= 1_000_000_000,
    ;
    let ahead: i64 = (d * f / 1_000_000_000) as i64;
    let net: i128 = acceleration(force, mass) - gravity as i128;
    proof {
        assert(ahead * net == net * ahead) by (nonlinear_arith);
        crate::vector::product_within(
            net as int,
            ahead as int,
            11_000_000_000_000_000_000_000_000_000_000_000,
            10_000_000_000,
        );
    }
    v as i128 + mixed(&vec3(ahead, 0, 0), &Wide3 { x: net, y: 0, z: 0 })
}

/// The torque against a rotation about one body axis: proportional to the airspeed
/// and to the rate.
pub open spec fn damping_torque(damp: int, rate: int, speed: int) -> int {
    -scaled(scaled(damp, rate), speed)
}

/// Rotational drag about the body axes (pitch, yaw, roll) for rates about them.
/// The coefficients are in the order roll, yaw, pitch.
pub fn rotational_damping(aero_damp: &Vec3, rates: &Vec3, speed: i64) -> (torque: (i128, i128, i128))
    requires
        0 <= aero_damp.x <= 1_000_000_000_000,
        0 <= aero_damp.y <= 1_000_000_000_000,
        0 <= aero_damp.z <= 1_000_000_000_000,
        0 <= speed <= 10_000_000_000_000_000,
    ensures
        torque.0 == damping_torque(aero_damp.z as int, rates.x as int, speed as int),
        torque.1 == damping_torque(aero_damp.y as int, rates.y as int, speed as int),
        torque.2 == damping_torque(aero_damp.x as int, rates.z as int, speed as int),
{
    (
        damping_about(aero_damp.z, rates.x, speed),
        damping_about(aero_damp.y, rates.y, speed),
        damping_about(aero_damp.x, rates.z, speed),
    )
}

fn damping_about(damp: i64, rate: i64, speed: i64) -> (torque: i128)
    requires
        0 <= damp <= 1_000_000_000_000,
        0 <= speed <= 10_000_000_000_000_000,
    ensures
        torque == damping_torque(damp as int, rate as int, speed as int),
{
    let d: i128 = damp as i128;
    let r: i128 = rate as i128;
    let s: i128 = speed as i128;
    assert(-10_000_000_000_000_000_000_000_000_000_000 <= d * r
        <= 10_000_000_000_000_000_000_000_000_000_000) by (nonlinear_arith)
        requires
            0 <= d <= 1_000_000_000_000,
            -10_000_000_000_000_000_000 <= r <= 10_000_000_000_000_000_000,
    ;
    let t: i128 = floor_div(d * r, 1_000_000_000);
    assert(-100_000_000_000_000_000_000_000_000_000_000_000_000 <= t * s
        <= 100_000_000_000_000_000_000_000_000_000_000_000_000) by (nonlinear_arith)
        requires
            -10_000_000_000_000_000_000_000 <= t <= 10_000_000_000_000_000_000_000,
            0 <= s <= 10_000_000_000_000_000,
    ;
    -floor_div(t * s, 1_000_000_000)
}

/// Rotational drag never speeds a rotation up.
pub proof fn damping_opposes_rotation(damp: int, rate: int, speed: int)
    requires
        0 <= damp,
        0 <= speed,
    ensures
        rate >= 0 ==> damping_torque(damp, rate, speed) <= 0,
        rate <= 0 ==> damping_torque(damp, rate, speed) >= 0,
{
    let t = scaled(damp, rate);
    assert(rate >= 0 ==> damp * rate >= 0) by (nonlinear_arith)
        requires
            0 <= damp,
    ;
    assert(rate <= 0 ==> damp * rate <= 0) by (nonlinear_arith)
        requires
            0 <= damp,
    ;
    assert(t >= 0 ==> t * speed >= 0) by (nonlinear_arith)
        requires
            0 <= speed,
    ;
    assert(t <= 0 ==> t * speed <= 0) by (nonlinear_arith)
        requires
            0 <= speed,
    ;
}

/// What is not negative of a number.
pub open spec fn not_below_zero(v: int) -> int {
    if v > 0 {
        v
    } else {
        0
    }
}

/// The vertical lift as a share of the weight; weights below one newton count as
/// one.
pub open spec fn lift_share(lift: int, mass: int, gravity: int) -> int {
    let weight = scaled(mass, gravity);
    (not_below_zero(lift) * ONE) / if weight < ONE {
        ONE as int
    } else {
        weight
    }
}

/// What an instrument shows of a number: the number itself, as far as it can be
/// held.
pub open spec fn reading(v: int) -> int {
    clamped(v, i64::MIN as int, i64::MAX as int)
}

/// Updates what the instruments read after a physics step: `surface` and `body`
/// are the forces of the surfaces and of the fuselage against the flight path,
/// `lift` the vertical one (all in newtons).
pub fn report_flight(
    state: &mut PlaneState,
    speed: i64,
    thrust: i64,
    surface: i64,
    body: i64,
    lift: i64,
    mass: i64,
    gravity: i64,
)
    ensures
        ({
            let from_surfaces = (not_below_zero(surface as int) * 85) / 100;
            *final(state) == (PlaneState {
                speed,
                thrust,
                drag_surface: from_surfaces as i64,
                drag_fuselage: not_below_zero(body as int) as i64,
                drag: reading(from_surfaces + not_below_zero(body as int)) as i64,
                lift_pct: lift_share(lift as int, mass as int, gravity as int) as i64,
                ..*old(state)
            })
        }),
{
    let held_surface: i64 = if surface > 0 {
        surface
    } else {
        0
    };
    let held_body: i64 = if body > 0 {
        body
    } else {
        0
    };
    let held_lift: i128 = if lift > 0 {
        lift as i128
    } else {
        0
    };
    let weight: i128 = crate::fixed::scale(mass, gravity);
    let divisor: i128 = if weight < 1_000_000_000 {
        1_000_000_000
    } else {
        weight
    };
    let share: i128 = held_lift * 1_000_000_000 / divisor;
    proof {
        let n = held_lift * 1_000_000_000;
        let d = divisor as int;
        vstd::arithmetic::div_mod::lemma_fundamental_div_mod(n as int, d);
        let r = n as int % d;
        assert(0 <= share <= 9_223_372_036_854_775_807) by (nonlinear_arith)
            requires
                n == d * share + r,
                0 <= r < d,
                d >= 1_000_000_000,
                0 <= n <= 9_223_372_036_854_775_807 * 1_000_000_000,
        ;
    }
    state.speed = speed;
    state.thrust = thrust;
    state.drag_surface = (held_surface as i128 * 85 / 100) as i64;
    state.drag_fuselage = held_body;
    state.drag = clamp(state.drag_surface as i128 + held_body as i128, i64::MIN, i64::MAX);
    state.lift_pct = share as i64;
}

}
