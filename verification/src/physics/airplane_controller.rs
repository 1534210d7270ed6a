//! Turns pilot input into levers, engine state and control-surface
//! deflections.
//!
//! Control inputs command a fixed deflection, not a speed-scaled one: the
//! surfaces' own forces already grow with airspeed.

use super::aero_surface::{AeroSurface, ControlInputType, MAX_DEFLECTION};
use super::aircraft_physics::{AircraftRoot, EngineState};
use super::flight_config::FlightModelConfig;
use crate::camera::CameraMode;
use crate::fixed::{blend, blend_stays_between, clamp, clamped, floor_div, scaled, ONE};
use crate::terrain::runway::HALF_TURN;
use vstd::prelude::*;

verus! {

/// The pilot's keys. The flap keys count once per press, the others while held.
#[derive(Clone, Copy, Debug, PartialEq, Eq, Structural)]
pub struct ControllerKeys {
    pub throttle_up: bool,
    pub throttle_down: bool,
    pub mixture_rich: bool,
    pub mixture_lean: bool,
    pub starter: bool,
    pub pitch_up: bool,
    pub pitch_down: bool,
    pub roll_right: bool,
    pub roll_left: bool,
    pub yaw_right: bool,
    pub yaw_left: bool,
    pub flaps_extend: bool,
    pub flaps_retract: bool,
}

/// What a frame brings besides the keys: its span in nanoseconds, the air density
/// as a fraction of sea level's, and by which fraction the engine (spooling up or
/// down) and the servos close in on their targets.
#[derive(Clone, Copy, Debug, PartialEq, Eq, Structural)]
pub struct ControllerTick {
    pub dt: u64,
    pub density_ratio: i64,
    pub spool_up_alpha: i64,
    pub spool_down_alpha: i64,
    pub servo_alpha: i64,
}

impl ControllerTick {
    /// The closing fractions are fractions.
    pub open spec fn wf(self) -> bool {
        &&& 0 <= self.spool_up_alpha <= ONE
        &&& 0 <= self.spool_down_alpha <= ONE
        &&& 0 <= self.servo_alpha <= ONE
    }
}

impl FlightModelConfig {
    /// Rates and speeds are not negative, and the numbers can be combined without
    /// leaving the range of the arithmetic.
    pub open spec fn flyable(self) -> bool {
        &&& 0 <= self.throttle_rate
        &&& 0 <= self.engine_crank_rps
        &&& 0 <= self.engine_start_secs
        &&& 0 <= self.propeller.prop_idle_rps
        &&& 0 <= self.propeller.prop_max_rps
        &&& -1_000_000_000_000 <= self.pitch_sensitivity <= 1_000_000_000_000
        &&& -1_000_000_000_000 <= self.roll_sensitivity <= 1_000_000_000_000
        &&& -1_000_000_000_000 <= self.yaw_sensitivity <= 1_000_000_000_000
        &&& -1_000_000_000_000 <= self.elevator_trim <= 1_000_000_000_000
    }
}

/// Travel of the mixture lever per second.
pub const MIXTURE_RATE: i64 = 500_000_000;

/// Below this the lever gives no fuel.
pub const MIXTURE_CUTOFF: i64 = 50_000_000;

/// The engine needs at least this rich a mixture to catch.
pub const START_MIN_MIXTURE: i64 = 300_000_000;

/// A lever after the plus key, then the minus key.
pub open spec fn lever_moved(position: int, rate: int, dt: int, plus: bool, minus: bool) -> int {
    let step = scaled(rate, dt);
    let p = if plus {
        if position + step < ONE {
            position + step
        } else {
            ONE as int
        }
    } else {
        position
    };
    if minus {
        if p - step > 0 {
            p - step
        } else {
            0
        }
    } else {
        p
    }
}

/// Moves a lever between its stops.
pub fn move_lever(position: i64, rate: i64, dt: u64, plus: bool, minus: bool) -> (r: i64)
    requires
        0 <= position <= ONE,
        0 <= rate,
    ensures
        r == lever_moved(position as int, rate as int, dt as int, plus, minus),
        0 <= r <= ONE,
{
    let a: i128 = rate as i128;
    let b: i128 = dt as i128;
    assert(0 <= a * b <= 0x7fff_ffff_ffff_ffff * 0xffff_ffff_ffff_ffff) by (nonlinear_arith)
        requires
            0 <= a <= 0x7fff_ffff_ffff_ffff,
            0 <= b <= 0xffff_ffff_ffff_ffff,
    ;
    let step: i128 = floor_div(a * b, 1_000_000_000);
    let mut p: i64 = position;
    if plus {
        p = clamp(p as i128 + step, 0, ONE);
    }
    if minus {
        p = clamp(p as i128 - step, 0, ONE);
    }
    p
}

/// How much of its power the engine makes: all of it where the mixture matches
/// the air density. Lean of that the loss is steep, rich of it gentle.
pub open spec fn mixture_power_of(mixture: int, density_ratio: int) -> int {
    let ideal = clamped(density_ratio, 50_000_000, ONE as int);
    if mixture < MIXTURE_CUTOFF {
        0
    } else if mixture <= ideal {
        let d = ideal - mixture;
        let p = ((10 * (ideal * ideal) - 13 * (d * d)) * ONE) / (10 * (ideal * ideal));
        if p > 0 {
            p
        } else {
            0
        }
    } else {
        let d = mixture - ideal;
        let p = ((100 * (ideal * ideal) - 35 * (d * d)) * ONE) / (100 * (ideal * ideal));
        if p > 250_000_000 {
            p
        } else {
            250_000_000
        }
    }
}

/// Mixture power factor: how well the lever matches the air density. The ideal
/// lever leans with density, so full rich is right at sea level and progressively
/// too rich with altitude. The lean side is steep (the engine can quit), the rich
/// side gentle (never below a quarter). Below the cutoff there is no fuel.
pub fn mixture_power(mixture: i64, density_ratio: i64) -> (power: i64)
    requires
        0 <= mixture <= ONE,
    ensures
        power == mixture_power_of(mixture as int, density_ratio as int),
        0 <= power <= ONE,
{
    if mixture < MIXTURE_CUTOFF {
        return 0;
    }
    let ideal: i128 = clamp(density_ratio as i128, 50_000_000, ONE) as i128;
    let d: i128 = mixture as i128 - ideal;
    assert(2_500_000_000_000_000 <= ideal * ideal <= 1_000_000_000_000_000_000)
        by (nonlinear_arith)
        requires
            50_000_000 <= ideal <= 1_000_000_000,
    ;
    assert(0 <= d * d <= 1_000_000_000_000_000_000) by (nonlinear_arith)
        requires
            -1_000_000_000 <= d <= 1_000_000_000,
    ;
    let sq: i128 = ideal * ideal;
    let off: i128 = d * d;
    if mixture as i128 <= ideal {
        proof {
            let e = ideal - mixture;
            assert(e * e == d * d) by (nonlinear_arith)
                requires
                    e == -d,
            ;
            lemma_share_at_most_one((10 * sq - 13 * off) as int, (10 * sq) as int);
        }
        let p: i128 = floor_div((10 * sq - 13 * off) * 1_000_000_000, 10 * sq);
        if p > 0 {
            p as i64
        } else {
            0
        }
    } else {
        proof {
            lemma_share_at_most_one((100 * sq - 35 * off) as int, (100 * sq) as int);
        }
        let p: i128 = floor_div((100 * sq - 35 * off) * 1_000_000_000, 100 * sq);
        if p > 250_000_000 {
            p as i64
        } else {
            250_000_000
        }
    }
}

proof fn lemma_share_at_most_one(part: int, whole: int)
    requires
        part <= whole,
        whole > 0,
    ensures
        (part * ONE) / whole <= ONE,
        part == whole ==> (part * ONE) / whole == ONE,
{
    vstd::arithmetic::div_mod::lemma_div_is_ordered(part * ONE, whole * ONE, whole);
    vstd::arithmetic::div_mod::lemma_div_multiples_vanish(ONE as int, whole);
    assert(whole * ONE == ONE * whole);
}

/// The engine makes full power at the ideal mixture, never less than a quarter on
/// the rich side, and none below the cutoff.
pub proof fn mixture_power_laws(mixture: int, density_ratio: int)
    requires
        0 <= mixture <= ONE,
    ensures
        ({
            let ideal = clamped(density_ratio, 50_000_000, ONE as int);
            &&& mixture_power_of(ideal, density_ratio) == ONE
            &&& mixture > ideal ==> mixture_power_of(mixture, density_ratio) >= 250_000_000
            &&& mixture < MIXTURE_CUTOFF ==> mixture_power_of(mixture, density_ratio) == 0
        }),
{
    let ideal = clamped(density_ratio, 50_000_000, ONE as int);
    assert(ideal * ideal > 0) by (nonlinear_arith)
        requires
            ideal >= 50_000_000,
    ;
    assert((ideal - ideal) * (ideal - ideal) == 0) by (nonlinear_arith);
    lemma_share_at_most_one(10 * (ideal * ideal), 10 * (ideal * ideal));
}

/// Richer is better on the lean side: power never falls as the lever moves up
/// to the ideal.
pub proof fn lean_side_is_monotone(leaner: int, richer: int, density_ratio: int)
    requires
        0 <= leaner <= richer <= clamped(density_ratio, 50_000_000, ONE as int),
    ensures
        mixture_power_of(leaner, density_ratio) <= mixture_power_of(richer, density_ratio),
{
    let ideal = clamped(density_ratio, 50_000_000, ONE as int);
    if leaner >= MIXTURE_CUTOFF {
        let a = ideal - leaner;
        let b = ideal - richer;
        assert(b * b <= a * a) by (nonlinear_arith)
            requires
                0 <= b <= a,
        ;
        assert(ideal * ideal > 0) by (nonlinear_arith)
            requires
                ideal >= 50_000_000,
        ;
        vstd::arithmetic::div_mod::lemma_div_is_ordered(
            (10 * (ideal * ideal) - 13 * (a * a)) * ONE,
            (10 * (ideal * ideal) - 13 * (b * b)) * ONE,
            10 * (ideal * ideal),
        );
    }
}

/// The sum of two spans, stopped at the largest that can be held.
pub open spec fn timer_after(timer: u64, dt: u64) -> u64 {
    if timer + dt > u64::MAX {
        u64::MAX
    } else {
        (timer + dt) as u64
    }
}

/// One step of the engine state machine: the next state and the crank timer.
pub open spec fn engine_step(
    state: EngineState,
    timer: u64,
    starter: bool,
    mixture: int,
    power: int,
    start_secs: int,
    dt: u64,
) -> (EngineState, u64) {
    match state {
        EngineState::Off => if starter && mixture >= START_MIN_MIXTURE {
            (EngineState::Cranking, 0)
        } else {
            (EngineState::Off, timer)
        },
        EngineState::Cranking => {
            let t = timer_after(timer, dt);
            if !starter {
                (EngineState::Off, t)
            } else if t >= start_secs && mixture >= START_MIN_MIXTURE {
                (EngineState::Running, t)
            } else {
                (EngineState::Cranking, t)
            }
        },
        EngineState::Running => if power <= 0 {
            (EngineState::Off, timer)
        } else {
            (EngineState::Running, timer)
        },
    }
}

/// The engine only starts by cranking: from off it never runs within one step,
/// and it starts to crank only with the starter engaged and enough mixture.
pub proof fn engine_starts_by_cranking(
    timer: u64,
    starter: bool,
    mixture: int,
    power: int,
    start_secs: int,
    dt: u64,
)
    ensures
        engine_step(EngineState::Off, timer, starter, mixture, power, start_secs, dt).0
            != EngineState::Running,
        engine_step(EngineState::Off, timer, starter, mixture, power, start_secs, dt).0
            == EngineState::Cranking <==> starter && mixture >= START_MIN_MIXTURE,
{
}

/// A running engine ignores the starter and stops exactly when it makes no power;
/// pulling the mixture to idle cutoff stops it.
pub proof fn engine_stops_without_fuel(
    timer: u64,
    starter: bool,
    mixture: int,
    density_ratio: int,
    start_secs: int,
    dt: u64,
)
    requires
        0 <= mixture < MIXTURE_CUTOFF,
    ensures
        engine_step(
            EngineState::Running,
            timer,
            starter,
            mixture,
            mixture_power_of(mixture, density_ratio),
            start_secs,
            dt,
        ).0 == EngineState::Off,
{
}

/// Cranking frames of a given span, with the starter held and enough mixture.
pub open spec fn crank(timer: u64, start_secs: int, frames: Seq<u64>) -> EngineState
    decreases frames.len(),
{
    if frames.len() == 0 {
        EngineState::Cranking
    } else {
        let step = engine_step(
            EngineState::Cranking,
            timer,
            true,
            ONE as int,
            ONE as int,
            start_secs,
            frames[0],
        );
        if step.0 == EngineState::Cranking {
            crank(step.1, start_secs, frames.skip(1))
        } else {
            step.0
        }
    }
}

/// Time that frames take.
pub open spec fn frame_time(frames: Seq<u64>) -> int
    decreases frames.len(),
{
    if frames.len() == 0 {
        0
    } else {
        frames[0] + frame_time(frames.skip(1))
    }
}

proof fn lemma_frame_time_nonneg(frames: Seq<u64>)
    ensures
        frame_time(frames) >= 0,
    decreases frames.len(),
{
    if frames.len() > 0 {
        lemma_frame_time_nonneg(frames.skip(1));
    }
}

/// The engine catches once it was cranked for the start time, and not before.
pub proof fn engine_catches_after_start_time(timer: u64, start_secs: int, frames: Seq<u64>)
    requires
        timer < start_secs <= u64::MAX,
    ensures
        crank(timer, start_secs, frames) == EngineState::Running <==> timer + frame_time(frames)
            >= start_secs,
    decreases frames.len(),
{
    if frames.len() > 0 {
        let t = timer_after(timer, frames[0]);
        lemma_frame_time_nonneg(frames.skip(1));
        if t < start_secs {
            engine_catches_after_start_time(t, start_secs, frames.skip(1));
        }
    }
}

/// The speed that the engine spools toward: none when off, the starter's while
/// cranking; running, the throttle commands idle to full speed and the mixture
/// scales what is achieved.
pub open spec fn target_rps_of(
    state: EngineState,
    throttle: int,
    power: int,
    config: FlightModelConfig,
) -> int {
    match state {
        EngineState::Off => 0,
        EngineState::Cranking => config.engine_crank_rps as int,
        EngineState::Running => {
            let idle = config.propeller.prop_idle_rps as int;
            let max = config.propeller.prop_max_rps as int;
            scaled(idle + scaled(max - idle, throttle), power)
        },
    }
}

fn target_rps(state: EngineState, throttle: i64, power: i64, config: &FlightModelConfig) -> (r: i64)
    requires
        config.flyable(),
        0 <= throttle <= ONE,
        0 <= power <= ONE,
    ensures
        r == target_rps_of(state, throttle as int, power as int, *config),
        r >= 0,
{
    match state {
        EngineState::Off => 0,
        EngineState::Cranking => config.engine_crank_rps,
        EngineState::Running => {
            let idle: i64 = config.propeller.prop_idle_rps;
            let max: i64 = config.propeller.prop_max_rps;
            let commanded: i64 = blend(idle, max, throttle);
            proof {
                blend_stays_between(idle as int, max as int, throttle as int);
                blend_stays_between(0, commanded as int, power as int);
            }
            blend(0, commanded, power)
        },
    }
}

/// Engine speed after a frame: it closes in on the target, faster or slower
/// depending on whether it speeds up.
pub open spec fn spooled(rps: int, target: int, up_alpha: int, down_alpha: int) -> int {
    rps + scaled(
        target - rps,
        if target > rps {
            up_alpha
        } else {
            down_alpha
        },
    )
}

/// The engine never overshoots the speed it spools toward.
pub proof fn spooling_never_overshoots(rps: int, target: int, up_alpha: int, down_alpha: int)
    requires
        0 <= up_alpha <= ONE,
        0 <= down_alpha <= ONE,
    ensures
        target > rps ==> rps <= spooled(rps, target, up_alpha, down_alpha) <= target,
        target <= rps ==> target <= spooled(rps, target, up_alpha, down_alpha) <= rps,
{
    blend_stays_between(
        rps,
        target,
        if target > rps {
            up_alpha
        } else {
            down_alpha
        },
    );
}

/// Flap notch `i`: 0, 10, 20 or 30 degrees.
pub open spec fn notch(i: int) -> int {
    if i <= 0 {
        0
    } else if i == 1 {
        174_532_925
    } else if i == 2 {
        349_065_850
    } else {
        523_598_776
    }
}

/// The notch that the lever stands at, to half a degree; the first one where it
/// stands at none.
pub open spec fn nearest_notch(target: int) -> int {
    if at_notch(target, 0) {
        0
    } else if at_notch(target, 1) {
        1
    } else if at_notch(target, 2) {
        2
    } else if at_notch(target, 3) {
        3
    } else {
        0
    }
}

pub open spec fn at_notch(target: int, i: int) -> bool {
    -8_726_646 < notch(i) - target < 8_726_646
}

/// The flap lever after its keys: one notch on, or one back.
pub open spec fn flap_commanded(target: int, extend: bool, retract: bool) -> int {
    if extend {
        notch(
            if nearest_notch(target) < 3 {
                nearest_notch(target) + 1
            } else {
                3
            },
        )
    } else if retract {
        notch(nearest_notch(target) - 1)
    } else {
        target
    }
}

/// From a notch, the keys step to the neighbouring notch and stop at the ends.
pub proof fn flap_keys_step_by_notch(i: int)
    requires
        0 <= i <= 3,
    ensures
        flap_commanded(notch(i), true, false) == notch(
            if i < 3 {
                i + 1
            } else {
                3
            },
        ),
        flap_commanded(notch(i), false, true) == notch(
            if i > 0 {
                i - 1
            } else {
                0
            },
        ),
        flap_commanded(notch(i), false, false) == notch(i),
{
}

fn notch_angle(i: i64) -> (r: i64)
    ensures
        r == notch(i as int),
{
    if i <= 0 {
        0
    } else if i == 1 {
        174_532_925
    } else if i == 2 {
        349_065_850
    } else {
        523_598_776
    }
}

/// The flap lever after its keys. A notched lever on the keyboard; the lever
/// itself is continuous, and only a key press snaps it to a notch.
pub fn flap_lever(target: i64, extend: bool, retract: bool) -> (r: i64)
    requires
        -10_000_000_000 <= target <= 10_000_000_000,
    ensures
        r == flap_commanded(target as int, extend, retract),
        -10_000_000_000 <= r <= 10_000_000_000,
{
    if !extend && !retract {
        return target;
    }
    let mut i: i64 = 3;
    let mut found: i64 = 0;
    while i >= 0
        invariant
            -1 <= i <= 3,
            -10_000_000_000 <= target <= 10_000_000_000,
            0 <= found <= 3,
            forall|j: int| #![trigger at_notch(target as int, j)]
                i < j < found ==> !at_notch(target as int, j),
            (found > i && at_notch(target as int, found as int)) || (found == 0 && forall|j: int|
                i < j <= 3 ==> !#[trigger] at_notch(target as int, j)),
        decreases i + 1,
    {
        let gap: i64 = notch_angle(i) - target;
        if -8_726_646 < gap && gap < 8_726_646 {
            found = i;
        }
        i = i - 1;
    }
    proof {
        assert(at_notch(target as int, 0) || !at_notch(target as int, 0));
        assert(at_notch(target as int, 1) || !at_notch(target as int, 1));
        assert(at_notch(target as int, 2) || !at_notch(target as int, 2));
        assert(at_notch(target as int, 3) || !at_notch(target as int, 3));
        assert(found == nearest_notch(target as int));
    }
    if extend {
        notch_angle(
            if found < 3 {
                found + 1
            } else {
                3
            },
        )
    } else {
        notch_angle(found - 1)
    }
}

/// Flap travel speed: 15 degrees per second.
pub const FLAP_RATE: i64 = 261_799_388;

/// The flaps after a frame: they travel toward the lever at a finite rate.
pub open spec fn flap_moved(setting: int, target: int, dt: int) -> int {
    setting + clamped(
        target - setting,
        -scaled(FLAP_RATE as int, dt),
        scaled(FLAP_RATE as int, dt),
    )
}

/// The flaps never overshoot the lever, and reach it exactly once it is within a
/// frame's travel.
pub proof fn flaps_reach_the_lever(setting: int, target: int, dt: int)
    requires
        dt >= 0,
    ensures
        setting <= target ==> setting <= flap_moved(setting, target, dt) <= target,
        target <= setting ==> target <= flap_moved(setting, target, dt) <= setting,
        -scaled(FLAP_RATE as int, dt) <= target - setting <= scaled(FLAP_RATE as int, dt)
            ==> flap_moved(setting, target, dt) == target,
{
}

fn move_flaps(setting: i64, target: i64, dt: u64) -> (r: i64)
    requires
        -10_000_000_000 <= target <= 10_000_000_000,
        -10_000_000_000 <= setting <= 10_000_000_000,
    ensures
        r == flap_moved(setting as int, target as int, dt as int),
        -10_000_000_000 <= r <= 10_000_000_000,
{
    let travel: i128 = floor_div(261_799_388 * (dt as i128), 1_000_000_000);
    let limit: i64 = if travel > 40_000_000_000 {
        40_000_000_000
    } else {
        travel as i64
    };
    setting + clamp(target as i128 - setting as i128, -limit, limit)
}

/// Stick and pedals: -1, 0 or 1 each.
#[derive(Clone, Copy, Debug, PartialEq, Eq, Structural)]
pub struct Attitude {
    pub pitch: i8,
    pub roll: i8,
    pub yaw: i8,
}

/// An axis by its two keys; the first wins where both are held.
pub open spec fn axis_of(plus: bool, minus: bool) -> i8 {
    if plus {
        1i8
    } else if minus {
        (-1) as i8
    } else {
        0i8
    }
}

/// Attitude inputs; neutral while the free camera has the keys.
pub open spec fn attitude_of(keys: ControllerKeys, mode: CameraMode) -> Attitude {
    match mode {
        CameraMode::Free => Attitude { pitch: 0, roll: 0, yaw: 0 },
        CameraMode::Orbit => Attitude {
            pitch: axis_of(keys.pitch_up, keys.pitch_down),
            roll: axis_of(keys.roll_right, keys.roll_left),
            yaw: axis_of(keys.yaw_right, keys.yaw_left),
        },
    }
}

fn axis(plus: bool, minus: bool) -> (r: i8)
    ensures
        r == axis_of(plus, minus),
        -1 <= r <= 1,
{
    if plus {
        1
    } else if minus {
        -1
    } else {
        0
    }
}

/// Stick and pedals from the keys.
pub fn attitude(keys: &ControllerKeys, mode: CameraMode) -> (a: Attitude)
    ensures
        a == attitude_of(*keys, mode),
        -1 <= a.pitch <= 1,
        -1 <= a.roll <= 1,
        -1 <= a.yaw <= 1,
{
    match mode {
        CameraMode::Free => Attitude { pitch: 0, roll: 0, yaw: 0 },
        CameraMode::Orbit => Attitude {
            pitch: axis(keys.pitch_up, keys.pitch_down),
            roll: axis(keys.roll_right, keys.roll_left),
            yaw: axis(keys.yaw_right, keys.yaw_left),
        },
    }
}

/// The deflection that a control surface is commanded to. The rudder gets a
/// fifth of the ailerons' input mixed in; flaps follow the flap setting.
pub open spec fn surface_target(
    config: FlightModelConfig,
    a: Attitude,
    flap_setting: int,
    s: AeroSurface,
) -> int {
    let m = s.input_multiplier as int;
    match s.input_type {
        ControlInputType::Pitch => scaled(a.pitch * config.pitch_sensitivity, m)
            + config.elevator_trim,
        ControlInputType::Roll => scaled(a.roll * config.roll_sensitivity, m),
        ControlInputType::Yaw => ((5 * a.yaw + a.roll) * config.yaw_sensitivity * m)
            / 5_000_000_000,
        ControlInputType::Flap => scaled(flap_setting, m),
    }
}

/// A surface after a frame: a control surface closes in on its commanded
/// deflection, within its stops.
pub open spec fn surface_moved(
    config: FlightModelConfig,
    a: Attitude,
    flap_setting: int,
    alpha: int,
    s: AeroSurface,
) -> AeroSurface {
    if s.is_control_surface {
        let target = surface_target(config, a, flap_setting, s);
        AeroSurface {
            flap_angle: clamped(
                s.flap_angle + scaled(target - s.flap_angle, alpha),
                -MAX_DEFLECTION as int,
                MAX_DEFLECTION as int,
            ) as i64,
            ..s
        }
    } else {
        s
    }
}

/// No control surface ever deflects beyond its stops.
pub proof fn surfaces_stay_within_stops(
    config: FlightModelConfig,
    a: Attitude,
    flap_setting: int,
    alpha: int,
    s: AeroSurface,
)
    requires
        s.is_control_surface,
    ensures
        -MAX_DEFLECTION <= surface_moved(config, a, flap_setting, alpha, s).flap_angle
            <= MAX_DEFLECTION,
{
}

fn product(a: i64, b: i64) -> (r: i128)
    requires
        -6_000_000_000_000 <= a <= 6_000_000_000_000,
        -1_000_000_000_000 <= b <= 1_000_000_000_000,
    ensures
        r == a * b,
        -6_000_000_000_000_000_000_000_000 <= r <= 6_000_000_000_000_000_000_000_000,
{
    let x: i128 = a as i128;
    let y: i128 = b as i128;
    assert(-6_000_000_000_000_000_000_000_000 <= x * y <= 6_000_000_000_000_000_000_000_000)
        by (nonlinear_arith)
        requires
            -6_000_000_000_000 <= x <= 6_000_000_000_000,
            -1_000_000_000_000 <= y <= 1_000_000_000_000,
    ;
    x * y
}

/// A sensitivity in the direction of an input.
fn directed(input: i64, sensitivity: i64) -> (r: i64)
    requires
        -6 <= input <= 6,
        -1_000_000_000_000 <= sensitivity <= 1_000_000_000_000,
    ensures
        r == input * sensitivity,
        -6_000_000_000_000 <= r <= 6_000_000_000_000,
{
    assert(-6_000_000_000_000 <= input * sensitivity <= 6_000_000_000_000) by (nonlinear_arith)
        requires
            -6 <= input <= 6,
            -1_000_000_000_000 <= sensitivity <= 1_000_000_000_000,
    ;
    input * sensitivity
}

/// A multiplier that can be applied to any deflection.
pub open spec fn surface_in_range(s: AeroSurface) -> bool {
    -1_000_000_000_000 <= s.input_multiplier <= 1_000_000_000_000
}

fn move_surface(
    config: &FlightModelConfig,
    a: &Attitude,
    flap_setting: i64,
    alpha: i64,
    s: &AeroSurface,
) -> (r: AeroSurface)
    requires
        config.flyable(),
        -1 <= a.pitch <= 1,
        -1 <= a.roll <= 1,
        -1 <= a.yaw <= 1,
        -10_000_000_000 <= flap_setting <= 10_000_000_000,
        0 <= alpha <= ONE,
        surface_in_range(*s),
    ensures
        r == surface_moved(*config, *a, flap_setting as int, alpha as int, *s),
{
    let mut r: AeroSurface = *s;
    if !s.is_control_surface {
        return r;
    }
    let m: i64 = s.input_multiplier;
    let target: i128 = match s.input_type {
        ControlInputType::Pitch => {
            let sens: i64 = directed(a.pitch as i64, config.pitch_sensitivity);
            floor_div(product(sens, m), 1_000_000_000) + config.elevator_trim as i128
        },
        ControlInputType::Roll => {
            let sens: i64 = directed(a.roll as i64, config.roll_sensitivity);
            floor_div(product(sens, m), 1_000_000_000)
        },
        ControlInputType::Yaw => {
            let mix: i64 = 5 * (a.yaw as i64) + a.roll as i64;
            let sens: i64 = directed(mix, config.yaw_sensitivity);
            floor_div(product(sens, m), 5_000_000_000)
        },
        ControlInputType::Flap => floor_div(product(flap_setting, m), 1_000_000_000),
    };
    assert(-7_000_000_000_000_001 <= target <= 7_000_000_000_000_001);
    let gap: i128 = target - s.flap_angle as i128;
    let w: i128 = alpha as i128;
    assert(-20_000_000_000_000_000_000 * 1_000_000_000 <= gap * w <= 20_000_000_000_000_000_000
        * 1_000_000_000) by (nonlinear_arith)
        requires
            -20_000_000_000_000_000_000 <= gap <= 20_000_000_000_000_000_000,
            0 <= w <= 1_000_000_000,
    ;
    r.set_flap_angle(s.flap_angle as i128 + floor_div(gap * w, 1_000_000_000));
    r
}

/// The aircraft's state after a frame.
pub open spec fn controlled(
    root: AircraftRoot,
    keys: ControllerKeys,
    config: FlightModelConfig,
    tick: ControllerTick,
) -> AircraftRoot {
    let throttle = lever_moved(
        root.throttle_percent as int,
        config.throttle_rate as int,
        tick.dt as int,
        keys.throttle_up,
        keys.throttle_down,
    );
    let mixture = lever_moved(
        root.mixture as int,
        MIXTURE_RATE as int,
        tick.dt as int,
        keys.mixture_rich,
        keys.mixture_lean,
    );
    let power = mixture_power_of(mixture, tick.density_ratio as int);
    let engine = engine_step(
        root.engine_state,
        root.crank_timer,
        keys.starter,
        mixture,
        power,
        config.engine_start_secs as int,
        tick.dt,
    );
    let target = target_rps_of(engine.0, throttle, power, config);
    let flap_target = flap_commanded(
        root.flap_target as int,
        keys.flaps_extend,
        keys.flaps_retract,
    );
    AircraftRoot {
        throttle_percent: throttle as i64,
        engine_rps: spooled(
            root.engine_rps as int,
            target,
            tick.spool_up_alpha as int,
            tick.spool_down_alpha as int,
        ) as i64,
        engine_state: engine.0,
        crank_timer: engine.1,
        mixture: mixture as i64,
        flap_target: flap_target as i64,
        flap_setting: flap_moved(root.flap_setting as int, flap_target, tick.dt as int) as i64,
    }
}

/// One frame of throttle, mixture, engine and flaps.
fn control_engine(
    keys: &ControllerKeys,
    config: &FlightModelConfig,
    root: &mut AircraftRoot,
    tick: &ControllerTick,
)
    requires
        config.flyable(),
        old(root).wf(),
        tick.wf(),
    ensures
        *final(root) == controlled(*old(root), *keys, *config, *tick),
        final(root).wf(),
{
    root.throttle_percent = move_lever(
        root.throttle_percent,
        config.throttle_rate,
        tick.dt,
        keys.throttle_up,
        keys.throttle_down,
    );
    root.mixture = move_lever(
        root.mixture,
        MIXTURE_RATE,
        tick.dt,
        keys.mixture_rich,
        keys.mixture_lean,
    );
    let power: i64 = mixture_power(root.mixture, tick.density_ratio);
    match root.engine_state {
        EngineState::Off => {
            if keys.starter && root.mixture >= START_MIN_MIXTURE {
                root.engine_state = EngineState::Cranking;
                root.crank_timer = 0;
            }
        },
        EngineState::Cranking => {
            root.crank_timer = if tick.dt > u64::MAX - root.crank_timer {
                u64::MAX
            } else {
                root.crank_timer + tick.dt
            };
            if !keys.starter {
                root.engine_state = EngineState::Off;
            } else if root.crank_timer >= config.engine_start_secs as u64 && root.mixture
                >= START_MIN_MIXTURE {
                root.engine_state = EngineState::Running;
            }
        },
        EngineState::Running => {
            if power <= 0 {
                root.engine_state = EngineState::Off;
            }
        },
    }
    let target: i64 = target_rps(root.engine_state, root.throttle_percent, power, config);
    let alpha: i64 = if target > root.engine_rps {
        tick.spool_up_alpha
    } else {
        tick.spool_down_alpha
    };
    proof {
        blend_stays_between(root.engine_rps as int, target as int, alpha as int);
    }
    root.engine_rps = blend(root.engine_rps, target, alpha);
    root.flap_target = flap_lever(root.flap_target, keys.flaps_extend, keys.flaps_retract);
    root.flap_setting = move_flaps(root.flap_setting, root.flap_target, tick.dt);
}

/// One frame of the control surfaces.
fn control_surfaces(
    config: &FlightModelConfig,
    a: &Attitude,
    setting: i64,
    alpha: i64,
    surfaces: &mut Vec<AeroSurface>,
)
    requires
        config.flyable(),
        -1 <= a.pitch <= 1,
        -1 <= a.roll <= 1,
        -1 <= a.yaw <= 1,
        -10_000_000_000 <= setting <= 10_000_000_000,
        0 <= alpha <= ONE,
        forall|i: int|
            0 <= i < old(surfaces)@.len() ==> surface_in_range(#[trigger] old(surfaces)@[i]),
    ensures
        final(surfaces)@ == old(surfaces)@.map_values(
            |s: AeroSurface| surface_moved(*config, *a, setting as int, alpha as int, s),
        ),
{
    let ghost before = surfaces@;
    let ghost moved = |s: AeroSurface|
        surface_moved(*config, *a, setting as int, alpha as int, s);
    let mut i: usize = 0;
    while i < surfaces.len()
        invariant
            i <= surfaces.len(),
            surfaces@.len() == before.len(),
            config.flyable(),
            -1 <= a.pitch <= 1,
            -1 <= a.roll <= 1,
            -1 <= a.yaw <= 1,
            -10_000_000_000 <= setting <= 10_000_000_000,
            0 <= alpha <= ONE,
            forall|n: int| 0 <= n < before.len() ==> surface_in_range(#[trigger] before[n]),
            forall|n: int| i <= n < surfaces@.len() ==> #[trigger] surfaces@[n] == before[n],
            forall|n: int|
                0 <= n < i ==> #[trigger] surfaces@[n] == surface_moved(
                    *config,
                    *a,
                    setting as int,
                    alpha as int,
                    before[n],
                ),
        decreases surfaces.len() - i,
    {
        assert(surfaces@[i as int] == before[i as int]);
        let s: AeroSurface = move_surface(config, a, setting, alpha, &surfaces[i]);
        surfaces.set(i, s);
        i = i + 1;
    }
    assert(surfaces@ =~= before.map_values(moved));
}

/// One frame of the controls: throttle, mixture, the engine's state machine and
/// speed, the flaps, and every control surface. The free camera takes the attitude
/// keys only; throttle, mixture and engine keep running whichever camera is
/// active.
pub fn airplane_controller(
    keys: &ControllerKeys,
    config: &FlightModelConfig,
    root: &mut AircraftRoot,
    surfaces: &mut Vec<AeroSurface>,
    tick: &ControllerTick,
    mode: CameraMode,
)
    requires
        config.flyable(),
        old(root).wf(),
        tick.wf(),
        forall|i: int|
            0 <= i < old(surfaces)@.len() ==> surface_in_range(#[trigger] old(surfaces)@[i]),
    ensures
        *final(root) == controlled(*old(root), *keys, *config, *tick),
        final(root).wf(),
        final(surfaces)@ == old(surfaces)@.map_values(
            |s: AeroSurface|
                surface_moved(
                    *config,
                    attitude_of(*keys, mode),
                    final(root).flap_setting as int,
                    tick.servo_alpha as int,
                    s,
                ),
        ),
{
    control_engine(keys, config, root, tick);
    let a: Attitude = attitude(keys, mode);
    control_surfaces(config, &a, root.flap_setting, tick.servo_alpha, surfaces);
}

/// What the assists read: the sine of the bank (positive with the right wing high)
/// and the bank itself (rad), the sine of the pitch (positive with the nose high),
/// the pitch rate (rad/s) and the airspeed (m/s).
#[derive(Clone, Copy, Debug, PartialEq, Eq, Structural)]
pub struct AssistReading {
    pub bank: i64,
    pub bank_angle: i64,
    pub pitch: i64,
    pub pitch_rate: i64,
    pub airspeed: i64,
}

impl AssistReading {
    /// The sines are sines, the bank is at most a half turn, and the rates are in
    /// reach.
    pub open spec fn wf(self) -> bool {
        &&& -ONE <= self.bank <= ONE
        &&& -HALF_TURN <= self.bank_angle <= HALF_TURN
        &&& -ONE <= self.pitch <= ONE
        &&& -1_000_000_000_000 <= self.pitch_rate <= 1_000_000_000_000
        &&& 0 <= self.airspeed <= 10_000_000_000_000
    }
}

/// Corrective torques (N m): about the nose's horizontal direction, about the axis
/// of pitch, and about the vertical.
#[derive(Clone, Copy, Debug, PartialEq, Eq, Structural)]
pub struct AssistTorque {
    pub roll: i128,
    pub pitch: i128,
    pub yaw: i128,
}

/// A correction of the given strength: it grows with the deviation and with the
/// airspeed.
pub open spec fn correction(strength: int, deviation: int, airspeed: int) -> int {
    scaled(scaled(strength, deviation), airspeed)
}

fn correct(strength: i64, deviation: i64, airspeed: i64) -> (r: i128)
    requires
        -1_000_000_000_000 <= deviation <= 1_000_000_000_000,
        0 <= airspeed <= 10_000_000_000_000,
    ensures
        r == correction(strength as int, deviation as int, airspeed as int),
        -1_000_000_000_000_000_000_000_000_000 <= r <= 1_000_000_000_000_000_000_000_000_000,
{
    let s: i128 = strength as i128;
    let d: i128 = deviation as i128;
    assert(-0x8000_0000_0000_0000 * 1_000_000_000_000 <= s * d <= 0x8000_0000_0000_0000
        * 1_000_000_000_000) by (nonlinear_arith)
        requires
            -0x8000_0000_0000_0000 <= s <= 0x8000_0000_0000_0000,
            -1_000_000_000_000 <= d <= 1_000_000_000_000,
    ;
    let p: i128 = floor_div(s * d, 1_000_000_000);
    let v: i128 = airspeed as i128;
    assert(-10_000_000_000_000_000_000_000 * 10_000_000_000_000 <= p * v
        <= 10_000_000_000_000_000_000_000 * 10_000_000_000_000) by (nonlinear_arith)
        requires
            -10_000_000_000_000_000_000_000 <= p <= 10_000_000_000_000_000_000_000,
            0 <= v <= 10_000_000_000_000,
    ;
    floor_div(p * v, 1_000_000_000)
}

/// Share of the wing-leveling torque near the stall: none up to 25 m/s, all of it
/// from 40 m/s on.
pub open spec fn stall_fade_of(airspeed: int) -> int {
    clamped((airspeed - 25_000_000_000) / 15, 0, ONE as int)
}

/// Fades wing leveling out near stall speed.
pub fn stall_fade(airspeed: i64) -> (share: i64)
    ensures
        share == stall_fade_of(airspeed as int),
        0 <= share <= ONE,
{
    clamp(floor_div(airspeed as i128 - 25_000_000_000, 15), 0, ONE)
}

/// The torque that levels the wings: against the sine of the bank, faded out near the
/// stall.
pub open spec fn roll_torque(config: FlightModelConfig, r: AssistReading) -> int {
    -scaled(
        correction(config.auto_level_strength as int, r.bank as int, r.airspeed as int),
        stall_fade_of(r.airspeed as int),
    )
}

/// The torque that levels the nose: against the sine of the pitch, and against the
/// pitch rate.
pub open spec fn pitch_torque(config: FlightModelConfig, r: AssistReading) -> int {
    -correction(config.pitch_assist_strength as int, r.pitch as int, r.airspeed as int)
        - correction(config.pitch_rate_damp as int, r.pitch_rate as int, r.airspeed as int)
}

/// The torque that turns a banked aircraft toward its low wing: in proportion to the
/// angle of the bank.
pub open spec fn yaw_torque(config: FlightModelConfig, r: AssistReading) -> int {
    -correction(config.bank_turn_strength as int, r.bank_angle as int, r.airspeed as int)
}

/// Gentle corrective torques for a frame. None act in the free camera. They never
/// fight an active input: the moment a key is pressed the correction drops to zero
/// on that axis.
pub fn flight_assist(
    keys: &ControllerKeys,
    mode: CameraMode,
    config: &FlightModelConfig,
    reading: &AssistReading,
) -> (torque: AssistTorque)
    requires
        reading.wf(),
    ensures
        torque.roll == if mode == CameraMode::Orbit && !keys.roll_left && !keys.roll_right {
            roll_torque(*config, *reading)
        } else {
            0
        },
        torque.pitch == if mode == CameraMode::Orbit && !keys.pitch_up && !keys.pitch_down {
            pitch_torque(*config, *reading)
        } else {
            0
        },
        torque.yaw == if mode == CameraMode::Orbit && !keys.yaw_left && !keys.yaw_right {
            yaw_torque(*config, *reading)
        } else {
            0
        },
{
    if mode == CameraMode::Free {
        return AssistTorque { roll: 0, pitch: 0, yaw: 0 };
    }
    let v: i64 = reading.airspeed;
    let roll: i128 = if keys.roll_left || keys.roll_right {
        0
    } else {
        let full: i128 = correct(config.auto_level_strength, reading.bank, v);
        let fade: i128 = stall_fade(v) as i128;
        assert(-1_000_000_000_000_000_000_000_000_000_000_000_000 <= full * fade
            <= 1_000_000_000_000_000_000_000_000_000_000_000_000) by (nonlinear_arith)
            requires
                -1_000_000_000_000_000_000_000_000_000 <= full
                    <= 1_000_000_000_000_000_000_000_000_000,
                0 <= fade <= 1_000_000_000,
        ;
        -floor_div(full * fade, 1_000_000_000)
    };
    let pitch: i128 = if keys.pitch_up || keys.pitch_down {
        0
    } else {
        -correct(config.pitch_assist_strength, reading.pitch, v) - correct(
            config.pitch_rate_damp,
            reading.pitch_rate,
            v,
        )
    };
    let yaw: i128 = if keys.yaw_left || keys.yaw_right {
        0
    } else {
        -correct(config.bank_turn_strength, reading.bank_angle, v)
    };
    AssistTorque { roll, pitch, yaw }
}

proof fn lemma_correction_sign(strength: int, deviation: int, airspeed: int)
    requires
        strength >= 0,
        airspeed >= 0,
    ensures
        deviation >= 0 ==> correction(strength, deviation, airspeed) >= 0,
        deviation <= 0 ==> correction(strength, deviation, airspeed) <= 0,
        airspeed == 0 ==> correction(strength, deviation, airspeed) == 0,
{
    let p = scaled(strength, deviation);
    assert(deviation >= 0 ==> strength * deviation >= 0) by (nonlinear_arith)
        requires
            strength >= 0,
    ;
    assert(deviation <= 0 ==> strength * deviation <= 0) by (nonlinear_arith)
        requires
            strength >= 0,
    ;
    assert(p >= 0 ==> p * airspeed >= 0) by (nonlinear_arith)
        requires
            airspeed >= 0,
    ;
    assert(p <= 0 ==> p * airspeed <= 0) by (nonlinear_arith)
        requires
            airspeed >= 0,
    ;
    assert(airspeed == 0 ==> p * airspeed == 0) by (nonlinear_arith);
}

/// The assists push back: a high right wing is rolled down and turned away from, a
/// high or rising nose is lowered, and the other way round. At a standstill nothing
/// acts, and the wings are left alone up to 25 m/s.
pub proof fn assists_push_back(config: FlightModelConfig, r: AssistReading)
    requires
        r.airspeed >= 0,
        config.auto_level_strength >= 0,
        config.pitch_assist_strength >= 0,
        config.pitch_rate_damp >= 0,
        config.bank_turn_strength >= 0,
    ensures
        r.bank >= 0 ==> roll_torque(config, r) <= 0,
        r.bank <= 0 ==> roll_torque(config, r) >= 0,
        r.bank_angle >= 0 ==> yaw_torque(config, r) <= 0,
        r.bank_angle <= 0 ==> yaw_torque(config, r) >= 0,
        r.pitch >= 0 && r.pitch_rate >= 0 ==> pitch_torque(config, r) <= 0,
        r.pitch <= 0 && r.pitch_rate <= 0 ==> pitch_torque(config, r) >= 0,
        r.airspeed == 0 ==> pitch_torque(config, r) == 0 && yaw_torque(config, r) == 0,
        r.airspeed <= 25_000_000_000 ==> roll_torque(config, r) == 0,
{
    let v = r.airspeed as int;
    lemma_correction_sign(config.auto_level_strength as int, r.bank as int, v);
    lemma_correction_sign(config.pitch_assist_strength as int, r.pitch as int, v);
    lemma_correction_sign(config.pitch_rate_damp as int, r.pitch_rate as int, v);
    lemma_correction_sign(config.bank_turn_strength as int, r.bank_angle as int, v);
    let c = correction(config.auto_level_strength as int, r.bank as int, v);
    let f = stall_fade_of(v);
    assert(c >= 0 ==> c * f >= 0) by (nonlinear_arith)
        requires
            f >= 0,
    ;
    assert(c <= 0 ==> c * f <= 0) by (nonlinear_arith)
        requires
            f >= 0,
    ;
    assert(f == 0 ==> c * f == 0) by (nonlinear_arith);
}

}
