//! What levers, engine and control surfaces do with the pilot's input: laws that
//! relate one frame, lever position or deflection to another.

use super::aero_surface::{AeroSurface, ControlInputType};
use super::aircraft_physics::{AircraftRoot, EngineState};
use super::airplane_controller::{
    attitude_of, controlled, engine_step, flap_commanded, flap_moved, lever_moved,
    mixture_power_of, pitch_torque, roll_torque, spooled, stall_fade_of, surface_moved,
    surface_target, target_rps_of, yaw_torque, AssistReading, Attitude, ControllerKeys,
    ControllerTick,
};
use super::flight_config::FlightModelConfig;
use crate::camera::CameraMode;
use crate::fixed::{blend_stays_between, chain_of_products, scaled, ONE};
use vstd::prelude::*;

verus! {

/// A lever travels by its rate times the time toward the key that is held, and stops
/// at its ends; let go, it stays.
pub proof fn levers_travel_at_their_rate(position: int, rate: int, dt: int)
    requires
        0 <= position <= ONE,
        0 <= rate,
        0 <= dt,
    ensures
        ({
            let up = lever_moved(position, rate, dt, true, false);
            let down = lever_moved(position, rate, dt, false, true);
            &&& lever_moved(position, rate, dt, false, false) == position
            &&& up < ONE ==> (up - position) * ONE <= rate * dt < (up - position + 1) * ONE
            &&& up >= ONE ==> up == ONE && (ONE - position) * ONE <= rate * dt
            &&& down > 0 ==> (position - down) * ONE <= rate * dt < (position - down + 1) * ONE
            &&& down <= 0 ==> down == 0 && position * ONE <= rate * dt
        }),
{
    assert(rate * dt >= 0) by (nonlinear_arith)
        requires
            0 <= rate,
            0 <= dt,
    ;
}

/// Lean of the ideal mixture the engine loses 1.3 of its power times the square of how
/// far off it is, as a share of the ideal, until it makes none.
pub proof fn lean_mixture_costs_power(mixture: int, density_ratio: int, ideal: int)
    requires
        50_000_000 <= mixture <= ideal,
        50_000_000 <= ideal <= ONE,
        ideal == density_ratio || (density_ratio > ONE && ideal == ONE) || (density_ratio
            < 50_000_000 && ideal == 50_000_000),
    ensures
        ({
            let power = mixture_power_of(mixture, density_ratio);
            let off = (ideal - mixture) * (ideal - mixture);
            let whole = ideal * ideal;
            &&& power <= ONE
            &&& power > 0 ==> 13 * off * ONE <= 10 * whole * (ONE - power) < 13 * off * ONE + 10
                * whole
            &&& power <= 0 ==> power == 0 && 13 * off * ONE > 10 * whole * (ONE - 1)
        }),
{
    let d = ideal - mixture;
    let off = d * d;
    let whole = ideal * ideal;
    assert(whole > 0) by (nonlinear_arith)
        requires
            whole == ideal * ideal,
            ideal > 0,
    ;
    assert(off >= 0) by (nonlinear_arith)
        requires
            off == d * d,
    ;
    let n = (10 * whole - 13 * off) * ONE;
    let w = 10 * whole;
    vstd::arithmetic::div_mod::lemma_fundamental_div_mod(n, w);
    let p = n / w;
    let r = n % w;
    assert(w * (ONE - p) == w * ONE - w * p && (p <= 0 ==> w * p <= 0) && (p > ONE ==> w * p >= w
        * ONE + w)) by (nonlinear_arith)
        requires
            w > 0,
    ;
}

/// Rich of it the loss is gentler, 0.35 times that square, and never more than three
/// quarters.
pub proof fn rich_mixture_costs_little_power(mixture: int, density_ratio: int, ideal: int)
    requires
        50_000_000 <= mixture <= ONE,
        50_000_000 <= ideal < mixture,
        ideal == density_ratio || (density_ratio < 50_000_000 && ideal == 50_000_000),
    ensures
        ({
            let power = mixture_power_of(mixture, density_ratio);
            let off = (mixture - ideal) * (mixture - ideal);
            let whole = ideal * ideal;
            &&& 250_000_000 <= power <= ONE
            &&& power > 250_000_000 ==> 35 * off * ONE <= 100 * whole * (ONE - power) < 35 * off
                * ONE + 100 * whole
            &&& power == 250_000_000 ==> 35 * off * ONE > 100 * whole * (ONE - 250_000_001)
        }),
{
    let d = mixture - ideal;
    let off = d * d;
    let whole = ideal * ideal;
    assert(whole > 0) by (nonlinear_arith)
        requires
            whole == ideal * ideal,
            ideal > 0,
    ;
    assert(off >= 0) by (nonlinear_arith)
        requires
            off == d * d,
    ;
    let n = (100 * whole - 35 * off) * ONE;
    let w = 100 * whole;
    vstd::arithmetic::div_mod::lemma_fundamental_div_mod(n, w);
    let p = n / w;
    let r = n % w;
    assert(w * (ONE - p) == w * ONE - w * p && (p <= 250_000_000 ==> w * p <= w * 250_000_000) && (p
        > ONE ==> w * p >= w * ONE + w)) by (nonlinear_arith)
        requires
            w > 0,
    ;
}

/// A running engine at full mixture power is commanded to idle by a closed throttle, to
/// full speed by an open one, and in between in proportion to the lever, to a part in a
/// thousand million; a larger opening never commands less, and clearly more where the
/// range between idle and full speed allows it. An engine that is off is commanded to a
/// stop, the starter turns it at its own speed.
pub proof fn throttle_commands_the_engine(
    config: FlightModelConfig,
    throttle: int,
    wider: int,
    power: int,
)
    requires
        0 <= throttle <= wider <= ONE,
        config.propeller.prop_idle_rps <= config.propeller.prop_max_rps,
    ensures
        ({
            let idle = config.propeller.prop_idle_rps as int;
            let full = config.propeller.prop_max_rps as int;
            let at = |t: int| target_rps_of(EngineState::Running, t, ONE as int, config);
            &&& at(0) == idle
            &&& at(ONE as int) == full
            &&& (at(throttle) - idle) * ONE <= (full - idle) * throttle < (at(throttle) - idle + 1)
                * ONE
            &&& at(throttle) <= at(wider)
            &&& (full - idle) * (wider - throttle) >= ONE ==> at(throttle) < at(wider)
        }),
        target_rps_of(EngineState::Off, throttle, power, config) == 0,
        target_rps_of(EngineState::Cranking, throttle, power, config) == config.engine_crank_rps,
{
    let range = config.propeller.prop_max_rps - config.propeller.prop_idle_rps;
    assert(range * 0 == 0);
    assert(range * (wider - throttle) == range * wider - range * throttle && range * (wider
        - throttle) >= 0) by (nonlinear_arith)
        requires
            range >= 0,
            throttle <= wider,
    ;
}

/// The mixture scales what the throttle commands: at a share of the power the engine
/// turns at that share of the speed.
pub proof fn mixture_scales_the_speed(config: FlightModelConfig, throttle: int, power: int)
    ensures
        ({
            let full = target_rps_of(EngineState::Running, throttle, ONE as int, config);
            let part = target_rps_of(EngineState::Running, throttle, power, config);
            part * ONE <= full * power < (part + 1) * ONE
        }),
{
}

/// Spooling covers the given share of the way to the commanded speed: one share while it
/// speeds up, the other while it slows down.
pub proof fn spooling_covers_a_share(rps: int, target: int, up_alpha: int, down_alpha: int)
    ensures
        ({
            let way = spooled(rps, target, up_alpha, down_alpha) - rps;
            &&& target > rps ==> way * ONE <= (target - rps) * up_alpha < (way + 1) * ONE
            &&& target < rps ==> way * ONE <= (target - rps) * down_alpha < (way + 1) * ONE
            &&& target == rps ==> way == 0
        }),
{
    assert(0 * down_alpha == 0);
}

/// An engine that runs on after a frame with full mixture power has moved toward idle
/// where the throttle is closed, and toward full speed where it is open: by the share of
/// the way that the frame allows.
pub proof fn engine_follows_the_throttle(
    root: AircraftRoot,
    keys: ControllerKeys,
    config: FlightModelConfig,
    tick: ControllerTick,
)
    requires
        root.wf(),
        config.flyable(),
        tick.wf(),
        controlled(root, keys, config, tick).engine_state == EngineState::Running,
        mixture_power_of(
            controlled(root, keys, config, tick).mixture as int,
            tick.density_ratio as int,
        ) == ONE,
    ensures
        ({
            let after = controlled(root, keys, config, tick);
            let idle = config.propeller.prop_idle_rps as int;
            let full = config.propeller.prop_max_rps as int;
            let was = root.engine_rps as int;
            let way = after.engine_rps - was;
            &&& after.throttle_percent == 0 && idle < was ==> way * ONE <= (idle - was)
                * tick.spool_down_alpha < (way + 1) * ONE
            &&& after.throttle_percent == 0 && idle > was ==> way * ONE <= (idle - was)
                * tick.spool_up_alpha < (way + 1) * ONE
            &&& after.throttle_percent == ONE && full > was ==> way * ONE <= (full - was)
                * tick.spool_up_alpha < (way + 1) * ONE
            &&& after.throttle_percent == ONE && full < was ==> way * ONE <= (full - was)
                * tick.spool_down_alpha < (way + 1) * ONE
        }),
{
    let after = controlled(root, keys, config, tick);
    let throttle = lever_moved(
        root.throttle_percent as int,
        config.throttle_rate as int,
        tick.dt as int,
        keys.throttle_up,
        keys.throttle_down,
    );
    let mixture = lever_moved(
        root.mixture as int,
        500_000_000,
        tick.dt as int,
        keys.mixture_rich,
        keys.mixture_lean,
    );
    lemma_lever(
        root.throttle_percent as int,
        config.throttle_rate as int,
        tick.dt as int,
        keys.throttle_up,
        keys.throttle_down,
    );
    lemma_lever(
        root.mixture as int,
        500_000_000,
        tick.dt as int,
        keys.mixture_rich,
        keys.mixture_lean,
    );
    assert(after.throttle_percent == throttle && after.mixture == mixture);
    let idle = config.propeller.prop_idle_rps as int;
    let full = config.propeller.prop_max_rps as int;
    let was = root.engine_rps as int;
    assert((full - idle) * 0 == 0);
    blend_stays_between(idle, full, throttle);
    let target = target_rps_of(EngineState::Running, throttle, ONE as int, config);
    blend_stays_between(was, target, tick.spool_up_alpha as int);
    blend_stays_between(was, target, tick.spool_down_alpha as int);
}

proof fn lemma_lever(position: int, rate: int, dt: int, plus: bool, minus: bool)
    requires
        0 <= position <= ONE,
        0 <= rate,
        0 <= dt,
    ensures
        0 <= lever_moved(position, rate, dt, plus, minus) <= ONE,
{
    assert(rate * dt >= 0) by (nonlinear_arith)
        requires
            0 <= rate,
            0 <= dt,
    ;
}

/// Throttle and mixture each answer to their own keys: the throttle travels at the
/// configured rate, the mixture its whole range in two seconds, and without a key both
/// stay. The flaps go where their lever stands, at fifteen degrees a second.
pub proof fn levers_answer_their_keys(
    root: AircraftRoot,
    keys: ControllerKeys,
    config: FlightModelConfig,
    tick: ControllerTick,
)
    requires
        root.wf(),
        config.flyable(),
        tick.wf(),
    ensures
        ({
            let after = controlled(root, keys, config, tick);
            let throttle = after.throttle_percent - root.throttle_percent;
            let mixture = after.mixture - root.mixture;
            let (dt, rate) = (tick.dt as int, config.throttle_rate as int);
            &&& !keys.throttle_up && !keys.throttle_down ==> throttle == 0
            &&& keys.throttle_up && !keys.throttle_down && after.throttle_percent < ONE
                ==> throttle * ONE <= rate * dt < (throttle + 1) * ONE
            &&& keys.throttle_up && !keys.throttle_down ==> throttle >= 0
            &&& keys.throttle_down && !keys.throttle_up && after.throttle_percent > 0 ==> -throttle
                * ONE <= rate * dt < (1 - throttle) * ONE
            &&& keys.throttle_down && !keys.throttle_up ==> throttle <= 0
            &&& !keys.mixture_rich && !keys.mixture_lean ==> mixture == 0
            &&& keys.mixture_rich && !keys.mixture_lean && after.mixture < ONE ==> mixture * 2 <= dt
                < (mixture + 1) * 2
            &&& keys.mixture_lean && !keys.mixture_rich && after.mixture > 0 ==> -mixture * 2 <= dt
                < (1 - mixture) * 2
            &&& !keys.flaps_extend && !keys.flaps_retract ==> after.flap_target == root.flap_target
            &&& after.flap_setting == flap_moved(
                root.flap_setting as int,
                after.flap_target as int,
                dt,
            )
        }),
{
    let (p, rate, dt) = (
        root.throttle_percent as int,
        config.throttle_rate as int,
        tick.dt as int,
    );
    let m = root.mixture as int;
    lemma_lever(p, rate, dt, keys.throttle_up, keys.throttle_down);
    lemma_lever(m, 500_000_000, dt, keys.mixture_rich, keys.mixture_lean);
    levers_travel_at_their_rate(p, rate, dt);
    levers_travel_at_their_rate(m, 500_000_000, dt);
    super::airplane_controller::flaps_reach_the_lever(
        root.flap_setting as int,
        controlled(root, keys, config, tick).flap_target as int,
        dt,
    );
}

/// A released starter lets a cranking engine stop; one that still cranks after a frame
/// has counted the frame's time, and a running engine with power runs on.
pub proof fn cranking_counts_the_time(
    timer: u64,
    mixture: int,
    power: int,
    start_secs: int,
    dt: u64,
)
    requires
        timer + dt <= u64::MAX,
    ensures
        engine_step(EngineState::Cranking, timer, false, mixture, power, start_secs, dt).0
            == EngineState::Off,
        engine_step(EngineState::Cranking, timer, true, mixture, power, start_secs, dt).1 == timer
            + dt,
        engine_step(EngineState::Cranking, timer, true, mixture, power, start_secs, dt).0
            == EngineState::Running <==> timer + dt >= start_secs && mixture >= 300_000_000,
        power > 0 ==> engine_step(
            EngineState::Running,
            timer,
            false,
            mixture,
            power,
            start_secs,
            dt,
        ).0 == EngineState::Running,
{
}

/// Flaps that have not reached the lever have travelled fifteen degrees a second toward
/// it.
pub proof fn flaps_travel_at_their_rate(setting: int, target: int, dt: int)
    requires
        dt >= 0,
        flap_moved(setting, target, dt) != target,
    ensures
        ({
            let way = flap_moved(setting, target, dt) - setting;
            let size = if way < 0 {
                -way
            } else {
                way
            };
            &&& size * ONE <= 261_799_388 * dt < (size + 1) * ONE
            &&& target > setting ==> way >= 0
            &&& target < setting ==> way <= 0
        }),
{
}

/// The elevator stands at its trim with the stick let go, and as far to either side of
/// it as the stick commands; ailerons, rudder and flaps are commanded in proportion to
/// their inputs. The rudder takes in a fifth of the roll.
pub proof fn surfaces_follow_the_controls(
    config: FlightModelConfig,
    a: Attitude,
    flap_setting: int,
    s: AeroSurface,
)
    ensures
        ({
            let t = surface_target(config, a, flap_setting, s);
            let m = s.input_multiplier as int;
            match s.input_type {
                ControlInputType::Pitch => {
                    let off = t - config.elevator_trim;
                    off * ONE <= a.pitch * config.pitch_sensitivity * m < (off + 1) * ONE
                },
                ControlInputType::Roll => t * ONE <= a.roll * config.roll_sensitivity * m < (t + 1)
                    * ONE,
                ControlInputType::Yaw => 5 * t * ONE <= 5 * (a.yaw * config.yaw_sensitivity * m) + a.roll
                    * config.yaw_sensitivity * m < 5 * (t + 1) * ONE,
                ControlInputType::Flap => t * ONE <= flap_setting * m < (t + 1) * ONE,
            }
        }),
{
    let m = s.input_multiplier as int;
    let k = config.yaw_sensitivity as int;
    let (y, r) = (a.yaw as int, a.roll as int);
    assert((5 * y + r) * k * m == 5 * (y * k * m) + r * k * m) by (nonlinear_arith);
}

/// Every control surface closes in on its commanded deflection by the servo's share of
/// the way, and gets there with a whole share; nothing else of it changes, and nothing
/// at all of a fixed surface.
pub proof fn servos_close_in(
    config: FlightModelConfig,
    a: Attitude,
    flap_setting: int,
    alpha: int,
    s: AeroSurface,
)
    requires
        0 <= alpha <= ONE,
        -872_664_626 <= s.flap_angle <= 872_664_626,
    ensures
        ({
            let after = surface_moved(config, a, flap_setting, alpha, s);
            let target = surface_target(config, a, flap_setting, s);
            let way = after.flap_angle - s.flap_angle;
            &&& !s.is_control_surface ==> after == s
            &&& (AeroSurface { flap_angle: s.flap_angle, ..after }) == s
            &&& s.is_control_surface && -872_664_626 < after.flap_angle < 872_664_626 ==> way * ONE
                <= (target - s.flap_angle) * alpha < (way + 1) * ONE
            &&& s.is_control_surface && alpha == ONE && -872_664_626 <= target <= 872_664_626
                ==> after.flap_angle == target
            &&& -872_664_626 <= after.flap_angle <= 872_664_626
            &&& s.is_control_surface && target >= s.flap_angle ==> way >= 0
            &&& s.is_control_surface && target <= s.flap_angle ==> way <= 0
        }),
{
    let target = surface_target(config, a, flap_setting, s);
    blend_stays_between(s.flap_angle as int, target, alpha);
}

/// Opposite keys command opposite inputs, and no keys none; of two opposite ones held
/// together up and right win. The free camera has them all.
pub proof fn keys_command_their_axis(keys: ControllerKeys)
    ensures
        ({
            let a = attitude_of(keys, CameraMode::Orbit);
            &&& keys.pitch_up ==> a.pitch == 1
            &&& keys.pitch_down && !keys.pitch_up ==> a.pitch == -1
            &&& !keys.pitch_up && !keys.pitch_down ==> a.pitch == 0
            &&& keys.roll_right ==> a.roll == 1
            &&& keys.roll_left && !keys.roll_right ==> a.roll == -1
            &&& !keys.roll_left && !keys.roll_right ==> a.roll == 0
            &&& keys.yaw_right ==> a.yaw == 1
            &&& keys.yaw_left && !keys.yaw_right ==> a.yaw == -1
            &&& !keys.yaw_left && !keys.yaw_right ==> a.yaw == 0
        }),
        ({
            let free = attitude_of(keys, CameraMode::Free);
            free.pitch == 0 && free.roll == 0 && free.yaw == 0
        }),
{
}

/// Levelling the wings fades in evenly between 25 and 40 metres a second.
pub proof fn levelling_fades_in(airspeed: int)
    ensures
        airspeed <= 25_000_000_000 ==> stall_fade_of(airspeed) == 0,
        airspeed >= 40_000_000_000 ==> stall_fade_of(airspeed) == ONE,
        25_000_000_000 <= airspeed <= 40_000_000_000 ==> stall_fade_of(airspeed) * 15 <= airspeed
            - 25_000_000_000 < (stall_fade_of(airspeed) + 1) * 15,
{
}

/// Each assist is its strength times the deviation times the airspeed, against the
/// deviation, up to rounding: wings are levelled by the sine of the bank, a turn is
/// led by its angle.
pub proof fn assists_act_in_proportion(config: FlightModelConfig, r: AssistReading)
    requires
        0 <= r.airspeed,
    ensures
        ({
            let slack = ONE * ONE + ONE * r.airspeed;
            let level = config.auto_level_strength * r.bank * r.airspeed;
            let turn = config.bank_turn_strength * r.bank_angle * r.airspeed;
            let nose = config.pitch_assist_strength * r.pitch * r.airspeed
                + config.pitch_rate_damp * r.pitch_rate * r.airspeed;
            &&& 0 <= turn + yaw_torque(config, r) * ONE * ONE < slack
            &&& 0 <= nose + pitch_torque(config, r) * ONE * ONE < 2 * slack
            &&& r.airspeed >= 40_000_000_000 ==> 0 <= level + roll_torque(config, r) * ONE * ONE
                < slack
        }),
{
    let v = r.airspeed as int;
    chain_of_products(config.auto_level_strength as int, r.bank as int, v);
    chain_of_products(config.bank_turn_strength as int, r.bank_angle as int, v);
    chain_of_products(config.pitch_assist_strength as int, r.pitch as int, v);
    chain_of_products(config.pitch_rate_damp as int, r.pitch_rate as int, v);
    let level = scaled(scaled(config.auto_level_strength as int, r.bank as int), v);
    assert(level * ONE / (ONE as int) == level);
}

/// Below 40 metres a second the wings are levelled by the share that has faded in of
/// what the full torque would be.
pub proof fn faded_levelling_is_a_share(config: FlightModelConfig, r: AssistReading, full: int)
    requires
        full == -scaled(
            scaled(config.auto_level_strength as int, r.bank as int),
            r.airspeed as int,
        ),
    ensures
        ({
            let share = stall_fade_of(r.airspeed as int);
            let torque = roll_torque(config, r);
            (torque - 1) * ONE < full * share <= torque * ONE
        }),
{
    let share = stall_fade_of(r.airspeed as int);
    assert((-full) * share == -(full * share)) by (nonlinear_arith);
}

/// The flap keys step by ten degrees from the notch that the lever stands at, within half
/// a degree, and no further than 0 and 30 degrees. From between the notches they go to
/// ten degrees or to none. Both keys together extend.
pub proof fn flap_keys_step_by_ten_degrees(target: int)
    ensures
        ({
            let out = flap_commanded(target, true, false);
            let back = flap_commanded(target, false, true);
            let at_none = -8_726_646 < target < 8_726_646;
            let at_ten = -8_726_646 < target - 174_532_925 < 8_726_646;
            let at_twenty = -8_726_646 < target - 349_065_850 < 8_726_646;
            let at_thirty = -8_726_646 < target - 523_598_776 < 8_726_646;
            &&& at_none ==> out == 174_532_925 && back == 0
            &&& at_ten ==> out == 349_065_850 && back == 0
            &&& at_twenty ==> out == 523_598_776 && back == 174_532_925
            &&& at_thirty ==> out == 523_598_776 && back == 349_065_850
            &&& !at_none && !at_ten && !at_twenty && !at_thirty ==> out == 174_532_925 && back == 0
            &&& flap_commanded(target, true, true) == out
            &&& flap_commanded(target, false, false) == target
        }),
{
}

}
