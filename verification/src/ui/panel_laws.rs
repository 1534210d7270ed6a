//! What the instruments and levers show for what the aircraft does: laws over readings,
//! marks and pointers.

use super::instrument_panel::{
    airspeed_ticks, altitude_ticks, band_at, compass_mark_at, crossing, density_shown, dial_share,
    dial_tick_at, dial_ticks, feet, feet_per_minute, heading, heading_label, is_panel, knots,
    pitch_shift, pressure, rung_at, rung_shown, rung_y, rungs, standard_temperature, tick_at, tick_y, ticks,
    vspeed_bug, wrapped, BandColour, FlightReading, Panel, TapeScale,
};
use super::levers::{
    flap_rail, handle_share, handle_y, lever_value, percent_label, power_rail, rail_share, snapped,
    trim_rail, Rail,
};
use crate::fixed::{scaled, ONE};
use crate::text::{
    fixed_digits, nearest, padded_digits_read_back, reading, rounded_text,
    rounding_takes_the_nearest, ten_to,
};
use vstd::prelude::*;

verus! {

proof fn lemma_quotient(n: int, d: int)
    requires
        d > 0,
    ensures
        (n / d) * d <= n < (n / d + 1) * d,
{
    vstd::arithmetic::div_mod::lemma_fundamental_div_mod(n, d);
    let q = n / d;
    let r = n % d;
    assert(q * d <= n < (q + 1) * d) by (nonlinear_arith)
        requires
            n == d * q + r,
            0 <= r < d,
    ;
}

/// A mark stands below the middle of its tape by what the reading exceeds it, at the tape's
/// scale: the mark that is read stands in the middle, larger ones above it.
pub proof fn marks_stand_where_they_read(reading: int, value: int, px: int)
    requires
        px > 0,
    ensures
        ({
            let y = tick_y(reading, value, px);
            y * ONE <= (reading - value * ONE) * px < (y + 1) * ONE
        }),
        reading == value * ONE ==> tick_y(reading, value, px) == 0,
        reading < value * ONE ==> tick_y(reading, value, px) < 0,
{
    let d = reading - value * ONE;
    assert((d < 0 ==> d * px < 0) && (d == 0 ==> d * px == 0)) by (nonlinear_arith)
        requires
            px > 0,
    ;
}

/// A tape shows only marks of its own graduation that fit on it, each with its value, its
/// place and whether it is a longer one.
pub proof fn tapes_show_their_own_marks(
    reading: int,
    first: int,
    count: nat,
    tape: TapeScale,
    i: int,
)
    requires
        0 <= i < ticks(reading, first, count, tape).len(),
    ensures
        exists|n: int|
            {
                &&& 0 <= n < count
                &&& ticks(reading, first, count, tape)[i] == #[trigger] tick_at(
                    reading,
                    first + n * tape.step,
                    tape,
                )
                &&& -80_000_000_000 <= tick_y(reading, first + n * tape.step, tape.px as int)
                    <= 80_000_000_000
            },
    decreases count,
{
    let before = ticks(reading, first, (count - 1) as nat, tape);
    if i < before.len() {
        tapes_show_their_own_marks(reading, first, (count - 1) as nat, tape, i);
    } else {
        let n = count - 1;
        assert(ticks(reading, first, count, tape)[i] == tick_at(
            reading,
            first + n * tape.step,
            tape,
        ));
    }
}

/// A longer mark is one whose value is a whole number of the longer steps.
pub proof fn longer_marks_are_whole_steps(reading: int, value: int, tape: TapeScale)
    ensures
        tick_at(reading, value, tape).major <==> value % (tape.major as int) == 0,
        -1_000_000_000_000_000_000 <= value <= 1_000_000_000_000_000_000 ==> tick_at(
            reading,
            value,
            tape,
        ).value == value,
{
}

/// An airspeed band reaches from its upper speed at the top to its lower one at the bottom,
/// 1.4 px to the knot from the middle, cut at the ends of the tape.
pub proof fn bands_reach_between_their_speeds(knots: int, lo: int, hi: int, colour: BandColour)
    requires
        lo <= hi,
    ensures
        band_at(knots, lo, hi, colour) matches Some(b) ==> {
            &&& b.colour == colour
            &&& -80_000_000_000 <= b.top <= b.bottom <= 80_000_000_000
            &&& -80_000_000_000 < b.top < 80_000_000_000 ==> 10 * b.top <= 14 * (knots - hi) < 10
                * (b.top + 1)
            &&& -80_000_000_000 < b.bottom < 80_000_000_000 ==> 10 * b.bottom <= 14 * (knots - lo)
                < 10 * (b.bottom + 1)
        },
        -57_000_000_000 <= knots - lo <= 57_000_000_000 ==> band_at(knots, lo, hi, colour) is Some,
{
}

/// The vertical-speed bug stands 0.035 px above the middle for each foot a minute of climb,
/// as far below it for the same descent, and stops at 2000.
pub proof fn vspeed_bug_follows_the_climb(fpm: int)
    ensures
        -2_000_000_000_000 <= fpm <= 2_000_000_000_000 ==> -1000 * vspeed_bug(fpm) <= 35 * fpm
            < 1000 * (1 - vspeed_bug(fpm)),
        fpm >= 2_000_000_000_000 ==> vspeed_bug(fpm) == -70_000_000_000,
        fpm <= -2_000_000_000_000 ==> vspeed_bug(fpm) == 70_000_000_000,
        vspeed_bug(0) == 0,
{
}

/// The horizon moves 0.8 px for each degree of pitch, and the rungs of the ladder with it,
/// eight px apart from ten degrees to ten.
pub proof fn horizon_follows_the_pitch(pitch: int, i: int)
    ensures
        5 * pitch_shift(pitch) <= 4 * pitch < 5 * (pitch_shift(pitch) + 1),
        rung_y(pitch, i + 1) - rung_y(pitch, i) == 8 * ONE,
        rung_y(pitch, 0) == -pitch_shift(pitch),
        -6 <= i <= 6 ==> {
            let r = rung_at(pitch, i);
            &&& r.angle == 10 * i
            &&& r.labelled ==> r.major && i != 0
            &&& i == 0 || i == 3 || i == -3 || i == 6 || i == -6 <==> r.major
        },
{
}

/// Every rung of the ladder that is near enough is drawn.
pub proof fn ladder_is_complete(pitch: int, end: int, i: int)
    requires
        -6 <= i < end,
        rung_shown(pitch, i),
    ensures
        rungs(pitch, end).contains(rung_at(pitch, i)),
    decreases end + 6,
{
    let before = rungs(pitch, end - 1);
    let all = rungs(pitch, end);
    if i == end - 1 {
        assert(all[all.len() - 1] == rung_at(pitch, i));
    } else {
        ladder_is_complete(pitch, end - 1, i);
        let k = choose|k: int| 0 <= k < before.len() && before[k] == rung_at(pitch, i);
        assert(all[k] == rung_at(pitch, i));
    }
}

/// Nothing but rungs that are near enough is drawn.
pub proof fn ladder_shows_near_rungs(pitch: int, end: int, k: int)
    requires
        0 <= k < rungs(pitch, end).len(),
    ensures
        exists|i: int|
            -6 <= i < end && rungs(pitch, end)[k] == #[trigger] rung_at(pitch, i) && rung_shown(
                pitch,
                i,
            ),
    decreases end + 6,
{
    let before = rungs(pitch, end - 1);
    if k < before.len() {
        ladder_shows_near_rungs(pitch, end - 1, k);
    } else {
        assert(rungs(pitch, end)[k] == rung_at(pitch, end - 1));
    }
}

/// A crossing cuts the way between two points in the proportion in which the horizon line
/// cuts the way between their levels.
pub proof fn crossings_cut_in_proportion(a: int, b: int, la: int, lb: int, line: int)
    requires
        la <= line < lb,
    ensures
        ({
            let way = crossing(a, b, la, lb, line) - a;
            way * (lb - la) <= (line - la) * (b - a) < (way + 1) * (lb - la)
        }),
        ({
            let way = crossing(a, b, lb, la, line) - a;
            way * (lb - la) <= (lb - line) * (b - a) < (way + 1) * (lb - la)
        }),
{
    lemma_quotient((line - la) * (b - a), lb - la);
    lemma_quotient((lb - line) * (b - a), lb - la);
}

/// Taken into one turn an angle is in the turn, and differs by whole turns.
pub proof fn headings_stay_in_the_turn(angle: int)
    ensures
        0 <= wrapped(angle) < 360_000_000_000,
        (angle - wrapped(angle)) % 360_000_000_000 == 0,
        wrapped(angle + 360_000_000_000) == wrapped(angle),
{
}

/// The compass turns against the heading: a bearing to the right of the nose stands as far
/// clockwise of the top, and the cardinal letters stand at their bearings.
pub proof fn compass_turns_against_the_heading(heading: int, i: int)
    requires
        0 <= heading < 360_000_000_000,
        0 <= i < 12,
    ensures
        compass_mark_at(heading, i).angle + 90 * ONE == 30 * i * ONE - heading,
        compass_mark_at(heading, 0).letter == Some('N'),
        compass_mark_at(heading, 3).letter == Some('E'),
        compass_mark_at(heading, 6).letter == Some('S'),
        compass_mark_at(heading, 9).letter == Some('W'),
        i % 3 != 0 ==> compass_mark_at(heading, i).letter is None,
{
}

/// The needle stands at the engine's share of the redline, and the dial has a tick at each
/// 200 revolutions up to it, a longer one at each 1000.
pub proof fn needle_stands_at_the_share(rpm: int, max: int, k: int)
    requires
        0 <= rpm <= max,
        0 < max,
        0 <= k,
        k * 200_000_000_000 <= max,
    ensures
        dial_share(rpm, max) * max <= rpm * ONE < (dial_share(rpm, max) + 1) * max,
        k < dial_ticks(max),
        dial_tick_at(k, max).major <==> k % 5 == 0,
        ({
            let share = dial_tick_at(k, max).share;
            share * max <= k * 200_000_000_000 * ONE < (share + 1) * max
        }),
        (dial_ticks(max) - 1) * 200_000_000_000 <= max + ONE,
{
    lemma_dial(rpm, max);
    lemma_dial(k * 200_000_000_000, max);
}

proof fn lemma_dial(rpm: int, max: int)
    requires
        0 <= rpm <= max,
        0 < max,
    ensures
        dial_share(rpm, max) * max <= rpm * ONE < (dial_share(rpm, max) + 1) * max,
        0 <= dial_share(rpm, max) <= ONE,
{
    lemma_quotient(rpm * ONE, max);
    let q = (rpm * ONE) / max;
    assert(0 <= q <= ONE) by (nonlinear_arith)
        requires
            q * max <= rpm * ONE,
            rpm * ONE < (q + 1) * max,
            0 <= rpm <= max,
            0 < max,
            ONE > 0,
    ;
}

/// The panel converts what it reads: 1.943844 knots to the metre a second, 3.28084 feet to
/// the metre and sixty seconds to the minute; the heading is the bearing a quarter turn on.
pub proof fn readings_convert(r: FlightReading)
    ensures
        knots(r) * ONE <= r.speed * 1_943_844_000 < (knots(r) + 1) * ONE,
        feet(r) * ONE <= r.altitude * 3_280_840_000 < (feet(r) + 1) * ONE,
        feet_per_minute(r) * ONE <= 60 * (r.climb * 3_280_840_000) < (feet_per_minute(r) + 60)
            * ONE,
        (heading(r) - r.bearing - 90_000_000_000) % 360_000_000_000 == 0,
        0 <= heading(r) < 360_000_000_000,
{
}

/// Each instrument of the panel shows its own reading.
pub proof fn instruments_show_their_reading(p: Panel, r: FlightReading)
    requires
        is_panel(p, r),
    ensures
        p.altitude_ticks@ == altitude_ticks(feet(r)),
        p.airspeed_ticks@ == airspeed_ticks(knots(r)),
        p.vspeed_y == vspeed_bug(feet_per_minute(r)),
        p.pitch_shift == pitch_shift(r.pitch as int),
        p.rungs@ == rungs(r.pitch as int, 7),
        p.roll == r.roll,
        p.engine.needle == dial_share(r.engine_rps * 60, r.prop_max_rps * 60),
        p.compass@[0] == compass_mark_at(heading(r), 0),
        p.engine.label@ == rounded_text(60 * r.engine_rps, 0) + " RPM"@,
        p.heading_label@.len() == 4,
{
    padded_digits_read_back(nearest(heading(r), ONE as int) as nat, 3);
    reveal_strlit("°");
}

/// The standard atmosphere cools by 6.5 degrees a kilometre from 288.15 K.
pub proof fn air_cools_evenly(altitude: int)
    requires
        altitude <= 44_000_000_000_000,
    ensures
        ({
            let cooler = 288_150_000_000 - standard_temperature(altitude);
            10_000 * cooler <= 65 * altitude < 10_000 * (cooler + 1)
        }),
{
}

/// The pressure shown is in proportion to the sea-level density and to the share of its
/// pressure that is left; the density shown is the pressure over the gas constant of air,
/// 287.05, times the temperature.
pub proof fn barometer_follows_the_gas_law(density: int, share: int, kelvin: int)
    requires
        0 <= density,
        0 <= share,
        scaled(287_050_000_000, kelvin) > 0,
    ensures
        ({
            let sea = pressure(density, ONE as int);
            let here = pressure(density, share);
            let shown = density_shown(density, share, kelvin);
            let gas = scaled(287_050_000_000, kelvin);
            &&& sea * ONE <= density * 82_713_457_500_000 < (sea + 1) * ONE
            &&& here * ONE <= sea * share < (here + 1) * ONE
            &&& shown * gas <= here * ONE < (shown + 1) * gas
        }),
{
    lemma_quotient(pressure(density, share) * ONE, scaled(287_050_000_000, kelvin));
}

/// The pointer holds a lever at its own height: whole at the rail's top, nothing 90 px
/// below it, in between in proportion.
pub proof fn pointers_hold_levers_at_their_height(pointer: int, rail_top: int)
    ensures
        ({
            let share = rail_share(pointer, rail_top);
            let below = pointer - rail_top;
            &&& below <= 0 ==> share == ONE
            &&& below >= 90_000_000_000 ==> share == 0
            &&& 0 <= below <= 90_000_000_000 ==> 90 * (ONE - share) <= below < 90 * (ONE - share
                + 1)
        }),
{
}

/// A lever without steps stands at its share of the way between its ends; one with steps at
/// the step nearest to that.
pub proof fn levers_stand_at_their_share(rail: Rail, share: int)
    requires
        rail.wf(),
        0 <= share <= ONE,
    ensures
        rail.step is None ==> {
            let way = lever_value(rail, share) - rail.bottom;
            way * ONE <= (rail.top - rail.bottom) * share < (way + 1) * ONE
        },
        rail.step matches Some(s) ==> {
            let plain = lever_value((Rail { step: None, ..rail }), share);
            -s <= 2 * (lever_value(rail, share) - plain) <= s
        },
{
    if let Some(s) = rail.step {
        let v = rail.bottom + scaled(rail.top - rail.bottom, share);
        nearest_steps_are_near(v, s as int);
    }
}

/// Snapping goes to the nearest step, and leaves a value that is on a step alone.
pub proof fn nearest_steps_are_near(v: int, step: int)
    requires
        step > 0,
    ensures
        -step <= 2 * (snapped(v, step) - v) <= step,
        snapped(-v, step) == -snapped(v, step),
        v % step == 0 ==> snapped(v, step) == v,
{
    let a = if v >= 0 {
        v
    } else {
        -v
    };
    let n = 2 * a + step;
    lemma_quotient(n, 2 * step);
    let q = n / (2 * step);
    assert(-step <= 2 * (q * step - a) <= step) by (nonlinear_arith)
        requires
            q * (2 * step) <= n,
            n < (q + 1) * (2 * step),
            n == 2 * a + step,
    ;
    if v == 0 {
        assert(q == 0) by (nonlinear_arith)
            requires
                q * (2 * step) <= step,
                step < (q + 1) * (2 * step),
                step > 0,
        ;
        assert(q * step == 0) by (nonlinear_arith)
            requires
                q == 0,
        ;
    }
    if v % step == 0 {
        let k = v / step;
        vstd::arithmetic::div_mod::lemma_fundamental_div_mod(v, step);
        let off = snapped(v, step) - v;
        let m = if v >= 0 {
            q - k
        } else {
            -q - k
        };
        assert(off == m * step) by (nonlinear_arith)
            requires
                v == step * k,
                off == (if v >= 0 {
                    q * step
                } else {
                    -(q * step)
                }) - v,
                m == (if v >= 0 {
                    q - k
                } else {
                    -q - k
                }),
        ;
        assert(m == 0) by (nonlinear_arith)
            requires
                -step <= 2 * (m * step) <= step,
                step > 0,
        ;
        assert(m * step == 0) by (nonlinear_arith)
            requires
                m == 0,
        ;
    }
}

/// The handle shows the value: it stands at the value's share of the way between the ends,
/// six px short of either end of the rail, 0.078 px to the thousandth.
pub proof fn handles_show_the_value(rail: Rail, value: int, rail_top: int)
    requires
        rail.wf(),
        rail.bottom <= value <= rail.top || rail.top <= value <= rail.bottom,
    ensures
        ({
            let share = handle_share(rail, value);
            let span = if rail.top > rail.bottom {
                rail.top - rail.bottom
            } else {
                rail.bottom - rail.top
            };
            let up = if rail.top > rail.bottom {
                value - rail.bottom
            } else {
                rail.bottom - value
            };
            share * span <= up * ONE < (share + 1) * span
        }),
        handle_y(rail_top, 0) == rail_top + 84_000_000_000,
        handle_y(rail_top, ONE as int) == rail_top + 6_000_000_000,
{
    let span = if rail.top > rail.bottom {
        rail.top - rail.bottom
    } else {
        rail.bottom - rail.top
    };
    let up = if rail.top > rail.bottom {
        value - rail.bottom
    } else {
        rail.bottom - value
    };
    lemma_dial(up, span);
    lemma_quotient(up * ONE, span);
    let q = (up * ONE) / span;
    assert(0 <= q <= ONE) by (nonlinear_arith)
        requires
            q * span <= up * ONE,
            up * ONE < (q + 1) * span,
            0 <= up <= span,
            0 < span,
            ONE > 0,
    ;
}

/// Throttle and mixture run from nothing at the bottom to all at the top, the flaps from
/// thirty degrees at the bottom to none at the top in tens, the trim ten degrees either way
/// in ones.
pub proof fn rails_have_their_ranges()
    ensures
        power_rail().bottom == 0 && power_rail().top == ONE && power_rail().step is None,
        flap_rail().bottom == 30 * ONE && flap_rail().top == 0,
        flap_rail().step == Some(10_000_000_000i64),
        trim_rail().bottom == -10 * ONE && trim_rail().top == 10 * ONE,
        trim_rail().step == Some(ONE),
{
}

/// The panel's labels give the readings in feet, feet per minute and knots.
pub proof fn labels_give_the_readings(p: Panel, r: FlightReading, ft: int, rate: int, kt: int)
    requires
        is_panel(p, r),
        ft * 1_000_000_000 <= r.altitude * 3_280_840_000 < (ft + 1) * 1_000_000_000,
        rate * 1_000_000_000 <= r.climb * 3_280_840_000 < (rate + 1) * 1_000_000_000,
        kt * 1_000_000_000 <= r.speed * 1_943_844_000 < (kt + 1) * 1_000_000_000,
    ensures
        p.altitude_label@ == rounded_text(ft, 0),
        p.vspeed_label@ == rounded_text(60 * rate, 0),
        p.airspeed_label@ == rounded_text(kt, 0),
{
    assert(ft == feet(r));
    assert(60 * rate == feet_per_minute(r));
    assert(kt == knots(r));
}

proof fn lemma_three_digits(turn: int)
    requires
        0 <= turn < 360_000_000_000,
    ensures
        ({
            let shown = reading(heading_label(turn).take(3)) * 1_000_000_000;
            -500_000_000 <= shown - turn <= 500_000_000
        }),
{
    let whole = nearest(turn, 1_000_000_000);
    rounding_takes_the_nearest(turn, 1_000_000_000);
    padded_digits_read_back(whole as nat, 3);
    assert(ten_to(3) == 1000) by {
        reveal_with_fuel(ten_to, 4);
    }
    assert(whole % 1000 == whole);
    assert(heading_label(turn).take(3) == fixed_digits(whole as nat, 3));
}

/// The heading's label gives the bearing, a quarter turn on, to the nearest degree in three
/// digits.
pub proof fn heading_label_is_the_nearest_degree(p: Panel, r: FlightReading)
    requires
        is_panel(p, r),
    ensures
        ({
            let shown = reading(p.heading_label@.take(3)) * 1_000_000_000;
            let turn = (r.bearing + 90_000_000_000) % 360_000_000_000;
            -500_000_000 <= shown - turn <= 500_000_000
        }),
{
    lemma_three_digits(heading(r));
}

/// The airspeed tape is red below 48 knots and above 163, green up to 120 and yellow in
/// between; its bands lie where these speeds are.
pub proof fn speed_bands_warn_and_clear(p: Panel, r: FlightReading)
    requires
        is_panel(p, r),
    ensures
        ({
            let bands = p.airspeed_bands@;
            &&& bands.len() == 4
            &&& bands[0] matches Some(b) ==> b.colour == BandColour::Warn
            &&& bands[1] matches Some(b) ==> b.colour == BandColour::Good
            &&& bands[2] matches Some(b) ==> b.colour == BandColour::Caution
            &&& bands[3] matches Some(b) ==> b.colour == BandColour::Warn
            &&& 48_000_000_000 <= knots(r) <= 120_000_000_000 ==> (bands[1] matches Some(b)
                && b.top <= 0 <= b.bottom)
            &&& 120_000_000_000 <= knots(r) <= 163_000_000_000 ==> (bands[2] matches Some(b)
                && b.top <= 0 <= b.bottom)
            &&& 163_000_000_000 <= knots(r) <= 228_000_000_000 ==> (bands[3] matches Some(b)
                && b.top <= 0 <= b.bottom)
            &&& 0 <= knots(r) <= 48_000_000_000 ==> (bands[0] matches Some(b) && b.top <= 0
                <= b.bottom)
        }),
{
}

/// A lever's share reads as a percentage.
pub proof fn shares_read_as_percentages(share: int)
    ensures
        percent_label(share) == rounded_text(100 * share, 0) + "%"@,
{
}

}
