//! What the time of day does to the light: laws over clocks, heights of the sun and
//! stars.

use crate::fixed::{blend_stays_between, scaled, ONE};
use crate::sky::{
    clock_after, daylight_of, draw, drawn, fog_of, horizon_fade_of, is_colour, is_look, luminance,
    orbit_angle, quad_index, rgb, star_half, star_of, star_opacity, stars_of, sunset_of, tinted,
    wrapped, DayNightCycle, SkyLook,
};
use crate::vector::Vec3;
use vstd::prelude::*;

verus! {

/// The clock advances by its speed times the time, and what has passed of whole days is
/// taken off: a clock at one day per second is back after a second. Nothing else of the
/// cycle changes.
pub proof fn clock_runs_at_its_speed(cycle: DayNightCycle, dt: int)
    requires
        0 <= cycle.time_of_day < ONE,
        0 <= cycle.speed,
        0 <= dt,
    ensures
        ({
            let after = clock_after(cycle, dt);
            let passed = scaled(cycle.speed as int, dt);
            &&& 0 <= after.time_of_day < ONE
            &&& (after.time_of_day - cycle.time_of_day - passed) % (ONE as int) == 0
            &&& cycle.time_of_day + passed < ONE ==> after.time_of_day == cycle.time_of_day + passed
            &&& passed * ONE <= cycle.speed * dt < (passed + 1) * ONE
            &&& (DayNightCycle { time_of_day: cycle.time_of_day, ..after }) == cycle
        }),
{
    let passed = scaled(cycle.speed as int, dt);
    assert(cycle.speed * dt >= 0) by (nonlinear_arith)
        requires
            cycle.speed >= 0,
            dt >= 0,
    ;
    let t = cycle.time_of_day + passed;
    let one = ONE as int;
    vstd::arithmetic::div_mod::lemma_fundamental_div_mod(t, one);
    let q = t / one;
    assert(t % one - t == one * (-q)) by (nonlinear_arith)
        requires
            t == one * q + t % one,
    ;
    vstd::arithmetic::div_mod::lemma_mod_multiples_basic(-q, one);
    assert(one * (-q) == (-q) * one) by (nonlinear_arith);
}

/// The sun's orbit turns in proportion to the time of day: from a quarter turn at
/// midnight, a half at a quarter of the day, three quarters at noon.
pub proof fn sun_turns_with_the_clock(time: int)
    requires
        0 <= time < ONE,
    ensures
        ({
            let turned = orbit_angle(time) - 1_570_796_327;
            turned * ONE <= time * 6_283_185_307 < (turned + 1) * ONE
        }),
        orbit_angle(0) == 1_570_796_327,
{
}

/// Daylight comes up evenly while the sun climbs from a tenth below the horizon to a tenth
/// above it; by night there is none and by day all of it.
pub proof fn daylight_comes_up_evenly(up: int)
    ensures
        up <= -100_000_000 ==> daylight_of(up) == 0,
        up >= 100_000_000 ==> daylight_of(up) == ONE,
        -100_000_000 <= up <= 100_000_000 ==> daylight_of(up) == 5 * (up + 100_000_000),
{
}

/// Sunset is strongest with the sun on the horizon, the same above as below it, and gone
/// 0.34 from it; in between it falls evenly.
pub proof fn sunset_is_at_the_horizon(up: int)
    ensures
        sunset_of(0) == ONE,
        sunset_of(-up) == sunset_of(up),
        up >= 340_000_000 ==> sunset_of(up) == 0,
        0 <= up <= 340_000_000 ==> {
            let lost = ONE - sunset_of(up);
            34 * lost <= 100 * up < 34 * (lost + 1)
        },
{
}

/// Stars come out evenly while the sun sinks from 0.2 to 0.8 below the horizon.
pub proof fn stars_come_out_evenly(up: int)
    ensures
        up >= -200_000_000 ==> stars_of(up) == 0,
        up <= -800_000_000 ==> stars_of(up) == ONE,
        -800_000_000 <= up <= -200_000_000 ==> 6 * stars_of(up) <= 10 * (-up - 200_000_000) < 6 * (
        stars_of(up) + 1),
{
}

/// By night the sky is dark blue, lit only faintly, without a sun and with all stars; by day
/// it is bright blue under the full sun.
pub proof fn nights_are_dark_and_days_bright(look: SkyLook, up: int, haze: int)
    requires
        is_look(look, up, haze),
    ensures
        up <= -800_000_000 ==> {
            &&& look.sky == (Vec3 { x: 20_000_000, y: 20_000_000, z: 60_000_000 })
            &&& look.illuminance == 0
            &&& look.ambient == 60_000_000_000
            &&& !look.disc_visible
            &&& look.star_visibility == ONE
            &&& look.daylight == 0 && look.sunset == 0
        },
        up >= 340_000_000 ==> {
            &&& look.sky == (Vec3 { x: 450_000_000, y: 650_000_000, z: 900_000_000 })
            &&& look.illuminance == 11_000 * ONE
            &&& look.ambient == 400 * ONE
            &&& look.disc_visible
            &&& look.star_visibility == 0
            &&& look.daylight == ONE && look.sunset == 0
            &&& look.sun == (Vec3 { x: 1_000_000_000, y: 950_000_000, z: 800_000_000 })
            &&& look.glow == (Vec3 { x: 1_000_000_000, y: 950_000_000, z: 850_000_000 })
        },
{
}

/// With the sun on the horizon the sky is orange, and so is the sun; its light is half of
/// the day's.
pub proof fn sunsets_are_orange(look: SkyLook, haze: int)
    requires
        is_look(look, 0, haze),
    ensures
        look.sky == (Vec3 { x: 900_000_000, y: 450_000_000, z: 200_000_000 }),
        look.sun == (Vec3 { x: 1_000_000_000, y: 450_000_000, z: 150_000_000 }),
        look.glow == look.sun,
        look.illuminance == 5_500 * ONE,
        look.ambient == 230 * ONE,
        look.disc_visible,
        look.star_visibility == 0,
{
    let dusk = tinted(
        rgb(20_000_000, 20_000_000, 60_000_000),
        rgb(450_000_000, 650_000_000, 900_000_000),
        daylight_of(0),
    );
    assert(daylight_of(0) == 500_000_000);
    assert(dusk == rgb(235_000_000, 335_000_000, 480_000_000));
    assert(sunset_of(0) == ONE);
    colours_blend_evenly(dusk, rgb(900_000_000, 450_000_000, 200_000_000), ONE as int);
}

/// A blend of two colours lies between them, component by component, as far along as its
/// weight says.
pub proof fn colours_blend_evenly(from: Vec3, to: Vec3, weight: int)
    requires
        is_colour(from),
        is_colour(to),
        0 <= weight <= ONE,
    ensures
        ({
            let c = tinted(from, to, weight);
            &&& weight == 0 ==> c == from
            &&& weight == ONE ==> c == to
            &&& (c.x - from.x) * ONE <= (to.x - from.x) * weight < (c.x - from.x + 1) * ONE
            &&& (c.y - from.y) * ONE <= (to.y - from.y) * weight < (c.y - from.y + 1) * ONE
            &&& (c.z - from.z) * ONE <= (to.z - from.z) * weight < (c.z - from.z + 1) * ONE
        }),
{
    blend_stays_between(from.x as int, to.x as int, weight);
    blend_stays_between(from.y as int, to.y as int, weight);
    blend_stays_between(from.z as int, to.z as int, weight);
}

/// Light grows with daylight at every height of the sun: by 11000 lux and 340 of ambient
/// light from night to day.
pub proof fn light_follows_daylight(look: SkyLook, up: int, haze: int)
    requires
        is_look(look, up, haze),
    ensures
        look.illuminance == 11_000 * look.daylight,
        look.ambient - 60 * ONE == 340 * look.daylight,
        look.star_visibility > 0 ==> look.daylight == 0 && look.illuminance == 0,
        up >= -59_000_000 ==> look.disc_visible,
        up <= -60_000_000 ==> !look.disc_visible,
{
}

/// Fog without haze has the sky's colour, with full haze a grey of the same luminance.
pub proof fn haze_greys_the_fog(sky: Vec3)
    requires
        is_colour(sky),
    ensures
        fog_of(sky, 0) == sky,
        ({
            let f = fog_of(sky, ONE as int);
            &&& f.x == f.y == f.z
            &&& f.x * ONE <= 212_600_000 * sky.x + 715_200_000 * sky.y + 72_200_000 * sky.z < (f.x
                + 1) * ONE
        }),
{
    let g = luminance(sky);
    assert((g - sky.x) * 0 == 0 && (g - sky.y) * 0 == 0 && (g - sky.z) * 0 == 0);
}

/// A star is out in full from 0.3 above its horizon on, hidden from 0.05 below it, and
/// fades in evenly in between.
pub proof fn stars_fade_in_as_they_rise(elevation: int)
    ensures
        elevation <= -50_000_000 ==> horizon_fade_of(elevation) == 0,
        elevation >= 300_000_000 ==> horizon_fade_of(elevation) == ONE,
        -50_000_000 <= elevation <= 300_000_000 ==> 35 * horizon_fade_of(elevation) <= 100 * (
        elevation + 50_000_000) < 35 * (horizon_fade_of(elevation) + 1),
{
}

/// A star at the zenith of a dark night shows in full at the peak of its twinkle and at 0.4
/// in its trough; elsewhere by the night's and the horizon's shares of that.
pub proof fn stars_twinkle(visibility: int, fade: int)
    requires
        0 <= visibility <= ONE,
        0 <= fade <= ONE,
    ensures
        star_opacity(ONE as int, ONE as int, ONE as int) == ONE,
        star_opacity(ONE as int, ONE as int, -ONE as int) == 400_000_000,
        ({
            let shown = star_opacity(visibility, fade, ONE as int);
            shown * ONE <= visibility * fade < (shown + 1) * ONE
        }),
{
    assert(0 <= visibility * fade <= 1_000_000_000 * 1_000_000_000) by (nonlinear_arith)
        requires
            0 <= visibility <= 1_000_000_000,
            0 <= fade <= 1_000_000_000,
    ;
}

/// Brighter stars are larger, and all of them swell by a fifth and shrink by a fifth of
/// their size about 0.8 of it.
pub proof fn bright_stars_are_larger(brightness: int)
    ensures
        ({
            let peak = star_half(brightness, ONE as int);
            peak * ONE <= (4_000_000_000 + 2 * brightness) * (3 * brightness) < (peak + 1) * ONE
        }),
        ({
            let peak = star_half(brightness, ONE as int);
            let trough = star_half(brightness, -ONE as int);
            10 * trough <= 6 * peak < 10 * (trough + 1)
        }),
{
    let base = scaled(4_000_000_000 + 2 * brightness, 3 * brightness);
    assert(scaled(ONE as int, 200_000_000) == 200_000_000);
    assert(scaled(-ONE as int, 200_000_000) == -200_000_000);
    assert(star_half(brightness, ONE as int) == scaled(base, ONE as int));
    assert(star_half(brightness, -ONE as int) == scaled(base, 600_000_000));
}

/// Every star has a direction on the sphere, 0.7 to 1.2 of brightness and its own twinkle.
pub proof fn stars_are_scattered_over_the_sphere(i: nat)
    ensures
        ({
            let s = star_of(i);
            &&& 0 <= s.phi < 6_283_185_307
            &&& 0 <= s.theta < 3_141_592_654
            &&& 700_000_000 <= s.brightness < 1_200_000_000
            &&& 0 <= s.phase < 6_283_185_307
            &&& 3_000_000_000 <= s.twinkle_speed < 7_000_000_000
        }),
{
    lemma_drawn(5 * i, 6_283_185_307);
    lemma_drawn(5 * i + 1, 3_141_592_654);
    lemma_drawn(5 * i + 2, 500_000_000);
    lemma_drawn(5 * i + 3, 6_283_185_307);
    lemma_drawn(5 * i + 4, 4_000_000_000);
}

proof fn lemma_drawn(n: nat, range: int)
    requires
        0 < range,
    ensures
        0 <= drawn(n, range) < range,
{
    let s = crate::sky::rng_state(n + 1);
    let d = draw(n);
    assert(s >> 40 < 0x100_0000) by (bit_vector);
    assert(0 <= d * range < 0x100_0000 * range) by (nonlinear_arith)
        requires
            0 <= d < 0x100_0000,
            0 < range,
    ;
}

/// A star's quad is two triangles over its four corners, which share the diagonal from the
/// first corner to the third.
pub proof fn quads_are_two_triangles(i: int)
    requires
        0 <= i,
    ensures
        quad_index(6 * i) == 4 * i,
        quad_index(6 * i + 1) == 4 * i + 1,
        quad_index(6 * i + 2) == 4 * i + 2,
        quad_index(6 * i + 3) == 4 * i,
        quad_index(6 * i + 4) == 4 * i + 2,
        quad_index(6 * i + 5) == 4 * i + 3,
{
}

/// The five draws of a star spread it over the whole sky: its way around over a full turn,
/// its height over a half turn, its brightness from 0.7 to 1.2, where its twinkling starts
/// over a full turn and how fast it twinkles from 3 to 7, each in proportion to its draw.
pub proof fn draws_spread_the_stars(i: nat)
    ensures
        ({
            let s = star_of(i);
            let unit = 0x100_0000int;
            let (around, height, light) = (draw(5 * i), draw(5 * i + 1), draw(5 * i + 2));
            let (phase, speed) = (draw(5 * i + 3), draw(5 * i + 4));
            &&& s.phi * unit <= around * 6_283_185_307 < (s.phi + 1) * unit
            &&& s.theta * unit <= height * 3_141_592_654 < (s.theta + 1) * unit
            &&& (s.brightness - 700_000_000) * unit <= light * 500_000_000
            &&& light * 500_000_000 < (s.brightness - 700_000_000 + 1) * unit
            &&& s.phase * unit <= phase * 6_283_185_307 < (s.phase + 1) * unit
            &&& (s.twinkle_speed - 3_000_000_000) * unit <= speed * 4_000_000_000
            &&& speed * 4_000_000_000 < (s.twinkle_speed - 3_000_000_000 + 1) * unit
        }),
{
    lemma_drawn(5 * i, 6_283_185_307);
    lemma_drawn(5 * i + 1, 3_141_592_654);
    lemma_drawn(5 * i + 2, 500_000_000);
    lemma_drawn(5 * i + 3, 6_283_185_307);
    lemma_drawn(5 * i + 4, 4_000_000_000);
}

/// Whole days are taken off a time either way: what is left differs from it by whole days,
/// is shorter than a day and lies on the same side of midnight.
pub proof fn whole_days_are_taken_off(t: int)
    ensures
        -1_000_000_000 < wrapped(t) < 1_000_000_000,
        (t - wrapped(t)) % 1_000_000_000 == 0,
        t >= 0 ==> wrapped(t) >= 0,
        t <= 0 ==> wrapped(t) <= 0,
        wrapped(-t) == -wrapped(t),
{
}

}
