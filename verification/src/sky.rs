//! Day-night cycle: how the sun's height sets the sky colour, the light, the fog
//! tint and the stars, and where the stars are. All quantities have nine
//! decimals, spans are in nanoseconds.

use crate::fixed::{blend, blend_stays_between, clamp, clamped, floor_div, scale, scaled, ONE};
use crate::physics::aero_model::QUARTER_TURN;
use crate::physics::aero_surface_config::TAU;
use crate::vector::Vec3;
use vstd::prelude::*;

verus! {

/// Global clock for the day-night cycle.
#[derive(Clone, Copy, Debug, PartialEq, Eq, Structural)]
pub struct DayNightCycle {
    /// Zero is midnight, one quarter sunrise, one half noon. Wraps at one.
    pub time_of_day: i64,
    /// Fraction of the cycle advanced per second (zero freezes time).
    pub speed: i64,
    /// Tilt of the sun's orbit away from straight overhead (rad).
    pub inclination: i64,
    /// Whether the cycle tints the camera fog to match the sky.
    pub tint_fog: bool,
    /// How far the fog tint is desaturated toward grey.
    pub fog_haze: i64,
}

impl Default for DayNightCycle {
    fn default() -> (c: Self)
        ensures
            c == (DayNightCycle {
                time_of_day: 350_000_000,
                speed: 5_000_000,
                inclination: 300_000_000,
                tint_fog: true,
                fog_haze: 50_000_000,
            }),
    {
        DayNightCycle {
            time_of_day: 350_000_000,
            speed: 5_000_000,
            inclination: 300_000_000,
            tint_fog: true,
            fog_haze: 50_000_000,
        }
    }
}

/// What is left of a number after whole cycles are taken off, with its sign.
pub open spec fn wrapped(t: int) -> int {
    if t >= 0 {
        t % (ONE as int)
    } else {
        -((-t) % (ONE as int))
    }
}

/// The clock after a span of time.
pub open spec fn clock_after(cycle: DayNightCycle, dt: int) -> DayNightCycle {
    DayNightCycle {
        time_of_day: wrapped(cycle.time_of_day + scaled(cycle.speed as int, dt)) as i64,
        ..cycle
    }
}

/// Advances the clock.
pub fn advance_clock(cycle: &mut DayNightCycle, dt: u64)
    ensures
        *final(cycle) == clock_after(*old(cycle), dt as int),
        -ONE < final(cycle).time_of_day < ONE,
{
    let s: i128 = cycle.speed as i128;
    let d: i128 = dt as i128;
    assert(-0x8000_0000_0000_0000 * 0xffff_ffff_ffff_ffff <= s * d <= 0x7fff_ffff_ffff_ffff
        * 0xffff_ffff_ffff_ffff) by (nonlinear_arith)
        requires
            -0x8000_0000_0000_0000 <= s <= 0x7fff_ffff_ffff_ffff,
            0 <= d <= 0xffff_ffff_ffff_ffff,
    ;
    let t: i128 = cycle.time_of_day as i128 + floor_div(s * d, 1_000_000_000);
    let one: i128 = 1_000_000_000;
    cycle.time_of_day = if t >= 0 {
        (t % one) as i64
    } else {
        -(((-t) % one) as i64)
    };
}

/// Time never leaves the day, and a frozen clock stands still.
pub proof fn clock_stays_within_the_day(time: int, speed: int, dt: int)
    requires
        0 <= time < ONE,
        0 <= speed,
        0 <= dt,
    ensures
        0 <= wrapped(time + scaled(speed, dt)) < ONE,
        wrapped(time + scaled(0, dt)) == time,
{
    assert(speed * dt >= 0) by (nonlinear_arith)
        requires
            0 <= speed,
            0 <= dt,
    ;
    assert(0 * dt == 0);
}

/// The sky for a height of the sun. Colours are red, green and blue in `x`, `y`
/// and `z`.
#[derive(Clone, Copy, Debug, PartialEq, Eq, Structural)]
pub struct SkyLook {
    /// Zero at night, one in full daylight.
    pub daylight: i64,
    /// One with the sun on the horizon.
    pub sunset: i64,
    pub sky: Vec3,
    pub fog: Vec3,
    /// Tint of the fog around the sun.
    pub glow: Vec3,
    /// Colour of the sun's disc.
    pub sun: Vec3,
    /// Sun illuminance (lux).
    pub illuminance: i64,
    /// Ambient brightness.
    pub ambient: i64,
    pub disc_visible: bool,
    /// Zero unless the sun is well below the horizon.
    pub star_visibility: i64,
}

/// How far the sun's orbit has turned at a time of day, in nanoradians: a turn a
/// day, from a quarter turn at midnight. The sun's height is minus the sine of it,
/// so that it rises at a quarter of the day and is overhead at noon.
pub open spec fn orbit_angle(time_of_day: int) -> int {
    scaled(time_of_day % (ONE as int), TAU as int) + QUARTER_TURN
}

/// The angle of the sun's orbit at a time of day; whole days are taken off.
pub fn sun_angle(time_of_day: i64) -> (angle: i64)
    ensures
        angle == orbit_angle(time_of_day as int),
        QUARTER_TURN <= angle < TAU + QUARTER_TURN,
{
    let days: i128 = floor_div(time_of_day as i128, 1_000_000_000);
    let t: i64 = (time_of_day as i128 - days * 1_000_000_000) as i64;
    scale(t, TAU) as i64 + QUARTER_TURN
}

/// The sun goes around once a day, a half turn in half a day (but for the last
/// decimal), and always onward.
pub proof fn sun_goes_around_once_a_day(t: int, u: int)
    requires
        0 <= t <= u < ONE,
    ensures
        orbit_angle(t + ONE) == orbit_angle(t),
        t < 500_000_000 ==> TAU / 2 <= orbit_angle(t + 500_000_000) - orbit_angle(t) <= TAU / 2 + 1,
        orbit_angle(t) <= orbit_angle(u),
{
}

/// Daylight for the sun's height (one is overhead, negative below the horizon).
pub open spec fn daylight_of(up: int) -> int {
    clamped((up + 100_000_000) * 5, 0, ONE as int)
}

/// How near the sun is to the horizon.
pub open spec fn sunset_of(up: int) -> int {
    let a = if up < 0 {
        -up
    } else {
        up
    };
    clamped(ONE - (a * 100) / 34, 0, ONE as int)
}

/// How visible the stars are.
pub open spec fn stars_of(up: int) -> int {
    clamped(((-up - 200_000_000) * 10) / 6, 0, ONE as int)
}

/// How much of the sun's disc is above the horizon.
pub open spec fn disc_of(up: int) -> int {
    clamped(((up + 60_000_000) * 100) / 12, 0, ONE as int)
}

/// One component of a colour blend.
pub open spec fn mixed(from: int, to: int, weight: int) -> int {
    from + scaled(to - from, weight)
}

/// A blend of two colours.
pub open spec fn tinted(from: Vec3, to: Vec3, weight: int) -> Vec3 {
    Vec3 {
        x: mixed(from.x as int, to.x as int, weight) as i64,
        y: mixed(from.y as int, to.y as int, weight) as i64,
        z: mixed(from.z as int, to.z as int, weight) as i64,
    }
}

pub open spec fn rgb(x: int, y: int, z: int) -> Vec3 {
    Vec3 { x: x as i64, y: y as i64, z: z as i64 }
}

/// Sky colour: night to day, warmed toward orange near the horizon.
pub open spec fn sky_of(up: int) -> Vec3 {
    tinted(
        tinted(
            rgb(20_000_000, 20_000_000, 60_000_000),
            rgb(450_000_000, 650_000_000, 900_000_000),
            daylight_of(up),
        ),
        rgb(900_000_000, 450_000_000, 200_000_000),
        sunset_of(up),
    )
}

/// Luminance of a colour.
pub open spec fn luminance(c: Vec3) -> int {
    (212_600_000 * c.x + 715_200_000 * c.y + 72_200_000 * c.z) / 1_000_000_000
}

/// Fog colour: the sky's, desaturated toward grey.
pub open spec fn fog_of(sky: Vec3, haze: int) -> Vec3 {
    let grey = luminance(sky);
    tinted(sky, rgb(grey, grey, grey), clamped(haze, 0, ONE as int))
}

/// A colour with components in `0..=1`.
pub open spec fn is_colour(c: Vec3) -> bool {
    &&& 0 <= c.x <= ONE
    &&& 0 <= c.y <= ONE
    &&& 0 <= c.z <= ONE
}

fn tint(from: Vec3, to: Vec3, weight: i64) -> (r: Vec3)
    requires
        0 <= weight <= ONE,
        is_colour(from),
        is_colour(to),
    ensures
        r == tinted(from, to, weight as int),
        is_colour(r),
{
    proof {
        blend_stays_between(from.x as int, to.x as int, weight as int);
        blend_stays_between(from.y as int, to.y as int, weight as int);
        blend_stays_between(from.z as int, to.z as int, weight as int);
    }
    Vec3 {
        x: blend(from.x, to.x, weight),
        y: blend(from.y, to.y, weight),
        z: blend(from.z, to.z, weight),
    }
}

/// The sky for the sun's height `up`, with the fog's haze.
pub open spec fn is_look(look: SkyLook, up: int, fog_haze: int) -> bool {
    &&& look.daylight == daylight_of(up)
    &&& look.sunset == sunset_of(up)
    &&& look.sky == sky_of(up)
    &&& look.fog == fog_of(sky_of(up), fog_haze)
    &&& look.glow == tinted(
        rgb(1_000_000_000, 950_000_000, 850_000_000),
        rgb(1_000_000_000, 450_000_000, 150_000_000),
        sunset_of(up),
    )
    &&& look.sun == tinted(
        rgb(1_000_000_000, 950_000_000, 800_000_000),
        rgb(1_000_000_000, 450_000_000, 150_000_000),
        sunset_of(up),
    )
    &&& look.illuminance == 11_000 * daylight_of(up)
    &&& look.ambient == 60_000_000_000 + 340 * daylight_of(up)
    &&& look.disc_visible <==> disc_of(up) > 1_000_000
    &&& look.star_visibility == stars_of(up)
}

/// How the world looks for the sun's height `up` (one is overhead, negative below
/// the horizon).
pub fn sky_look(up: i64, fog_haze: i64) -> (look: SkyLook)
    requires
        -ONE <= up <= ONE,
    ensures
        is_look(look, up as int, fog_haze as int),
        is_colour(look.sky),
        is_colour(look.fog),
        is_colour(look.glow),
        is_colour(look.sun),
{
    let daylight: i64 = clamp((up as i128 + 100_000_000) * 5, 0, ONE);
    let away: i128 = if up < 0 {
        -(up as i128)
    } else {
        up as i128
    };
    let sunset: i64 = clamp(1_000_000_000 - (away * 100) / 34, 0, ONE);
    let night_sky: Vec3 = Vec3 { x: 20_000_000, y: 20_000_000, z: 60_000_000 };
    let day_sky: Vec3 = Vec3 { x: 450_000_000, y: 650_000_000, z: 900_000_000 };
    let sunset_sky: Vec3 = Vec3 { x: 900_000_000, y: 450_000_000, z: 200_000_000 };
    let sky: Vec3 = tint(tint(night_sky, day_sky, daylight), sunset_sky, sunset);
    let grey: i64 = ((212_600_000 * (sky.x as i128) + 715_200_000 * (sky.y as i128) + 72_200_000 * (
    sky.z as i128)) / 1_000_000_000) as i64;
    let haze: i64 = clamp(fog_haze as i128, 0, ONE);
    let fog: Vec3 = tint(sky, Vec3 { x: grey, y: grey, z: grey }, haze);
    let day_glow: Vec3 = Vec3 { x: 1_000_000_000, y: 950_000_000, z: 850_000_000 };
    let day_sun: Vec3 = Vec3 { x: 1_000_000_000, y: 950_000_000, z: 800_000_000 };
    let low_sun: Vec3 = Vec3 { x: 1_000_000_000, y: 450_000_000, z: 150_000_000 };
    let disc: i64 = clamp(floor_div((up as i128 + 60_000_000) * 100, 12), 0, ONE);
    let stars: i64 = clamp(floor_div((-(up as i128) - 200_000_000) * 10, 6), 0, ONE);
    SkyLook {
        daylight,
        sunset,
        sky,
        fog,
        glow: tint(day_glow, low_sun, sunset),
        sun: tint(day_sun, low_sun, sunset),
        illuminance: 11_000 * daylight,
        ambient: 60_000_000_000 + 340 * daylight,
        disc_visible: disc > 1_000_000,
        star_visibility: stars,
    }
}

/// Stars only show at night: wherever they are visible there is no daylight, and
/// the sun's disc is hidden.
pub proof fn stars_only_at_night(up: int)
    requires
        stars_of(up) > 0,
    ensures
        daylight_of(up) == 0,
        disc_of(up) == 0,
{
}

/// A higher sun never means less daylight.
pub proof fn daylight_grows_with_the_sun(low: int, high: int)
    requires
        low <= high,
    ensures
        daylight_of(low) <= daylight_of(high),
        stars_of(low) >= stars_of(high),
{
}

/// How far a star has risen above its own horizon.
pub open spec fn horizon_fade_of(elevation: int) -> int {
    clamped(((elevation + 50_000_000) * 100) / 35, 0, ONE as int)
}

/// Fades a star in as it rises.
pub fn horizon_fade(elevation: i64) -> (fade: i64)
    requires
        -ONE <= elevation <= ONE,
    ensures
        fade == horizon_fade_of(elevation as int),
        0 <= fade <= ONE,
{
    clamp(floor_div((elevation as i128 + 50_000_000) * 100, 35), 0, ONE)
}

/// Number of stars scattered over the celestial sphere.
pub const NUM_STARS: usize = 2500;

/// One step of a 64-bit xorshift generator.
pub open spec fn xorshift(x: u64) -> u64 {
    let a = x ^ (x << 13);
    let b = a ^ (a >> 7);
    b ^ (b << 17)
}

/// State of the generator after `n` steps.
pub open spec fn rng_state(n: nat) -> u64
    decreases n,
{
    if n == 0 {
        0x9E37_79B9_7F4A_7C15
    } else {
        xorshift(rng_state((n - 1) as nat))
    }
}

/// Draw number `n`, counted from zero: the top 24 bits of the generator's state.
pub open spec fn draw(n: nat) -> u64 {
    rng_state(n + 1) >> 40
}

/// One star: its direction by two angles, and numbers that randomise its twinkle
/// so that stars do not pulse in unison.
#[derive(Clone, Copy, Debug, PartialEq, Eq, Structural)]
pub struct Star {
    pub phi: i64,
    pub theta: i64,
    pub brightness: i64,
    pub phase: i64,
    pub twinkle_speed: i64,
}

/// A draw scaled to `0..range`.
pub open spec fn drawn(n: nat, range: int) -> int {
    (draw(n) * range) / 0x100_0000
}

/// Star number `i`: five draws each.
pub open spec fn star_of(i: nat) -> Star {
    Star {
        phi: drawn(5 * i, 6_283_185_307) as i64,
        theta: drawn(5 * i + 1, 3_141_592_654) as i64,
        brightness: (700_000_000 + drawn(5 * i + 2, 500_000_000)) as i64,
        phase: drawn(5 * i + 3, 6_283_185_307) as i64,
        twinkle_speed: (3_000_000_000 + drawn(5 * i + 4, 4_000_000_000)) as i64,
    }
}

/// The generator never gets stuck: no state but zero leads to zero.
pub proof fn xorshift_never_stalls(x: u64)
    requires
        x != 0,
    ensures
        xorshift(x) != 0,
{
    assert(x != 0 ==> (x ^ (x << 13)) != 0) by (bit_vector);
    let a = x ^ (x << 13);
    assert(a != 0 ==> (a ^ (a >> 7)) != 0) by (bit_vector);
    let b = a ^ (a >> 7);
    assert(b != 0 ==> (b ^ (b << 17)) != 0) by (bit_vector);
}

/// Two states never lead to the same one, so the sequence does not fall into a
/// shorter loop than the one it starts in.
pub proof fn xorshift_is_injective(x: u64, y: u64)
    requires
        xorshift(x) == xorshift(y),
    ensures
        x == y,
{
    let a = x ^ (x << 13);
    let b = a ^ (a >> 7);
    let c = y ^ (y << 13);
    let d = c ^ (c >> 7);
    assert(b == d) by (bit_vector)
        requires
            b ^ (b << 17) == d ^ (d << 17),
    ;
    assert(a == c) by (bit_vector)
        requires
            a ^ (a >> 7) == c ^ (c >> 7),
    ;
    assert(x == y) by (bit_vector)
        requires
            x ^ (x << 13) == y ^ (y << 13),
    ;
}

fn next_state(x: u64) -> (r: u64)
    ensures
        r == xorshift(x),
{
    let a: u64 = x ^ (x << 13);
    let b: u64 = a ^ (a >> 7);
    b ^ (b << 17)
}

fn scale_draw(state: u64, range: i64) -> (r: i64)
    requires
        0 <= range <= 10_000_000_000,
    ensures
        r == ((state >> 40) * range) / 0x100_0000,
        0 <= r < range || (range == 0 && r == 0),
{
    let top: u64 = state >> 40;
    assert(top < 0x100_0000) by (bit_vector)
        requires
            top == state >> 40,
    ;
    let t: i128 = top as i128;
    let w: i128 = range as i128;
    assert(0 <= t * w <= 0xff_ffff * w) by (nonlinear_arith)
        requires
            0 <= t <= 0xff_ffff,
            0 <= w,
    ;
    ((t * w) / 0x100_0000) as i64
}

/// The stars, scattered over the sphere by a deterministic generator, so that the
/// constellation is identical every run.
pub fn scatter_stars(count: usize) -> (stars: Vec<Star>)
    requires
        count <= 1_000_000_000,
    ensures
        stars@ == Seq::new(count as nat, |i: int| star_of(i as nat)),
{
    let mut stars: Vec<Star> = Vec::with_capacity(count);
    let mut state: u64 = 0x9E37_79B9_7F4A_7C15;
    let mut i: usize = 0;
    while i < count
        invariant
            i <= count,
            state == rng_state((5 * i) as nat),
            stars.len() == i,
            forall|n: int| 0 <= n < i ==> #[trigger] stars@[n] == star_of(n as nat),
        decreases count - i,
    {
        let a: u64 = next_state(state);
        let b: u64 = next_state(a);
        let c: u64 = next_state(b);
        let d: u64 = next_state(c);
        let e: u64 = next_state(d);
        proof {
            let n = (5 * i) as nat;
            assert(a == rng_state((n + 1) as nat));
            assert(b == rng_state((n + 2) as nat));
            assert(c == rng_state((n + 3) as nat));
            assert(d == rng_state((n + 4) as nat));
            assert(e == rng_state((n + 5) as nat));
            assert(a >> 40 == draw(n));
            assert(b >> 40 == draw((n + 1) as nat));
            assert(c >> 40 == draw((n + 2) as nat));
            assert(d >> 40 == draw((n + 3) as nat));
            assert(e >> 40 == draw((n + 4) as nat));
        }
        stars.push(
            Star {
                phi: scale_draw(a, 6_283_185_307),
                theta: scale_draw(b, 3_141_592_654),
                brightness: 700_000_000 + scale_draw(c, 500_000_000),
                phase: scale_draw(d, 6_283_185_307),
                twinkle_speed: 3_000_000_000 + scale_draw(e, 4_000_000_000),
            },
        );
        state = e;
        i = i + 1;
    }
    assert(stars@ =~= Seq::new(count as nat, |i: int| star_of(i as nat)));
    stars
}

/// Vertex `k` of the triangles of the star field: each star is a quad of four
/// vertices, drawn as two triangles.
pub open spec fn quad_index(k: int) -> int {
    let corner = k % 6;
    4 * (k / 6) + if corner == 0 || corner == 3 {
        0int
    } else if corner == 1 {
        1
    } else if corner == 2 || corner == 4 {
        2
    } else {
        3
    }
}

/// Triangle indices of the star field.
pub fn star_indices(count: usize) -> (indices: Vec<u32>)
    requires
        count <= 1_000_000,
    ensures
        indices@.len() == 6 * count,
        forall|k: int| 0 <= k < indices@.len() ==> #[trigger] indices@[k] == quad_index(k),
{
    let mut indices: Vec<u32> = Vec::with_capacity(count * 6);
    let mut i: usize = 0;
    while i < count
        invariant
            i <= count <= 1_000_000,
            indices@.len() == 6 * i,
            forall|k: int| 0 <= k < indices@.len() ==> #[trigger] indices@[k] == quad_index(k),
        decreases count - i,
    {
        let b: u32 = i as u32 * 4;
        indices.push(b);
        indices.push(b + 1);
        indices.push(b + 2);
        indices.push(b);
        indices.push(b + 2);
        indices.push(b + 3);
        i = i + 1;
    }
    indices
}

/// Every triangle of star `i` uses that star's own four vertices.
pub proof fn quads_do_not_share_vertices(k: int, count: int)
    requires
        0 <= k < 6 * count,
    ensures
        4 * (k / 6) <= quad_index(k) < 4 * (k / 6) + 4 <= 4 * count,
{
}

/// How opaque a star is: the night's visibility times the star's fade at the
/// horizon, flickering with its twinkle.
pub open spec fn star_opacity(visibility: int, fade: int, twinkle: int) -> int {
    clamped(
        scaled(scaled(visibility, fade), scaled(twinkle, 300_000_000) + 700_000_000),
        0,
        ONE as int,
    )
}

/// How opaque a star is.
pub fn star_alpha(visibility: i64, fade: i64, twinkle: i64) -> (alpha: i64)
    requires
        0 <= visibility <= ONE,
        0 <= fade <= ONE,
        -1_000_000_000_000 <= twinkle <= 1_000_000_000_000,
    ensures
        alpha == star_opacity(visibility as int, fade as int, twinkle as int),
        0 <= alpha <= ONE,
{
    proof {
        let a = visibility as int;
        let b = fade as int;
        assert(0 <= a * b <= 1_000_000_000_000_000_000) by (nonlinear_arith)
            requires
                0 <= a <= 1_000_000_000,
                0 <= b <= 1_000_000_000,
        ;
    }
    let shown: i64 = scale(visibility, fade) as i64;
    let flicker: i64 = scale(twinkle, 300_000_000) as i64 + 700_000_000;
    clamp(scale(shown, flicker), 0, ONE)
}

/// Half the side of a star's quad (m): larger for brighter stars, and twinkling.
pub open spec fn star_half(brightness: int, twinkle: int) -> int {
    scaled(
        scaled(4_000_000_000 + 2 * brightness, 3 * brightness),
        scaled(twinkle, 200_000_000) + 800_000_000,
    )
}

/// Half the side of a star's quad (m).
pub fn star_size(brightness: i64, twinkle: i64) -> (half: i64)
    requires
        0 <= brightness <= 10_000_000_000,
        -1_000_000_000_000 <= twinkle <= 1_000_000_000_000,
    ensures
        half == star_half(brightness as int, twinkle as int),
{
    let base: i128 = scale(4_000_000_000 + 2 * brightness, 3 * brightness);
    proof {
        let a = 4_000_000_000 + 2 * brightness;
        let b = 3 * brightness;
        assert(0 <= a * b <= 24_000_000_000 * 30_000_000_000) by (nonlinear_arith)
            requires
                0 <= a <= 24_000_000_000,
                0 <= b <= 30_000_000_000,
        ;
    }
    assert(0 <= base <= 720_000_000_000);
    let flicker: i64 = scale(twinkle, 200_000_000) as i64 + 800_000_000;
    let half: i128 = scale(base as i64, flicker);
    proof {
        let a = base as int;
        let b = flicker as int;
        assert(-1_000_000_000_000 * 1_000_000_000_000 <= a * b <= 1_000_000_000_000
            * 1_000_000_000_000) by (nonlinear_arith)
            requires
                0 <= a <= 720_000_000_000,
                -1_000_000_000_000 <= b <= 1_000_000_000_000,
        ;
    }
    half as i64
}

/// By day, and below the horizon, no star shows.
pub proof fn hidden_stars_are_clear(fade: int, twinkle: int)
    ensures
        star_opacity(0, fade, twinkle) == 0,
        star_opacity(fade, 0, twinkle) == 0,
{
    assert(0 * fade == 0 && fade * 0 == 0) by (nonlinear_arith);
    let f = scaled(twinkle, 300_000_000) + 700_000_000;
    assert(0 * f == 0) by (nonlinear_arith);
}

}
