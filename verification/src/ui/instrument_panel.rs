//! The flight instruments: tapes for altitude, vertical speed and airspeed, the
//! artificial horizon, the compass and the tachometer.
//!
//! Readings, pixels and degrees have nine decimals. Pixel offsets are from the
//! middle of an instrument, downwards and to the right.

use crate::camera::CameraMode;
use crate::fixed::{clamp, clamped, floor_div, scale, scaled, ONE};
use crate::hud::MS_TO_KT;
use crate::physics::aircraft_physics::density_base;
use crate::text::{fixed_digits, nearest, push_padded, push_rounded, rounded_text};
use vstd::prelude::*;
use vstd::string::StringExecFns;

verus! {

/// Feet in one metre.
pub const M_TO_FT: i64 = 3_280_840_000;

/// Half the height of a tape.
pub const TAPE_HALF: i64 = 80_000_000_000;

/// A mark on a tape: the whole number it stands for, how far below the middle it
/// is, and whether it is one of the longer ones.
#[derive(Clone, Copy, Debug, PartialEq, Eq, Structural)]
pub struct Tick {
    pub value: i64,
    pub y: i64,
    pub major: bool,
}

/// How a tape is graduated: a mark every `step` units, a longer one at multiples
/// of `major`, and `px` pixels to the unit.
#[derive(Clone, Copy, Debug, PartialEq, Eq, Structural)]
pub struct TapeScale {
    pub step: i64,
    pub major: i64,
    pub px: i64,
}

/// How far below the middle the mark for `value` is when the tape reads
/// `reading`.
pub open spec fn tick_y(reading: int, value: int, px: int) -> int {
    scaled(reading - value * ONE, px)
}

/// The mark is on the visible part of the tape.
pub open spec fn on_tape(y: int) -> bool {
    -TAPE_HALF <= y <= TAPE_HALF
}

/// The tick of the mark for `value`.
pub open spec fn tick_at(reading: int, value: int, tape: TapeScale) -> Tick {
    Tick {
        value: value as i64,
        y: tick_y(reading, value, tape.px as int) as i64,
        major: value % (tape.major as int) == 0,
    }
}

/// The visible ones of the `count` marks from `first` on.
pub open spec fn ticks(reading: int, first: int, count: nat, tape: TapeScale) -> Seq<Tick>
    decreases count,
{
    if count == 0 {
        Seq::empty()
    } else {
        let before = ticks(reading, first, (count - 1) as nat, tape);
        let value = first + (count - 1) * tape.step;
        if on_tape(tick_y(reading, value, tape.px as int)) {
            before.push(tick_at(reading, value, tape))
        } else {
            before
        }
    }
}

pub open spec fn is_graduated(tape: TapeScale) -> bool {
    &&& 1 <= tape.step <= 1_000
    &&& 1 <= tape.major <= 1_000
    &&& 1 <= tape.px <= 10_000_000_000
}

fn tape_ticks(reading: i64, first: i64, count: u32, tape: &TapeScale) -> (marks: Vec<Tick>)
    requires
        is_graduated(*tape),
        -20_000_000_000 <= first <= 20_000_000_000,
        count <= 100,
    ensures
        marks@ == ticks(reading as int, first as int, count as nat, *tape),
{
    let mut marks: Vec<Tick> = Vec::new();
    let mut k: u32 = 0;
    while k < count
        invariant
            k <= count <= 100,
            is_graduated(*tape),
            -20_000_000_000 <= first <= 20_000_000_000,
            marks@ == ticks(reading as int, first as int, k as nat, *tape),
        decreases count - k,
    {
        assert(0 <= k * tape.step <= 100_000) by (nonlinear_arith)
            requires
                0 <= k <= 100,
                1 <= tape.step <= 1_000,
        ;
        let value: i64 = first + k as i64 * tape.step;
        let off: i128 = reading as i128 - value as i128 * 1_000_000_000;
        let px: i128 = tape.px as i128;
        assert(-1_000_000_000_000_000_000_000_000_000_000 <= off * px
            <= 1_000_000_000_000_000_000_000_000_000_000) by (nonlinear_arith)
            requires
                -100_000_000_000_000_000_000 <= off <= 100_000_000_000_000_000_000,
                1 <= px <= 10_000_000_000,
        ;
        let y: i128 = floor_div(off * px, 1_000_000_000);
        assert(y == tick_y(reading as int, value as int, tape.px as int));
        if -(TAPE_HALF as i128) <= y && y <= TAPE_HALF as i128 {
            let m: i128 = floor_div(value as i128, tape.major as i128);
            proof {
                vstd::arithmetic::div_mod::lemma_fundamental_div_mod(
                    value as int,
                    tape.major as int,
                );
                assert(-20_000_200_000 <= m <= 20_000_200_000) by (nonlinear_arith)
                    requires
                        value == tape.major * m + (value as int % tape.major as int),
                        0 <= value as int % tape.major as int,
                        (value as int % tape.major as int) < tape.major,
                        1 <= tape.major,
                        -20_000_100_000 <= value <= 20_000_100_000,
                ;
                assert(-20_000_200_000_000 <= m * tape.major <= 20_000_200_000_000)
                    by (nonlinear_arith)
                    requires
                        -20_000_200_000 <= m <= 20_000_200_000,
                        1 <= tape.major <= 1_000,
                ;
                assert(m * tape.major == tape.major * m) by (nonlinear_arith);
            }
            let major: bool = m * tape.major as i128 == value as i128;
            marks.push(Tick { value, y: y as i64, major });
        }
        k = k + 1;
    }
    marks
}

/// Every mark that belongs on the visible part of a tape is among its ticks.
proof fn lemma_ticks_hold(reading: int, first: int, count: nat, tape: TapeScale, k: int)
    requires
        0 <= k < count,
        on_tape(tick_y(reading, first + k * tape.step, tape.px as int)),
    ensures
        ticks(reading, first, count, tape).contains(tick_at(reading, first + k * tape.step, tape)),
    decreases count,
{
    let t = tick_at(reading, first + k * tape.step, tape);
    let before = ticks(reading, first, (count - 1) as nat, tape);
    let all = ticks(reading, first, count, tape);
    if k == count - 1 {
        assert(all[before.len() as int] == t);
    } else {
        lemma_ticks_hold(reading, first, (count - 1) as nat, tape, k);
        let i = choose|i: int| 0 <= i < before.len() && before[i] == t;
        assert(all[i] == t);
    }
}

/// The lowest mark considered for a reading: a multiple of the step, at least
/// `reach` units below the reading.
pub open spec fn first_mark(reading: int, reach: int, step: int) -> int {
    ((reading - reach * ONE) / (step * ONE)) * step
}

/// The altitude tape: a mark every 50 ft, longer at each 200 ft.
pub open spec fn altitude_scale() -> TapeScale {
    TapeScale { step: 50, major: 200, px: 350_000_000 }
}

/// The ticks of the altitude tape.
pub open spec fn altitude_ticks(feet: int) -> Seq<Tick> {
    ticks(feet, first_mark(feet, 500, 50), 21, altitude_scale())
}

/// The marks of the altitude tape when it reads `feet`.
pub fn draw_altitude_tape(feet: i64) -> (marks: Vec<Tick>)
    ensures
        marks@ == altitude_ticks(feet as int),
{
    let first: i64 = floor_div(feet as i128 - 500_000_000_000, 50_000_000_000) as i64 * 50;
    tape_ticks(feet, first, 21, &TapeScale { step: 50, major: 200, px: 350_000_000 })
}

/// Every multiple of 50 ft that fits on the tape is marked.
pub proof fn altitude_tape_is_complete(feet: int, n: int)
    requires
        on_tape(tick_y(feet, 50 * n, 350_000_000)),
    ensures
        altitude_ticks(feet).contains(tick_at(feet, 50 * n, altitude_scale())),
{
    let first = first_mark(feet, 500, 50);
    let q = (feet - 500_000_000_000) / 50_000_000_000;
    let k = n - q;
    assert(first == q * 50);
    assert(-229_000_000_000 <= feet - 50_000_000_000 * n <= 229_000_000_000) by {
        let off = feet - (50 * n) * ONE;
        assert(tick_y(feet, 50 * n, 350_000_000) == (off * 350_000_000) / 1_000_000_000);
    }
    assert(first + k * 50 == 50 * n);
    assert(0 <= k < 21);
    lemma_ticks_hold(feet, first, 21, altitude_scale(), k);
}

/// The airspeed tape: a mark every 10 kt, longer and numbered at each 20 kt.
pub open spec fn airspeed_scale() -> TapeScale {
    TapeScale { step: 10, major: 20, px: 1_400_000_000 }
}

/// The lowest airspeed mark considered: none are below zero.
pub open spec fn airspeed_first(knots: int) -> int {
    let first = first_mark(knots, 70, 10);
    if first < 0 {
        0
    } else {
        first
    }
}

/// How many airspeed marks are considered.
pub open spec fn airspeed_count(knots: int) -> nat {
    let last = first_mark(knots, 70, 10) + 140;
    if last < airspeed_first(knots) {
        0
    } else {
        ((last - airspeed_first(knots)) / 10 + 1) as nat
    }
}

/// The ticks of the airspeed tape.
pub open spec fn airspeed_ticks(knots: int) -> Seq<Tick> {
    ticks(knots, airspeed_first(knots), airspeed_count(knots), airspeed_scale())
}

/// The marks of the airspeed tape when it reads `knots`.
pub fn draw_airspeed_tape(knots: i64) -> (marks: Vec<Tick>)
    ensures
        marks@ == airspeed_ticks(knots as int),
{
    let lowest: i64 = floor_div(knots as i128 - 70_000_000_000, 10_000_000_000) as i64 * 10;
    let first: i64 = if lowest < 0 {
        0
    } else {
        lowest
    };
    let last: i64 = lowest + 140;
    let count: u32 = if last < first {
        0
    } else {
        ((last - first) / 10 + 1) as u32
    };
    tape_ticks(knots, first, count, &TapeScale { step: 10, major: 20, px: 1_400_000_000 })
}

/// Every multiple of 10 kt from zero up that fits on the tape is marked.
pub proof fn airspeed_tape_is_complete(knots: int, n: int)
    requires
        n >= 0,
        on_tape(tick_y(knots, 10 * n, 1_400_000_000)),
    ensures
        airspeed_ticks(knots).contains(tick_at(knots, 10 * n, airspeed_scale())),
{
    let first = airspeed_first(knots);
    let q = (knots - 70_000_000_000) / 10_000_000_000;
    assert(first_mark(knots, 70, 10) == q * 10);
    assert(-58_000_000_000 <= knots - 10_000_000_000 * n <= 58_000_000_000) by {
        let off = knots - (10 * n) * ONE;
        assert(tick_y(knots, 10 * n, 1_400_000_000) == (off * 1_400_000_000) / 1_000_000_000);
    }
    let k = n - first / 10;
    assert(first + k * 10 == 10 * n);
    assert(0 <= k < airspeed_count(knots));
    lemma_ticks_hold(knots, first, airspeed_count(knots), airspeed_scale(), k);
}

/// What the colour of an airspeed band says.
#[derive(Clone, Copy, Debug, PartialEq, Eq, Structural)]
pub enum BandColour {
    Warn,
    Good,
    Caution,
}

/// A coloured stretch along the airspeed tape, from `top` down to `bottom`.
#[derive(Clone, Copy, Debug, PartialEq, Eq, Structural)]
pub struct Band {
    pub top: i64,
    pub bottom: i64,
    pub colour: BandColour,
}

/// The visible part of the band from `lo` to `hi` knots.
pub open spec fn band_at(knots: int, lo: int, hi: int, colour: BandColour) -> Option<Band> {
    let top = scaled(knots - hi, 1_400_000_000);
    let bottom = scaled(knots - lo, 1_400_000_000);
    if bottom < -TAPE_HALF || top > TAPE_HALF {
        None
    } else {
        Some(
            Band {
                top: clamped(top, -TAPE_HALF as int, TAPE_HALF as int) as i64,
                bottom: clamped(bottom, -TAPE_HALF as int, TAPE_HALF as int) as i64,
                colour,
            },
        )
    }
}

fn band(knots: i64, lo: i64, hi: i64, colour: BandColour) -> (r: Option<Band>)
    requires
        -1_000_000_000_000 <= lo <= hi <= 1_000_000_000_000,
    ensures
        r == band_at(knots as int, lo as int, hi as int, colour),
{
    let top: i128 = floor_div((knots as i128 - hi as i128) * 1_400_000_000, 1_000_000_000);
    let bottom: i128 = floor_div((knots as i128 - lo as i128) * 1_400_000_000, 1_000_000_000);
    if bottom < -(TAPE_HALF as i128) || top > TAPE_HALF as i128 {
        None
    } else {
        Some(
            Band {
                top: clamp(top, -TAPE_HALF, TAPE_HALF),
                bottom: clamp(bottom, -TAPE_HALF, TAPE_HALF),
                colour,
            },
        )
    }
}

/// The bands of the airspeed tape, each where it is in view: red up to the stall
/// (and a little below zero), green to cruise, yellow to the never-exceed speed,
/// red beyond.
pub fn airspeed_bands(knots: i64) -> (bands: [Option<Band>; 4])
    ensures
        bands@ == seq![
            band_at(knots as int, -15_000_000_000, 48_000_000_000, BandColour::Warn),
            band_at(knots as int, 48_000_000_000, 120_000_000_000, BandColour::Good),
            band_at(knots as int, 120_000_000_000, 163_000_000_000, BandColour::Caution),
            band_at(knots as int, 163_000_000_000, 228_200_000_000, BandColour::Warn),
        ],
{
    let r: [Option<Band>; 4] = [
        band(knots, -15_000_000_000, 48_000_000_000, BandColour::Warn),
        band(knots, 48_000_000_000, 120_000_000_000, BandColour::Good),
        band(knots, 120_000_000_000, 163_000_000_000, BandColour::Caution),
        band(knots, 163_000_000_000, 228_200_000_000, BandColour::Warn),
    ];
    assert(r@ =~= seq![
        band_at(knots as int, -15_000_000_000, 48_000_000_000, BandColour::Warn),
        band_at(knots as int, 48_000_000_000, 120_000_000_000, BandColour::Good),
        band_at(knots as int, 120_000_000_000, 163_000_000_000, BandColour::Caution),
        band_at(knots as int, 163_000_000_000, 228_200_000_000, BandColour::Warn),
    ]);
    r
}

/// Neighbouring bands join: where both are in view, one ends where the next
/// begins.
pub proof fn bands_join(knots: int, lo: int, mid: int, hi: int, lower: BandColour, upper: BandColour)
    ensures
        band_at(knots, lo, mid, lower) matches Some(a) ==> (band_at(knots, mid, hi, upper) matches
            Some(b) ==> a.top == b.bottom),
{
}

/// Where the bug of the vertical-speed scale is: 0.035 px to the foot per minute,
/// held at the ends of the scale, 2000 ft/min up and down.
pub open spec fn vspeed_bug(fpm: int) -> int {
    -((clamped(fpm, -2_000_000_000_000, 2_000_000_000_000) * 35) / 1000)
}

/// Where the bug of the vertical-speed scale is.
pub fn draw_vspeed_tape(fpm: i64) -> (y: i64)
    ensures
        y == vspeed_bug(fpm as int),
{
    let held: i64 = clamp(fpm as i128, -2_000_000_000_000, 2_000_000_000_000);
    -(floor_div(held as i128 * 35, 1000) as i64)
}

/// The marks of the vertical-speed scale: hundreds of feet per minute, and how
/// far below the middle each is.
pub fn vspeed_marks() -> (marks: [(i64, i64); 5])
    ensures
        forall|i: int|
            0 <= i < 5 ==> (#[trigger] marks@[i]).0 == 10 * (i - 2) && marks@[i].1 == vspeed_bug(
                marks@[i].0 * 100 * ONE,
            ),
{
    [
        (-20, 70_000_000_000),
        (-10, 35_000_000_000),
        (0, 0),
        (10, -35_000_000_000),
        (20, -70_000_000_000),
    ]
}

/// The bug never leaves the scale, and climbing faster never lowers it.
pub proof fn vspeed_bug_stays_on_the_scale(slow: int, fast: int)
    requires
        slow <= fast,
    ensures
        -70_000_000_000 <= vspeed_bug(slow) <= 70_000_000_000,
        vspeed_bug(fast) <= vspeed_bug(slow),
{
}

/// Radius of the artificial horizon.
pub const HORIZON_RADIUS: i64 = 72_000_000_000;

/// How far the horizon moves for a pitch in degrees: a quarter turn is the
/// radius.
pub open spec fn pitch_shift(pitch: int) -> int {
    (pitch * 4) / 5
}

/// A rung of the pitch ladder: its angle in whole degrees, how far below the
/// middle it is before the roll is applied, and whether it is one of the longer
/// ones. Longer rungs other than the horizon carry their angle.
#[derive(Clone, Copy, Debug, PartialEq, Eq, Structural)]
pub struct Rung {
    pub angle: i64,
    pub y: i64,
    pub major: bool,
    pub labelled: bool,
}

/// How far below the middle the rung `i` is.
pub open spec fn rung_y(pitch: int, i: int) -> int {
    8 * i * ONE - pitch_shift(pitch)
}

/// The rung is close enough to the middle to be drawn.
pub open spec fn rung_shown(pitch: int, i: int) -> bool {
    -100_800_000_000 < rung_y(pitch, i) < 100_800_000_000
}

/// The rung `i`, at ten degrees times `i`.
pub open spec fn rung_at(pitch: int, i: int) -> Rung {
    Rung {
        angle: (10 * i) as i64,
        y: rung_y(pitch, i) as i64,
        major: i % 3 == 0,
        labelled: i % 3 == 0 && i != 0,
    }
}

/// The rungs drawn among those from -60 degrees up to below `10 * end`.
pub open spec fn rungs(pitch: int, end: int) -> Seq<Rung>
    decreases end + 6,
{
    if end <= -6 {
        Seq::empty()
    } else {
        let before = rungs(pitch, end - 1);
        if rung_shown(pitch, end - 1) {
            before.push(rung_at(pitch, end - 1))
        } else {
            before
        }
    }
}

/// The pitch ladder for a pitch in degrees: a rung every ten degrees to sixty up
/// and down, longer every thirty.
pub fn pitch_ladder(pitch: i64) -> (ladder: Vec<Rung>)
    ensures
        ladder@ == rungs(pitch as int, 7),
{
    let shift: i128 = floor_div(pitch as i128 * 4, 5);
    let mut ladder: Vec<Rung> = Vec::new();
    let mut i: i64 = -6;
    while i < 7
        invariant
            -6 <= i <= 7,
            shift == pitch_shift(pitch as int),
            -20_000_000_000_000_000_000 <= shift <= 20_000_000_000_000_000_000,
            ladder@ == rungs(pitch as int, i as int),
        decreases 7 - i,
    {
        let y: i128 = 8_000_000_000 * i as i128 - shift;
        if -100_800_000_000 < y && y < 100_800_000_000 {
            let major: bool = i == -6 || i == -3 || i == 0 || i == 3 || i == 6;
            ladder.push(Rung { angle: 10 * i, y: y as i64, major, labelled: major && i != 0 });
        }
        i = i + 1;
    }
    ladder
}

/// A point on the rim of the horizon: where it is, and how far below the middle
/// once the roll is taken out.
#[derive(Clone, Copy, Debug, PartialEq, Eq, Structural)]
pub struct RimPoint {
    pub x: i64,
    pub y: i64,
    pub level: i64,
}

/// A rim coordinate is within a few radii of the middle.
pub open spec fn rim_in_reach(p: RimPoint) -> bool {
    &&& -1_000_000_000_000 <= p.x <= 1_000_000_000_000
    &&& -1_000_000_000_000 <= p.y <= 1_000_000_000_000
    &&& -1_000_000_000_000 <= p.level <= 1_000_000_000_000
}

/// The point shows ground: it is below the horizon line.
pub open spec fn shows_ground(p: RimPoint, line: int) -> bool {
    p.level > line
}

/// The coordinate on the way from `a` to `b` where the level, on its way from
/// `la` to `lb`, is `line`.
pub open spec fn crossing(a: int, b: int, la: int, lb: int, line: int) -> int {
    if lb > la {
        a + ((line - la) * (b - a)) / (lb - la)
    } else {
        a + ((la - line) * (b - a)) / (la - lb)
    }
}

/// The outline of the ground after `n` rim points: each point that shows ground,
/// and the crossing wherever the rim passes the horizon line.
pub open spec fn ground_outline(rim: Seq<RimPoint>, n: nat, line: int) -> Seq<(i64, i64)>
    recommends
        n <= rim.len(),
    decreases n,
{
    if n == 0 {
        Seq::empty()
    } else {
        let before = ground_outline(rim, (n - 1) as nat, line);
        let p = rim[n - 1];
        let crossed = if n >= 2 && shows_ground(p, line) != shows_ground(rim[n - 2], line) {
            let q = rim[n - 2];
            before.push(
                (
                    crossing(q.x as int, p.x as int, q.level as int, p.level as int, line) as i64,
                    crossing(q.y as int, p.y as int, q.level as int, p.level as int, line) as i64,
                ),
            )
        } else {
            before
        };
        if shows_ground(p, line) {
            crossed.push((p.x, p.y))
        } else {
            crossed
        }
    }
}

/// A crossing lies between the two points it is between.
pub proof fn crossing_lies_between(a: int, b: int, la: int, lb: int, line: int)
    requires
        la <= line < lb || lb <= line < la,
    ensures
        a <= b ==> a <= crossing(a, b, la, lb, line) <= b,
        b <= a ==> b <= crossing(a, b, la, lb, line) <= a,
{
    let (num, den) = if lb > la {
        (line - la, lb - la)
    } else {
        (la - line, la - lb)
    };
    let d = b - a;
    let p = num * d;
    vstd::arithmetic::div_mod::lemma_fundamental_div_mod(p, den);
    let q = p / den;
    let r = p % den;
    if d >= 0 {
        assert(0 <= q <= d) by (nonlinear_arith)
            requires
                p == num * d,
                p == den * q + r,
                0 <= r < den,
                0 <= num <= den,
                0 <= d,
        ;
    } else {
        assert(d <= q <= 0) by (nonlinear_arith)
            requires
                p == num * d,
                p == den * q + r,
                0 <= r < den,
                0 <= num <= den,
                d <= 0,
        ;
    }
}

fn crossing_of(a: i64, b: i64, la: i64, lb: i64, line: i64) -> (c: i64)
    requires
        -1_000_000_000_000 <= a <= 1_000_000_000_000,
        -1_000_000_000_000 <= b <= 1_000_000_000_000,
        -1_000_000_000_000 <= la <= 1_000_000_000_000,
        -1_000_000_000_000 <= lb <= 1_000_000_000_000,
        la <= line < lb || lb <= line < la,
    ensures
        c == crossing(a as int, b as int, la as int, lb as int, line as int),
{
    proof {
        crossing_lies_between(a as int, b as int, la as int, lb as int, line as int);
    }
    let d: i128 = b as i128 - a as i128;
    let num: i128 = if lb > la {
        line as i128 - la as i128
    } else {
        la as i128 - line as i128
    };
    let den: i128 = if lb > la {
        lb as i128 - la as i128
    } else {
        la as i128 - lb as i128
    };
    assert(-10_000_000_000_000_000_000_000_000 <= num * d <= 10_000_000_000_000_000_000_000_000)
        by (nonlinear_arith)
        requires
            0 <= num <= 2_000_000_000_000,
            -2_000_000_000_000 <= d <= 2_000_000_000_000,
    ;
    (a as i128 + floor_div(num * d, den)) as i64
}

/// The part of the horizon disc that is ground, from the rim points in order
/// around it; `line` is the level of the horizon.
pub fn ground_polygon(rim: &Vec<RimPoint>, line: i64) -> (outline: Vec<(i64, i64)>)
    requires
        forall|i: int| 0 <= i < rim@.len() ==> rim_in_reach(#[trigger] rim@[i]),
    ensures
        outline@ == ground_outline(rim@, rim@.len(), line as int),
{
    let mut outline: Vec<(i64, i64)> = Vec::new();
    let mut n: usize = 0;
    while n < rim.len()
        invariant
            n <= rim.len(),
            forall|i: int| 0 <= i < rim@.len() ==> rim_in_reach(#[trigger] rim@[i]),
            outline@ == ground_outline(rim@, n as nat, line as int),
        decreases rim.len() - n,
    {
        let p: RimPoint = rim[n];
        let ground: bool = p.level > line;
        if n > 0 {
            let q: RimPoint = rim[n - 1];
            let was_ground: bool = q.level > line;
            if ground != was_ground {
                outline.push(
                    (
                        crossing_of(q.x, p.x, q.level, p.level, line),
                        crossing_of(q.y, p.y, q.level, p.level, line),
                    ),
                );
            }
        }
        if ground {
            outline.push((p.x, p.y));
        }
        n = n + 1;
    }
    outline
}

/// A horizon below the whole rim shows no ground, one above it shows ground all
/// round.
pub proof fn steep_pitch_fills_the_horizon(rim: Seq<RimPoint>, n: nat, line: int)
    requires
        n <= rim.len(),
    ensures
        (forall|i: int| 0 <= i < n ==> !shows_ground(#[trigger] rim[i], line)) ==> ground_outline(
            rim,
            n,
            line,
        ).len() == 0,
        (forall|i: int| 0 <= i < n ==> shows_ground(#[trigger] rim[i], line)) ==> ground_outline(
            rim,
            n,
            line,
        ) == rim.take(n as int).map_values(|p: RimPoint| (p.x, p.y)),
    decreases n,
{
    if n == 0 {
        assert(rim.take(0).map_values(|p: RimPoint| (p.x, p.y)) =~= Seq::<(i64, i64)>::empty());
    } else {
        steep_pitch_fills_the_horizon(rim, (n - 1) as nat, line);
        let f = |p: RimPoint| (p.x, p.y);
        let m = n as int;
        assert(rim.take(m).map_values(f) =~= rim.take(m - 1).map_values(f).push(f(rim[m - 1])));
        if n >= 2 {
            assert(shows_ground(rim[m - 1], line) || !shows_ground(rim[m - 1], line));
            assert(shows_ground(rim[m - 2], line) || !shows_ground(rim[m - 2], line));
        }
    }
}

/// An angle in degrees, taken into one turn.
pub open spec fn wrapped(angle: int) -> int {
    angle % 360_000_000_000
}

/// An angle in degrees, taken into one turn.
pub fn wrap_360(angle: i64) -> (r: i64)
    ensures
        r == wrapped(angle as int),
        0 <= r < 360_000_000_000,
{
    let turns: i128 = floor_div(angle as i128, 360_000_000_000);
    (angle as i128 - turns * 360_000_000_000) as i64
}

/// A mark of the compass: the angle at which it is drawn, counted from the right
/// and clockwise, and the letter where it is a cardinal one.
#[derive(Clone, Copy, Debug, PartialEq, Eq)]
pub struct CompassMark {
    pub angle: i64,
    pub letter: Option<char>,
}

/// The mark for a bearing of `30 * i` degrees: a quarter turn left of where the
/// bearing is from the heading.
pub open spec fn compass_mark_at(heading: int, i: int) -> CompassMark {
    CompassMark {
        angle: (30 * i * ONE - heading - 90 * ONE) as i64,
        letter: if i == 0 {
            Some('N')
        } else if i == 3 {
            Some('E')
        } else if i == 6 {
            Some('S')
        } else if i == 9 {
            Some('W')
        } else {
            None
        },
    }
}

/// The twelve marks of the compass for a heading in degrees.
pub fn draw_heading_compass(heading: i64) -> (marks: Vec<CompassMark>)
    requires
        0 <= heading < 360_000_000_000,
    ensures
        marks@.len() == 12,
        forall|i: int|
            0 <= i < 12 ==> #[trigger] marks@[i] == compass_mark_at(heading as int, i),
{
    let mut marks: Vec<CompassMark> = Vec::with_capacity(12);
    let mut i: i64 = 0;
    while i < 12
        invariant
            0 <= i <= 12,
            0 <= heading < 360_000_000_000,
            marks@.len() == i,
            forall|k: int|
                0 <= k < i ==> #[trigger] marks@[k] == compass_mark_at(heading as int, k),
        decreases 12 - i,
    {
        let letter: Option<char> = if i == 0 {
            Some('N')
        } else if i == 3 {
            Some('E')
        } else if i == 6 {
            Some('S')
        } else if i == 9 {
            Some('W')
        } else {
            None
        };
        marks.push(CompassMark { angle: 30_000_000_000 * i - heading - 90_000_000_000, letter });
        i = i + 1;
    }
    marks
}

/// The bearing that is flown is at the top of the compass.
pub proof fn heading_is_at_the_top(heading: int, i: int)
    requires
        0 <= i < 12,
        heading == 30 * i * ONE,
    ensures
        compass_mark_at(heading, i).angle == -90_000_000_000,
{
}

/// The heading as three digits and the degree sign.
pub open spec fn heading_label(heading: int) -> Seq<char> {
    fixed_digits(nearest(heading, ONE as int) as nat, 3) + "°"@
}

fn heading_text(heading: i64) -> (text: String)
    requires
        0 <= heading < 360_000_000_000,
    ensures
        text@ == heading_label(heading as int),
{
    let q: i64 = heading / 1_000_000_000;
    let r: i64 = heading % 1_000_000_000;
    let whole: i64 = if 2 * r < 1_000_000_000 {
        q
    } else if 2 * r > 1_000_000_000 {
        q + 1
    } else if q % 2 == 0 {
        q
    } else {
        q + 1
    };
    let mut s: String = String::new();
    push_padded(&mut s, whole as u128, 3);
    s.append("°");
    assert(s@ =~= heading_label(heading as int));
    s
}

/// A tick of the tachometer: where it is along the dial, and whether it is one of
/// the longer ones.
#[derive(Clone, Copy, Debug, PartialEq, Eq, Structural)]
pub struct DialTick {
    pub share: i64,
    pub major: bool,
}

/// The tachometer: where the needle is along the dial, the ticks and the label.
#[derive(Debug)]
pub struct EngineGauge {
    pub needle: i64,
    pub ticks: Vec<DialTick>,
    pub label: String,
}

/// Where a number of revolutions is along a dial that ends at `max`. A dial that
/// ends where it begins is full as soon as anything turns.
pub open spec fn dial_share(rpm: int, max: int) -> int {
    if max > 0 {
        clamped((rpm * ONE) / max, 0, ONE as int)
    } else if max < 0 {
        clamped((-rpm * ONE) / -max, 0, ONE as int)
    } else if rpm > 0 {
        ONE as int
    } else {
        0
    }
}

/// How many ticks the dial has: one every 200 revolutions per minute, none on a dial
/// that runs backwards.
pub open spec fn dial_ticks(max: int) -> int {
    if max + ONE < 0 {
        0
    } else {
        (max + ONE) / 200_000_000_000 + 1
    }
}

/// The `k`th tick of a dial that ends at `max`.
pub open spec fn dial_tick_at(k: int, max: int) -> DialTick {
    DialTick { share: dial_share(k * 200_000_000_000, max) as i64, major: k % 5 == 0 }
}

/// The gauge shows an engine at `rps` revolutions per second on a dial that ends
/// at `max_rps`.
pub open spec fn is_gauge(g: EngineGauge, rps: int, max_rps: int) -> bool {
    &&& g.needle == dial_share(rps * 60, max_rps * 60)
    &&& g.ticks@.len() == dial_ticks(max_rps * 60)
    &&& forall|k: int|
        0 <= k < g.ticks@.len() ==> #[trigger] g.ticks@[k] == dial_tick_at(k, max_rps * 60)
    &&& g.label@ == rounded_text(rps * 60, 0) + " RPM"@
}

fn share_on_dial(rpm: i128, max: i128) -> (share: i64)
    requires
        -1_000_000_000_000_000_000_000 <= rpm <= 1_000_000_000_000_000_000_000,
        -1_000_000_000_000_000_000_000 <= max,
    ensures
        share == dial_share(rpm as int, max as int),
{
    if max > 0 {
        clamp(floor_div(rpm * 1_000_000_000, max), 0, ONE)
    } else if max < 0 {
        clamp(floor_div(-rpm * 1_000_000_000, -max), 0, ONE)
    } else if rpm > 0 {
        ONE
    } else {
        0
    }
}

/// The tachometer for an engine speed against the propeller's governed redline,
/// both in revolutions per second.
pub fn draw_engine_gauge(rps: i64, max_rps: i64) -> (gauge: EngineGauge)
    ensures
        is_gauge(gauge, rps as int, max_rps as int),
{
    let rpm: i128 = rps as i128 * 60;
    let max: i128 = max_rps as i128 * 60;
    let mut ticks: Vec<DialTick> = Vec::new();
    let mut k: i128 = 0;
    let mut fifth: u8 = 0;
    while k * 200_000_000_000 <= max + 1_000_000_000
        invariant
            -600_000_000_000_000_000_000 <= max <= 600_000_000_000_000_000_000,
            0 <= k,
            k == 0 || (k - 1) * 200_000_000_000 <= max + 1_000_000_000,
            fifth == k % 5,
            ticks@.len() == k,
            forall|j: int|
                0 <= j < k ==> #[trigger] ticks@[j] == dial_tick_at(j, max as int),
        decreases max + 201_000_000_001 - k * 200_000_000_000,
    {
        ticks.push(
            DialTick { share: share_on_dial(k * 200_000_000_000, max), major: fifth == 0 },
        );
        fifth = if fifth == 4 {
            0
        } else {
            fifth + 1
        };
        k = k + 1;
    }
    let mut label: String = String::new();
    push_rounded(&mut label, rpm, 0);
    label.append(" RPM");
    assert(label@ =~= rounded_text(rps * 60, 0) + " RPM"@);
    EngineGauge { needle: share_on_dial(rpm, max), ticks, label }
}

/// A stretch of the dial's arc, one of sixty, and whether it is past the redline,
/// in the last tenth.
pub fn dial_segment(i: u32) -> (segment: (i64, i64, bool))
    requires
        i < 60,
    ensures
        segment.0 == (i * ONE) / 60,
        segment.1 == ((i + 1) * ONE) / 60,
        segment.2 <==> i * 10 > 9 * 60,
{
    (i as i64 * ONE / 60, (i as i64 + 1) * ONE / 60, i > 54)
}

/// The needle never leaves the dial and never falls behind a rising engine.
pub proof fn needle_follows_the_engine(slow: int, fast: int, max: int)
    requires
        slow <= fast,
        max > 0,
    ensures
        0 <= dial_share(slow, max) <= dial_share(fast, max) <= ONE,
        dial_share(0, max) == 0,
        dial_share(max, max) == ONE,
{
    vstd::arithmetic::div_mod::lemma_div_is_ordered(slow * ONE, fast * ONE, max);
    vstd::arithmetic::div_mod::lemma_div_basics(max);
    vstd::arithmetic::div_mod::lemma_div_multiples_vanish(ONE as int, max);
    assert(max * ONE == ONE * max);
}

/// What the instruments read: speed and climb rate (m/s), altitude (m), attitude
/// in degrees, with the bearing of the nose counted clockwise from the negative z
/// axis, and engine speeds (rev/s).
#[derive(Clone, Copy, Debug, PartialEq, Eq, Structural)]
pub struct FlightReading {
    pub speed: i64,
    pub altitude: i64,
    pub climb: i64,
    pub bearing: i64,
    pub pitch: i64,
    pub roll: i64,
    pub engine_rps: i64,
    pub prop_max_rps: i64,
}

/// The readings convert to knots, feet and feet per minute within range.
pub open spec fn readable(r: FlightReading) -> bool {
    &&& -1_000_000_000_000_000_000 <= r.speed <= 1_000_000_000_000_000_000
    &&& -1_000_000_000_000_000_000 <= r.altitude <= 1_000_000_000_000_000_000
    &&& -10_000_000_000_000_000 <= r.climb <= 10_000_000_000_000_000
    &&& -1_000_000_000_000 <= r.bearing <= 1_000_000_000_000
    &&& -1_000_000_000_000_000_000 <= r.pitch <= 1_000_000_000_000_000_000
}

pub open spec fn knots(r: FlightReading) -> int {
    scaled(r.speed as int, MS_TO_KT as int)
}

pub open spec fn feet(r: FlightReading) -> int {
    scaled(r.altitude as int, M_TO_FT as int)
}

pub open spec fn feet_per_minute(r: FlightReading) -> int {
    scaled(r.climb as int, M_TO_FT as int) * 60
}

/// The heading: the nose's bearing a quarter turn on.
pub open spec fn heading(r: FlightReading) -> int {
    wrapped(r.bearing + 90_000_000_000)
}

/// What the whole panel shows.
#[derive(Debug)]
pub struct Panel {
    pub altitude_ticks: Vec<Tick>,
    pub altitude_label: String,
    pub vspeed_y: i64,
    pub vspeed_label: String,
    pub airspeed_ticks: Vec<Tick>,
    pub airspeed_bands: [Option<Band>; 4],
    pub airspeed_label: String,
    pub pitch_shift: i64,
    pub rungs: Vec<Rung>,
    pub roll: i64,
    pub engine: EngineGauge,
    pub compass: Vec<CompassMark>,
    pub heading_label: String,
}

/// The panel shows the reading.
pub open spec fn is_panel(p: Panel, r: FlightReading) -> bool {
    &&& p.altitude_ticks@ == altitude_ticks(feet(r))
    &&& p.altitude_label@ == rounded_text(feet(r), 0)
    &&& p.vspeed_y == vspeed_bug(feet_per_minute(r))
    &&& p.vspeed_label@ == rounded_text(feet_per_minute(r), 0)
    &&& p.airspeed_ticks@ == airspeed_ticks(knots(r))
    &&& p.airspeed_bands@ == seq![
        band_at(knots(r), -15_000_000_000, 48_000_000_000, BandColour::Warn),
        band_at(knots(r), 48_000_000_000, 120_000_000_000, BandColour::Good),
        band_at(knots(r), 120_000_000_000, 163_000_000_000, BandColour::Caution),
        band_at(knots(r), 163_000_000_000, 228_200_000_000, BandColour::Warn),
    ]
    &&& p.airspeed_label@ == rounded_text(knots(r), 0)
    &&& p.pitch_shift == pitch_shift(r.pitch as int)
    &&& p.rungs@ == rungs(r.pitch as int, 7)
    &&& p.roll == r.roll
    &&& is_gauge(p.engine, r.engine_rps as int, r.prop_max_rps as int)
    &&& p.compass@.len() == 12
    &&& forall|i: int|
        0 <= i < 12 ==> #[trigger] p.compass@[i] == compass_mark_at(heading(r), i)
    &&& p.heading_label@ == heading_label(heading(r))
}

fn whole_text(v: i64) -> (text: String)
    ensures
        text@ == rounded_text(v as int, 0),
{
    let mut s: String = String::new();
    push_rounded(&mut s, v as i128, 0);
    assert(s@ =~= rounded_text(v as int, 0));
    s
}

/// The panel for a frame: shown while there is an aircraft and the camera is not
/// the free one.
pub fn draw_instrument_panel(mode: CameraMode, reading: Option<FlightReading>) -> (panel: Option<
    Panel,
>)
    requires
        reading matches Some(r) ==> readable(r),
    ensures
        match panel {
            Some(p) => mode == CameraMode::Orbit && (reading matches Some(r) && is_panel(p, r)),
            None => mode == CameraMode::Free || reading is None,
        },
{
    if mode == CameraMode::Free {
        return None;
    }
    match reading {
        None => None,
        Some(r) => {
            let speed: i64 = scale(r.speed, MS_TO_KT) as i64;
            let height: i64 = scale(r.altitude, M_TO_FT) as i64;
            let climb: i64 = scale(r.climb, M_TO_FT) as i64 * 60;
            let ahead: i64 = wrap_360(r.bearing + 90_000_000_000);
            Some(
                Panel {
                    altitude_ticks: draw_altitude_tape(height),
                    altitude_label: whole_text(height),
                    vspeed_y: draw_vspeed_tape(climb),
                    vspeed_label: whole_text(climb),
                    airspeed_ticks: draw_airspeed_tape(speed),
                    airspeed_bands: airspeed_bands(speed),
                    airspeed_label: whole_text(speed),
                    pitch_shift: floor_div(r.pitch as i128 * 4, 5) as i64,
                    rungs: pitch_ladder(r.pitch),
                    roll: r.roll,
                    engine: draw_engine_gauge(r.engine_rps, r.prop_max_rps),
                    compass: draw_heading_compass(ahead),
                    heading_label: heading_text(ahead),
                },
            )
        },
    }
}

/// Temperature (K) at an altitude (m) in the standard atmosphere: 6.5 degrees less
/// for each kilometre from 288.15, and never below one.
pub open spec fn standard_temperature(altitude: int) -> int {
    let t = 288_150_000_000 - (altitude * 65) / 10_000;
    if t < ONE {
        ONE as int
    } else {
        t
    }
}

/// Temperature (K) at an altitude (m) in the standard atmosphere.
pub fn isa_temperature(altitude: i64) -> (kelvin: i64)
    ensures
        kelvin == standard_temperature(altitude as int),
{
    let t: i64 = 288_150_000_000 - floor_div(altitude as i128 * 65, 10_000) as i64;
    if t < ONE {
        ONE
    } else {
        t
    }
}

/// Climbing never warms the air.
pub proof fn air_cools_with_height(low: int, high: int)
    requires
        low <= high,
    ensures
        standard_temperature(high) <= standard_temperature(low),
        standard_temperature(0) == 288_150_000_000,
{
}

/// Pressure (Pa) for a share of the sea-level pressure, which follows from the
/// sea-level density (kg/m^3), the gas constant of dry air and 288.15 K.
pub open spec fn pressure(sea_level_density: int, share: int) -> int {
    scaled(scaled(sea_level_density, 82_713_457_500_000), share)
}

/// Density (kg/m^3) and pressure (inHg) from the sea-level density, the share of
/// the sea-level pressure and the temperature.
pub fn baro_reading(sea_level_density: i64, share: i64, kelvin: i64) -> (r: (i64, i64))
    requires
        0 <= sea_level_density <= 10_000_000_000,
        0 <= share <= 1_000_000_000_000,
        ONE <= kelvin,
    ensures
        r.0 == density_shown(sea_level_density as int, share as int, kelvin as int),
        r.1 == (pressure(sea_level_density as int, share as int) * 100) / 338_639,
{
    let sea: i128 = scale(sea_level_density, 82_713_457_500_000);
    assert(0 <= sea <= 827_134_575_000_000);
    let pa: i128 = scale(sea as i64, share);
    proof {
        let a = sea as int;
        let b = share as int;
        assert(0 <= a * b <= 827_134_575_000_000 * 1_000_000_000_000) by (nonlinear_arith)
            requires
                0 <= a <= 827_134_575_000_000,
                0 <= b <= 1_000_000_000_000,
        ;
    }
    assert(0 <= pa <= 827_134_575_000_000_000);
    let gas: i128 = scale(287_050_000_000, kelvin);
    assert(gas >= 287_050_000_000);
    let density: i128 = pa * 1_000_000_000 / gas;
    proof {
        let p = pa * 1_000_000_000;
        let g = gas as int;
        vstd::arithmetic::div_mod::lemma_fundamental_div_mod(p as int, g);
        assert(0 <= density <= 3_000_000_000_000_000) by (nonlinear_arith)
            requires
                p == g * density + p as int % g,
                0 <= p as int % g,
                (p as int % g) < g,
                0 <= p <= 827_134_575_000_000_000_000_000_000,
                g >= 287_050_000_000,
        ;
    }
    (density as i64, (pa * 100 / 338_639) as i64)
}

/// The density that the readout shows.
pub open spec fn density_shown(sea_level_density: int, share: int, kelvin: int) -> int {
    (pressure(sea_level_density, share) * 1_000_000_000) / scaled(287_050_000_000, kelvin)
}

/// The base of the flight model's density ratio is the standard temperature as a
/// share of that at sea level, to five decimals.
pub proof fn model_air_follows_the_temperature(altitude: int)
    requires
        0 <= altitude <= 11_000_000_000_000,
    ensures
        ({
            let share = (standard_temperature(altitude) * ONE) / 288_150_000_000;
            -10_000 <= density_base(altitude) - share <= 10_000
        }),
{
}

proof fn lemma_readout(s: int, q: int, k: int)
    requires
        0 <= s <= 10_000_000_000,
        0 <= q <= ONE,
        216_000_000_000 <= k <= 289_000_000_000,
    ensures
        ({
            let shown = density_shown(s, (q * k) / 288_150_000_000, k);
            -20 <= shown - scaled(s, q) <= 2
        }),
{
    let h = (q * k) / 288_150_000_000;
    let b = (q * k) % 288_150_000_000;
    let a = scaled(s, 82_713_457_500_000);
    let p = scaled(a, h);
    let g = scaled(287_050_000_000, k);
    let d = (p * 1_000_000_000) / g;
    let (x, y, z) = (s * q, (s * q) * k, a * h);
    assert(0 <= q * k <= 289_000_000_000_000_000_000 && 0 <= x <= 10_000_000_000_000_000_000)
        by (nonlinear_arith)
        requires
            0 <= s <= 10_000_000_000,
            0 <= q <= 1_000_000_000,
            216_000_000_000 <= k <= 289_000_000_000,
            x == s * q,
    ;
    let a_left = s * 82_713_457_500_000 - 1_000_000_000 * a;
    assert(0 <= a_left < 1_000_000_000);
    // What the pressure is made of.
    assert(288_150_000_000 * (s * h) == y - s * b) by (nonlinear_arith)
        requires
            q * k == 288_150_000_000 * h + b,
            y == (s * q) * k,
    ;
    assert(1_000_000_000 * z == 82_713_457_500_000 * (s * h) - a_left * h) by (nonlinear_arith)
        requires
            a_left == s * 82_713_457_500_000 - 1_000_000_000 * a,
            z == a * h,
    ;
    assert(0 <= h <= 1_003_000_000);
    assert(0 <= a_left * h <= 1_003_000_000_000_000_000) by (nonlinear_arith)
        requires
            0 <= a_left <= 1_000_000_000,
            0 <= h <= 1_003_000_000,
    ;
    assert(0 <= s * b <= 2_881_500_000_000_000_000_000) by (nonlinear_arith)
        requires
            0 <= s <= 10_000_000_000,
            0 <= b <= 288_150_000_000,
    ;
    // In terms of the product that both sides share.
    let g_left = 28_705 * k - 100 * g;
    assert(0 <= g_left < 100);
    assert(28_705 * y == 100 * (g * x) + g_left * x) by (nonlinear_arith)
        requires
            g_left == 28_705 * k - 100 * g,
            x == s * q,
            y == (s * q) * k,
    ;
    assert(0 <= g_left * x <= 100 * x) by (nonlinear_arith)
        requires
            0 <= g_left <= 100,
            0 <= x,
    ;
    // Multiplied out: 1e11 z is 28705 (y - s b) less what the roundings took.
    assert(100_000_000_000 * z <= 28_705 * y);
    assert(100_000_000_000 * z >= 28_705 * y - 28_705 * (s * b) - 100 * (a_left * h));
    let r = (p * 1_000_000_000) % g;
    assert(g >= 62_000_000_000_000 && g <= 83_000_000_000_000);
    vstd::arithmetic::div_mod::lemma_fundamental_div_mod(p * 1_000_000_000, g);
    assert(z - 1_000_000_000 - g < g * d <= z);
    assert(d * 1_000_000_000 <= x + 1_000_000_000) by (nonlinear_arith)
        requires
            1_000_000_000 * (g * d) <= g * x + x,
            0 <= x <= 10_000_000_000_000_000_000,
            g >= 62_000_000_000_000,
    ;
    assert(x - 15_000_000_000 <= d * 1_000_000_000) by (nonlinear_arith)
        requires
            1_000_000_000 * (g * d) >= g * x - 830_000_000_000_000_000_000_000 - 1_000_000_000 * g,
            g >= 62_000_000_000_000,
    ;
}

/// The readout and the flight model agree: where the pressure's share is the density
/// ratio times the share of the temperature, as in the standard atmosphere, the
/// density shown is the density that the model flies in, to seven decimals; at sea
/// level it is the configured one.
pub proof fn readout_agrees_with_the_model(sea_level_density: int, altitude: int, ratio: int)
    requires
        0 <= sea_level_density <= 10_000_000_000,
        0 <= altitude <= 11_000_000_000_000,
        0 <= ratio <= ONE,
    ensures
        ({
            let kelvin = standard_temperature(altitude);
            let share = (ratio * kelvin) / 288_150_000_000;
            let shown = density_shown(sea_level_density, share, kelvin);
            &&& -20 <= shown - scaled(sea_level_density, ratio) <= 2
            &&& altitude == 0 && ratio == ONE ==> share == ONE
                && -20 <= shown - sea_level_density <= 2 && pressure(sea_level_density, share)
                == scaled(sea_level_density, 82_713_457_500_000)
        }),
{
    lemma_readout(sea_level_density, ratio, standard_temperature(altitude));
    if altitude == 0 && ratio == ONE {
        let kelvin = standard_temperature(altitude);
        assert(ratio * kelvin == 288_150_000_000 * 1_000_000_000) by (nonlinear_arith)
            requires
                ratio == 1_000_000_000,
                kelvin == 288_150_000_000,
        ;
        assert(sea_level_density * ratio == sea_level_density * 1_000_000_000);
        let (sea, share) = (
            scaled(sea_level_density, 82_713_457_500_000),
            (ratio * kelvin) / 288_150_000_000,
        );
        assert(sea * share == sea * 1_000_000_000);
    }
}

/// The two lines below the altitude tape.
pub fn draw_baro_readout(density: i64, pressure_inhg: i64) -> (text: (String, String))
    ensures
        text.0@ == rounded_text(pressure_inhg as int, 2) + " inHg"@,
        text.1@ == "ρ "@ + rounded_text(density as int, 3) + " kg/m³"@,
{
    let mut p: String = String::new();
    push_rounded(&mut p, pressure_inhg as i128, 2);
    p.append(" inHg");
    assert(p@ =~= rounded_text(pressure_inhg as int, 2) + " inHg"@);
    let mut d: String = String::from_str("ρ ");
    push_rounded(&mut d, density as i128, 3);
    d.append(" kg/m³");
    (p, d)
}

}
