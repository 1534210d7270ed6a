//! What stands on a runway: the asphalt slab, its markings and its lights, in
//! the strip's own frame (centre at the origin, length along z), and how the
//! lights blink. Lengths are in nanometres, brightness and colour with nine
//! decimals.

use super::runway::{RUNWAY_LENGTH, RUNWAY_SURFACE_LIFT, RUNWAY_WIDTH};
use vstd::prelude::*;

verus! {

/// A colour by its red, green and blue parts.
#[derive(Clone, Copy, Debug, PartialEq, Eq, Structural)]
pub struct Colour {
    pub r: i64,
    pub g: i64,
    pub b: i64,
}

/// A point light.
#[derive(Clone, Copy, Debug, PartialEq, Eq, Structural)]
pub struct Lamp {
    pub colour: Colour,
    pub intensity: i64,
    pub range: i64,
    pub radius: i64,
}

/// How a lamp behaves: steady, a strobe at the runway's end, or one bar of the
/// approach lights. `index` is the bar's distance step from the threshold (1 is
/// nearest); `end` is +1 or -1 for the runway's end.
#[derive(Clone, Copy, Debug, PartialEq, Eq, Structural)]
pub enum LampRole {
    Steady,
    Reil,
    Als { index: i32, end: i32 },
}

/// The form of a fixture. A painted plane has no height, so `always_drawn` keeps
/// it from being culled at shallow angles.
#[derive(Clone, Copy, Debug, PartialEq, Eq, Structural)]
pub enum Shape {
    Slab { width: i64, thickness: i64, length: i64 },
    Paint { width: i64, length: i64, always_drawn: bool },
    Light { lamp: Lamp, role: LampRole },
}

/// One fixture at its place.
#[derive(Clone, Copy, Debug, PartialEq, Eq, Structural)]
pub struct Fixture {
    pub x: i64,
    pub y: i64,
    pub z: i64,
    pub shape: Shape,
}

/// Height of the markings: 0.1 m above the asphalt.
pub const PAINT_Y: i64 = 400_000_000;

/// Height of the light fixtures: 0.5 m above the asphalt.
pub const LIGHT_Y: i64 = 800_000_000;

/// The slab reaches 3 m down from the asphalt surface.
pub const THICKNESS: i64 = 3_000_000_000;

/// Edge lights every 120 m along both sides of the runway.
pub const EDGE_LIGHT_SPACING: i64 = 120_000_000_000;

/// The last 610 m of edge lights are yellow, the caution zone.
pub const CAUTION_START: i64 = 390_000_000_000;

/// The asphalt: its top face lies at the surface, the rest of it below.
pub open spec fn slab() -> Fixture {
    Fixture {
        x: 0,
        y: (RUNWAY_SURFACE_LIFT - THICKNESS / 2) as i64,
        z: 0,
        shape: Shape::Slab { width: RUNWAY_WIDTH, thickness: THICKNESS, length: RUNWAY_LENGTH },
    }
}

/// Dash `i` of the centreline: 30 m long, 20 m apart.
pub open spec fn dash(i: int) -> Fixture {
    Fixture {
        x: 0,
        y: PAINT_Y,
        z: (-975_000_000_000 + i * 50_000_000_000) as i64,
        shape: Shape::Paint {
            width: 1_000_000_000,
            length: 30_000_000_000,
            always_drawn: false,
        },
    }
}

/// Threshold bar `k` of one end; the middle place, `k == 0`, stays free.
pub open spec fn bar(end: int, k: int) -> Fixture {
    Fixture {
        x: (k * 4_500_000_000) as i64,
        y: PAINT_Y,
        z: (end * 985_000_000_000) as i64,
        shape: Shape::Paint {
            width: 2_500_000_000,
            length: 20_000_000_000,
            always_drawn: true,
        },
    }
}

/// Bar number `i` of `0..16`: eight at the far end, then eight at the near one.
pub open spec fn bar_number(i: int) -> Fixture {
    let end: int = if i < 8 {
        -1
    } else {
        1
    };
    let n = i % 8;
    bar(
        end,
        if n < 4 {
            n - 4
        } else {
            n - 3
        },
    )
}

/// Distance of edge light row `i` along the runway.
pub open spec fn edge_z(i: int) -> int {
    -RUNWAY_LENGTH / 2 + i * EDGE_LIGHT_SPACING
}

/// The edge light of row `i` on one side.
pub open spec fn edge_light(i: int, side: int) -> Fixture {
    Fixture {
        x: (side * 21_000_000_000) as i64,
        y: LIGHT_Y,
        z: edge_z(i) as i64,
        shape: Shape::Light {
            lamp: Lamp {
                colour: if edge_z(i) >= CAUTION_START {
                    Colour { r: 1_000_000_000, g: 850_000_000, b: 100_000_000 }
                } else {
                    Colour { r: 1_000_000_000, g: 970_000_000, b: 880_000_000 }
                },
                intensity: 500_000_000_000_000,
                range: 200_000_000_000,
                radius: 300_000_000,
            },
            role: LampRole::Steady,
        },
    }
}

/// A wide threshold light: green towards the runway, red beyond it.
pub open spec fn threshold_light(end: int, green: bool) -> Fixture {
    Fixture {
        x: 0,
        y: LIGHT_Y,
        z: (end * if green {
            997_000_000_000
        } else {
            999_000_000_000int
        }) as i64,
        shape: Shape::Light {
            lamp: Lamp {
                colour: if green {
                    Colour { r: 100_000_000, g: 1_000_000_000, b: 200_000_000 }
                } else {
                    Colour { r: 1_000_000_000, g: 80_000_000, b: 50_000_000 }
                },
                intensity: 3_200_000_000_000_000,
                range: 80_000_000_000,
                radius: 18_000_000_000,
            },
            role: LampRole::Steady,
        },
    }
}

/// The strobe on one side of a threshold.
pub open spec fn reil(end: int, side: int) -> Fixture {
    Fixture {
        x: (side * 27_500_000_000) as i64,
        y: 1_300_000_000,
        z: (end * 998_000_000_000) as i64,
        shape: Shape::Light {
            lamp: Lamp {
                colour: Colour { r: 1_000_000_000, g: 150_000_000, b: 100_000_000 },
                intensity: 5_000_000_000_000_000,
                range: 3_000_000_000_000,
                radius: 1_500_000_000,
            },
            role: LampRole::Reil,
        },
    }
}

/// Approach light bar `j`, 60 m apart and away from the threshold.
pub open spec fn approach_light(end: int, j: int) -> Fixture {
    Fixture {
        x: 0,
        y: 2_300_000_000,
        z: (end * (998_000_000_000 + j * 60_000_000_000)) as i64,
        shape: Shape::Light {
            lamp: Lamp {
                colour: Colour { r: 1_000_000_000, g: 970_000_000, b: 880_000_000 },
                intensity: 2_000_000_000_000_000,
                range: 200_000_000_000,
                radius: 9_000_000_000,
            },
            role: LampRole::Als { index: j as i32, end: end as i32 },
        },
    }
}

/// The lights of one end.
pub open spec fn end_lights(end: int) -> Seq<Fixture> {
    seq![
        threshold_light(end, true),
        threshold_light(end, false),
        reil(end, -1),
        reil(end, 1),
        approach_light(end, 1),
        approach_light(end, 2),
        approach_light(end, 3),
    ]
}

/// Every fixture of a runway, in order.
pub open spec fn all_fixtures() -> Seq<Fixture> {
    seq![slab()] + Seq::new(40, |i: int| dash(i)) + Seq::new(16, |i: int| bar_number(i)) + Seq::new(
        34,
        |i: int|
            edge_light(
                i / 2,
                if i % 2 == 0 {
                    -1
                } else {
                    1
                },
            ),
    ) + end_lights(-1) + end_lights(1)
}

fn make_lamp(x: i64, y: i64, z: i64, lamp: Lamp, role: LampRole) -> (f: Fixture)
    ensures
        f == (Fixture { x, y, z, shape: Shape::Light { lamp, role } }),
{
    Fixture { x, y, z, shape: Shape::Light { lamp, role } }
}

fn push_end_lights(out: &mut Vec<Fixture>, end: i64)
    requires
        end == 1 || end == -1,
    ensures
        final(out)@ == old(out)@ + end_lights(end as int),
{
    let ghost before = out@;
    let threshold_z: i64 = end * 998_000_000_000;
    let green: Lamp = Lamp {
        colour: Colour { r: 100_000_000, g: 1_000_000_000, b: 200_000_000 },
        intensity: 3_200_000_000_000_000,
        range: 80_000_000_000,
        radius: 18_000_000_000,
    };
    let red: Lamp = Lamp {
        colour: Colour { r: 1_000_000_000, g: 80_000_000, b: 50_000_000 },
        intensity: 3_200_000_000_000_000,
        range: 80_000_000_000,
        radius: 18_000_000_000,
    };
    out.push(make_lamp(0, LIGHT_Y, threshold_z - end * 1_000_000_000, green, LampRole::Steady));
    out.push(make_lamp(0, LIGHT_Y, threshold_z + end * 1_000_000_000, red, LampRole::Steady));
    let strobe: Lamp = Lamp {
        colour: Colour { r: 1_000_000_000, g: 150_000_000, b: 100_000_000 },
        intensity: 5_000_000_000_000_000,
        range: 3_000_000_000_000,
        radius: 1_500_000_000,
    };
    out.push(make_lamp(-27_500_000_000, 1_300_000_000, threshold_z, strobe, LampRole::Reil));
    out.push(make_lamp(27_500_000_000, 1_300_000_000, threshold_z, strobe, LampRole::Reil));
    let approach: Lamp = Lamp {
        colour: Colour { r: 1_000_000_000, g: 970_000_000, b: 880_000_000 },
        intensity: 2_000_000_000_000_000,
        range: 200_000_000_000,
        radius: 9_000_000_000,
    };
    let mut j: i32 = 1;
    while j <= 3
        invariant
            end == 1 || end == -1,
            1 <= j <= 4,
            threshold_z == end * 998_000_000_000,
            approach == (Lamp {
                colour: Colour { r: 1_000_000_000, g: 970_000_000, b: 880_000_000 },
                intensity: 2_000_000_000_000_000,
                range: 200_000_000_000,
                radius: 9_000_000_000,
            }),
            out@ == before + end_lights(end as int).take(3 + j),
        decreases 4 - j,
    {
        let z: i64 = threshold_z + end * (j as i64) * 60_000_000_000;
        let role: LampRole = LampRole::Als { index: j, end: end as i32 };
        out.push(make_lamp(0, 2_300_000_000, z, approach, role));
        proof {
            assert(end * (998_000_000_000 + j * 60_000_000_000) == z) by (nonlinear_arith)
                requires
                    z == end * 998_000_000_000 + end * j * 60_000_000_000,
            ;
            assert(out@.last() == end_lights(end as int)[3 + j]);
            assert(out@ =~= before + end_lights(end as int).take(4 + j));
        }
        j = j + 1;
    }
    assert(end_lights(end as int).take(7) =~= end_lights(end as int));
}

/// The fixtures of one runway: a volumetric asphalt slab, centreline dashes,
/// threshold bars, edge lights, and each end's threshold, strobe and approach
/// lights.
pub fn runway_fixtures() -> (fixtures: Vec<Fixture>)
    ensures
        fixtures@ == all_fixtures(),
{
    let mut out: Vec<Fixture> = Vec::with_capacity(105);
    out.push(
        Fixture {
            x: 0,
            y: RUNWAY_SURFACE_LIFT - 1_500_000_000,
            z: 0,
            shape: Shape::Slab {
                width: RUNWAY_WIDTH,
                thickness: THICKNESS,
                length: RUNWAY_LENGTH,
            },
        },
    );
    assert(out@ =~= seq![slab()]);
    let ghost start = out@;
    let ghost dashes = Seq::new(40, |i: int| dash(i));
    let mut i: i64 = 0;
    while i < 40
        invariant
            0 <= i <= 40,
            dashes == Seq::new(40, |i: int| dash(i)),
            out@ == start + dashes.take(i as int),
        decreases 40 - i,
    {
        out.push(
            Fixture {
                x: 0,
                y: PAINT_Y,
                z: -975_000_000_000 + i * 50_000_000_000,
                shape: Shape::Paint {
                    width: 1_000_000_000,
                    length: 30_000_000_000,
                    always_drawn: false,
                },
            },
        );
        assert(out@ =~= start + dashes.take(i + 1));
        i = i + 1;
    }
    assert(dashes.take(40) =~= dashes);
    let ghost marked = out@;
    let ghost bars = Seq::new(16, |i: int| bar_number(i));
    let mut n: i64 = 0;
    while n < 16
        invariant
            0 <= n <= 16,
            bars == Seq::new(16, |i: int| bar_number(i)),
            out@ == marked + bars.take(n as int),
        decreases 16 - n,
    {
        let end: i64 = if n < 8 {
            -1
        } else {
            1
        };
        let place: i64 = if n % 8 < 4 {
            n % 8 - 4
        } else {
            n % 8 - 3
        };
        out.push(
            Fixture {
                x: place * 4_500_000_000,
                y: PAINT_Y,
                z: end * 985_000_000_000,
                shape: Shape::Paint {
                    width: 2_500_000_000,
                    length: 20_000_000_000,
                    always_drawn: true,
                },
            },
        );
        assert(out@ =~= marked + bars.take(n + 1));
        n = n + 1;
    }
    assert(bars.take(16) =~= bars);
    let ghost barred = out@;
    let ghost edges = Seq::new(
        34,
        |i: int|
            edge_light(
                i / 2,
                if i % 2 == 0 {
                    -1
                } else {
                    1
                },
            ),
    );
    let mut e: i64 = 0;
    let mut z: i64 = -1_000_000_000_000;
    while z <= 1_000_000_000_000
        invariant
            0 <= e <= 17,
            z == edge_z(e as int),
            edges == Seq::new(
                34,
                |i: int|
                    edge_light(
                        i / 2,
                        if i % 2 == 0 {
                            -1
                        } else {
                            1
                        },
                    ),
            ),
            out@ == barred + edges.take(2 * e),
        decreases 17 - e,
    {
        let colour: Colour = if z >= CAUTION_START {
            Colour { r: 1_000_000_000, g: 850_000_000, b: 100_000_000 }
        } else {
            Colour { r: 1_000_000_000, g: 970_000_000, b: 880_000_000 }
        };
        let lamp: Lamp = Lamp {
            colour,
            intensity: 500_000_000_000_000,
            range: 200_000_000_000,
            radius: 300_000_000,
        };
        out.push(make_lamp(-21_000_000_000, LIGHT_Y, z, lamp, LampRole::Steady));
        out.push(make_lamp(21_000_000_000, LIGHT_Y, z, lamp, LampRole::Steady));
        proof {
            assert(edges[2 * e] == edge_light(e as int, -1));
            assert(edges[2 * e + 1] == edge_light(e as int, 1));
            assert(out@ =~= barred + edges.take(2 * (e + 1)));
        }
        e = e + 1;
        z = z + EDGE_LIGHT_SPACING;
    }
    assert(edges.take(34) =~= edges);
    push_end_lights(&mut out, -1);
    push_end_lights(&mut out, 1);
    out
}

/// The fixture seen from the other end of the strip.
pub open spec fn mirrored(f: Fixture) -> Fixture {
    Fixture {
        z: (-f.z) as i64,
        shape: match f.shape {
            Shape::Light { lamp, role: LampRole::Als { index, end } } => Shape::Light {
                lamp,
                role: LampRole::Als { index, end: (-end) as i32 },
            },
            other => other,
        },
        ..f
    }
}

/// Both ends are lit alike.
pub proof fn ends_mirror_each_other()
    ensures
        end_lights(-1) == end_lights(1).map_values(|f: Fixture| mirrored(f)),
{
    assert(end_lights(-1) =~= end_lights(1).map_values(|f: Fixture| mirrored(f)));
}

/// Every marking lies wholly on the asphalt.
pub proof fn markings_lie_on_the_asphalt(n: int)
    requires
        0 <= n < all_fixtures().len(),
        all_fixtures()[n].shape is Paint,
    ensures
        ({
            let f = all_fixtures()[n];
            &&& -RUNWAY_WIDTH <= 2 * f.x - f.shape->Paint_width
            &&& 2 * f.x + f.shape->Paint_width <= RUNWAY_WIDTH
            &&& -RUNWAY_LENGTH <= 2 * f.z - f.shape->Paint_length
            &&& 2 * f.z + f.shape->Paint_length <= RUNWAY_LENGTH
            &&& f.y > RUNWAY_SURFACE_LIFT
        }),
{
}

/// Edge light rows stand on the runway, within one spacing of its far end.
pub proof fn edge_lights_line_the_runway(i: int)
    requires
        0 <= i < 17,
    ensures
        -RUNWAY_LENGTH / 2 <= edge_z(i) <= RUNWAY_LENGTH / 2,
        edge_z(17) > RUNWAY_LENGTH / 2,
        -RUNWAY_WIDTH / 2 < edge_light(i, -1).x < 0 < edge_light(i, 1).x < RUNWAY_WIDTH / 2,
{
}

/// Global clock driving runway light animation, in nanoseconds.
#[derive(Clone, Copy, Debug, PartialEq, Eq, Structural)]
pub struct RunwayLightClock {
    pub elapsed: u64,
}

impl Default for RunwayLightClock {
    fn default() -> (clock: Self)
        ensures
            clock.elapsed == 0,
    {
        RunwayLightClock { elapsed: 0 }
    }
}

/// Number of approach light bars at each end.
pub const ALS_BARS: i32 = 3;

/// The strobes flash once a second, for 50 ms.
pub open spec fn reil_lit(elapsed: int) -> bool {
    elapsed % 1_000_000_000 < 50_000_000
}

/// The approach bar that is lit: counts down 3, 2, 1, 3, ... with 100 ms per
/// step, so the light runs toward the threshold.
pub open spec fn lit_bar(elapsed: int) -> int {
    ALS_BARS - (elapsed / 100_000_000) % (ALS_BARS as int)
}

/// Brightness of a lit strobe or approach bar.
pub const FLASH_INTENSITY: i64 = 2_000_000_000_000_000;

/// Brightness of a lamp at a time; steady lamps keep their own.
pub open spec fn animated_intensity(lamp: Lamp, role: LampRole, elapsed: int) -> i64 {
    match role {
        LampRole::Steady => lamp.intensity,
        LampRole::Reil => if reil_lit(elapsed) {
            FLASH_INTENSITY
        } else {
            0
        },
        LampRole::Als { index, end } => if index == lit_bar(elapsed) {
            FLASH_INTENSITY
        } else {
            0
        },
    }
}

/// What the animated lights do this frame.
#[derive(Clone, Copy, Debug, PartialEq, Eq, Structural)]
pub struct LightFrame {
    pub reil_on: bool,
    pub active_index: i32,
}

impl LightFrame {
    /// Brightness of a lamp in this frame.
    pub fn intensity(&self, lamp: &Lamp, role: &LampRole) -> (r: i64)
        ensures
            forall|elapsed: int|
                self.reil_on == #[trigger] reil_lit(elapsed) && self.active_index == lit_bar(
                    elapsed,
                ) ==> r == animated_intensity(*lamp, *role, elapsed),
            role is Steady ==> r == lamp.intensity,
            role is Reil ==> r == if self.reil_on {
                FLASH_INTENSITY
            } else {
                0
            },
            role is Als ==> r == if role->index == self.active_index {
                FLASH_INTENSITY
            } else {
                0
            },
    {
        match role {
            LampRole::Steady => lamp.intensity,
            LampRole::Reil => if self.reil_on {
                FLASH_INTENSITY
            } else {
                0
            },
            LampRole::Als { index, end: _ } => if *index == self.active_index {
                FLASH_INTENSITY
            } else {
                0
            },
        }
    }
}

/// Advances the clock and animates REIL strobes and ALS sequencing bars.
///
/// - REIL: flashes at 1 Hz (50 ms on, 950 ms off).
/// - ALS: one bar is lit at a time, stepping toward the threshold at 10 Hz,
///   giving the classic "rabbit" effect pilots use on final approach.
pub fn animate_runway_lights(clock: &mut RunwayLightClock, delta: u64) -> (frame: LightFrame)
    requires
        old(clock).elapsed + delta <= u64::MAX,
    ensures
        final(clock).elapsed == old(clock).elapsed + delta,
        frame.reil_on == reil_lit(final(clock).elapsed as int),
        frame.active_index == lit_bar(final(clock).elapsed as int),
{
    clock.elapsed = clock.elapsed + delta;
    let step: u64 = (clock.elapsed / 100_000_000) % 3;
    LightFrame {
        reil_on: clock.elapsed % 1_000_000_000 < 50_000_000,
        active_index: 3 - step as i32,
    }
}

/// At any time exactly one of the bars is lit, and 100 ms later the next one
/// toward the threshold is, starting over with the farthest.
pub proof fn the_rabbit_runs_to_the_threshold(elapsed: int)
    requires
        elapsed >= 0,
    ensures
        1 <= lit_bar(elapsed) <= ALS_BARS,
        lit_bar(elapsed + 100_000_000) == if lit_bar(elapsed) == 1 {
            ALS_BARS as int
        } else {
            lit_bar(elapsed) - 1
        },
{
    assert((elapsed + 100_000_000) / 100_000_000 == elapsed / 100_000_000 + 1);
}

/// The centreline is dashed evenly: 20 m of gap between two dashes, each in mirror of
/// one at the other end.
pub proof fn dashes_are_evenly_spaced(i: int)
    requires
        0 <= i < 39,
    ensures
        dash(i).x == 0,
        dash(i + 1).z - dash(i).z == dash(i).shape->Paint_length + 20_000_000_000,
        dash(i).z == -dash(39 - i).z,
        dash(i).shape == dash(i + 1).shape,
{
}

/// The threshold bars stand 2 m apart in mirror about the centreline, alike at both
/// ends, with none on the centreline itself.
pub proof fn bars_are_evenly_spaced(k: int)
    requires
        1 <= k <= 4,
    ensures
        bar(1, -k).x == -bar(1, k).x,
        bar(1, k + 1).x - bar(1, k).x == bar(1, k).shape->Paint_width + 2_000_000_000,
        bar(-1, k).x == bar(1, k).x,
        bar(-1, k).z == -bar(1, k).z,
        bar(1, k).z > 0,
        forall|i: int| 0 <= i < 16 ==> (#[trigger] bar_number(i)).x != 0,
        forall|i: int| 0 <= i < 8 ==> (#[trigger] bar_number(i)).z < 0,
        forall|i: int| 8 <= i < 16 ==> (#[trigger] bar_number(i)).z > 0,
        forall|i: int, j: int|
            0 <= i < j < 16 ==> (#[trigger] bar_number(i)).x != (#[trigger] bar_number(j)).x
                || bar_number(i).z != bar_number(j).z,
{
}

/// Edge lights stand in pairs across the strip, 120 m apart along it. They warn in
/// yellow exactly along the last 610 m, and are a warm white before.
pub proof fn edge_lights_warn_of_the_end(i: int)
    requires
        0 <= i < 17,
    ensures
        edge_light(i, -1).x == -edge_light(i, 1).x,
        edge_light(i, -1).z == edge_light(i, 1).z,
        edge_light(i, 1).shape == edge_light(i, -1).shape,
        edge_z(0) == -1_000_000_000_000,
        edge_z(i + 1) - edge_z(i) == 120_000_000_000,
        ({
            let colour = edge_light(i, 1).shape->lamp.colour;
            let left = 1_000_000_000_000 - edge_light(i, 1).z;
            &&& left <= 610_000_000_000 <==> colour.b < 500_000_000
            &&& left <= 610_000_000_000 <==> colour.g < 900_000_000
            &&& colour.r == 1_000_000_000
        }),
{
}

/// At each end the green lights stand before the red ones, the strobes beside the strip,
/// and the approach lights lead up to it, 60 m apart.
pub proof fn ends_are_lit_in_order(end: int, j: int)
    requires
        end == 1 || end == -1,
        1 <= j <= 3,
    ensures
        ({
            let green = threshold_light(end, true);
            let red = threshold_light(end, false);
            let (g, r) = (green.shape->lamp.colour, red.shape->lamp.colour);
            &&& end * red.z - end * green.z == 2_000_000_000
            &&& 0 < end * green.z
            &&& end * red.z < 1_000_000_000_000
            &&& g.g > g.r && g.g > g.b
            &&& r.r > r.g && r.r > r.b
        }),
        reil(end, -1).x == -reil(end, 1).x,
        2 * reil(end, 1).x > RUNWAY_WIDTH,
        reil(end, 1).z == reil(end, -1).z,
        reil(end, 1).z == end * 998_000_000_000,
        end * approach_light(end, j).z - end * reil(end, 1).z == j * 60_000_000_000,
        approach_light(end, j).x == 0,
        approach_light(end, j).shape->role == (LampRole::Als { index: j as i32, end: end as i32 }),
        reil(end, 1).shape->role == LampRole::Reil,
{
    assert(end * 998_000_000_000 == 998_000_000_000 || end * 998_000_000_000 == -998_000_000_000);
    let z = 998_000_000_000 + j * 60_000_000_000;
    assert(end * z == z || end * z == -z) by (nonlinear_arith)
        requires
            end == 1 || end == -1,
    ;
    assert(end * (end * z) == z) by (nonlinear_arith)
        requires
            end == 1 || end == -1,
    ;
}

/// The strobes are lit for the first 50 ms of each second and dark for the rest of it.
pub proof fn strobes_flash_once_a_second(second: int, past: int)
    requires
        0 <= past < 1_000_000_000,
    ensures
        reil_lit(second * 1_000_000_000 + past) <==> past < 50_000_000,
{
}

/// At any time exactly one of the approach bars shines, as bright as a lit strobe; the
/// farthest does at first. Steady lamps never change.
pub proof fn one_bar_shines(lamp: Lamp, end: i32, elapsed: int)
    requires
        0 <= elapsed,
    ensures
        exists|index: i32|
            1 <= index <= 3 && #[trigger] animated_intensity(
                lamp,
                LampRole::Als { index, end },
                elapsed,
            ) == 2_000_000_000_000_000,
        forall|a: i32, b: i32|
            a != b ==> #[trigger] animated_intensity(lamp, LampRole::Als { index: a, end }, elapsed)
                == 0 || #[trigger] animated_intensity(
                lamp,
                LampRole::Als { index: b, end },
                elapsed,
            ) == 0,
        animated_intensity(lamp, LampRole::Steady, elapsed) == lamp.intensity,
        reil_lit(elapsed) ==> animated_intensity(lamp, LampRole::Reil, elapsed)
            == 2_000_000_000_000_000,
        !reil_lit(elapsed) ==> animated_intensity(lamp, LampRole::Reil, elapsed) == 0,
        elapsed < 100_000_000 ==> animated_intensity(
            lamp,
            LampRole::Als { index: 3, end },
            elapsed,
        ) == 2_000_000_000_000_000,
{
    let lit = lit_bar(elapsed) as i32;
    assert(1 <= lit <= 3);
    assert(animated_intensity(lamp, LampRole::Als { index: lit, end }, elapsed)
        == 2_000_000_000_000_000);
}

}
