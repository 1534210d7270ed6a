//! What the map window draws: where the background goes, which airport is under
//! the pointer, the panel on the selected airport, and the markers. Pixels and
//! lengths have nine decimals.

use super::render::{half_span, half_span_of, screen_of, world_to_screen};
use super::state::{click_map, is_pick, MapIconSettings, MapState, MapView, MAP_EXTENT};
use crate::fixed::{root, scale, scaled, sqrt_floor, ONE};
use crate::terrain::hash::hash_of_cell;
use crate::terrain::runway::{
    ident_of, painted_number, reciprocal, runway_ident, RunwayInstance, RUNWAY_LENGTH,
};
use crate::text::{fixed_digits, push_padded, push_rounded, rounded_text};
use vstd::prelude::*;
use vstd::string::StringExecFns;

verus! {

/// Side of the map widget in pixels.
pub const WIDGET: i64 = 340_000_000_000;

/// A place of the widget on screen.
pub open spec fn on_screen(origin: int) -> bool {
    -10_000_000_000_000 <= origin <= 10_000_000_000_000
}

/// A coordinate that the map covers.
pub open spec fn on_map(v: int) -> bool {
    -MAP_EXTENT <= v <= MAP_EXTENT
}

/// Where a world coordinate is in the widget for a view that is centred on
/// `center`.
pub open spec fn placed(world: int, center: int, world_per_texel: int, origin: int) -> int {
    screen_of(world, center, half_span_of(world_per_texel), origin, WIDGET as int)
}

/// Where the background texture goes along one axis: the bounds it was filled
/// for, seen through the live view. It fills the widget while the two agree, and
/// slides and scales with a gesture.
pub open spec fn texture_span(
    center: int,
    world_per_texel: int,
    baked_center: int,
    baked_world_per_texel: int,
    origin: int,
) -> (int, int) {
    let half = half_span_of(baked_world_per_texel);
    (
        placed(baked_center - half, center, world_per_texel, origin),
        placed(baked_center + half, center, world_per_texel, origin),
    )
}

/// The background's corners on screen.
#[derive(Clone, Copy, Debug, PartialEq, Eq, Structural)]
pub struct TextureRect {
    pub left: i64,
    pub top: i64,
    pub right: i64,
    pub bottom: i64,
}

/// The background is where its view says.
pub open spec fn is_background(r: TextureRect, state: MapState, left: int, top: int) -> bool {
    let v = state.view;
    let b = state.baked_view;
    let x = texture_span(
        v.x as int,
        v.world_per_texel as int,
        b.x as int,
        b.world_per_texel as int,
        left,
    );
    let z = texture_span(
        v.z as int,
        v.world_per_texel as int,
        b.z as int,
        b.world_per_texel as int,
        top,
    );
    &&& r.left == x.0
    &&& r.right == x.1
    &&& r.top == z.0
    &&& r.bottom == z.1
}

/// Where the background goes, once it has been filled.
pub fn background(state: &MapState, left: i64, top: i64) -> (r: Option<TextureRect>)
    requires
        state.wf(),
        on_screen(left as int),
        on_screen(top as int),
    ensures
        match r {
            Some(rect) => state.baked && is_background(rect, *state, left as int, top as int),
            None => !state.baked,
        },
{
    if !state.baked {
        return None;
    }
    let v: MapView = state.view;
    let b: MapView = state.baked_view;
    let half: i64 = half_span(v.world_per_texel);
    let reach: i64 = half_span(b.world_per_texel);
    Some(
        TextureRect {
            left: world_to_screen(b.x - reach, v.x, half, left, WIDGET),
            top: world_to_screen(b.z - reach, v.z, half, top, WIDGET),
            right: world_to_screen(b.x + reach, v.x, half, left, WIDGET),
            bottom: world_to_screen(b.z + reach, v.z, half, top, WIDGET),
        },
    )
}

/// A background that was filled for the live view fills the widget.
pub proof fn settled_background_fills_the_widget(center: int, world_per_texel: int, origin: int)
    requires
        world_per_texel > 0,
    ensures
        texture_span(center, world_per_texel, center, world_per_texel, origin) == (
            origin,
            origin + WIDGET,
        ),
{
    let half = half_span_of(world_per_texel);
    super::render::view_fills_the_widget(center, half, origin, WIDGET as int);
}

/// How far from the pointer an airport appears, in pixels.
pub open spec fn pointer_distance(
    airport: RunwayInstance,
    view: MapView,
    left: int,
    top: int,
    px: int,
    py: int,
) -> int {
    let dx = placed(airport.x as int, view.x as int, view.world_per_texel as int, left) - px;
    let dy = placed(airport.z as int, view.z as int, view.world_per_texel as int, top) - py;
    root(dx * dx + dy * dy)
}

fn distance_to(airport: &RunwayInstance, view: &MapView, left: i64, top: i64, px: i64, py: i64) -> (
d: i64)
    requires
        super::state::view_in_range(*view),
        on_map(airport.x as int),
        on_map(airport.z as int),
        on_screen(left as int),
        on_screen(top as int),
        on_screen(px as int),
        on_screen(py as int),
    ensures
        d == pointer_distance(
            *airport,
            *view,
            left as int,
            top as int,
            px as int,
            py as int,
        ),
{
    let half: i64 = half_span(view.world_per_texel);
    let x: i64 = world_to_screen(airport.x, view.x, half, left, WIDGET);
    let y: i64 = world_to_screen(airport.z, view.z, half, top, WIDGET);
    proof {
        lemma_screen_bound(airport.x as int, view.x as int, half as int, left as int);
        lemma_screen_bound(airport.z as int, view.z as int, half as int, top as int);
    }
    let dx: i128 = x as i128 - px as i128;
    let dy: i128 = y as i128 - py as i128;
    assert(0 <= dx * dx <= 10_000_000_000_000_000_000_000_000_000_000_000_000) by (nonlinear_arith)
        requires
            -3_000_000_000_000_000_000 <= dx <= 3_000_000_000_000_000_000,
    ;
    assert(0 <= dy * dy <= 10_000_000_000_000_000_000_000_000_000_000_000_000) by (nonlinear_arith)
        requires
            -3_000_000_000_000_000_000 <= dy <= 3_000_000_000_000_000_000,
    ;
    sqrt_floor(dx * dx + dy * dy)
}

proof fn lemma_screen_bound(world: int, center: int, half: int, origin: int)
    requires
        on_map(world),
        on_map(center),
        2_560_000_000_000 <= half <= 512_000_000_000_000,
        on_screen(origin),
    ensures
        -2_000_000_000_000_000_000 <= screen_of(world, center, half, origin, WIDGET as int)
            <= 2_000_000_000_000_000_000,
{
    let n = (world - (center - half)) * WIDGET;
    let d = 2 * half;
    vstd::arithmetic::div_mod::lemma_fundamental_div_mod(n, d);
    let q = n / d;
    let r = n % d;
    assert(-1_900_000_000_000_000_000 <= q <= 1_900_000_000_000_000_000) by (nonlinear_arith)
        requires
            n == d * q + r,
            0 <= r < d,
            d >= 5_120_000_000_000,
            -19_000_000_000_000_000_000 * 340_000_000_000 <= n <= 19_000_000_000_000_000_000
                * 340_000_000_000,
    ;
}

/// A click: selects the airport nearest the pointer, within twelve pixels, or none.
pub fn click_airport(
    state: &mut MapState,
    airports: &Vec<RunwayInstance>,
    left: i64,
    top: i64,
    px: i64,
    py: i64,
)
    requires
        old(state).wf(),
        forall|i: int|
            0 <= i < airports@.len() ==> on_map((#[trigger] airports@[i]).x as int) && on_map(
                airports@[i].z as int,
            ),
        on_screen(left as int),
        on_screen(top as int),
        on_screen(px as int),
        on_screen(py as int),
    ensures
        final(state).wf(),
        exists|distances: Seq<i64>, pick: Option<usize>|
            {
                &&& distances.len() == airports@.len()
                &&& forall|i: int|
                    0 <= i < airports@.len() ==> #[trigger] distances[i] == pointer_distance(
                        airports@[i],
                        old(state).view,
                        left as int,
                        top as int,
                        px as int,
                        py as int,
                    )
                &&& #[trigger] is_pick(distances, pick)
                &&& *final(state) == (MapState {
                    selected: match pick {
                        Some(i) => Some(airports@[i as int]),
                        None => None,
                    },
                    ..*old(state)
                })
            },
{
    let view: MapView = state.view;
    let mut distances: Vec<i64> = Vec::with_capacity(airports.len());
    let mut i: usize = 0;
    while i < airports.len()
        invariant
            i <= airports.len(),
            super::state::view_in_range(view),
            forall|i: int|
                0 <= i < airports@.len() ==> on_map((#[trigger] airports@[i]).x as int) && on_map(
                    airports@[i].z as int,
                ),
            on_screen(left as int),
            on_screen(top as int),
            on_screen(px as int),
            on_screen(py as int),
            distances@.len() == i,
            forall|k: int|
                0 <= k < i ==> #[trigger] distances@[k] == pointer_distance(
                    airports@[k],
                    view,
                    left as int,
                    top as int,
                    px as int,
                    py as int,
                ),
        decreases airports.len() - i,
    {
        distances.push(distance_to(&airports[i], &view, left, top, px, py));
        i = i + 1;
    }
    click_map(state, airports, &distances);
}

/// The panel on the selected airport shows while the airport is in the widget.
pub fn info_shown(marker: (i64, i64), left: i64, top: i64) -> (r: bool)
    requires
        on_screen(left as int),
        on_screen(top as int),
    ensures
        r <==> left <= marker.0 <= left + WIDGET && top <= marker.1 <= top + WIDGET,
{
    left <= marker.0 && marker.0 <= left + WIDGET && top <= marker.1 && marker.1 <= top + WIDGET
}

/// The lines of the panel on an airport.
#[derive(Debug)]
pub struct AirportInfo {
    pub ident: String,
    pub coords: String,
    pub elevation: String,
    pub runway: String,
    pub direct: String,
}

/// The lines describe the airport.
pub open spec fn is_info(info: AirportInfo, seed: u32, a: RunwayInstance) -> bool {
    let ident = ident_of(hash_of_cell(seed, a.cell.0, a.cell.1));
    let one = painted_number(a.heading as int);
    let other = reciprocal(one);
    let (low, high) = if one <= other {
        (one, other)
    } else {
        (other, one)
    };
    &&& info.ident@ == ident
    &&& info.coords@ == "Coords: "@ + rounded_text(a.x as int, 0) + ", "@ + rounded_text(
        a.z as int,
        0,
    )
    &&& info.elevation@ == "Elevation: "@ + rounded_text(a.elevation as int, 0) + " m"@
    &&& info.runway@ == "Rwy "@ + fixed_digits(low as nat, 2) + "/"@ + fixed_digits(high as nat, 2)
        + "  "@ + rounded_text(RUNWAY_LENGTH as int, 0) + " m"@
    &&& info.direct@ == "Direct To "@ + ident
}

/// The panel on an airport: its ident, place, elevation and runway, and the caption
/// of the button that sets a course to it.
pub fn airport_info(seed: u32, airport: &RunwayInstance) -> (info: AirportInfo)
    ensures
        is_info(info, seed, *airport),
{
    let ident: String = runway_ident(seed, airport.cell);
    let mut coords: String = String::from_str("Coords: ");
    push_rounded(&mut coords, airport.x as i128, 0);
    coords.append(", ");
    push_rounded(&mut coords, airport.z as i128, 0);
    let mut elevation: String = String::from_str("Elevation: ");
    push_rounded(&mut elevation, airport.elevation as i128, 0);
    elevation.append(" m");
    let (low, high) = airport.runway_numbers();
    let mut runway: String = String::from_str("Rwy ");
    push_padded(&mut runway, low as u128, 2);
    runway.append("/");
    push_padded(&mut runway, high as u128, 2);
    runway.append("  ");
    push_rounded(&mut runway, RUNWAY_LENGTH as i128, 0);
    runway.append(" m");
    let mut direct: String = String::from_str("Direct To ");
    direct.append(ident.as_str());
    AirportInfo { ident, coords, elevation, runway, direct }
}

/// A facing on screen: a vector no longer than one.
pub open spec fn is_facing(f: (i64, i64)) -> bool {
    -ONE <= f.0 <= ONE && -ONE <= f.1 <= ONE
}

/// The point `ahead` pixels along a facing and `aside` pixels to its right.
pub open spec fn offset_point(
    c: (i64, i64),
    f: (i64, i64),
    ahead: int,
    aside: int,
) -> (int, int) {
    (
        c.0 + scaled(f.0 as int, ahead) + scaled(-f.1, aside),
        c.1 + scaled(f.1 as int, ahead) + scaled(f.0 as int, aside),
    )
}

fn point_at(c: (i64, i64), f: (i64, i64), ahead: i64, aside: i64) -> (p: (i128, i128))
    requires
        is_facing(f),
    ensures
        (p.0 as int, p.1 as int) == offset_point(c, f, ahead as int, aside as int),
{
    (
        c.0 as i128 + scale(f.0, ahead) + scale(-f.1, aside),
        c.1 as i128 + scale(f.1, ahead) + scale(f.0, aside),
    )
}

/// The aircraft's marker: the corners of its body and the tip of its nose whisker.
#[derive(Clone, Copy, Debug, PartialEq, Eq)]
pub struct PlaneMarker {
    pub corners: [(i128, i128); 4],
    pub nose: (i128, i128),
}

/// The marker is a rectangle along the facing, with a whisker six pixels beyond.
pub open spec fn is_plane_marker(
    m: PlaneMarker,
    c: (i64, i64),
    f: (i64, i64),
    icons: MapIconSettings,
) -> bool {
    let l = icons.plane_len as int;
    let w = icons.plane_width as int;
    &&& (m.corners@[0].0 as int, m.corners@[0].1 as int) == offset_point(c, f, l, w)
    &&& (m.corners@[1].0 as int, m.corners@[1].1 as int) == offset_point(c, f, l, -w)
    &&& (m.corners@[2].0 as int, m.corners@[2].1 as int) == offset_point(c, f, -l, -w)
    &&& (m.corners@[3].0 as int, m.corners@[3].1 as int) == offset_point(c, f, -l, w)
    &&& (m.nose.0 as int, m.nose.1 as int) == offset_point(c, f, l + 6 * ONE, 0)
}

/// The icon sizes are in pixels of a screen.
pub open spec fn icons_on_screen(icons: MapIconSettings) -> bool {
    &&& 0 <= icons.plane_len <= 10_000_000_000_000
    &&& 0 <= icons.plane_width <= 10_000_000_000_000
    &&& 0 <= icons.camera_size <= 10_000_000_000_000
}

/// The aircraft's marker at a place on screen, facing along `f`.
pub fn draw_plane(c: (i64, i64), f: (i64, i64), icons: &MapIconSettings) -> (m: PlaneMarker)
    requires
        is_facing(f),
        icons_on_screen(*icons),
    ensures
        is_plane_marker(m, c, f, *icons),
{
    let l: i64 = icons.plane_len;
    let w: i64 = icons.plane_width;
    PlaneMarker {
        corners: [
            point_at(c, f, l, w),
            point_at(c, f, l, -w),
            point_at(c, f, -l, -w),
            point_at(c, f, -l, w),
        ],
        nose: point_at(c, f, l + 6_000_000_000, 0),
    }
}

/// The camera's marker: a triangle, and the ends of the two sides of its field of
/// view.
#[derive(Clone, Copy, Debug, PartialEq, Eq)]
pub struct CameraMarker {
    pub triangle: [(i128, i128); 3],
    pub wedge: [(i128, i128); 2],
}

/// The triangle points along the facing, and the wedge opens ahead of it, both in
/// proportion to the marker's size.
pub open spec fn is_camera_marker(
    m: CameraMarker,
    c: (i64, i64),
    f: (i64, i64),
    icons: MapIconSettings,
) -> bool {
    let s = icons.camera_size as int;
    let tail = s / 2;
    let side = (s * 5) / 8;
    let reach = (s * 11) / 4;
    let spread = (s * 11) / 8;
    &&& (m.triangle@[0].0 as int, m.triangle@[0].1 as int) == offset_point(c, f, s, 0)
    &&& (m.triangle@[1].0 as int, m.triangle@[1].1 as int) == offset_point(c, f, -tail, side)
    &&& (m.triangle@[2].0 as int, m.triangle@[2].1 as int) == offset_point(c, f, -tail, -side)
    &&& (m.wedge@[0].0 as int, m.wedge@[0].1 as int) == offset_point(c, f, reach, spread)
    &&& (m.wedge@[1].0 as int, m.wedge@[1].1 as int) == offset_point(c, f, reach, -spread)
}

/// The camera's marker at a place on screen, facing along `f`.
pub fn draw_camera(c: (i64, i64), f: (i64, i64), icons: &MapIconSettings) -> (m: CameraMarker)
    requires
        is_facing(f),
        icons_on_screen(*icons),
    ensures
        is_camera_marker(m, c, f, *icons),
{
    let s: i64 = icons.camera_size;
    let tail: i64 = s / 2;
    let side: i64 = s * 5 / 8;
    let reach: i64 = s * 11 / 4;
    let spread: i64 = s * 11 / 8;
    CameraMarker {
        triangle: [
            point_at(c, f, s, 0),
            point_at(c, f, -tail, side),
            point_at(c, f, -tail, -side),
        ],
        wedge: [point_at(c, f, reach, spread), point_at(c, f, reach, -spread)],
    }
}

/// The two ends of a runway's line on the map along one axis: half its length
/// either way, along the sine or cosine of its heading.
pub open spec fn strip_ends(
    at: int,
    turn: int,
    center: int,
    world_per_texel: int,
    origin: int,
) -> (int, int) {
    let reach = scaled(turn, RUNWAY_LENGTH / 2);
    (
        placed(at - reach, center, world_per_texel, origin),
        placed(at + reach, center, world_per_texel, origin),
    )
}

/// A runway's line on the map: its two ends and its middle.
#[derive(Clone, Copy, Debug, PartialEq, Eq)]
pub struct StripMarker {
    pub from: (i64, i64),
    pub to: (i64, i64),
    pub middle: (i64, i64),
}

/// The line runs along the runway, through its middle.
pub open spec fn is_strip(
    m: StripMarker,
    airport: RunwayInstance,
    sin: int,
    cos: int,
    view: MapView,
    left: int,
    top: int,
) -> bool {
    let w = view.world_per_texel as int;
    let x = strip_ends(airport.x as int, sin, view.x as int, w, left);
    let z = strip_ends(airport.z as int, cos, view.z as int, w, top);
    &&& (m.from.0 as int, m.to.0 as int) == x
    &&& (m.from.1 as int, m.to.1 as int) == z
    &&& m.middle.0 == placed(airport.x as int, view.x as int, w, left)
    &&& m.middle.1 == placed(airport.z as int, view.z as int, w, top)
}

/// The line of a runway on the map, given the sine and cosine of its heading: its
/// length runs along the sine in x and the cosine in z.
pub fn draw_airport(
    airport: &RunwayInstance,
    sin: i64,
    cos: i64,
    view: &MapView,
    left: i64,
    top: i64,
) -> (m: StripMarker)
    requires
        super::state::view_in_range(*view),
        on_map(airport.x as int),
        on_map(airport.z as int),
        -ONE <= sin <= ONE,
        -ONE <= cos <= ONE,
        on_screen(left as int),
        on_screen(top as int),
    ensures
        is_strip(m, *airport, sin as int, cos as int, *view, left as int, top as int),
{
    let half: i64 = half_span(view.world_per_texel);
    let reach: i64 = 1_000_000_000_000;
    assert(reach == RUNWAY_LENGTH / 2);
    let rx: i64 = scale(sin, reach) as i64;
    let rz: i64 = scale(cos, reach) as i64;
    StripMarker {
        from: (
            world_to_screen(airport.x - rx, view.x, half, left, WIDGET),
            world_to_screen(airport.z - rz, view.z, half, top, WIDGET),
        ),
        to: (
            world_to_screen(airport.x + rx, view.x, half, left, WIDGET),
            world_to_screen(airport.z + rz, view.z, half, top, WIDGET),
        ),
        middle: (
            world_to_screen(airport.x, view.x, half, left, WIDGET),
            world_to_screen(airport.z, view.z, half, top, WIDGET),
        ),
    }
}

}
