//! What the map shows where, and how gestures move it: laws over views, markers and
//! texels.

use super::render::{byte_of, half_span_of, height_colour, screen_of, texel_center_of};
use super::state::{
    filled, followed, frame_of, gestured, is_pick, out_of_step, starts_anew, world_per_pixel,
    MapGesture, MapIconSettings, MapState, MapView, MAP_EXTENT,
};
use super::window::{
    is_background, is_camera_marker, is_info, is_plane_marker, is_strip, offset_point, placed,
    pointer_distance, texture_span, AirportInfo, CameraMarker, PlaneMarker, StripMarker,
    TextureRect,
};
use crate::fixed::{clamped, root_exists, scaled, ONE};
use crate::terrain::runway::{painted_number, RunwayInstance};
use crate::text::{fixed_digits, rounded_text};
use vstd::prelude::*;

verus! {

proof fn lemma_quotient(n: int, d: int)
    requires
        d > 0,
    ensures
        (n / d) * d <= n < (n / d + 1) * d,
{
    vstd::arithmetic::div_mod::lemma_fundamental_div_mod(n, d);
    let q = n / d;
    let r = n % d;
    assert(q * d <= n < (q + 1) * d) by (nonlinear_arith)
        requires
            n == d * q + r,
            0 <= r < d,
    ;
}

/// Two places lie as far apart on the map as in the world, at the view's scale, and in the
/// same order.
pub proof fn map_is_to_scale(a: int, b: int, center: int, half: int, origin: int, size: int)
    requires
        half > 0,
        size >= 0,
        a <= b,
    ensures
        ({
            let (p, q) = (
                screen_of(a, center, half, origin, size),
                screen_of(b, center, half, origin, size),
            );
            &&& p <= q
            &&& (q - p - 1) * (2 * half) <= (b - a) * size <= (q - p + 1) * (2 * half)
        }),
{
    let (m, n) = ((a - (center - half)) * size, (b - (center - half)) * size);
    let d = 2 * half;
    lemma_quotient(m, d);
    lemma_quotient(n, d);
    let (u, v) = (m / d, n / d);
    assert(n - m == (b - a) * size && n >= m) by (nonlinear_arith)
        requires
            m == (a - (center - half)) * size,
            n == (b - (center - half)) * size,
            a <= b,
            size >= 0,
    ;
    assert((v - u - 1) * d <= n - m <= (v - u + 1) * d) by (nonlinear_arith)
        requires
            u * d <= m,
            m < (u + 1) * d,
            v * d <= n,
            n < (v + 1) * d,
    ;
    vstd::arithmetic::div_mod::lemma_div_is_ordered(m, n, d);
}

/// The texture covers 256 texels around its centre: each texel stands for the place half a
/// texel into it.
pub proof fn texels_stand_for_their_middle(center: int, world_per_texel: int, t: int)
    ensures
        half_span_of(world_per_texel) == 128 * world_per_texel,
        ({
            let from_left = texel_center_of(center, world_per_texel, t) - (center - 128
                * world_per_texel);
            2 * from_left <= (2 * t + 1) * world_per_texel < 2 * (from_left + 1)
        }),
{
}

/// A drag moves the world with the pointer: the view goes the other way, by the world length
/// of the pixels dragged; the zoom and the layer stay.
pub proof fn drags_move_the_world(view: MapView, d: (i64, i64), width: int)
    requires
        width > 0,
        0 <= view.world_per_texel,
    ensures
        ({
            let after = gestured(view, (MapGesture { drag: Some(d), zoom: None }), width);
            let wpp = world_per_pixel(view.world_per_texel as int, width);
            let (east, south) = (view.x - after.x, view.z - after.z);
            &&& after.world_per_texel == view.world_per_texel
            &&& after.layer == view.layer
            &&& -MAP_EXTENT < after.x < MAP_EXTENT ==> east * ONE <= d.0 * wpp < (east + 1) * ONE
            &&& -MAP_EXTENT < after.z < MAP_EXTENT ==> south * ONE <= d.1 * wpp < (south + 1) * ONE
            &&& wpp * width <= 256 * view.world_per_texel < (wpp + 1) * width
        }),
{
    lemma_quotient(256 * view.world_per_texel, width);
}

/// The wheel scales the view by its factor, between 20 and 4000 m to the texel, and leaves
/// its centre where it is.
pub proof fn wheels_zoom_about_the_centre(view: MapView, factor: i64, width: int)
    ensures
        ({
            let after = gestured(view, (MapGesture { drag: None, zoom: Some(factor) }), width);
            let w = after.world_per_texel;
            &&& after.x == view.x && after.z == view.z && after.layer == view.layer
            &&& 20_000_000_000 <= w <= 4_000_000_000_000
            &&& 20_000_000_000 < w < 4_000_000_000_000 ==> w * ONE <= view.world_per_texel * factor
                < (w + 1) * ONE
            &&& w == 20_000_000_000 ==> view.world_per_texel * factor < (w + 1) * ONE
            &&& w == 4_000_000_000_000 ==> view.world_per_texel * factor >= w * ONE
        }),
        gestured(view, (MapGesture { drag: None, zoom: None }), width) == view,
{
}

/// A following map has the aircraft in its centre; one that does not follow, or has no
/// aircraft, stays where it is.
pub proof fn following_keeps_the_aircraft_centred(state: MapState, p: (i64, i64))
    ensures
        state.follow ==> followed(state, Some(p)).view.x == p.0 && followed(
            state,
            Some(p),
        ).view.z == p.1,
        !state.follow ==> followed(state, Some(p)) == state,
        followed(state, None) == state,
        followed(state, Some(p)).view.world_per_texel == state.view.world_per_texel,
        followed(state, Some(p)).view.layer == state.view.layer,
{
}

/// The texture is filled anew only for what changed: a view that moved by up to half a
/// texel stays, one that moved further, or zoomed, or changed its layer, does not.
pub proof fn small_drifts_keep_the_texture(state: MapState, dx: int)
    requires
        state.baked,
        state.view.layer == state.baked_view.layer,
        state.view.world_per_texel == state.baked_view.world_per_texel,
        0 <= state.view.world_per_texel,
        state.view.x - state.baked_view.x == dx || state.baked_view.x - state.view.x == dx,
        state.view.z == state.baked_view.z,
        0 <= dx,
    ensures
        out_of_step(state) <==> 2 * dx > state.view.world_per_texel,
{
    let w = state.view.world_per_texel as int;
    let d = state.view.x - state.baked_view.x;
    assert(d * d == dx * dx) by (nonlinear_arith)
        requires
            d == dx || d == -dx,
    ;
    assert(0 * 0 == 0);
    assert(4 * (dx * dx) > w * w <==> 2 * dx > w) by (nonlinear_arith)
        requires
            0 <= dx,
            0 <= w,
    ;
}

/// A changed world, a new layer or another zoom makes the map fill its texture anew, for
/// the view that it then has; and so it is filled from the first row on, ten rows a frame.
pub proof fn changes_fill_the_texture_anew(state: MapState, world_changed: bool)
    requires
        !state.interacting,
        state.bake_row >= 256,
        !state.follow,
        world_changed || !state.baked || state.view.layer != state.baked_view.layer
            || state.view.world_per_texel != state.baked_view.world_per_texel,
    ensures
        starts_anew(state, world_changed),
        ({
            let after = frame_of(state, None, world_changed, true);
            &&& after.pass_view == state.view
            &&& after.baked_view == state.view
            &&& after.bake_row == 10
            &&& after.view == state.view
        }),
{
}

/// A fill goes on where it was: ten rows a frame for the view it was started for, until all
/// 256 are there.
pub proof fn fills_go_on(state: MapState)
    requires
        state.bake_row < 256,
    ensures
        ({
            let after = filled(state, true);
            &&& after.pass_view == state.pass_view && after.baked_view == state.baked_view
            &&& state.bake_row < 246 ==> after.bake_row == state.bake_row + 10 && after.baked
                == state.baked
            &&& state.bake_row >= 246 ==> after.bake_row == 256 && after.baked
        }),
        filled(state, false) == state,
        !starts_anew(state, false),
{
}

/// What is picked is nearest to the pointer, and something is picked wherever an airport is
/// within twelve pixels.
pub proof fn nearest_airport_is_picked(distances: Seq<i64>, pick: Option<usize>, k: int)
    requires
        is_pick(distances, pick),
        0 <= k < distances.len(),
    ensures
        distances[k] < 12_000_000_000 ==> pick is Some,
        pick matches Some(i) ==> i < distances.len() && distances[i as int] <= distances[k]
            && distances[i as int] < 12_000_000_000,
{
}

/// An airport is as far from the pointer as it appears on screen.
pub proof fn pointers_measure_on_screen(
    airport: RunwayInstance,
    view: MapView,
    left: int,
    top: int,
    px: int,
    py: int,
)
    ensures
        ({
            let d = pointer_distance(airport, view, left, top, px, py);
            let half = 128 * view.world_per_texel;
            let dx = screen_of(airport.x as int, view.x as int, half, left, 340_000_000_000) - px;
            let dy = screen_of(airport.z as int, view.z as int, half, top, 340_000_000_000) - py;
            0 <= d && d * d <= dx * dx + dy * dy < (d + 1) * (d + 1)
        }),
{
    let half = 128 * view.world_per_texel;
    let dx = screen_of(airport.x as int, view.x as int, half, left, 340_000_000_000) - px;
    let dy = screen_of(airport.z as int, view.z as int, half, top, 340_000_000_000) - py;
    assert(dx * dx + dy * dy >= 0) by (nonlinear_arith);
    root_exists(dx * dx + dy * dy);
}

/// A point ahead of a marker lies along its facing, and one aside of it to the right of
/// that: facing up the screen, ahead is up and aside is right.
pub proof fn markers_face_their_way(c: (i64, i64), ahead: int, aside: int)
    ensures
        offset_point(c, (0i64, (-ONE) as i64), ahead, aside) == (c.0 + aside, c.1 - ahead),
        offset_point(c, (ONE, 0i64), ahead, aside) == (c.0 + ahead, c.1 + aside),
        offset_point(c, (0i64, ONE), ahead, aside) == (c.0 - aside, c.1 + ahead),
{
    assert(0 * ahead == 0 && 0 * aside == 0);
    let one = ONE as int;
    assert(scaled(-one, ahead) == -ahead && scaled(one, aside) == aside && scaled(-one, aside)
        == -aside && scaled(0, ahead) == 0 && scaled(0, aside) == 0);
    assert((-ONE) as i64 == -1_000_000_000);
    assert(-((-ONE) as i64) == one);
}

/// An offset along a facing is the facing's share of the way ahead, and the same turned to
/// the right of the way aside.
pub proof fn offsets_follow_the_facing(c: (i64, i64), f: (i64, i64), ahead: int, aside: int)
    ensures
        ({
            let p = offset_point(c, f, ahead, aside);
            let (x, y) = (p.0 - c.0, p.1 - c.1);
            &&& x * ONE <= f.0 * ahead - f.1 * aside < (x + 2) * ONE
            &&& y * ONE <= f.1 * ahead + f.0 * aside < (y + 2) * ONE
        }),
{
    assert((-f.1) * aside == -(f.1 * aside)) by (nonlinear_arith);
}

/// The aircraft's marker is a rectangle about its place: opposite corners lie opposite each
/// other, but for the last decimals, and the whisker points out ahead.
pub proof fn plane_marker_is_centred(
    m: PlaneMarker,
    c: (i64, i64),
    f: (i64, i64),
    icons: MapIconSettings,
)
    requires
        is_plane_marker(m, c, f, icons),
    ensures
        -2 <= m.corners@[0].0 + m.corners@[2].0 - 2 * c.0 <= 0,
        -2 <= m.corners@[0].1 + m.corners@[2].1 - 2 * c.1 <= 0,
        -2 <= m.corners@[1].0 + m.corners@[3].0 - 2 * c.0 <= 0,
        -2 <= m.corners@[1].1 + m.corners@[3].1 - 2 * c.1 <= 0,
        ({
            let (x, y) = (m.nose.0 - c.0, m.nose.1 - c.1);
            let reach = icons.plane_len + 6 * ONE;
            &&& x * ONE <= f.0 * reach < (x + 2) * ONE
            &&& y * ONE <= f.1 * reach < (y + 2) * ONE
        }),
        ({
            let front = offset_point(c, f, icons.plane_len as int, icons.plane_width as int);
            m.corners@[0].0 == front.0 && m.corners@[0].1 == front.1
        }),
{
    let (l, w) = (icons.plane_len as int, icons.plane_width as int);
    let (x, y) = (f.0 as int, f.1 as int);
    assert(x * (-l) == -(x * l) && y * (-l) == -(y * l) && x * (-w) == -(x * w)) by (nonlinear_arith);
    assert((-y) * w == -(y * w) && (-y) * (-w) == y * w) by (nonlinear_arith);
    assert(x * 0 == 0 && (-y) * 0 == 0);
}

/// The camera's marker is symmetric about its facing, and its tip is ahead by its size.
pub proof fn camera_marker_is_symmetric(
    m: CameraMarker,
    c: (i64, i64),
    f: (i64, i64),
    icons: MapIconSettings,
)
    requires
        is_camera_marker(m, c, f, icons),
    ensures
        ({
            let (x, y) = (m.triangle@[0].0 - c.0, m.triangle@[0].1 - c.1);
            &&& x * ONE <= f.0 * icons.camera_size < (x + 2) * ONE
            &&& y * ONE <= f.1 * icons.camera_size < (y + 2) * ONE
        }),
        ({
            let back = offset_point(c, f, -(icons.camera_size as int / 2), 0);
            let x = m.triangle@[1].0 + m.triangle@[2].0 - 2 * back.0;
            let y = m.triangle@[1].1 + m.triangle@[2].1 - 2 * back.1;
            -2 <= x <= 2 && -2 <= y <= 2
        }),
        ({
            let out = offset_point(c, f, (icons.camera_size * 11) / 4, 0);
            let x = m.wedge@[0].0 + m.wedge@[1].0 - 2 * out.0;
            let y = m.wedge@[0].1 + m.wedge@[1].1 - 2 * out.1;
            -2 <= x <= 2 && -2 <= y <= 2
        }),
{
    let s = icons.camera_size as int;
    let side = (s * 5) / 8;
    let spread = (s * 11) / 8;
    let (x, y) = (f.0 as int, f.1 as int);
    assert(x * (-side) == -(x * side) && (-y) * (-side) == -((-y) * side)) by (nonlinear_arith);
    assert(x * (-spread) == -(x * spread) && (-y) * (-spread) == -((-y) * spread))
        by (nonlinear_arith);
    assert(x * 0 == 0 && (-y) * 0 == 0);
}

/// A runway's line runs through its middle to either side: its ends are the places half a
/// strip's length, a kilometre, down the heading and back.
pub proof fn strips_run_along_their_heading(
    m: StripMarker,
    airport: RunwayInstance,
    sin: int,
    cos: int,
    view: MapView,
    left: int,
    top: int,
)
    requires
        is_strip(m, airport, sin, cos, view, left, top),
    ensures
        ({
            let w = view.world_per_texel as int;
            &&& m.from.0 == placed(airport.x - 1_000 * sin, view.x as int, w, left)
            &&& m.to.0 == placed(airport.x + 1_000 * sin, view.x as int, w, left)
            &&& m.from.1 == placed(airport.z - 1_000 * cos, view.z as int, w, top)
            &&& m.to.1 == placed(airport.z + 1_000 * cos, view.z as int, w, top)
            &&& m.middle.0 == placed(airport.x as int, view.x as int, w, left)
            &&& m.middle.1 == placed(airport.z as int, view.z as int, w, top)
        }),
{
}

/// The background slides with the view: where the texture's own bounds appear in it.
pub proof fn background_slides_with_the_view(
    center: int,
    zoom: int,
    baked_center: int,
    baked_zoom: int,
    origin: int,
)
    ensures
        texture_span(center, zoom, baked_center, baked_zoom, origin) == (
            placed(baked_center - 128 * baked_zoom, center, zoom, origin),
            placed(baked_center + 128 * baked_zoom, center, zoom, origin),
        ),
        placed(baked_center, center, zoom, origin) == screen_of(
            baked_center,
            center,
            128 * zoom,
            origin,
            340_000_000_000,
        ),
{
}

/// The background reaches over the square of land that it was filled from: its left and
/// right are where the land's west and east appear, its top and bottom where its north and
/// south do.
pub proof fn background_covers_its_land(r: TextureRect, state: MapState, left: int, top: int)
    requires
        is_background(r, state, left, top),
    ensures
        ({
            let (v, b) = (state.view, state.baked_view);
            let half = 128 * b.world_per_texel;
            let zoom = v.world_per_texel as int;
            &&& r.left == placed(b.x - half, v.x as int, zoom, left)
            &&& r.right == placed(b.x + half, v.x as int, zoom, left)
            &&& r.top == placed(b.z - half, v.z as int, zoom, top)
            &&& r.bottom == placed(b.z + half, v.z as int, zoom, top)
        }),
{
}

/// A fraction becomes the nearest byte: none of it 0, all of it 255.
pub proof fn bytes_are_the_nearest(v: int)
    ensures
        0 <= byte_of(v) <= 255,
        v <= 0 ==> byte_of(v) == 0,
        v >= ONE ==> byte_of(v) == 255,
        0 <= v <= ONE ==> 2 * byte_of(v) * ONE <= 510 * v + ONE < 2 * (byte_of(v) + 1) * ONE,
{
    let c = clamped(v, 0, ONE as int);
    let n = 2 * 255 * c + ONE;
    assert(2 * 255 * c == 510 * c) by (nonlinear_arith);
    lemma_quotient(n, 2_000_000_000);
    assert(byte_of(v) == n / 2_000_000_000);
    if v <= 0 {
        assert(n == 1_000_000_000);
    }
    if v >= ONE {
        assert(n == 511_000_000_000);
    }
}

proof fn lemma_brighter(a: int, b: int)
    requires
        a <= b,
    ensures
        byte_of(a) <= byte_of(b),
        0 <= a && a + 5_000_000 <= b <= ONE ==> byte_of(a) < byte_of(b),
{
    bytes_are_the_nearest(a);
    bytes_are_the_nearest(b);
    let (x, y) = (byte_of(a), byte_of(b));
    assert(2 * x * ONE == 2_000_000_000 * x && 2 * (y + 1) * ONE == 2_000_000_000 * (y + 1) && 2
        * y * ONE == 2_000_000_000 * y && 2 * (x + 1) * ONE == 2_000_000_000 * (x + 1))
        by (nonlinear_arith)
        requires
            ONE == 1_000_000_000,
    ;
    if 0 <= a && a + 5_000_000 <= b <= ONE {
        assert(2_000_000_000 * x <= 510 * a + 1_000_000_000);
        assert(510 * b + 1_000_000_000 < 2_000_000_000 * (y + 1));
    }
}

/// On the height layer land is grey and never darker higher up, from 0.15 at the sea to 0.95
/// at 450 m.
pub proof fn land_is_grey_and_brighter_higher_up(low: int, high: int)
    requires
        0 <= low <= high,
    ensures
        ({
            let (a, b) = (height_colour(low), height_colour(high));
            a[0] == a[1] == a[2] && a[0] <= b[0] && a[3] == 255
        }),
        height_colour(0)[0] == byte_of(150_000_000),
        high >= 450_000_000_000 ==> height_colour(high)[0] == byte_of(950_000_000),
        high <= 450_000_000_000 ==> {
            let shade = 150_000_000 + (8 * (high / 450)) / 10;
            height_colour(high)[0] == byte_of(shade)
        },
{
    lemma_brighter(
        150_000_000 + (8 * clamped(low / 450, 0, ONE as int)) / 10,
        150_000_000 + (8 * clamped(high / 450, 0, ONE as int)) / 10,
    );
}

/// The sea is blue there, and never brighter further down, to its darkest at 300 m.
pub proof fn sea_is_blue_and_darker_further_down(low: int, high: int)
    requires
        low <= high < 0,
    ensures
        ({
            let (a, b) = (height_colour(low), height_colour(high));
            &&& a[2] <= b[2] && a[1] <= b[1] && a[0] <= b[0]
            &&& a[0] < a[1] < a[2]
            &&& a[3] == 255
        }),
        low <= -300_000_000_000 ==> {
            let a = height_colour(low);
            a[0] == byte_of(50_000_000) && a[1] == byte_of(150_000_000) && a[2] == byte_of(
                300_000_000,
            )
        },
{
    let s = ONE - clamped((-low) / 300, 0, ONE as int);
    let t = ONE - clamped((-high) / 300, 0, ONE as int);
    assert(0 <= s <= t <= ONE);
    lemma_brighter(50_000_000 + s / 10, 50_000_000 + t / 10);
    lemma_brighter(150_000_000 + s / 4, 150_000_000 + t / 4);
    lemma_brighter(300_000_000 + (35 * s) / 100, 300_000_000 + (35 * t) / 100);
    lemma_brighter(50_000_000 + s / 10, 150_000_000 + s / 4);
    lemma_brighter(150_000_000 + s / 4, 300_000_000 + (35 * s) / 100);
}

/// The panel on an airport names both ends of its runway, the lower number first: they
/// are eighteen apart, and one of them is painted for its heading.
pub proof fn airport_panel_names_both_ends(
    info: AirportInfo,
    seed: u32,
    a: RunwayInstance,
    low: int,
)
    requires
        is_info(info, seed, a),
        1 <= low <= 18,
        painted_number(a.heading as int) == low || painted_number(a.heading as int) == low + 18,
    ensures
        info.runway@ == "Rwy "@ + fixed_digits(low as nat, 2) + "/"@ + fixed_digits(
            (low + 18) as nat,
            2,
        ) + "  "@ + rounded_text(2_000_000_000_000, 0) + " m"@,
        info.direct@ == "Direct To "@ + info.ident@,
        info.elevation@ == "Elevation: "@ + rounded_text(a.elevation as int, 0) + " m"@,
        info.coords@ == "Coords: "@ + rounded_text(a.x as int, 0) + ", "@ + rounded_text(
            a.z as int,
            0,
        ),
{
}

}
