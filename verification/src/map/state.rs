//! View and interaction state of the map. The background texture is filled row
//! by row over several frames, and filled anew only when the view it was filled
//! for falls out of step with the live view. Coordinates are in nanometres.

use super::render::{half_span, half_span_of, TEX};
use crate::fixed::{clamp, clamped, scale, scaled};
use crate::terrain::runway::RunwayInstance;
use vstd::prelude::*;

verus! {

/// Which background layer the map draws.
#[derive(Clone, Copy, Debug, PartialEq, Eq, Structural)]
pub enum MapLayer {
    /// Terrain surface colour; matches the 3D world.
    Biome,
    /// Topographic greyscale, blue below sea level.
    Height,
    /// Flat colour per biome category.
    BiomeCategory,
}

impl Default for MapLayer {
    fn default() -> (layer: Self)
        ensures
            layer == MapLayer::Biome,
    {
        MapLayer::Biome
    }
}

impl MapLayer {
    /// Every layer, in tab order.
    pub fn all() -> (layers: [MapLayer; 3])
        ensures
            layers@ == seq![MapLayer::Biome, MapLayer::Height, MapLayer::BiomeCategory],
    {
        let layers: [MapLayer; 3] = [MapLayer::Biome, MapLayer::Height, MapLayer::BiomeCategory];
        layers
    }

    /// The layer's tab label.
    pub fn name(self) -> (label: &'static str)
        ensures
            label@ == match self {
                MapLayer::Biome => "Biome"@,
                MapLayer::Height => "Height"@,
                MapLayer::BiomeCategory => "Category"@,
            },
    {
        match self {
            MapLayer::Biome => "Biome",
            MapLayer::Height => "Height",
            MapLayer::BiomeCategory => "Category",
        }
    }
}

/// Pixel sizes of the map icons, with nine decimals.
#[derive(Clone, Copy, Debug, PartialEq, Eq, Structural)]
pub struct MapIconSettings {
    /// Half-length and half-width of the plane marker.
    pub plane_len: i64,
    pub plane_width: i64,
    pub camera_size: i64,
    /// Airport symbol radius, and the runway line's width.
    pub airport_circle: i64,
    pub runway_width: i64,
    /// Ring around the selected airport.
    pub selected_ring: i64,
    pub breadcrumb_len: i64,
    pub waypoint_marker: i64,
    pub label_font: i64,
}

impl Default for MapIconSettings {
    fn default() -> (s: Self)
        ensures
            s == (MapIconSettings {
                plane_len: 7_000_000_000,
                plane_width: 4_000_000_000,
                camera_size: 8_000_000_000,
                airport_circle: 7_000_000_000,
                runway_width: 4_000_000_000,
                selected_ring: 9_000_000_000,
                breadcrumb_len: 3_500_000_000,
                waypoint_marker: 6_000_000_000,
                label_font: 11_000_000_000,
            }),
    {
        MapIconSettings {
            plane_len: 7_000_000_000,
            plane_width: 4_000_000_000,
            camera_size: 8_000_000_000,
            airport_circle: 7_000_000_000,
            runway_width: 4_000_000_000,
            selected_ring: 9_000_000_000,
            breadcrumb_len: 3_500_000_000,
            waypoint_marker: 6_000_000_000,
            label_font: 11_000_000_000,
        }
    }
}

/// What the texture shows: the world position at its centre, the world length of
/// one texel, and the layer.
#[derive(Clone, Copy, Debug, PartialEq, Eq, Structural)]
pub struct MapView {
    pub x: i64,
    pub z: i64,
    pub world_per_texel: i64,
    pub layer: MapLayer,
}

/// Rows of the background texture filled per frame: a fresh view takes 26 frames.
pub const BAKE_ROWS_PER_FRAME: u32 = 10;

/// Zoom limits: 20 m to 4000 m per texel.
pub const MIN_ZOOM: i64 = 20_000_000_000;

pub const MAX_ZOOM: i64 = 4_000_000_000_000;

/// Largest map coordinate, nine million kilometres: from there the edges of a view
/// can still be held.
pub const MAP_EXTENT: i64 = 9_000_000_000_000_000_000;

/// All map view and interaction state.
#[derive(Clone, Copy, Debug)]
pub struct MapState {
    pub open: bool,
    /// The live view.
    pub view: MapView,
    /// While set, the map re-centres on the aircraft each frame; a pan clears it.
    pub follow: bool,
    /// The airport whose info panel is shown.
    pub selected: Option<RunwayInstance>,
    /// The active "direct-to" destination.
    pub waypoint: Option<RunwayInstance>,
    /// The view that the texture is shown for.
    pub baked_view: MapView,
    /// False until the first fill completes.
    pub baked: bool,
    /// Next texture row to fill; none is left at [`TEX`].
    pub bake_row: u32,
    /// The view frozen at the start of the current fill, so that all its rows are
    /// sampled for the same view.
    pub pass_view: MapView,
    /// Whether the user dragged or zoomed on the previous frame. Filling anew is
    /// held off meanwhile.
    pub interacting: bool,
}

/// A view that can be worked with: within the map's extent, and not finer or
/// coarser than the zoom allows.
pub open spec fn view_in_range(v: MapView) -> bool {
    &&& -MAP_EXTENT <= v.x <= MAP_EXTENT
    &&& -MAP_EXTENT <= v.z <= MAP_EXTENT
    &&& MIN_ZOOM <= v.world_per_texel <= MAX_ZOOM
}

/// A view as above, or the blank one that a new map starts with.
pub open spec fn bake_in_range(v: MapView) -> bool {
    &&& -MAP_EXTENT <= v.x <= MAP_EXTENT
    &&& -MAP_EXTENT <= v.z <= MAP_EXTENT
    &&& 0 <= v.world_per_texel <= MAX_ZOOM
}

impl MapState {
    /// Views are within the map's extent and zoom, and the fill within the
    /// texture.
    pub open spec fn wf(self) -> bool {
        &&& view_in_range(self.view)
        &&& bake_in_range(self.baked_view)
        &&& bake_in_range(self.pass_view)
        &&& self.bake_row <= TEX
    }
}

/// A new map: closed, following the aircraft, 250 m per texel, nothing filled.
pub open spec fn new_map() -> MapState {
    let blank = MapView { x: 0, z: 0, world_per_texel: 0, layer: MapLayer::Biome };
    MapState {
        open: false,
        view: MapView { world_per_texel: 250_000_000_000, ..blank },
        follow: true,
        selected: None,
        waypoint: None,
        baked_view: blank,
        baked: false,
        bake_row: 0,
        pass_view: blank,
        interacting: false,
    }
}

impl Default for MapState {
    fn default() -> (state: Self)
        ensures
            state == new_map(),
            state.wf(),
    {
        let blank: MapView = MapView { x: 0, z: 0, world_per_texel: 0, layer: MapLayer::Biome };
        MapState {
            open: false,
            view: MapView {
                x: 0,
                z: 0,
                world_per_texel: 250_000_000_000,
                layer: MapLayer::Biome,
            },
            follow: true,
            selected: None,
            waypoint: None,
            baked_view: blank,
            baked: false,
            bake_row: 0,
            pass_view: blank,
            interacting: false,
        }
    }
}

/// Opens or closes the map when its key was pressed. Re-opening re-arms
/// following, so that a user who panned off can recover the plane.
pub fn toggle_map(pressed: bool, state: &mut MapState)
    ensures
        *final(state) == if pressed {
            MapState {
                open: !old(state).open,
                follow: old(state).follow || !old(state).open,
                ..*old(state)
            }
        } else {
            *old(state)
        },
{
    if pressed {
        state.open = !state.open;
        if state.open {
            state.follow = true;
        }
    }
}

/// The centre drifted by more than half a texel.
pub open spec fn drifted(a: MapView, b: MapView) -> bool {
    4 * ((a.x - b.x) * (a.x - b.x) + (a.z - b.z) * (a.z - b.z)) > a.world_per_texel
        * a.world_per_texel
}

/// The live view is out of step with the texture: it was never filled, or the
/// layer, the zoom or the centre changed.
pub open spec fn out_of_step(state: MapState) -> bool {
    ||| !state.baked
    ||| state.view.layer != state.baked_view.layer
    ||| state.view.world_per_texel != state.baked_view.world_per_texel
    ||| drifted(state.view, state.baked_view)
}

fn same_layer(a: MapLayer, b: MapLayer) -> (r: bool)
    ensures
        r == (a == b),
{
    match (a, b) {
        (MapLayer::Biome, MapLayer::Biome) => true,
        (MapLayer::Height, MapLayer::Height) => true,
        (MapLayer::BiomeCategory, MapLayer::BiomeCategory) => true,
        _ => false,
    }
}

impl MapState {
    /// Whether the live view is out of step with the texture.
    pub fn view_changed(&self) -> (r: bool)
        requires
            self.wf(),
        ensures
            r == out_of_step(*self),
    {
        if !self.baked || !same_layer(self.view.layer, self.baked_view.layer)
            || self.view.world_per_texel != self.baked_view.world_per_texel {
            return true;
        }
        let dx: i128 = self.view.x as i128 - self.baked_view.x as i128;
        let dz: i128 = self.view.z as i128 - self.baked_view.z as i128;
        let w: i128 = self.view.world_per_texel as i128;
        assert(0 <= w * w <= 16_000_000_000_000_000_000_000_000) by (nonlinear_arith)
            requires
                0 <= w <= 4_000_000_000_000,
        ;
        assert(0 <= dx * dx && 0 <= dz * dz) by (nonlinear_arith);
        let far: i128 = 4_000_000_000_000;
        if dx < -far || dx > far || dz < -far || dz > far {
            assert(dx * dx + dz * dz > 16_000_000_000_000_000_000_000_000) by (nonlinear_arith)
                requires
                    dx < -4_000_000_000_000 || dx > 4_000_000_000_000 || dz < -4_000_000_000_000
                        || dz > 4_000_000_000_000,
            ;
            return true;
        }
        assert(dx * dx <= 16_000_000_000_000_000_000_000_000) by (nonlinear_arith)
            requires
                -4_000_000_000_000 <= dx <= 4_000_000_000_000,
        ;
        assert(dz * dz <= 16_000_000_000_000_000_000_000_000) by (nonlinear_arith)
            requires
                -4_000_000_000_000 <= dz <= 4_000_000_000_000,
        ;
        4 * (dx * dx + dz * dz) > w * w
    }
}

/// What a frame does to the texture: whether it is wiped first, and which rows
/// (from, up to) are filled for the state's frozen view.
#[derive(Clone, Copy, Debug, PartialEq, Eq, Structural)]
pub struct BakePlan {
    pub wipe: bool,
    pub start: u32,
    pub end: u32,
}

/// The state after re-centring on the aircraft.
pub open spec fn followed(state: MapState, plane: Option<(i64, i64)>) -> MapState {
    match plane {
        Some(p) if state.follow => MapState {
            view: MapView { x: p.0, z: p.1, ..state.view },
            ..state
        },
        _ => state,
    }
}

/// A fill starts anew: at once when the world itself changed, and otherwise once
/// the last fill is done, the view changed and no gesture is in flight.
pub open spec fn starts_anew(state: MapState, world_changed: bool) -> bool {
    world_changed || (state.bake_row >= TEX && out_of_step(state) && !state.interacting)
}

/// The state at the start of a fill: the live view is frozen and shown.
pub open spec fn restarted(state: MapState) -> MapState {
    MapState { pass_view: state.view, baked_view: state.view, bake_row: 0, ..state }
}

/// First row after a frame's share of the fill.
pub open spec fn rows_until(start: int) -> int {
    if start + BAKE_ROWS_PER_FRAME < TEX {
        start + BAKE_ROWS_PER_FRAME
    } else {
        TEX as int
    }
}

/// The state after one frame of filling; nothing is filled without an image.
pub open spec fn filled(state: MapState, has_image: bool) -> MapState {
    if state.bake_row < TEX && has_image {
        MapState {
            bake_row: rows_until(state.bake_row as int) as u32,
            baked: state.baked || rows_until(state.bake_row as int) >= TEX,
            ..state
        }
    } else {
        state
    }
}

/// The frame up to drawing: follow the aircraft, start a fill where one is due,
/// and fill the next rows.
pub open spec fn frame_of(
    state: MapState,
    plane: Option<(i64, i64)>,
    world_changed: bool,
    has_image: bool,
) -> MapState {
    let s = followed(state, plane);
    filled(
        if starts_anew(s, world_changed) {
            restarted(s)
        } else {
            s
        },
        has_image,
    )
}

/// Advances the map by a frame while it is open: follows the aircraft until the
/// user pans away, starts filling the texture anew when the view has settled and
/// changed or the world did, and fills the next few rows.
pub fn advance_map(
    state: &mut MapState,
    plane: Option<(i64, i64)>,
    world_changed: bool,
    has_image: bool,
) -> (plan: BakePlan)
    requires
        old(state).wf(),
        plane matches Some(p) ==> -MAP_EXTENT <= p.0 <= MAP_EXTENT && -MAP_EXTENT <= p.1
            <= MAP_EXTENT,
    ensures
        final(state).wf(),
        if old(state).open {
            let s = followed(*old(state), plane);
            &&& *final(state) == frame_of(*old(state), plane, world_changed, has_image)
            &&& plan.wipe == (starts_anew(s, world_changed) && has_image)
            &&& plan.start == if starts_anew(s, world_changed) {
                0
            } else {
                s.bake_row
            }
            &&& plan.end == if plan.start < TEX && has_image {
                rows_until(plan.start as int)
            } else {
                plan.start as int
            }
        } else {
            &&& *final(state) == *old(state)
            &&& plan == (BakePlan { wipe: false, start: old(state).bake_row, end: old(state).bake_row })
        },
{
    if !state.open {
        return BakePlan { wipe: false, start: state.bake_row, end: state.bake_row };
    }
    if state.follow {
        if let Some((x, z)) = plane {
            state.view.x = x;
            state.view.z = z;
        }
    }
    let idle: bool = state.bake_row >= TEX;
    let restart: bool = world_changed || (idle && state.view_changed() && !state.interacting);
    if restart {
        state.pass_view = state.view;
        state.baked_view = state.view;
        state.bake_row = 0;
    }
    let start: u32 = state.bake_row;
    if start < TEX && has_image {
        let end: u32 = if start + BAKE_ROWS_PER_FRAME < TEX {
            start + BAKE_ROWS_PER_FRAME
        } else {
            TEX
        };
        state.bake_row = end;
        if end >= TEX {
            state.baked = true;
        }
        BakePlan { wipe: restart, start, end }
    } else {
        BakePlan { wipe: restart && has_image, start, end: start }
    }
}

/// Frames with nothing new: the plane stands still or is not followed, the world
/// stays, and there is an image.
pub open spec fn quiet_frames(state: MapState, n: nat) -> MapState
    decreases n,
{
    if n == 0 {
        state
    } else {
        frame_of(quiet_frames(state, (n - 1) as nat), None, false, true)
    }
}

/// A started fill is done after 26 frames: then the texture is complete and in
/// step with the view that it was started for.
pub proof fn a_fill_completes(state: MapState, n: nat)
    requires
        state.bake_row == 0,
        state.pass_view == state.view,
        state.baked_view == state.view,
        view_in_range(state.view),
        n <= 26,
    ensures
        quiet_frames(state, n).bake_row == if 10 * n < TEX {
            10 * n
        } else {
            TEX as nat
        },
        quiet_frames(state, n).view == state.view,
        quiet_frames(state, n).pass_view == state.view,
        quiet_frames(state, n).baked_view == state.view,
        n == 26 ==> !out_of_step(quiet_frames(state, n)),
    decreases n,
{
    let w = state.view.world_per_texel as int;
    assert(w * w > 0) by (nonlinear_arith)
        requires
            w > 0,
    ;
    assert((state.view.x - state.view.x) * (state.view.x - state.view.x) == 0) by (nonlinear_arith);
    assert((state.view.z - state.view.z) * (state.view.z - state.view.z) == 0) by (nonlinear_arith);
    assert(!drifted(state.view, state.view));
    if n > 0 {
        a_fill_completes(state, (n - 1) as nat);
    }
}

/// While a gesture is in flight no fill starts, unless the world changed.
pub proof fn gestures_hold_off_filling(state: MapState)
    requires
        state.interacting,
    ensures
        !starts_anew(state, false),
{
}

/// The nearest of the airports under the cursor: the first at the smallest
/// distance, within 12 pixels.
pub open spec fn is_pick(distances: Seq<i64>, pick: Option<usize>) -> bool {
    match pick {
        Some(i) => {
            &&& i < distances.len()
            &&& distances[i as int] < 12_000_000_000
            &&& forall|k: int| 0 <= k < i ==> #[trigger] distances[k] > distances[i as int]
            &&& forall|k: int|
                i <= k < distances.len() ==> #[trigger] distances[k] >= distances[i as int]
        },
        None => forall|k: int|
            0 <= k < distances.len() ==> #[trigger] distances[k] >= 12_000_000_000,
    }
}

/// Picks the airport under the cursor, given each airport's distance from it on
/// screen.
pub fn pick_airport(distances: &Vec<i64>) -> (pick: Option<usize>)
    ensures
        is_pick(distances@, pick),
{
    let mut best: Option<usize> = None;
    let mut i: usize = 0;
    while i < distances.len()
        invariant
            i <= distances.len(),
            is_pick(distances@.take(i as int), best),
        decreases distances.len() - i,
    {
        let ghost seen = distances@.take(i as int);
        let ghost next = distances@.take(i + 1);
        assert(forall|k: int| 0 <= k < i ==> next[k] == seen[k]);
        let d: i64 = distances[i];
        if d < 12_000_000_000 {
            match best {
                None => {
                    best = Some(i);
                },
                Some(b) => {
                    if d < distances[b] {
                        best = Some(i);
                    }
                },
            }
        }
        i = i + 1;
    }
    assert(distances@.take(distances@.len() as int) =~= distances@);
    best
}

/// A click on the map: selects the airport under the cursor, or none.
pub fn click_map(state: &mut MapState, airports: &Vec<RunwayInstance>, distances: &Vec<i64>)
    requires
        distances@.len() == airports@.len(),
    ensures
        exists|pick: Option<usize>| #[trigger]
            is_pick(distances@, pick) && *final(state) == (MapState {
                selected: match pick {
                    Some(i) => Some(airports@[i as int]),
                    None => None,
                },
                ..*old(state)
            }),
{
    let pick: Option<usize> = pick_airport(distances);
    state.selected = match pick {
        Some(i) => Some(airports[i]),
        None => None,
    };
    assert(is_pick(distances@, pick));
}

/// A right click: clears the selection and the active course.
pub fn clear_map(state: &mut MapState)
    ensures
        *final(state) == (MapState { selected: None, waypoint: None, ..*old(state) }),
{
    state.selected = None;
    state.waypoint = None;
}

/// "Direct to": sets the course to the selected airport, where there is one.
pub fn direct_to(state: &mut MapState)
    ensures
        *final(state) == (MapState {
            waypoint: if old(state).selected is Some {
                old(state).selected
            } else {
                old(state).waypoint
            },
            ..*old(state)
        }),
{
    if let Some(airport) = state.selected {
        state.waypoint = Some(airport);
    }
}

/// A tab: switches the layer.
pub fn choose_layer(state: &mut MapState, layer: MapLayer)
    ensures
        *final(state) == (MapState { view: MapView { layer, ..old(state).view }, ..*old(state) }),
{
    state.view.layer = layer;
}

/// The track button: locks the map onto the plane.
pub fn track_plane(state: &mut MapState)
    ensures
        *final(state) == (MapState { follow: true, ..*old(state) }),
{
    state.follow = true;
}

/// World length of one screen pixel for a widget of the given width in pixels.
pub open spec fn world_per_pixel(world_per_texel: int, width: int) -> int {
    (2 * half_span_of(world_per_texel)) / width
}

/// Pan and zoom of this frame: how far the pointer was dragged, in pixels with
/// nine decimals, and the zoom factor of the wheel.
#[derive(Clone, Copy, Debug, PartialEq, Eq)]
pub struct MapGesture {
    pub drag: Option<(i64, i64)>,
    pub zoom: Option<i64>,
}

/// The view after a gesture on a widget of the given width in pixels. A drag moves
/// the world with the pointer; the zoom stays within its limits.
pub open spec fn gestured(view: MapView, gesture: MapGesture, width: int) -> MapView {
    let moved = match gesture.drag {
        Some(d) => {
            let wpp = world_per_pixel(view.world_per_texel as int, width);
            MapView {
                x: clamped(view.x - scaled(d.0 as int, wpp), -MAP_EXTENT as int, MAP_EXTENT as int) as i64,
                z: clamped(view.z - scaled(d.1 as int, wpp), -MAP_EXTENT as int, MAP_EXTENT as int) as i64,
                ..view
            }
        },
        None => view,
    };
    match gesture.zoom {
        Some(f) => MapView {
            world_per_texel: clamped(
                scaled(view.world_per_texel as int, f as int),
                MIN_ZOOM as int,
                MAX_ZOOM as int,
            ) as i64,
            ..moved
        },
        None => moved,
    }
}

/// Applies this frame's pan and zoom. A pan stops following the plane; either
/// holds off filling the texture until it settles.
pub fn gesture_map(state: &mut MapState, gesture: &MapGesture, width: u32)
    requires
        old(state).wf(),
        0 < width,
    ensures
        *final(state) == (MapState {
            view: gestured(old(state).view, *gesture, width as int),
            follow: old(state).follow && gesture.drag is None,
            interacting: gesture.drag is Some || gesture.zoom is Some,
            ..*old(state)
        }),
        final(state).wf(),
{
    let wpt: i64 = state.view.world_per_texel;
    if let Some((dx, dz)) = gesture.drag {
        let wpp: i64 = (2 * half_span(wpt)) / width as i64;
        state.view.x = clamp(state.view.x as i128 - scale(dx, wpp), -MAP_EXTENT, MAP_EXTENT);
        state.view.z = clamp(state.view.z as i128 - scale(dz, wpp), -MAP_EXTENT, MAP_EXTENT);
        state.follow = false;
    }
    if let Some(factor) = gesture.zoom {
        state.view.world_per_texel = clamp(scale(wpt, factor), MIN_ZOOM, MAX_ZOOM);
    }
    state.interacting = gesture.drag.is_some() || gesture.zoom.is_some();
}

}
