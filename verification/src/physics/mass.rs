//! Mass and balance: the empty airframe plus fuel, baggage and occupants.
//!
//! The airframe is a point mass at its center of mass carrying its own moments of
//! inertia; each load is a point mass at its station. The center of mass is the
//! mass-weighted average of the stations, and inertia is combined via the
//! parallel-axis theorem.

use super::flight_config::{CargoConfig, FlightModelConfig, OCCUPANT_MASS};
use crate::fixed::floor_div;
use crate::vector::Vec3;
use vstd::prelude::*;

verus! {

/// `f(0) + f(1) + ... + f(n - 1)`.
pub open spec fn sum(n: nat, f: spec_fn(int) -> int) -> int
    decreases n,
{
    if n == 0 {
        0
    } else {
        sum((n - 1) as nat, f) + f(n - 1)
    }
}

/// A component of a vector: 0 is x, 1 is y, 2 is z.
pub open spec fn component(v: Vec3, axis: int) -> int {
    if axis == 0 {
        v.x as int
    } else if axis == 1 {
        v.y as int
    } else {
        v.z as int
    }
}

/// A load that is present; a negative amount counts as none.
pub open spec fn present(kg: int) -> int {
    if kg > 0 {
        kg
    } else {
        0
    }
}

/// Mass of item `i`.
pub open spec fn item_mass(c: FlightModelConfig, i: int) -> int {
    if i == 0 {
        c.mass as int
    } else if i == 1 {
        present(c.cargo.fuel_left_kg as int)
    } else if i == 2 {
        present(c.cargo.fuel_right_kg as int)
    } else if i == 3 {
        present(c.cargo.cargo_kg as int)
    } else if i - 4 < c.cargo.passengers {
        OCCUPANT_MASS as int
    } else {
        0
    }
}

/// Stations of the loads, in metres: tanks high in the wings, baggage aft of the
/// rear seats, seats in fill order (pilot, front right, rear left, rear right).
pub open spec fn station(i: int, axis: int) -> int {
    if i == 1 {
        triple(-2_000_000_000, 1_000_000_000, 100_000_000, axis)
    } else if i == 2 {
        triple(2_000_000_000, 1_000_000_000, 100_000_000, axis)
    } else if i == 3 {
        triple(0, 300_000_000, -1_100_000_000, axis)
    } else if i == 4 {
        triple(-280_000_000, 700_000_000, 300_000_000, axis)
    } else if i == 5 {
        triple(280_000_000, 700_000_000, 300_000_000, axis)
    } else if i == 6 {
        triple(-280_000_000, 700_000_000, -500_000_000, axis)
    } else {
        triple(280_000_000, 700_000_000, -500_000_000, axis)
    }
}

pub open spec fn triple(x: int, y: int, z: int, axis: int) -> int {
    if axis == 0 {
        x
    } else if axis == 1 {
        y
    } else {
        z
    }
}

/// Position of item `i`: the airframe's own center of mass, given in tenths of
/// metres, or the load's station.
pub open spec fn item_position(c: FlightModelConfig, i: int, axis: int) -> int {
    if i == 0 {
        component(c.center_of_mass, axis) / 10
    } else {
        station(i, axis)
    }
}

/// Airframe plus load.
pub open spec fn total_mass(c: FlightModelConfig) -> int {
    sum(8, |i: int| item_mass(c, i))
}

/// Mass-weighted sum of the positions along one axis.
pub open spec fn moment(c: FlightModelConfig, axis: int) -> int {
    sum(8, |i: int| item_mass(c, i) * item_position(c, i, axis))
}

/// Center of mass along one axis.
pub open spec fn balance(c: FlightModelConfig, axis: int) -> int {
    moment(c, axis) / total_mass(c)
}

/// Mass-weighted sum of the squared distances from `at` along one axis.
pub open spec fn second_moment(c: FlightModelConfig, axis: int, at: int) -> int {
    sum(
        8,
        |i: int|
            item_mass(c, i) * ((item_position(c, i, axis) - at) * (item_position(c, i, axis)
                - at)),
    )
}

/// Parallel-axis share of the inertia about one axis: the second moments along
/// the two others.
pub open spec fn spread(c: FlightModelConfig, axis: int) -> int {
    let a: int = if axis == 0 {
        1
    } else {
        0
    };
    let b: int = if axis == 2 {
        1
    } else {
        2
    };
    second_moment(c, a, balance(c, a)) + second_moment(c, b, balance(c, b))
}

/// Principal inertia of the loaded aircraft about one axis through its center of
/// mass.
pub open spec fn loaded_inertia(c: FlightModelConfig, axis: int) -> int {
    component(c.angular_inertia, axis) + spread(c, axis) / 1_000_000_000_000_000_000
}

pub open spec fn within(v: int, limit: int) -> bool {
    -limit <= v <= limit
}

impl FlightModelConfig {
    /// The airframe has mass, and the numbers can be combined without leaving the
    /// range of the arithmetic: up to ten tonnes each, up to a hundred metres.
    pub open spec fn weighable(self) -> bool {
        &&& 0 < self.mass <= 10_000_000_000_000
        &&& self.cargo.fuel_left_kg <= 10_000_000_000_000
        &&& self.cargo.fuel_right_kg <= 10_000_000_000_000
        &&& self.cargo.cargo_kg <= 10_000_000_000_000
        &&& within(self.center_of_mass.x as int, 1_000_000_000_000)
        &&& within(self.center_of_mass.y as int, 1_000_000_000_000)
        &&& within(self.center_of_mass.z as int, 1_000_000_000_000)
        &&& within(self.angular_inertia.x as int, 1_000_000_000_000_000_000)
        &&& within(self.angular_inertia.y as int, 1_000_000_000_000_000_000)
        &&& within(self.angular_inertia.z as int, 1_000_000_000_000_000_000)
    }
}

proof fn lemma_sum_ext(n: nat, f: spec_fn(int) -> int, g: spec_fn(int) -> int)
    requires
        forall|i: int| 0 <= i < n ==> #[trigger] f(i) == g(i),
    ensures
        sum(n, f) == sum(n, g),
    decreases n,
{
    if n > 0 {
        lemma_sum_ext((n - 1) as nat, f, g);
    }
}

proof fn lemma_sum_le(n: nat, f: spec_fn(int) -> int, g: spec_fn(int) -> int)
    requires
        forall|i: int| 0 <= i < n ==> #[trigger] f(i) <= g(i),
    ensures
        sum(n, f) <= sum(n, g),
    decreases n,
{
    if n > 0 {
        lemma_sum_le((n - 1) as nat, f, g);
    }
}

proof fn lemma_sum_scaled(n: nat, f: spec_fn(int) -> int, k: int)
    ensures
        sum(n, |i: int| f(i) * k) == sum(n, f) * k,
    decreases n,
{
    let g = |i: int| f(i) * k;
    if n > 0 {
        lemma_sum_scaled((n - 1) as nat, f, k);
        assert(sum(n, g) == sum((n - 1) as nat, g) + f(n - 1) * k);
        let s = sum((n - 1) as nat, f);
        let last = f(n - 1);
        assert((s + last) * k == s * k + last * k) by (nonlinear_arith);
    } else {
        assert(0 * k == 0);
    }
}

/// Item masses are not negative, and only the airframe must have any.
proof fn lemma_masses(c: FlightModelConfig)
    requires
        c.weighable(),
    ensures
        forall|i: int| 0 <= i < 8 ==> 0 <= #[trigger] item_mass(c, i) <= 10_000_000_000_000,
        forall|i: int| 0 <= i < 8 ==> within(#[trigger] item_position(c, i, 0), 100_000_000_000),
        forall|i: int| 0 <= i < 8 ==> within(#[trigger] item_position(c, i, 1), 100_000_000_000),
        forall|i: int| 0 <= i < 8 ==> within(#[trigger] item_position(c, i, 2), 100_000_000_000),
        0 < c.mass <= total_mass(c) <= 80_000_000_000_000,
{
    let f = |i: int| item_mass(c, i);
    let low = |i: int| if i == 0 {
        c.mass as int
    } else {
        0
    };
    let high = |i: int| 10_000_000_000_000int;
    lemma_sum_le(8, low, f);
    lemma_sum_le(8, f, high);
    reveal_with_fuel(sum, 9);
    assert(sum(8, low) == c.mass);
    assert(sum(8, high) == 80_000_000_000_000);
}

/// A weighted average stays within the range of what it averages.
proof fn lemma_balance_bound(c: FlightModelConfig, axis: int)
    requires
        c.weighable(),
        0 <= axis <= 2,
    ensures
        within(moment(c, axis), 8_000_000_000_000_000_000_000_000),
        within(balance(c, axis), 100_000_000_000),
{
    lemma_masses(c);
    let f = |i: int| item_mass(c, i);
    let w = |i: int| item_mass(c, i) * item_position(c, i, axis);
    let limit: int = 100_000_000_000;
    let low = |i: int| f(i) * (-limit);
    let high = |i: int| f(i) * limit;
    assert forall|i: int| 0 <= i < 8 implies #[trigger] low(i) <= w(i) && w(i) <= high(i) by {
        let m = item_mass(c, i);
        let r = item_position(c, i, axis);
        assert(within(r, limit));
        assert(m * (-limit) <= m * r <= m * limit) by (nonlinear_arith)
            requires
                0 <= m,
                -limit <= r <= limit,
        ;
    }
    assert forall|i: int| 0 <= i < 8 implies #[trigger] w(i) <= high(i) by {
        assert(low(i) <= w(i));
    }
    lemma_sum_le(8, low, w);
    lemma_sum_le(8, w, high);
    lemma_sum_scaled(8, f, -limit);
    lemma_sum_scaled(8, f, limit);
    let m = total_mass(c);
    let s = moment(c, axis);
    assert(m * (-limit) <= s <= m * limit);
    assert(m * limit <= 80_000_000_000_000 * limit) by (nonlinear_arith)
        requires
            0 < m <= 80_000_000_000_000,
            limit == 100_000_000_000,
    ;
    assert(m * (-limit) == -(m * limit)) by (nonlinear_arith);
    vstd::arithmetic::div_mod::lemma_fundamental_div_mod(s, m);
    let q = s / m;
    let r = s % m;
    assert(-limit <= q <= limit) by (nonlinear_arith)
        requires
            s == m * q + r,
            0 <= r < m,
            m > 0,
            m * (-limit) <= s <= m * limit,
    ;
}

fn present_mass(kg: i64) -> (m: i64)
    ensures
        m == present(kg as int),
{
    if kg > 0 {
        kg
    } else {
        0
    }
}

/// Mass and position of item `i`.
fn item(c: &FlightModelConfig, i: usize) -> (r: (i64, Vec3))
    requires
        i < 8,
    ensures
        r.0 == item_mass(*c, i as int),
        r.1.x == item_position(*c, i as int, 0),
        r.1.y == item_position(*c, i as int, 1),
        r.1.z == item_position(*c, i as int, 2),
{
    let cargo: CargoConfig = c.cargo;
    if i == 0 {
        let at: Vec3 = Vec3 {
            x: floor_div(c.center_of_mass.x as i128, 10) as i64,
            y: floor_div(c.center_of_mass.y as i128, 10) as i64,
            z: floor_div(c.center_of_mass.z as i128, 10) as i64,
        };
        return (c.mass, at);
    }
    if i == 1 {
        let at: Vec3 = Vec3 { x: -2_000_000_000, y: 1_000_000_000, z: 100_000_000 };
        return (present_mass(cargo.fuel_left_kg), at);
    }
    if i == 2 {
        let at: Vec3 = Vec3 { x: 2_000_000_000, y: 1_000_000_000, z: 100_000_000 };
        return (present_mass(cargo.fuel_right_kg), at);
    }
    if i == 3 {
        let at: Vec3 = Vec3 { x: 0, y: 300_000_000, z: -1_100_000_000 };
        return (present_mass(cargo.cargo_kg), at);
    }
    let seat: u32 = i as u32 - 4;
    let mass: i64 = if seat < cargo.passengers {
        OCCUPANT_MASS
    } else {
        0
    };
    let x: i64 = if seat == 0 || seat == 2 {
        -280_000_000
    } else {
        280_000_000
    };
    let z: i64 = if seat < 2 {
        300_000_000
    } else {
        -500_000_000
    };
    (mass, Vec3 { x, y: 700_000_000, z })
}

/// A point mass's share of a second moment.
fn squared_arm(m: i64, r: i64, at: i64) -> (p: i128)
    requires
        0 <= m <= 10_000_000_000_000,
        within(r as int, 100_000_000_000),
        within(at as int, 100_000_000_000),
    ensures
        p == m * ((r - at) * (r - at)),
        0 <= p <= 400_000_000_000_000_000_000_000_000_000_000_000,
{
    let d: i128 = r as i128 - at as i128;
    assert(0 <= d * d <= 40_000_000_000_000_000_000_000) by (nonlinear_arith)
        requires
            -200_000_000_000 <= d <= 200_000_000_000,
    ;
    let sq: i128 = d * d;
    let w: i128 = m as i128;
    assert(0 <= w * sq <= 10_000_000_000_000 * 40_000_000_000_000_000_000_000) by (nonlinear_arith)
        requires
            0 <= w <= 10_000_000_000_000,
            0 <= sq <= 40_000_000_000_000_000_000_000,
    ;
    w * sq
}

fn weighted(m: i64, r: i64) -> (p: i128)
    requires
        0 <= m <= 10_000_000_000_000,
        within(r as int, 100_000_000_000),
    ensures
        p == m * r,
        within(p as int, 1_000_000_000_000_000_000_000_000),
{
    let w: i128 = m as i128;
    let x: i128 = r as i128;
    assert(-1_000_000_000_000_000_000_000_000 <= w * x <= 1_000_000_000_000_000_000_000_000)
        by (nonlinear_arith)
        requires
            0 <= w <= 10_000_000_000_000,
            -100_000_000_000 <= x <= 100_000_000_000,
    ;
    w * x
}

/// Masses times positions, summed over the items.
fn moments(c: &FlightModelConfig) -> (r: (i128, i128, i128, i128))
    requires
        c.weighable(),
    ensures
        r.0 == total_mass(*c),
        r.1 == moment(*c, 0),
        r.2 == moment(*c, 1),
        r.3 == moment(*c, 2),
{
    let ghost f = |i: int| item_mass(*c, i);
    let ghost wx = |i: int| item_mass(*c, i) * item_position(*c, i, 0);
    let ghost wy = |i: int| item_mass(*c, i) * item_position(*c, i, 1);
    let ghost wz = |i: int| item_mass(*c, i) * item_position(*c, i, 2);
    let mut total: i128 = 0;
    let mut mx: i128 = 0;
    let mut my: i128 = 0;
    let mut mz: i128 = 0;
    let mut i: usize = 0;
    while i < 8
        invariant
            i <= 8,
            c.weighable(),
            f == |i: int| item_mass(*c, i),
            wx == |i: int| item_mass(*c, i) * item_position(*c, i, 0),
            wy == |i: int| item_mass(*c, i) * item_position(*c, i, 1),
            wz == |i: int| item_mass(*c, i) * item_position(*c, i, 2),
            total == sum(i as nat, f),
            mx == sum(i as nat, wx),
            my == sum(i as nat, wy),
            mz == sum(i as nat, wz),
            0 <= total <= i * 10_000_000_000_000,
            within(mx as int, i * 1_000_000_000_000_000_000_000_000),
            within(my as int, i * 1_000_000_000_000_000_000_000_000),
            within(mz as int, i * 1_000_000_000_000_000_000_000_000),
        decreases 8 - i,
    {
        proof {
            lemma_masses(*c);
            assert(within(item_position(*c, i as int, 0), 100_000_000_000));
            assert(within(item_position(*c, i as int, 1), 100_000_000_000));
            assert(within(item_position(*c, i as int, 2), 100_000_000_000));
            assert(0 <= item_mass(*c, i as int) <= 10_000_000_000_000);
        }
        let (m, at) = item(c, i);
        total = total + m as i128;
        mx = mx + weighted(m, at.x);
        my = my + weighted(m, at.y);
        mz = mz + weighted(m, at.z);
        i = i + 1;
    }
    (total, mx, my, mz)
}

/// Second moments about `at`, summed over the items.
fn second_moments(c: &FlightModelConfig, at: Vec3) -> (r: (i128, i128, i128))
    requires
        c.weighable(),
        within(at.x as int, 100_000_000_000),
        within(at.y as int, 100_000_000_000),
        within(at.z as int, 100_000_000_000),
    ensures
        r.0 == second_moment(*c, 0, at.x as int),
        r.1 == second_moment(*c, 1, at.y as int),
        r.2 == second_moment(*c, 2, at.z as int),
        0 <= r.0 <= 3_200_000_000_000_000_000_000_000_000_000_000_000,
        0 <= r.1 <= 3_200_000_000_000_000_000_000_000_000_000_000_000,
        0 <= r.2 <= 3_200_000_000_000_000_000_000_000_000_000_000_000,
{
    let ghost fx = |i: int|
        item_mass(*c, i) * ((item_position(*c, i, 0) - at.x) * (item_position(*c, i, 0) - at.x));
    let ghost fy = |i: int|
        item_mass(*c, i) * ((item_position(*c, i, 1) - at.y) * (item_position(*c, i, 1) - at.y));
    let ghost fz = |i: int|
        item_mass(*c, i) * ((item_position(*c, i, 2) - at.z) * (item_position(*c, i, 2) - at.z));
    let mut sx: i128 = 0;
    let mut sy: i128 = 0;
    let mut sz: i128 = 0;
    let mut i: usize = 0;
    while i < 8
        invariant
            i <= 8,
            c.weighable(),
            within(at.x as int, 100_000_000_000),
            within(at.y as int, 100_000_000_000),
            within(at.z as int, 100_000_000_000),
            fx == |i: int|
                item_mass(*c, i) * ((item_position(*c, i, 0) - at.x) * (item_position(*c, i, 0)
                    - at.x)),
            fy == |i: int|
                item_mass(*c, i) * ((item_position(*c, i, 1) - at.y) * (item_position(*c, i, 1)
                    - at.y)),
            fz == |i: int|
                item_mass(*c, i) * ((item_position(*c, i, 2) - at.z) * (item_position(*c, i, 2)
                    - at.z)),
            sx == sum(i as nat, fx),
            sy == sum(i as nat, fy),
            sz == sum(i as nat, fz),
            0 <= sx <= i * 400_000_000_000_000_000_000_000_000_000_000_000,
            0 <= sy <= i * 400_000_000_000_000_000_000_000_000_000_000_000,
            0 <= sz <= i * 400_000_000_000_000_000_000_000_000_000_000_000,
        decreases 8 - i,
    {
        proof {
            lemma_masses(*c);
            assert(within(item_position(*c, i as int, 0), 100_000_000_000));
            assert(within(item_position(*c, i as int, 1), 100_000_000_000));
            assert(within(item_position(*c, i as int, 2), 100_000_000_000));
            assert(0 <= item_mass(*c, i as int) <= 10_000_000_000_000);
        }
        let (m, r) = item(c, i);
        sx = sx + squared_arm(m, r.x, at.x);
        sy = sy + squared_arm(m, r.y, at.y);
        sz = sz + squared_arm(m, r.z, at.z);
        i = i + 1;
    }
    (sx, sy, sz)
}

impl FlightModelConfig {
    /// Effective mass properties of the empty airframe plus the current load:
    /// the mass (kg), the center of mass (m) in the body frame, and the principal
    /// moments of inertia (x pitch, y yaw, z roll) about it.
    pub fn loaded_mass_properties(&self) -> (r: (i64, Vec3, Vec3))
        requires
            self.weighable(),
        ensures
            r.0 == total_mass(*self),
            r.1.x == balance(*self, 0),
            r.1.y == balance(*self, 1),
            r.1.z == balance(*self, 2),
            r.2.x == loaded_inertia(*self, 0),
            r.2.y == loaded_inertia(*self, 1),
            r.2.z == loaded_inertia(*self, 2),
    {
        let (total, mx, my, mz) = moments(self);
        proof {
            lemma_masses(*self);
            lemma_balance_bound(*self, 0);
            lemma_balance_bound(*self, 1);
            lemma_balance_bound(*self, 2);
        }
        let at: Vec3 = Vec3 {
            x: floor_div(mx, total) as i64,
            y: floor_div(my, total) as i64,
            z: floor_div(mz, total) as i64,
        };
        let (sx, sy, sz) = second_moments(self, at);
        let scale: i128 = 1_000_000_000_000_000_000;
        let inertia: Vec3 = Vec3 {
            x: (self.angular_inertia.x as i128 + (sy + sz) / scale) as i64,
            y: (self.angular_inertia.y as i128 + (sx + sz) / scale) as i64,
            z: (self.angular_inertia.z as i128 + (sx + sy) / scale) as i64,
        };
        (total as i64, at, inertia)
    }
}

/// Total mass is the airframe's, the fuel's, the baggage's and one standard adult
/// for each occupant, up to four.
pub proof fn mass_adds_up(c: FlightModelConfig)
    ensures
        total_mass(c) == c.mass + present(c.cargo.fuel_left_kg as int) + present(
            c.cargo.fuel_right_kg as int,
        ) + present(c.cargo.cargo_kg as int) + OCCUPANT_MASS * if c.cargo.passengers < 4 {
            c.cargo.passengers as int
        } else {
            4
        },
{
    reveal_with_fuel(sum, 9);
}

/// With nothing on board the aircraft weighs and balances as the airframe alone,
/// and has the airframe's inertia.
pub proof fn empty_aircraft_is_the_airframe(c: FlightModelConfig)
    requires
        c.weighable(),
        c.cargo.fuel_left_kg <= 0,
        c.cargo.fuel_right_kg <= 0,
        c.cargo.cargo_kg <= 0,
        c.cargo.passengers == 0,
    ensures
        total_mass(c) == c.mass,
        forall|axis: int|
            0 <= axis <= 2 ==> #[trigger] balance(c, axis) == item_position(c, 0, axis),
        forall|axis: int|
            0 <= axis <= 2 ==> #[trigger] loaded_inertia(c, axis) == component(
                c.angular_inertia,
                axis,
            ),
{
    reveal_with_fuel(sum, 9);
    assert forall|axis: int| 0 <= axis <= 2 implies #[trigger] balance(c, axis) == item_position(
        c,
        0,
        axis,
    ) by {
        vstd::arithmetic::div_mod::lemma_div_multiples_vanish(
            item_position(c, 0, axis),
            c.mass as int,
        );
        let m = c.mass as int;
        let r = item_position(c, 0, axis);
        assert(m * r == r * m) by (nonlinear_arith);
        assert(moment(c, axis) == m * r);
    }
    assert forall|axis: int, at: int| at == item_position(c, 0, axis) implies
        #[trigger] second_moment(c, axis, at) == 0 by {
        let m = c.mass as int;
        assert(m * (0int * 0int) == 0) by (nonlinear_arith);
    }
    assert forall|axis: int| 0 <= axis <= 2 implies #[trigger] loaded_inertia(c, axis)
        == component(c.angular_inertia, axis) by {
        assert(balance(c, 0) == item_position(c, 0, 0));
        assert(balance(c, 1) == item_position(c, 0, 1));
        assert(balance(c, 2) == item_position(c, 0, 2));
        assert(second_moment(c, 0, balance(c, 0)) == 0);
        assert(second_moment(c, 1, balance(c, 1)) == 0);
        assert(second_moment(c, 2, balance(c, 2)) == 0);
    }
}

/// The lateral moment of fuel is its imbalance times the tank arm: a balanced
/// load, with the seats filled in pairs, keeps a centred airframe on the
/// centreline.
pub proof fn balanced_load_stays_centred(c: FlightModelConfig)
    requires
        c.weighable(),
        c.center_of_mass.x == 0,
        c.cargo.fuel_left_kg == c.cargo.fuel_right_kg,
        c.cargo.passengers == 0 || c.cargo.passengers == 2 || c.cargo.passengers >= 4,
    ensures
        balance(c, 0) == 0,
{
    reveal_with_fuel(sum, 9);
    lemma_masses(c);
    let w = |i: int| item_mass(c, i) * item_position(c, i, 0);
    let f = present(c.cargo.fuel_left_kg as int);
    assert(w(0) == 0 && w(3) == 0) by (nonlinear_arith)
        requires
            item_position(c, 0, 0) == 0,
            item_position(c, 3, 0) == 0,
            w(0) == item_mass(c, 0) * item_position(c, 0, 0),
            w(3) == item_mass(c, 3) * item_position(c, 3, 0),
    ;
    assert(w(1) == f * (-2_000_000_000));
    assert(w(2) == f * 2_000_000_000);
    assert(w(4) + w(5) == 0);
    assert(w(6) + w(7) == 0);
    assert(moment(c, 0) == 0);
    vstd::arithmetic::div_mod::lemma_div_basics(total_mass(c));
}

proof fn lemma_pull(w: int, m: int, extra: int, at: int)
    requires
        m > 0,
        extra >= 0,
        m * at <= w,
    ensures
        (w + extra * at) / (m + extra) <= w / m,
{
    let q = w / m;
    let r = w % m;
    vstd::arithmetic::div_mod::lemma_fundamental_div_mod(w, m);
    let p = (w + extra * at) / (m + extra);
    let s = (w + extra * at) % (m + extra);
    vstd::arithmetic::div_mod::lemma_fundamental_div_mod(w + extra * at, m + extra);
    assert(at <= q) by (nonlinear_arith)
        requires
            m * at <= w,
            w == m * q + r,
            0 <= r < m,
            m > 0,
    ;
    assert(p <= q) by (nonlinear_arith)
        requires
            w == m * q + r,
            0 <= r < m,
            w + extra * at == (m + extra) * p + s,
            0 <= s,
            extra >= 0,
            m > 0,
            at <= q,
    ;
}

/// The aircraft with the contents of its tanks exchanged.
pub open spec fn tanks_swapped(c: FlightModelConfig) -> FlightModelConfig {
    FlightModelConfig {
        cargo: CargoConfig {
            fuel_left_kg: c.cargo.fuel_right_kg,
            fuel_right_kg: c.cargo.fuel_left_kg,
            ..c.cargo
        },
        ..c
    }
}

/// A fuel imbalance shifts the center of mass to the heavier side, and the other way
/// round by as much: with all else balanced, exchanging the tanks mirrors the center
/// of mass and keeps the mass, the rest of the balance and the inertia, but for the
/// last decimal.
pub proof fn swapped_tanks_mirror_the_balance(c: FlightModelConfig)
    requires
        c.weighable(),
        c.center_of_mass.x == 0,
        c.cargo.passengers == 0 || c.cargo.passengers == 2 || c.cargo.passengers >= 4,
    ensures
        ({
            let d = tanks_swapped(c);
            &&& total_mass(d) == total_mass(c)
            &&& -1 <= balance(c, 0) + balance(d, 0) <= 0
            &&& balance(d, 1) == balance(c, 1)
            &&& balance(d, 2) == balance(c, 2)
            &&& loaded_inertia(d, 0) == loaded_inertia(c, 0)
            &&& -1 <= loaded_inertia(d, 1) - loaded_inertia(c, 1) <= 1
            &&& -1 <= loaded_inertia(d, 2) - loaded_inertia(c, 2) <= 1
        }),
{
    let d = tanks_swapped(c);
    lemma_masses(c);
    lemma_masses(d);
    lemma_swapped_sums(c);
    let (t, w) = (total_mass(c), moment(c, 0));
    let (b, e) = (balance(c, 0), balance(d, 0));
    vstd::arithmetic::div_mod::lemma_fundamental_div_mod(w, t);
    vstd::arithmetic::div_mod::lemma_fundamental_div_mod(-w, t);
    let (r, u) = (w % t, (-w) % t);
    assert(-1 <= b + e <= 0) by (nonlinear_arith)
        requires
            w == t * b + r,
            -w == t * e + u,
            0 <= r < t,
            0 <= u < t,
    ;
    lemma_spread_about(c, b);
    lemma_spread_about(d, e);
    let (p, q) = (second_moment(c, 0, b), second_moment(d, 0, e));
    assert(-t <= q - p <= t) by {
        let k = b + e;
        assert(e * (t * e - 2 * (-w)) - b * (t * b - 2 * w) == if k == 0 {
            0
        } else {
            t - 2 * r
        }) by (nonlinear_arith)
            requires
                w == t * b + r,
                k == b + e,
                k == 0 || k == -1,
        ;
    }
}

proof fn lemma_swapped_sums(c: FlightModelConfig)
    requires
        c.weighable(),
        c.center_of_mass.x == 0,
        c.cargo.passengers == 0 || c.cargo.passengers == 2 || c.cargo.passengers >= 4,
    ensures
        ({
            let d = tanks_swapped(c);
            &&& total_mass(d) == total_mass(c)
            &&& moment(d, 0) == -moment(c, 0)
            &&& moment(d, 1) == moment(c, 1)
            &&& moment(d, 2) == moment(c, 2)
            &&& second_moment(d, 0, 0) == second_moment(c, 0, 0)
            &&& forall|at: int| #[trigger] second_moment(d, 1, at) == second_moment(c, 1, at)
            &&& forall|at: int| #[trigger] second_moment(d, 2, at) == second_moment(c, 2, at)
        }),
{
    reveal_with_fuel(sum, 9);
    lemma_masses(c);
    let d = tanks_swapped(c);
    let w = |i: int| item_mass(c, i) * item_position(c, i, 0);
    let v = |i: int| item_mass(d, i) * item_position(d, i, 0);
    assert(w(0) == 0 && w(3) == 0 && v(0) == 0 && v(3) == 0) by (nonlinear_arith)
        requires
            item_position(c, 0, 0) == 0,
            item_position(c, 3, 0) == 0,
            item_position(d, 0, 0) == 0,
            item_position(d, 3, 0) == 0,
            w(0) == item_mass(c, 0) * item_position(c, 0, 0),
            w(3) == item_mass(c, 3) * item_position(c, 3, 0),
            v(0) == item_mass(d, 0) * item_position(d, 0, 0),
            v(3) == item_mass(d, 3) * item_position(d, 3, 0),
    ;
    assert(w(1) == item_mass(c, 1) * (-2_000_000_000));
    assert(w(2) == item_mass(c, 2) * 2_000_000_000);
    assert(v(1) == item_mass(c, 2) * (-2_000_000_000));
    assert(v(2) == item_mass(c, 1) * 2_000_000_000);
    assert(w(4) == item_mass(c, 4) * (-280_000_000));
    assert(w(5) == item_mass(c, 5) * 280_000_000);
    assert(w(6) == item_mass(c, 6) * (-280_000_000));
    assert(w(7) == item_mass(c, 7) * 280_000_000);
    assert(w(4) + w(5) == 0 && w(6) + w(7) == 0);
    assert(v(4) == w(4) && v(5) == w(5) && v(6) == w(6) && v(7) == w(7));
    assert(moment(d, 0) == -moment(c, 0));
    assert(moment(d, 1) == moment(c, 1));
    assert(moment(d, 2) == moment(c, 2));
    assert(second_moment(d, 0, 0) == second_moment(c, 0, 0)) by {
        let left = (-2_000_000_000int - 0) * (-2_000_000_000int - 0);
        let right = (2_000_000_000int - 0) * (2_000_000_000int - 0);
        assert(left == right);
        assert(item_mass(d, 1) * left == item_mass(c, 2) * right);
        assert(item_mass(d, 2) * right == item_mass(c, 1) * left);
    }
    assert forall|at: int| #[trigger] second_moment(d, 1, at) == second_moment(c, 1, at) by {}
    assert forall|at: int| #[trigger] second_moment(d, 2, at) == second_moment(c, 2, at) by {}
}

/// The second moment along the span about a point, from that about the origin.
proof fn lemma_spread_about(c: FlightModelConfig, at: int)
    ensures
        second_moment(c, 0, at) == second_moment(c, 0, 0) + at * (total_mass(c) * at - 2 * moment(
            c,
            0,
        )),
{
    let m = |i: int| item_mass(c, i);
    let r = |i: int| item_position(c, i, 0);
    lemma_shift(8, m, r, 0, at);
    lemma_sum_ext(
        8,
        |i: int| m(i) * ((r(i) - at) * (r(i) - at)),
        |i: int|
            item_mass(c, i) * ((item_position(c, i, 0) - at) * (item_position(c, i, 0) - at)),
    );
    lemma_sum_ext(
        8,
        |i: int| m(i) * ((r(i) - 0) * (r(i) - 0)),
        |i: int| item_mass(c, i) * ((item_position(c, i, 0) - 0) * (item_position(c, i, 0) - 0)),
    );
    lemma_sum_ext(8, |i: int| m(i) * r(i), |i: int| item_mass(c, i) * item_position(c, i, 0));
}

/// Fuel in the left tank moves the center of mass to the left, as long as it lies
/// to the right of that tank.
pub proof fn left_fuel_shifts_left(c: FlightModelConfig, heavier: FlightModelConfig)
    requires
        c.weighable(),
        heavier.weighable(),
        heavier == (FlightModelConfig {
            cargo: CargoConfig { fuel_left_kg: heavier.cargo.fuel_left_kg, ..c.cargo },
            ..c
        }),
        heavier.cargo.fuel_left_kg >= c.cargo.fuel_left_kg,
        total_mass(c) * (-2_000_000_000) <= moment(c, 0),
    ensures
        balance(heavier, 0) <= balance(c, 0),
{
    reveal_with_fuel(sum, 9);
    lemma_masses(c);
    let extra = present(heavier.cargo.fuel_left_kg as int) - present(c.cargo.fuel_left_kg as int);
    let a = present(c.cargo.fuel_left_kg as int);
    assert((a + extra) * (-2_000_000_000) == a * (-2_000_000_000) + extra * (-2_000_000_000));
    assert(moment(heavier, 0) == moment(c, 0) + extra * (-2_000_000_000));
    assert(total_mass(heavier) == total_mass(c) + extra);
    lemma_pull(moment(c, 0), total_mass(c), extra, -2_000_000_000);
}

/// Baggage moves the center of mass rearward, as long as it lies ahead of the
/// baggage compartment.
pub proof fn baggage_shifts_aft(c: FlightModelConfig, heavier: FlightModelConfig)
    requires
        c.weighable(),
        heavier.weighable(),
        heavier == (FlightModelConfig {
            cargo: CargoConfig { cargo_kg: heavier.cargo.cargo_kg, ..c.cargo },
            ..c
        }),
        heavier.cargo.cargo_kg >= c.cargo.cargo_kg,
        total_mass(c) * (-1_100_000_000) <= moment(c, 2),
    ensures
        balance(heavier, 2) <= balance(c, 2),
{
    reveal_with_fuel(sum, 9);
    lemma_masses(c);
    let extra = present(heavier.cargo.cargo_kg as int) - present(c.cargo.cargo_kg as int);
    let a = present(c.cargo.cargo_kg as int);
    assert((a + extra) * (-1_100_000_000) == a * (-1_100_000_000) + extra * (-1_100_000_000));
    assert(moment(heavier, 2) == moment(c, 2) + extra * (-1_100_000_000));
    assert(total_mass(heavier) == total_mass(c) + extra);
    lemma_pull(moment(c, 2), total_mass(c), extra, -1_100_000_000);
}

/// `heavier` carries at least what `c` carries, on the same airframe.
pub open spec fn carries_more(c: FlightModelConfig, heavier: FlightModelConfig) -> bool {
    &&& heavier.mass == c.mass
    &&& heavier.center_of_mass == c.center_of_mass
    &&& heavier.angular_inertia == c.angular_inertia
    &&& heavier.cargo.fuel_left_kg >= c.cargo.fuel_left_kg
    &&& heavier.cargo.fuel_right_kg >= c.cargo.fuel_right_kg
    &&& heavier.cargo.cargo_kg >= c.cargo.cargo_kg
    &&& heavier.cargo.passengers >= c.cargo.passengers
}

proof fn lemma_shift(n: nat, m: spec_fn(int) -> int, r: spec_fn(int) -> int, a: int, b: int)
    ensures
        sum(n, |i: int| m(i) * ((r(i) - b) * (r(i) - b))) - sum(
            n,
            |i: int| m(i) * ((r(i) - a) * (r(i) - a)),
        ) == (b - a) * (sum(n, m) * (a + b) - 2 * sum(n, |i: int| m(i) * r(i))),
    decreases n,
{
    let fa = |i: int| m(i) * ((r(i) - a) * (r(i) - a));
    let fb = |i: int| m(i) * ((r(i) - b) * (r(i) - b));
    let w = |i: int| m(i) * r(i);
    if n > 0 {
        let k = (n - 1) as nat;
        lemma_shift(k, m, r, a, b);
        let mm = m(n - 1);
        let rr = r(n - 1);
        let sm = sum(k, m);
        let sw = sum(k, w);
        assert(mm * ((rr - b) * (rr - b)) - mm * ((rr - a) * (rr - a)) == (b - a) * (mm * (a + b)
            - 2 * (mm * rr))) by (nonlinear_arith);
        assert((b - a) * ((sm + mm) * (a + b) - 2 * (sw + mm * rr)) == (b - a) * (sm * (a + b) - 2
            * sw) + (b - a) * (mm * (a + b) - 2 * (mm * rr))) by (nonlinear_arith);
        assert(sum(n, fa) == sum(k, fa) + fa(n - 1));
        assert(sum(n, fb) == sum(k, fb) + fb(n - 1));
        assert(sum(n, w) == sw + mm * rr);
    } else {
        assert((b - a) * (0 * (a + b) - 2 * 0) == 0) by (nonlinear_arith);
    }
}

/// Among all points the center of mass has the least second moment, but for its
/// rounding.
proof fn lemma_balance_is_least(c: FlightModelConfig, axis: int, at: int)
    requires
        c.weighable(),
        0 <= axis <= 2,
    ensures
        second_moment(c, axis, at) >= second_moment(c, axis, balance(c, axis)) - total_mass(c),
{
    lemma_masses(c);
    let m = |i: int| item_mass(c, i);
    let r = |i: int| item_position(c, i, axis);
    let g = balance(c, axis);
    lemma_shift(8, m, r, g, at);
    lemma_sum_ext(
        8,
        |i: int| m(i) * ((r(i) - at) * (r(i) - at)),
        |i: int|
            item_mass(c, i) * ((item_position(c, i, axis) - at) * (item_position(c, i, axis)
                - at)),
    );
    lemma_sum_ext(
        8,
        |i: int| m(i) * ((r(i) - g) * (r(i) - g)),
        |i: int|
            item_mass(c, i) * ((item_position(c, i, axis) - g) * (item_position(c, i, axis) - g)),
    );
    lemma_sum_ext(
        8,
        |i: int| m(i) * r(i),
        |i: int| item_mass(c, i) * item_position(c, i, axis),
    );
    let t = total_mass(c);
    let w = moment(c, axis);
    let rest = w % t;
    vstd::arithmetic::div_mod::lemma_fundamental_div_mod(w, t);
    let d = at - g;
    assert(d * (t * (g + at) - 2 * w) == t * (d * d) - 2 * (rest * d)) by (nonlinear_arith)
        requires
            w == t * g + rest,
            d == at - g,
    ;
    assert(t * (d * d) - 2 * (rest * d) >= -t) by (nonlinear_arith)
        requires
            0 <= rest < t,
    {
        if d <= 0 {
            assert(rest * d <= 0);
            assert(t * (d * d) >= 0);
        } else {
            assert(rest * d <= t * d);
            assert(t * (d * d) - 2 * (t * d) == t * ((d - 1) * (d - 1)) - t);
            assert(t * ((d - 1) * (d - 1)) >= 0);
        }
    }
}

/// Adding load never makes the aircraft easier to turn about any axis, but for
/// the last decimal.
pub proof fn load_adds_inertia(c: FlightModelConfig, heavier: FlightModelConfig, axis: int)
    requires
        c.weighable(),
        heavier.weighable(),
        carries_more(c, heavier),
        0 <= axis <= 2,
    ensures
        loaded_inertia(heavier, axis) + 1 >= loaded_inertia(c, axis),
        loaded_inertia(c, axis) >= component(c.angular_inertia, axis),
{
    lemma_masses(c);
    let a: int = if axis == 0 {
        1
    } else {
        0
    };
    let b: int = if axis == 2 {
        1
    } else {
        2
    };
    lemma_heavier_moment(c, heavier, a, balance(heavier, a));
    lemma_heavier_moment(c, heavier, b, balance(heavier, b));
    lemma_balance_is_least(c, a, balance(heavier, a));
    lemma_balance_is_least(c, b, balance(heavier, b));
    lemma_moment_nonneg(c, a, balance(c, a));
    lemma_moment_nonneg(c, b, balance(c, b));
    assert(spread(heavier, axis) >= spread(c, axis) - 2 * total_mass(c));
    assert(total_mass(c) <= 80_000_000_000_000);
}

proof fn lemma_moment_nonneg(c: FlightModelConfig, axis: int, at: int)
    requires
        c.weighable(),
    ensures
        second_moment(c, axis, at) >= 0,
{
    lemma_masses(c);
    let f = |i: int|
        item_mass(c, i) * ((item_position(c, i, axis) - at) * (item_position(c, i, axis) - at));
    let zero = |i: int| 0int;
    assert forall|i: int| 0 <= i < 8 implies #[trigger] zero(i) <= f(i) by {
        let m = item_mass(c, i);
        let d = item_position(c, i, axis) - at;
        assert(m * (d * d) >= 0) by (nonlinear_arith)
            requires
                m >= 0,
        ;
    }
    lemma_sum_le(8, zero, f);
    reveal_with_fuel(sum, 9);
}

proof fn lemma_heavier_moment(c: FlightModelConfig, heavier: FlightModelConfig, axis: int, at: int)
    requires
        c.weighable(),
        heavier.weighable(),
        carries_more(c, heavier),
    ensures
        second_moment(c, axis, at) <= second_moment(heavier, axis, at),
{
    lemma_masses(c);
    let f = |i: int|
        item_mass(c, i) * ((item_position(c, i, axis) - at) * (item_position(c, i, axis) - at));
    let g = |i: int|
        item_mass(heavier, i) * ((item_position(heavier, i, axis) - at) * (item_position(
            heavier,
            i,
            axis,
        ) - at));
    assert forall|i: int| 0 <= i < 8 implies #[trigger] f(i) <= g(i) by {
        let m = item_mass(c, i);
        let k = item_mass(heavier, i);
        let d = item_position(c, i, axis) - at;
        assert(m * (d * d) <= k * (d * d)) by (nonlinear_arith)
            requires
                m <= k,
        ;
    }
    lemma_sum_le(8, f, g);
}

}
