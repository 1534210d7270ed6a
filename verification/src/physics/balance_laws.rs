//! Where the load puts the center of mass and what it adds to the inertia: the sums
//! written out.

use super::flight_config::FlightModelConfig;
use super::mass::{
    balance, item_mass, item_position, loaded_inertia, moment, present, second_moment, sum,
    total_mass,
};
use vstd::prelude::*;

verus! {

/// A seat's load: a standard adult where it is taken.
pub open spec fn seat(c: FlightModelConfig, n: int) -> int {
    if c.cargo.passengers > n {
        86_000_000_000
    } else {
        0
    }
}

/// The square of a number.
pub open spec fn squared(v: int) -> int {
    v * v
}

/// The center of mass balances the aircraft: along each axis the airframe's, the tanks',
/// the baggage's and the occupants' moments add up to the whole mass at the center.
/// The tanks are two metres out in the wings, the left one on the left, the baggage lies
/// 1.1 m aft, and the occupants sit in two rows, the pilot in front on the left.
pub proof fn center_of_mass_balances_the_load(c: FlightModelConfig)
    requires
        c.weighable(),
    ensures
        ({
            let whole = total_mass(c);
            let (left, right) = (
                present(c.cargo.fuel_left_kg as int),
                present(c.cargo.fuel_right_kg as int),
            );
            let bags = present(c.cargo.cargo_kg as int);
            let (pilot, mate) = (seat(c, 0), seat(c, 1));
            let (third, fourth) = (seat(c, 2), seat(c, 3));
            let frame = c.center_of_mass;
            let across = c.mass * (frame.x as int / 10) + 2_000_000_000 * (right - left)
                + 280_000_000 * (mate + fourth - pilot - third);
            let up = c.mass * (frame.y as int / 10) + 1_000_000_000 * (left + right) + 300_000_000
                * bags + 700_000_000 * (pilot + mate + third + fourth);
            let along = c.mass * (frame.z as int / 10) + 100_000_000 * (left + right)
                - 1_100_000_000 * bags + 300_000_000 * (pilot + mate) - 500_000_000 * (third
                + fourth);
            &&& whole > 0
            &&& balance(c, 0) * whole <= across < (balance(c, 0) + 1) * whole
            &&& balance(c, 1) * whole <= up < (balance(c, 1) + 1) * whole
            &&& balance(c, 2) * whole <= along < (balance(c, 2) + 1) * whole
        }),
{
    lemma_items(c);
    reveal_with_fuel(sum, 9);
    let whole = total_mass(c);
    assert(whole > 0);
    lemma_balance(c, 0);
    lemma_balance(c, 1);
    lemma_balance(c, 2);
    lemma_moments(c);
}

proof fn lemma_moments(c: FlightModelConfig)
    ensures
        ({
            let (left, right) = (item_mass(c, 1), item_mass(c, 2));
            let bags = item_mass(c, 3);
            let (pilot, mate) = (item_mass(c, 4), item_mass(c, 5));
            let (third, fourth) = (item_mass(c, 6), item_mass(c, 7));
            let frame = c.center_of_mass;
            &&& moment(c, 0) == c.mass * (frame.x as int / 10) + 2_000_000_000 * (right - left)
                + 280_000_000 * (mate + fourth - pilot - third)
            &&& moment(c, 1) == c.mass * (frame.y as int / 10) + 1_000_000_000 * (left + right)
                + 300_000_000 * bags + 700_000_000 * (pilot + mate + third + fourth)
            &&& moment(c, 2) == c.mass * (frame.z as int / 10) + 100_000_000 * (left + right)
                - 1_100_000_000 * bags + 300_000_000 * (pilot + mate) - 500_000_000 * (third
                + fourth)
        }),
{
    reveal_with_fuel(sum, 9);
    assert(item_mass(c, 3) * 0 == 0);
    assert(item_position(c, 3, 0) == 0);
}

proof fn lemma_balance(c: FlightModelConfig, axis: int)
    requires
        total_mass(c) > 0,
    ensures
        balance(c, axis) * total_mass(c) <= moment(c, axis) < (balance(c, axis) + 1) * total_mass(
            c,
        ),
{
    let whole = total_mass(c);
    let n = moment(c, axis);
    vstd::arithmetic::div_mod::lemma_fundamental_div_mod(n, whole);
    let q = n / whole;
    let r = n % whole;
    assert(q * whole <= n < (q + 1) * whole) by (nonlinear_arith)
        requires
            n == whole * q + r,
            0 <= r < whole,
    ;
}

proof fn lemma_items(c: FlightModelConfig)
    ensures
        item_mass(c, 0) == c.mass,
        item_mass(c, 1) == present(c.cargo.fuel_left_kg as int),
        item_mass(c, 2) == present(c.cargo.fuel_right_kg as int),
        item_mass(c, 3) == present(c.cargo.cargo_kg as int),
        item_mass(c, 4) == seat(c, 0),
        item_mass(c, 5) == seat(c, 1),
        item_mass(c, 6) == seat(c, 2),
        item_mass(c, 7) == seat(c, 3),
{
}

/// Masses spread along an axis count by the square of how far they lie from a point.
pub proof fn masses_count_by_their_distance(c: FlightModelConfig, at: int)
    ensures
        ({
            let (left, right) = (
                present(c.cargo.fuel_left_kg as int),
                present(c.cargo.fuel_right_kg as int),
            );
            let bags = present(c.cargo.cargo_kg as int);
            let (pilot, mate) = (seat(c, 0), seat(c, 1));
            let (third, fourth) = (seat(c, 2), seat(c, 3));
            let frame = c.center_of_mass;
            &&& second_moment(c, 0, at) == c.mass * squared(frame.x as int / 10 - at) + left
                * squared(-2_000_000_000 - at) + right * squared(2_000_000_000 - at) + bags
                * squared(0 - at) + pilot * squared(-280_000_000 - at) + mate * squared(
                280_000_000 - at,
            ) + third * squared(-280_000_000 - at) + fourth * squared(280_000_000 - at)
            &&& second_moment(c, 1, at) == c.mass * squared(frame.y as int / 10 - at) + left
                * squared(1_000_000_000 - at) + right * squared(1_000_000_000 - at) + bags
                * squared(300_000_000 - at) + pilot * squared(700_000_000 - at) + mate * squared(
                700_000_000 - at,
            ) + third * squared(700_000_000 - at) + fourth * squared(700_000_000 - at)
            &&& second_moment(c, 2, at) == c.mass * squared(frame.z as int / 10 - at) + left
                * squared(100_000_000 - at) + right * squared(100_000_000 - at) + bags * squared(
                -1_100_000_000 - at,
            ) + pilot * squared(300_000_000 - at) + mate * squared(300_000_000 - at) + third
                * squared(-500_000_000 - at) + fourth * squared(-500_000_000 - at)
        }),
{
    lemma_items(c);
    reveal_with_fuel(sum, 9);
}

/// The load adds to the inertia about an axis what lies off that axis: pitch feels what is
/// spread up and along, yaw across and along, roll across and up, each from the center of
/// mass.
pub proof fn load_resists_turning(c: FlightModelConfig)
    ensures
        ({
            let across = second_moment(c, 0, balance(c, 0));
            let up = second_moment(c, 1, balance(c, 1));
            let along = second_moment(c, 2, balance(c, 2));
            let pitch = loaded_inertia(c, 0) - c.angular_inertia.x;
            let yaw = loaded_inertia(c, 1) - c.angular_inertia.y;
            let roll = loaded_inertia(c, 2) - c.angular_inertia.z;
            let unit = 1_000_000_000_000_000_000int;
            &&& pitch * unit <= up + along < (pitch + 1) * unit
            &&& yaw * unit <= across + along < (yaw + 1) * unit
            &&& roll * unit <= across + up < (roll + 1) * unit
        }),
{
}

}
