//! The parameters of the search, the objective and the order it puts on
//! points.
//!
//! The objective is `sqrt(x³ + 2y⁴)`. The library works with the quantity
//! under the root, an integer: the square root of a non-negative number grows
//! strictly with it, so two points compare by their objectives exactly as they
//! compare by these integers, and one is zero exactly when the other is.

use crate::types::{Number, Pair};
use std::cmp::Ordering;
use vstd::prelude::*;

verus! {

/// The number of places at which two 6-bit codes can be cut.
pub const CROSSOVER_POINTS: u64 = 5;

/// The size of every generation: two children for each crossover point.
pub const POPULATION_SIZE: u64 = 2 * CROSSOVER_POINTS;

/// The mutation rate is `MUTATION_RATE_NUMERATOR / MUTATION_RATE_DENOMINATOR`.
pub const MUTATION_RATE_NUMERATOR: u32 = 1;

/// See `MUTATION_RATE_NUMERATOR`.
pub const MUTATION_RATE_DENOMINATOR: u32 = 5;

/// The number of generations after which the search gives up.
pub const MAX_GENERATIONS: u64 = 20;

/// `x³ + 2y⁴`, the square of the objective at `(x, y)`.
pub open spec fn radicand_of(x: nat, y: nat) -> nat {
    x * x * x + 2 * y * y * y * y
}

/// The square of the objective at a point.
pub open spec fn objective_squared(point: (nat, nat)) -> nat {
    radicand_of(point.0, point.1)
}

/// How `p` stands to `q`: `Less` is fitter, that is a lower objective.
pub open spec fn order_of(p: (nat, nat), q: (nat, nat)) -> Ordering {
    if objective_squared(p) < objective_squared(q) {
        Ordering::Less
    } else if objective_squared(p) > objective_squared(q) {
        Ordering::Greater
    } else {
        Ordering::Equal
    }
}

/// Whether `index` is the first position of `pairs` that holds a point of the
/// lowest objective.
pub open spec fn leads(pairs: Seq<Pair>, index: int) -> bool {
    &&& 0 <= index < pairs.len()
    &&& forall|j: int|
        0 <= j < index ==> objective_squared(#[trigger] pairs[j]@) > objective_squared(
            pairs[index]@,
        )
    &&& forall|j: int|
        index <= j < pairs.len() ==> objective_squared(#[trigger] pairs[j]@) >= objective_squared(
            pairs[index]@,
        )
}

/// The square of the objective at `(x, y)`.
pub fn radicand(x: Number, y: Number) -> (r: u32)
    ensures
        r == radicand_of(x@, y@),
        r <= 5145,
{
    let xv: u32 = u32::from(x.value());
    let yv: u32 = u32::from(y.value());
    assert(xv * xv <= 49 && xv * xv * xv <= 343) by (nonlinear_arith)
        requires
            xv < 8,
    ;
    assert(yv * yv <= 49 && yv * yv * yv <= 343 && yv * yv * yv * yv <= 2401 && 2 * yv * yv * yv
        * yv == 2 * (yv * yv * yv * yv)) by (nonlinear_arith)
        requires
            yv < 8,
    ;
    xv * xv * xv + 2 * (yv * yv * yv * yv)
}

/// Whether the objective is zero at `pair`; on the grid that is the origin
/// alone.
pub fn is_optimal(pair: &Pair) -> (optimal: bool)
    ensures
        optimal == (objective_squared(pair@) == 0),
        optimal == (pair@ == (0nat, 0nat)),
{
    proof {
        lemma_zero_at_origin_only(pair@.0, pair@.1);
    }
    radicand(pair.x(), pair.y()) == 0
}

/// Orders two points by their objective, the lower one first.
pub fn compare(left: &Pair, right: &Pair) -> (order: Ordering)
    ensures
        order == order_of(left@, right@),
        order == Ordering::Less <==> objective_squared(left@) < objective_squared(right@),
        order == Ordering::Greater <==> objective_squared(left@) > objective_squared(right@),
        order == Ordering::Equal <==> objective_squared(left@) == objective_squared(right@),
{
    let ours: u32 = radicand(left.x(), left.y());
    let theirs: u32 = radicand(right.x(), right.y());
    if ours < theirs {
        Ordering::Less
    } else if ours > theirs {
        Ordering::Greater
    } else {
        Ordering::Equal
    }
}

/// The fittest point of a population: the first one of the lowest objective.
pub fn fittest_pair(pairs: &Vec<Pair>) -> (fittest: Pair)
    requires
        pairs.len() > 0,
    ensures
        exists|index: int| leads(pairs@, index) && fittest == pairs@[index],
        pairs@.contains(fittest),
        forall|j: int|
            0 <= j < pairs.len() ==> objective_squared(fittest@) <= objective_squared(
                #[trigger] pairs@[j]@,
            ),
{
    let mut fittest: Pair = pairs[0];
    let ghost mut best: int = 0;
    let ghost mut seen: int = 1;
    let mut i: usize = 1;
    while i < pairs.len()
        invariant
            1 <= seen == i <= pairs.len(),
            leads(pairs@.take(seen), best),
            fittest == pairs@[best],
        decreases pairs.len() - i,
    {
        let candidate: Pair = pairs[i];
        match compare(&candidate, &fittest) {
            Ordering::Less => {
                fittest = candidate;
                proof {
                    best = seen;
                }
            },
            _ => {},
        }
        i += 1;
        proof {
            seen = seen + 1;
        }
    }
    assert(pairs@.take(seen) =~= pairs@);
    fittest
}

/// The objective is zero at the origin and nowhere else.
pub proof fn lemma_zero_at_origin_only(x: nat, y: nat)
    ensures
        radicand_of(x, y) == 0 <==> x == 0 && y == 0,
{
    assert(x * x * x >= 0 && (x > 0 ==> x * x * x > 0)) by (nonlinear_arith);
    assert(2 * y * y * y * y >= 0 && (y > 0 ==> 2 * y * y * y * y > 0)) by (nonlinear_arith);
}

/// The order of points by objective is total, and strict up to ties: of
/// `Less`, `Equal` and `Greater` exactly one holds of two points; `Equal`
/// holds exactly when their objectives are equal; swapping the points swaps
/// `Less` and `Greater`.
pub proof fn lemma_order_total(p: (nat, nat), q: (nat, nat))
    ensures
        order_of(p, q) == Ordering::Equal <==> objective_squared(p) == objective_squared(q),
        order_of(p, q) == Ordering::Less <==> order_of(q, p) == Ordering::Greater,
        order_of(p, q) == Ordering::Equal <==> order_of(q, p) == Ordering::Equal,
        order_of(p, p) == Ordering::Equal,
{
}

/// The order of points by objective is transitive.
pub proof fn lemma_order_transitive(p: (nat, nat), q: (nat, nat), r: (nat, nat))
    requires
        order_of(p, q) != Ordering::Greater,
        order_of(q, r) != Ordering::Greater,
    ensures
        order_of(p, r) != Ordering::Greater,
        order_of(p, q) == Ordering::Less || order_of(q, r) == Ordering::Less ==> order_of(p, r)
            == Ordering::Less,
{
}

/// A population that holds the origin has it as its fittest point's
/// objective: the search is over as soon as the origin appears.
pub proof fn lemma_origin_leads(pairs: Seq<Pair>, index: int, at: int)
    requires
        leads(pairs, index),
        0 <= at < pairs.len(),
        pairs[at]@ == (0nat, 0nat),
    ensures
        pairs[index]@ == (0nat, 0nat),
{
    lemma_zero_at_origin_only(pairs[index]@.0, pairs[index]@.1);
    assert(objective_squared(pairs[at]@) == 0) by {
        lemma_zero_at_origin_only(0, 0);
    }
}

} // verus!
