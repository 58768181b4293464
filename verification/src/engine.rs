//! One generation of the search: roulette-wheel selection of two parents,
//! crossover at every point, and mutation of the children.
//!
//! Fitness is a real number and stays with the caller. What the selection
//! needs of it is its order: the caller hands the wheel one integer mark for
//! each candidate, ordered as the running sums of the candidates' fitness, and
//! a draw expressed on the same scale.

use crate::config::{
    fittest_pair, is_optimal, leads, lemma_origin_leads, MAX_GENERATIONS, POPULATION_SIZE,
};
use crate::random::random_ratio;
use crate::types::{child_code, differing_bits, Pair};
use vstd::prelude::*;

verus! {

/// Whether a wheel with these marks stops at `index` on `draw`: the mark there
/// is the first that exceeds the draw.
pub open spec fn stops_at(marks: Seq<u64>, draw: u64, index: int) -> bool {
    &&& 0 <= index < marks.len()
    &&& draw < marks[index]
    &&& forall|j: int| 0 <= j < index ==> #[trigger] marks[j] <= draw
}

/// The position in the whole list of the candidate that stands at
/// `second` once the candidate at `first` has left.
pub open spec fn origin_of_second(first: int, second: int) -> int {
    if second < first {
        second
    } else {
        second + 1
    }
}

/// The parents that two stops of the wheel select: the candidate at `first`,
/// then, of those that remain, the candidate at `second`.
pub open spec fn selected(pairs: Seq<Pair>, first: int, second: int) -> Seq<Pair> {
    seq![pairs[first], pairs.remove(first)[second]]
}

/// Whether the origin, where the objective is zero, stands in `pairs`.
pub open spec fn holds_origin(pairs: Seq<Pair>) -> bool {
    exists|i: int| 0 <= i < pairs.len() && (#[trigger] pairs[i])@ == (0nat, 0nat)
}

/// The marks of the candidates that can still be drawn, in their order.
pub struct Wheel {
    marks: Vec<u64>,
}

impl View for Wheel {
    type V = Seq<u64>;

    closed spec fn view(&self) -> Seq<u64> {
        self.marks@
    }
}

impl Wheel {
    /// A wheel with one mark for each candidate.
    pub fn new(marks: Vec<u64>) -> (wheel: Wheel)
        ensures
            wheel@ == marks@,
    {
        Wheel { marks }
    }

    /// The number of candidates left on the wheel.
    pub fn len(&self) -> (len: usize)
        ensures
            len == self@.len(),
    {
        self.marks.len()
    }

    /// The mark of the last candidate left, below which a draw must lie;
    /// nothing when no candidate is left.
    pub fn highest(&self) -> (highest: Option<u64>)
        ensures
            match highest {
                Some(mark) => self@.len() > 0 && mark == self@.last(),
                None => self@.len() == 0,
            },
    {
        let len = self.marks.len();
        if len == 0 {
            None
        } else {
            Some(self.marks[len - 1])
        }
    }

    /// Stops the wheel at the first candidate whose mark exceeds `draw`, takes
    /// that candidate off the wheel and returns its position among those that
    /// were left. Where no mark exceeds the draw the wheel stays as it is.
    pub fn spin(&mut self, draw: u64) -> (stop: Option<usize>)
        ensures
            match stop {
                Some(index) => stops_at(old(self)@, draw, index as int) && final(self)@ == old(
                    self,
                )@.remove(index as int),
                None => final(self)@ == old(self)@ && forall|j: int|
                    0 <= j < old(self)@.len() ==> #[trigger] old(self)@[j] <= draw,
            },
    {
        let mut i: usize = 0;
        while i < self.marks.len()
            invariant
                i <= self.marks.len(),
                self.marks@ == old(self).marks@,
                forall|j: int| 0 <= j < i ==> #[trigger] self.marks@[j] <= draw,
            decreases self.marks.len() - i,
        {
            if draw < self.marks[i] {
                self.marks.remove(i);
                return Some(i);
            }
            i += 1;
        }
        None
    }
}

/// The two parents that the wheel's stops select from `pairs`, without
/// replacement: `first` is a position in `pairs`, `second` a position among
/// the candidates that remain once the first parent has left.
pub fn select_parents(pairs: &Vec<Pair>, first: usize, second: usize) -> (parents: Vec<Pair>)
    requires
        first < pairs.len(),
        second < pairs.len() - 1,
    ensures
        parents@ == selected(pairs@, first as int, second as int),
        parents@[0] == pairs@[first as int],
        parents@[1] == pairs@[origin_of_second(first as int, second as int)],
{
    let mut candidates: Vec<Pair> = Vec::new();
    let mut i: usize = 0;
    while i < pairs.len()
        invariant
            i <= pairs.len(),
            candidates@ == pairs@.take(i as int),
        decreases pairs.len() - i,
    {
        candidates.push(pairs[i]);
        i += 1;
    }
    assert(candidates@ == pairs@);
    let mut parents: Vec<Pair> = Vec::new();
    let chosen = candidates.remove(first);
    parents.push(chosen);
    let chosen = candidates.remove(second);
    parents.push(chosen);
    proof {
        lemma_distinct_positions(pairs@, first as int, second as int);
    }
    parents
}

/// The ten children of the first two parents: see `Pair::crossover`.
pub fn crossover(parents: &Vec<Pair>) -> (children: Vec<Pair>)
    requires
        parents.len() >= 2,
    ensures
        children@.len() == POPULATION_SIZE,
        forall|i: int|
            0 <= i < children@.len() ==> (#[trigger] children@[i]).code() == child_code(
                parents@[0].code(),
                parents@[1].code(),
                i,
            ),
{
    let mother: Pair = parents[0];
    let father: Pair = parents[1];
    mother.crossover(&father)
}

/// Mutates each point of `generation` with probability
/// `numerator / denominator`, independently of the others: a point that
/// mutates has one of its six bits flipped, chosen at random.
pub fn mutate(generation: &mut Vec<Pair>, numerator: u32, denominator: u32)
    requires
        denominator > 0,
        numerator <= denominator,
    ensures
        final(generation)@.len() == old(generation)@.len(),
        forall|i: int|
            0 <= i < old(generation)@.len() ==> differing_bits(
                old(generation)@[i].code(),
                (#[trigger] final(generation)@[i]).code(),
            ) <= 1,
        numerator == 0 ==> final(generation)@ == old(generation)@,
        numerator == denominator ==> forall|i: int|
            0 <= i < old(generation)@.len() ==> differing_bits(
                old(generation)@[i].code(),
                (#[trigger] final(generation)@[i]).code(),
            ) == 1,
{
    let mut i: usize = 0;
    while i < generation.len()
        invariant
            denominator > 0,
            numerator <= denominator,
            i <= generation@.len(),
            generation@.len() == old(generation)@.len(),
            forall|j: int|
                0 <= j < i ==> differing_bits(
                    old(generation)@[j].code(),
                    (#[trigger] generation@[j]).code(),
                ) <= 1,
            forall|j: int|
                i <= j < generation@.len() ==> #[trigger] generation@[j] == old(generation)@[j],
            numerator == 0 ==> generation@ == old(generation)@,
            numerator == denominator ==> forall|j: int|
                0 <= j < i ==> differing_bits(
                    old(generation)@[j].code(),
                    (#[trigger] generation@[j]).code(),
                ) == 1,
        decreases generation@.len() - i,
    {
        if random_ratio(numerator, denominator) {
            let mut point: Pair = generation[i];
            point.mutate();
            generation.set(i, point);
        }
        i += 1;
    }
}

/// One generation: selects two parents from `old_gen` by the wheel's stops
/// `first` and `second`, crosses them over and mutates the children at the
/// rate `numerator / denominator`. Returns the parents and the new
/// population.
pub fn next_generation(
    old_gen: &Vec<Pair>,
    first: usize,
    second: usize,
    numerator: u32,
    denominator: u32,
) -> (result: (Vec<Pair>, Vec<Pair>))
    requires
        first < old_gen.len(),
        second < old_gen.len() - 1,
        denominator > 0,
        numerator <= denominator,
    ensures
        result.0@ == selected(old_gen@, first as int, second as int),
        result.1@.len() == POPULATION_SIZE,
        forall|i: int|
            0 <= i < result.1@.len() ==> differing_bits(
                child_code(result.0@[0].code(), result.0@[1].code(), i),
                (#[trigger] result.1@[i]).code(),
            ) <= 1,
        numerator == 0 ==> forall|i: int|
            0 <= i < result.1@.len() ==> (#[trigger] result.1@[i]).code() == child_code(
                result.0@[0].code(),
                result.0@[1].code(),
                i,
            ),
        numerator == denominator ==> forall|i: int|
            0 <= i < result.1@.len() ==> differing_bits(
                child_code(result.0@[0].code(), result.0@[1].code(), i),
                (#[trigger] result.1@[i]).code(),
            ) == 1,
{
    let selected_parents = select_parents(old_gen, first, second);
    let mut new_population = crossover(&selected_parents);
    mutate(&mut new_population, numerator, denominator);
    (selected_parents, new_population)
}

/// Whether the search ends with this population: it does as soon as the
/// origin stands in it, whatever the generation, and otherwise at generation
/// `MAX_GENERATIONS`.
pub fn finished(population: &Vec<Pair>, generation: u64) -> (done: bool)
    requires
        population.len() > 0,
    ensures
        done == (holds_origin(population@) || generation == MAX_GENERATIONS),
{
    let fittest = fittest_pair(population);
    proof {
        let index = choose|index: int| leads(population@, index) && fittest == population@[index];
        if holds_origin(population@) {
            let at = choose|i: int|
                0 <= i < population@.len() && (#[trigger] population@[i])@ == (0nat, 0nat);
            lemma_origin_leads(population@, index, at);
        }
        if fittest@ == (0nat, 0nat) {
            assert(population@[index]@ == (0nat, 0nat));
        }
    }
    is_optimal(&fittest) || generation == MAX_GENERATIONS
}

/// Selection is without replacement: the two parents stand at two different
/// positions of the list they were drawn from, the second at `origin_of_second`.
pub proof fn lemma_distinct_positions(pairs: Seq<Pair>, first: int, second: int)
    requires
        0 <= first < pairs.len(),
        0 <= second < pairs.len() - 1,
    ensures
        0 <= origin_of_second(first, second) < pairs.len(),
        origin_of_second(first, second) != first,
        selected(pairs, first, second)[0] == pairs[first],
        selected(pairs, first, second)[1] == pairs[origin_of_second(first, second)],
{
}

} // verus!
