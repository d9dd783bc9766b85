//! Population statistics over bitstring genomes: the per-position counts of
//! set bits, from which diversity measures of a population (such as its
//! entropy) are computed.

use vstd::prelude::*;

verus! {

/// How many of the first `k` genomes have the bit at `position` set.
pub open spec fn ones_among_first(population: Seq<Vec<bool>>, position: int, k: int) -> int
    decreases k,
{
    if k <= 0 {
        0
    } else {
        ones_among_first(population, position, k - 1) + if population[k - 1]@[position] {
            1int
        } else {
            0int
        }
    }
}

/// How many genomes of the whole population have the bit at `position` set.
pub open spec fn ones_at(population: Seq<Vec<bool>>, position: int) -> int {
    ones_among_first(population, position, population.len() as int)
}

/// Count, for every bit position, how many genomes of the population have
/// that bit set. The population must be nonempty and rectangular: every
/// genome has the same length, which is the length of the result.
pub fn ones_per_position(population: &Vec<Vec<bool>>) -> (counts: Vec<usize>)
    requires
        population@.len() > 0,
        forall|g: int|
            0 <= g < population@.len() ==> (#[trigger] population@[g])@.len()
                == population@[0]@.len(),
    ensures
        counts@.len() == population@[0]@.len(),
        forall|i: int|
            0 <= i < counts@.len() ==> (#[trigger] counts@[i]) as int == ones_at(population@, i),
{
    let width = population[0].len();
    let mut counts: Vec<usize> = Vec::new();
    for i in 0..width
        invariant
            width == population@[0]@.len(),
            population@.len() > 0,
            forall|g: int|
                0 <= g < population@.len() ==> (#[trigger] population@[g])@.len() == width,
            counts@.len() == i,
            forall|p: int|
                0 <= p < counts@.len() ==> (#[trigger] counts@[p]) as int == ones_at(
                    population@,
                    p,
                ),
    {
        let mut count: usize = 0;
        let population_size = population.len();
        for g in 0..population_size
            invariant
                population_size == population@.len(),
                i < width,
                forall|g2: int|
                    0 <= g2 < population@.len() ==> (#[trigger] population@[g2])@.len() == width,
                count <= g,
                count as int == ones_among_first(population@, i as int, g as int),
        {
            if population[g][i] {
                count = count + 1;
            }
        }
        counts.push(count);
    }
    counts
}

} // verus!
