//! The simulation: an initial population, then one report of blood-type
//! counts per generation.

use rand_pcg::Mcg128Xsl64;
use vstd::prelude::*;

use crate::genetics::{Gene, ABO};
use crate::population::{
    all_o, count, counts, initial_outcome, initial_population, is_next_generation,
    lemma_all_o_absorbing, lemma_counts_sum, progress, SetupError,
};

verus! {

/// The blood-type counts of one generation.
#[derive(Debug, Copy, Clone, PartialEq, Eq, Structural, Hash)]
pub struct GenerationCounts {
    /// The generation's index; the initial population is generation 0.
    pub generation: usize,
    pub a: u64,
    pub b: u64,
    pub o: u64,
    pub ab: u64,
}

/// `report` gives, for generation `i`, the counts of `people`.
pub open spec fn reports(report: GenerationCounts, i: int, people: Seq<Gene>) -> bool {
    &&& report.generation == i
    &&& (report.a as nat, report.b as nat, report.o as nat, report.ab as nat) == counts(people)
}

/// `pops` is a line of `pops.len()` generations that starts with `start`,
/// each following the one before by one round of random mating.
pub open spec fn is_lineage(pops: Seq<Seq<Gene>>, start: Seq<Gene>) -> bool {
    &&& pops.len() > 0
    &&& pops[0] == start
    &&& forall|i: int| 0 <= i < pops.len() - 1 ==> is_next_generation(#[trigger] pops[i], pops[i + 1])
}

/// `rows` reports, generation by generation, on some lineage that starts with
/// `start`.
pub open spec fn reports_lineage(rows: Seq<GenerationCounts>, start: Seq<Gene>) -> bool {
    exists|pops: Seq<Seq<Gene>>|
        #![trigger is_lineage(pops, start)]
        is_lineage(pops, start) && pops.len() == rows.len() && forall|i: int|
            0 <= i < rows.len() ==> reports(#[trigger] rows[i], i, pops[i])
}

/// Reports the counts of `people`, then, `num_gen` times, replaces the
/// population with the next generation and reports its counts: one report
/// for each generation from 0 to `num_gen`.
pub fn simulate(random: &mut Mcg128Xsl64, people: Vec<Gene>, num_gen: usize) -> (r: Vec<
    GenerationCounts,
>)
    ensures
        r@.len() == num_gen + 1,
        forall|i: int| 0 <= i < r@.len() ==> (#[trigger] r@[i]).generation == i,
        reports_lineage(r@, people@),
{
    let mut now_people = people;
    let mut rows: Vec<GenerationCounts> = Vec::new();
    let (a, b, o, ab) = count(now_people.as_slice());
    rows.push(GenerationCounts { generation: 0, a, b, o, ab });
    let ghost mut pops: Seq<Seq<Gene>> = seq![people@];
    let mut i: usize = 0;
    while i < num_gen
        invariant
            i <= num_gen,
            rows@.len() == i + 1,
            is_lineage(pops, people@),
            pops.len() == i + 1,
            pops.last() == now_people@,
            forall|t: int| 0 <= t < rows@.len() ==> reports(#[trigger] rows@[t], t, pops[t]),
        decreases num_gen - i,
    {
        now_people = progress(random, now_people.as_slice());
        proof {
            pops = pops.push(now_people@);
        }
        let (a, b, o, ab) = count(now_people.as_slice());
        rows.push(GenerationCounts { generation: i + 1, a, b, o, ab });
        i += 1;
        assert(is_next_generation(pops[i - 1], pops[i as int]));
    }
    assert(is_lineage(pops, people@));
    rows
}


/// Builds the initial population for the requested size and the weights of
/// blood types A, B, O and AB, then simulates `num_gen` generations of random
/// mating, reporting the counts of every generation from 0 to `num_gen`.
/// Fails, before drawing anything, exactly where building the population
/// fails.
pub fn run(
    random: &mut Mcg128Xsl64,
    num_people: usize,
    rate_a: usize,
    rate_b: usize,
    rate_o: usize,
    rate_ab: usize,
    num_gen: usize,
) -> (r: Result<Vec<GenerationCounts>, SetupError>)
    ensures
        match r {
            Ok(rows) => {
                &&& initial_outcome(
                    num_people as int,
                    rate_a as int,
                    rate_b as int,
                    rate_o as int,
                    rate_ab as int,
                ) is Ok
                &&& rows@.len() == num_gen + 1
                &&& forall|i: int| 0 <= i < rows@.len() ==> (#[trigger] rows@[i]).generation == i
                &&& reports_lineage(
                    rows@,
                    initial_outcome(
                        num_people as int,
                        rate_a as int,
                        rate_b as int,
                        rate_o as int,
                        rate_ab as int,
                    )->Ok_0,
                )
            },
            Err(e) => initial_outcome(
                num_people as int,
                rate_a as int,
                rate_b as int,
                rate_o as int,
                rate_ab as int,
            ) == Err::<Seq<Gene>, SetupError>(e),
        },
{
    match initial_population(num_people, rate_a, rate_b, rate_o, rate_ab) {
        Ok(people) => Ok(simulate(random, people, num_gen)),
        Err(e) => Err(e),
    }
}

/// Each generation of a lineage has as many individuals as the first, and
/// where the first is all O/O, so is each.
pub proof fn lemma_lineage_generations(pops: Seq<Seq<Gene>>, start: Seq<Gene>, i: int)
    requires
        is_lineage(pops, start),
        0 <= i < pops.len(),
    ensures
        pops[i].len() == start.len(),
        all_o(start) ==> all_o(pops[i]),
    decreases i,
{
    if i > 0 {
        lemma_lineage_generations(pops, start, i - 1);
        assert(is_next_generation(pops[i - 1], pops[i]));
        if all_o(start) {
            lemma_all_o_absorbing(pops[i - 1], pops[i]);
        }
    }
}

/// A population of O/O genotypes has blood type O throughout.
pub proof fn lemma_all_o_counts(people: Seq<Gene>)
    requires
        all_o(people),
    ensures
        counts(people) == (0nat, 0nat, people.len(), 0nat),
    decreases people.len(),
{
    if people.len() > 0 {
        assert(all_o(people.drop_last()));
        lemma_all_o_counts(people.drop_last());
        assert(people.last() == Gene(ABO::O, ABO::O));
    }
}

/// In every report of a simulation the four counts add up to the size of the
/// initial population: mating keeps the population's size, and each
/// individual has one blood type.
pub proof fn lemma_reports_sum(rows: Seq<GenerationCounts>, start: Seq<Gene>, i: int)
    requires
        reports_lineage(rows, start),
        0 <= i < rows.len(),
    ensures
        rows[i].a + rows[i].b + rows[i].o + rows[i].ab == start.len(),
{
    let pops = choose|pops: Seq<Seq<Gene>>|
        #![trigger is_lineage(pops, start)]
        is_lineage(pops, start) && pops.len() == rows.len() && forall|t: int|
            0 <= t < rows.len() ==> reports(#[trigger] rows[t], t, pops[t]);
    assert(reports(rows[i], i, pops[i]));
    lemma_lineage_generations(pops, start, i);
    lemma_counts_sum(pops[i]);
}

/// A population of O/O genotypes cannot leave that state: in every report
/// of a simulation that starts from one, all individuals have blood type O.
pub proof fn lemma_all_o_reports(rows: Seq<GenerationCounts>, start: Seq<Gene>, i: int)
    requires
        reports_lineage(rows, start),
        all_o(start),
        0 <= i < rows.len(),
    ensures
        rows[i].a == 0,
        rows[i].b == 0,
        rows[i].o == start.len(),
        rows[i].ab == 0,
{
    let pops = choose|pops: Seq<Seq<Gene>>|
        #![trigger is_lineage(pops, start)]
        is_lineage(pops, start) && pops.len() == rows.len() && forall|t: int|
            0 <= t < rows.len() ==> reports(#[trigger] rows[t], t, pops[t]);
    assert(reports(rows[i], i, pops[i]));
    lemma_lineage_generations(pops, start, i);
    lemma_all_o_counts(pops[i]);
}

} // verus!
