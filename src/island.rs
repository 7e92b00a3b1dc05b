use vstd::prelude::*;

use crate::config::PopulationParameters;
use crate::population::Population;

verus! {

/// The settings of a run over several populations. Individuals are never
/// exchanged between them; `migration_count` and `mutation_number` are
/// carried for an exchange policy that is not defined.
pub struct IslandParameters {
    pub population_parameters: PopulationParameters,
    pub num_islands: usize,
    pub migration_count: usize,
    pub mutation_number: usize,
}

/// Several independently evolving populations.
pub struct Archipelago {
    pub islands: Vec<Population>,
}

impl Archipelago {
    /// `n` empty populations.
    pub fn new_n(n: usize) -> (r: Archipelago)
        ensures
            r.islands.len() == n,
            forall|i: int| 0 <= i < n ==> (#[trigger] r.islands@[i]).population.len() == 0,
    {
        let mut islands: Vec<Population> = Vec::new();
        let mut i: usize = 0;
        while i < n
            invariant
                i <= n,
                islands.len() == i,
                forall|k: int| 0 <= k < i ==> (#[trigger] islands@[k]).population.len() == 0,
            decreases n - i,
        {
            islands.push(Population::new());
            i = i + 1;
        }
        Archipelago { islands }
    }

    /// `num_islands` populations, each of `population_size` random
    /// chromosomes of `num_genes` genes over the variables of a dataset with
    /// `num_columns` columns (the last is the target).
    pub fn initialize(rng: &mut rand::rngs::StdRng, p: &IslandParameters, num_columns: usize) -> (r: Archipelago)
        requires
            num_columns >= 2,
        ensures
            r.islands.len() == p.num_islands,
            forall|i: int|
                0 <= i < p.num_islands ==> (#[trigger] r.islands@[i]).freshly_generated(
                    p.population_parameters.population_size as int,
                    p.population_parameters.num_genes as int,
                    num_columns - 1,
                ) && (p.population_parameters.num_genes > 0
                    ==> r.islands@[i].uniform(p.population_parameters.num_genes as int)),
    {
        let mut islands: Vec<Population> = Vec::new();
        let mut i: usize = 0;
        while i < p.num_islands
            invariant
                i <= p.num_islands,
                num_columns >= 2,
                islands.len() == i,
                forall|k: int|
                    0 <= k < i ==> (#[trigger] islands@[k]).freshly_generated(
                        p.population_parameters.population_size as int,
                        p.population_parameters.num_genes as int,
                        num_columns - 1,
                    ) && (p.population_parameters.num_genes > 0
                        ==> islands@[k].uniform(p.population_parameters.num_genes as int)),
            decreases p.num_islands - i,
        {
            let island = Population::initialize(
                rng,
                p.population_parameters.population_size,
                p.population_parameters.num_genes,
                num_columns,
            );
            islands.push(island);
            i = i + 1;
        }
        Archipelago { islands }
    }
}

} // verus!
