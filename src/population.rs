use vstd::prelude::*;

use crate::chromosome::{fitness_key_spec, lemma_replace_keeps_acyclic, spliced, Chromosome};
use crate::gene::Gene;
use crate::random::{random_below, random_event};

verus! {

/// Two chromosomes agree on genes, fitness and evaluation mark.
pub open spec fn same(a: Chromosome, b: Chromosome) -> bool {
    &&& a.genes@ == b.genes@
    &&& a.fitness_value == b.fitness_value
    &&& a.accessed == b.accessed
}

/// `k` is the first position of a lowest fitness in `members`.
pub open spec fn first_lowest(members: Seq<Chromosome>, k: int) -> bool {
    &&& 0 <= k < members.len()
    &&& forall|j: int| 0 <= j < members.len() ==> members[k].fitness_value <= #[trigger] members[j].fitness_value
    &&& forall|j: int| 0 <= j < k ==> members[k].fitness_value < #[trigger] members[j].fitness_value
}

/// A refresh of `best` against `members` takes a member: one beats `best`,
/// or `best` is the empty placeholder and one is no worse than it.
pub open spec fn refresh_takes_member(members: Seq<Chromosome>, best: Chromosome) -> bool {
    ||| exists|j: int| 0 <= j < members.len() && #[trigger] members[j].fitness_value < best.fitness_value
    ||| best.genes@.len() == 0 && exists|j: int|
        0 <= j < members.len() && #[trigger] members[j].fitness_value <= best.fitness_value
}

/// The best after a refresh of `best` against `members`: the first member of
/// lowest fitness when the refresh takes a member; otherwise `best` itself.
/// Either way the best's fitness never rises.
pub open spec fn refreshed(members: Seq<Chromosome>, best: Chromosome, new_best: Chromosome) -> bool {
    if refresh_takes_member(members, best) {
        exists|k: int| #[trigger] first_lowest(members, k) && same(new_best, members[k])
    } else {
        same(new_best, best)
    }
}

/// `after` is the generation built from `before`: as many members, the last
/// one a copy of the best of `before`, and the best carried over.
pub open spec fn elite_kept(before: Population, after: Population) -> bool {
    &&& after.population.len() == before.population.len()
    &&& after.population.len() > 0
    &&& same(after.population@.last(), before.best)
    &&& same(after.best, before.best)
}

/// Elitism: when the best was refreshed against a generation, the
/// generation built from it by reproduction holds a member whose fitness is
/// no worse than that of any member of the old one, so the lowest fitness
/// never rises from one generation to the next.
pub proof fn lemma_elitism(before: Population, after: Population)
    requires
        before.best_is_min(),
        elite_kept(before, after),
    ensures
        exists|k: int|
            0 <= k < after.population.len() && forall|j: int|
                0 <= j < before.population.len() ==> (#[trigger] after.population@[k]).fitness_value
                    <= (#[trigger] before.population@[j]).fitness_value,
{
    let k = after.population.len() - 1;
    assert(forall|j: int|
        0 <= j < before.population.len() ==> after.population@[k].fitness_value
            <= (#[trigger] before.population@[j]).fitness_value);
}

/// `genes` with the gene at the given locus replaced by the given gene, or
/// unchanged without a mutation.
pub open spec fn mutated(genes: Seq<Gene>, mutation: Option<(usize, Gene)>) -> Seq<Gene> {
    match mutation {
        Some((locus, gene)) => genes.update(locus as int, gene),
        None => genes,
    }
}

/// The genes of a pair of offspring bred from parents with genes `one` and
/// `two`: exchanged from the crossover locus on when there is one, then
/// each mutated as given.
pub open spec fn bred_genes(
    one: Seq<Gene>,
    two: Seq<Gene>,
    crossover: Option<usize>,
    mut_one: Option<(usize, Gene)>,
    mut_two: Option<(usize, Gene)>,
) -> (Seq<Gene>, Seq<Gene>) {
    let (x, y) = match crossover {
        Some(locus) => (spliced(one, two, locus as int), spliced(two, one, locus as int)),
        None => (one, two),
    };
    (mutated(x, mut_one), mutated(y, mut_two))
}

/// A mutation that could be drawn for a chromosome of `num_genes` genes: a
/// position in range and a fresh gene that fits it.
pub open spec fn valid_mutation(mutation: Option<(usize, Gene)>, num_genes: int, num_variables: int) -> bool {
    match mutation {
        Some((locus, gene)) => locus < num_genes && gene.fits(locus as int, num_variables) && (locus < 2
            ==> gene.is_terminal()),
        None => true,
    }
}

/// A set of candidate expressions and the best one found so far.
pub struct Population {
    pub population: Vec<Chromosome>,
    pub best: Chromosome,
}

impl Population {
    /// Every member has `num_genes` genes (at least one) and is acyclic.
    pub open spec fn uniform(&self, num_genes: int) -> bool {
        &&& num_genes > 0
        &&& forall|i: int|
            0 <= i < self.population.len() ==> (#[trigger] self.population@[i]).genes.len() == num_genes
                && self.population@[i].is_acyclic()
    }

    /// Every member and the best have `num_genes` genes and are acyclic: a
    /// population that reproduction can work on, generation after
    /// generation.
    pub open spec fn wf(&self, num_genes: int) -> bool {
        &&& self.uniform(num_genes)
        &&& self.best.genes.len() == num_genes
        &&& self.best.is_acyclic()
    }

    /// `size` members, each `num_genes` random genes that fit their positions
    /// over `num_variables` inputs (the first two terminals), acyclic, with
    /// the worst fitness and not yet evaluated.
    pub open spec fn freshly_generated(&self, size: int, num_genes: int, num_variables: int) -> bool {
        &&& self.population.len() == size
        &&& forall|i: int|
            0 <= i < size ==> (#[trigger] self.population@[i]).genes.len() == num_genes
                && crate::chromosome::generated(self.population@[i].genes@, num_variables)
                && self.population@[i].is_acyclic()
                && self.population@[i].fitness_value == crate::chromosome::WORST_FITNESS
                && !self.population@[i].accessed
    }

    /// The best is at least as good as every member.
    pub open spec fn best_is_min(&self) -> bool {
        forall|i: int|
            0 <= i < self.population.len() ==> self.best.fitness_value <= (
            #[trigger] self.population@[i]).fitness_value
    }

    /// `one` and `two` are the pair that `breed` makes from these draws:
    /// positions in range, a crossover locus and mutations that fit the
    /// chromosomes, genes as `bred_genes` gives them from the two tournament
    /// winners, and each winner's fitness and evaluation mark.
    pub open spec fn offspring_of(
        &self,
        a: int,
        b: int,
        c: int,
        d: int,
        crossover: Option<usize>,
        mut_one: Option<(usize, Gene)>,
        mut_two: Option<(usize, Gene)>,
        num_variables: int,
        one: Chromosome,
        two: Chromosome,
    ) -> bool {
        let n = self.population.len();
        let g = self.population@[0].genes.len() as int;
        let first = self.population@[self.tournament(a, b)];
        let second = self.population@[self.tournament(c, d)];
        let genes = bred_genes(first.genes@, second.genes@, crossover, mut_one, mut_two);
        &&& 0 <= a < n && 0 <= b < n && 0 <= c < n && 0 <= d < n
        &&& crossover is Some ==> crossover->Some_0 < g
        &&& valid_mutation(mut_one, g, num_variables)
        &&& valid_mutation(mut_two, g, num_variables)
        &&& one.genes@ == genes.0
        &&& two.genes@ == genes.1
        &&& one.fitness_value == first.fitness_value && one.accessed == first.accessed
        &&& two.fitness_value == second.fitness_value && two.accessed == second.accessed
    }

    /// Members `2p` and `2p + 1` of `after` are a pair bred from this
    /// population on some draws.
    pub open spec fn pair_bred(&self, after: Seq<Chromosome>, p: int, num_variables: int) -> bool {
        exists|
            a: int,
            b: int,
            c: int,
            d: int,
            crossover: Option<usize>,
            mut_one: Option<(usize, Gene)>,
            mut_two: Option<(usize, Gene)>,
        |
            #[trigger] self.offspring_of(
                a,
                b,
                c,
                d,
                crossover,
                mut_one,
                mut_two,
                num_variables,
                after[2 * p],
                after[2 * p + 1],
            )
    }

    /// The winner of a tournament between the members at `i` and `j`: the
    /// lower fitness, and `i` on a tie.
    pub open spec fn tournament(&self, i: int, j: int) -> int {
        if self.population@[j].fitness_value < self.population@[i].fitness_value {
            j
        } else {
            i
        }
    }

    /// An empty population whose best is the empty placeholder.
    pub fn new() -> (r: Population)
        ensures
            r.population@.len() == 0,
            r.best.genes@.len() == 0,
            r.best.fitness_value == crate::chromosome::WORST_FITNESS,
    {
        Population { population: Vec::new(), best: Chromosome::new() }
    }

    /// `size` random chromosomes of `num_genes` genes over the variables of
    /// a dataset with `num_columns` columns (the last is the target), none
    /// evaluated yet; the best is then refreshed.
    pub fn initialize(rng: &mut rand::rngs::StdRng, size: usize, num_genes: usize, num_columns: usize) -> (r: Population)
        requires
            num_columns >= 2,
        ensures
            r.population.len() == size,
            r.freshly_generated(size as int, num_genes as int, num_columns - 1),
            num_genes > 0 ==> r.uniform(num_genes as int),
            r.best_is_min(),
            size > 0 ==> same(r.best, r.population@[0]),
            size > 0 && num_genes > 0 ==> r.wf(num_genes as int),
    {
        let mut members: Vec<Chromosome> = Vec::new();
        let mut i: usize = 0;
        while i < size
            invariant
                i <= size,
                num_columns >= 2,
                members.len() == i,
                forall|k: int|
                    0 <= k < i ==> (#[trigger] members@[k]).genes.len() == num_genes
                        && crate::chromosome::generated(members@[k].genes@, num_columns - 1)
                        && members@[k].is_acyclic()
                        && members@[k].fitness_value == crate::chromosome::WORST_FITNESS
                        && !members@[k].accessed,
            decreases size - i,
        {
            let c = Chromosome::new_x(rng, num_genes, num_columns - 1);
            members.push(c);
            i = i + 1;
        }
        let mut p = Population { population: members, best: Chromosome::new() };
        p.find_best_min();
        proof {
            if size > 0 {
                let k = choose|k: int| #[trigger] first_lowest(p.population@, k) && same(p.best, p.population@[k]);
                if k > 0 {
                    assert(p.population@[k].fitness_value < p.population@[0].fitness_value);
                }
            }
        }
        p
    }

    /// Refreshes the best: the first member of lowest fitness replaces it
    /// when that fitness is lower, or no higher while the best is still the
    /// empty placeholder.
    pub fn find_best_min(&mut self)
        ensures
            final(self).population == old(self).population,
            refreshed(old(self).population@, old(self).best, final(self).best),
            final(self).best.fitness_value <= old(self).best.fitness_value,
            final(self).population.len() > 0 || same(final(self).best, old(self).best),
            final(self).population.len() > 0 ==> final(self).best_is_min(),
    {
        let n = self.population.len();
        if n == 0 {
            return;
        }
        let ghost start = self.best;
        let mut k: usize = 0;
        let mut i: usize = 1;
        while i < n
            invariant
                n == self.population.len(),
                self.population == old(self).population,
                self.best == start,
                1 <= i <= n,
                k < i,
                forall|j: int| 0 <= j < i ==> self.population@[k as int].fitness_value <= #[trigger] self.population@[j].fitness_value,
                forall|j: int| 0 <= j < k ==> self.population@[k as int].fitness_value < #[trigger] self.population@[j].fitness_value,
            decreases n - i,
        {
            if self.population[i].fitness_value < self.population[k].fitness_value {
                k = i;
            }
            i = i + 1;
        }
        assert(first_lowest(self.population@, k as int));
        if self.population[k].fitness_value < self.best.fitness_value || (self.best.genes.len() == 0
            && self.population[k].fitness_value <= self.best.fitness_value) {
            self.best = self.population[k].clone();
        } else {
            assert(forall|j: int| 0 <= j < n ==> !(#[trigger] self.population@[j].fitness_value < start.fitness_value));
            assert(forall|j: int| 0 <= j < n ==> !(#[trigger] self.population@[j].fitness_value <= start.fitness_value) || start.genes@.len() != 0);
        }
    }

    /// The winner of a tournament between the members at `first` and
    /// `second`: the lower fitness, and `first` on a tie.
    pub fn tournament_winner(&self, first: usize, second: usize) -> (r: usize)
        requires
            first < self.population.len(),
            second < self.population.len(),
        ensures
            r == self.tournament(first as int, second as int),
    {
        if self.population[second].fitness_value < self.population[first].fitness_value {
            second
        } else {
            first
        }
    }

    /// Tournament selection of size two: two members drawn uniformly, with
    /// replacement, and the better one returned.
    pub fn tournament_selection(&self, rng: &mut rand::rngs::StdRng) -> (r: &Chromosome)
        requires
            self.population.len() > 0,
        ensures
            exists|i: int, j: int|
                0 <= i < self.population.len() && 0 <= j < self.population.len() && *r
                    == self.population@[#[trigger] self.tournament(i, j)],
    {
        let n = self.population.len() as u64;
        let first = random_below(rng, n) as usize;
        let second = random_below(rng, n) as usize;
        let w = self.tournament_winner(first, second);
        &self.population[w]
    }

    /// A member drawn uniformly.
    pub fn get_random_chromosome(&self, rng: &mut rand::rngs::StdRng) -> (r: &Chromosome)
        requires
            self.population.len() > 0,
        ensures
            exists|i: int| 0 <= i < self.population.len() && *r == #[trigger] self.population@[i],
    {
        let i = random_below(rng, self.population.len() as u64) as usize;
        &self.population[i]
    }

    /// Whether every member was evaluated since the last check; clears every
    /// mark for the next one.
    pub fn all_accessed(&mut self) -> (r: bool)
        ensures
            r == forall|i: int| 0 <= i < old(self).population.len() ==> (#[trigger] old(self).population@[i]).accessed,
            final(self).population.len() == old(self).population.len(),
            forall|i: int|
                0 <= i < final(self).population.len() ==> {
                    &&& (#[trigger] final(self).population@[i]).genes@ == old(self).population@[i].genes@
                    &&& final(self).population@[i].fitness_value == old(self).population@[i].fitness_value
                    &&& !final(self).population@[i].accessed
                },
            final(self).best == old(self).best,
    {
        let n = self.population.len();
        let mut all = true;
        let mut i: usize = 0;
        while i < n
            invariant
                n == self.population.len(),
                n == old(self).population.len(),
                i <= n,
                self.best == old(self).best,
                all == forall|j: int| 0 <= j < i ==> (#[trigger] old(self).population@[j]).accessed,
                forall|j: int|
                    i <= j < n ==> #[trigger] self.population@[j] == old(self).population@[j],
                forall|j: int|
                    0 <= j < i ==> {
                        &&& (#[trigger] self.population@[j]).genes@ == old(self).population@[j].genes@
                        &&& self.population@[j].fitness_value == old(self).population@[j].fitness_value
                        &&& !self.population@[j].accessed
                    },
            decreases n - i,
        {
            let mut c = self.population[i].clone();
            if !c.accessed {
                all = false;
            }
            c.accessed = false;
            self.population.set(i, c);
            i = i + 1;
        }
        all
    }

    /// Stores the fitness of every member from the mean squared errors in
    /// `totals` (bit patterns of doubles, one per member, in order), then
    /// refreshes the best.
    pub fn evaluate(&mut self, totals: &Vec<u64>)
        requires
            totals.len() == old(self).population.len(),
        ensures
            final(self).population.len() == old(self).population.len(),
            forall|i: int|
                0 <= i < final(self).population.len() ==> {
                    &&& (#[trigger] final(self).population@[i]).genes@ == old(self).population@[i].genes@
                    &&& final(self).population@[i].fitness_value == fitness_key_spec(totals@[i])
                    &&& final(self).population@[i].accessed
                },
            exists|scored: Seq<Chromosome>|
                scored == final(self).population@ && #[trigger] refreshed(scored, old(self).best, final(self).best),
            final(self).population.len() > 0 ==> final(self).best_is_min(),
            final(self).best.fitness_value <= old(self).best.fitness_value,
            forall|g: int| old(self).wf(g) ==> #[trigger] final(self).wf(g),
    {
        let n = self.population.len();
        let mut i: usize = 0;
        while i < n
            invariant
                n == self.population.len(),
                n == old(self).population.len(),
                n == totals.len(),
                i <= n,
                self.best == old(self).best,
                forall|j: int|
                    i <= j < n ==> #[trigger] self.population@[j] == old(self).population@[j],
                forall|j: int|
                    0 <= j < i ==> {
                        &&& (#[trigger] self.population@[j]).genes@ == old(self).population@[j].genes@
                        &&& self.population@[j].fitness_value == fitness_key_spec(totals@[j])
                        &&& self.population@[j].accessed
                    },
            decreases n - i,
        {
            let mut c = self.population[i].clone();
            c.record_fitness(totals[i]);
            self.population.set(i, c);
            i = i + 1;
        }
        self.find_best_min();
        assert(refreshed(self.population@, old(self).best, self.best));
        assert forall|g: int| old(self).wf(g) implies #[trigger] self.wf(g) by {
            assert forall|i: int| 0 <= i < self.population.len() implies (#[trigger] self.population@[i]).genes.len()
                == g && self.population@[i].is_acyclic() by {
                assert(old(self).population@[i].genes.len() == g && old(self).population@[i].is_acyclic());
            }
            if refresh_takes_member(self.population@, old(self).best) {
                let k = choose|k: int| #[trigger] first_lowest(self.population@, k) && same(self.best, self.population@[k]);
                assert(self.population@[k].genes.len() == g);
            }
        }
    }

    /// A pair of offspring from given draws: clones of the winners of the
    /// tournaments `a` against `b` and `c` against `d`, exchanged from
    /// `crossover` on when it is given, then each given its mutation (a
    /// locus and the gene put there) when it has one.
    pub fn breed(
        &self,
        a: usize,
        b: usize,
        c: usize,
        d: usize,
        crossover: Option<usize>,
        mut_one: Option<(usize, Gene)>,
        mut_two: Option<(usize, Gene)>,
        num_variables: usize,
    ) -> (r: (Chromosome, Chromosome))
        requires
            a < self.population.len(),
            b < self.population.len(),
            c < self.population.len(),
            d < self.population.len(),
            self.uniform(self.population@[0].genes.len() as int),
            crossover is Some ==> crossover->Some_0 < self.population@[0].genes.len(),
            valid_mutation(mut_one, self.population@[0].genes.len() as int, num_variables as int),
            valid_mutation(mut_two, self.population@[0].genes.len() as int, num_variables as int),
        ensures
            self.offspring_of(
                a as int,
                b as int,
                c as int,
                d as int,
                crossover,
                mut_one,
                mut_two,
                num_variables as int,
                r.0,
                r.1,
            ),
            r.0.genes.len() == self.population@[0].genes.len(),
            r.1.genes.len() == self.population@[0].genes.len(),
            r.0.is_acyclic(),
            r.1.is_acyclic(),
    {
        let ghost g = self.population@[0].genes.len() as int;
        let i = self.tournament_winner(a, b);
        let j = self.tournament_winner(c, d);
        let mut one = self.population[i].clone();
        let mut two = self.population[j].clone();
        assert(self.population@[i as int].genes.len() == g && self.population@[i as int].is_acyclic());
        assert(self.population@[j as int].genes.len() == g && self.population@[j as int].is_acyclic());
        match crossover {
            Some(l) => {
                one.cross_at(&mut two, l);
            },
            None => {},
        }
        let ghost crossed_one = one.genes@;
        let ghost crossed_two = two.genes@;
        match mut_one {
            Some((l, gene)) => {
                proof {
                    lemma_replace_keeps_acyclic(one.genes@, l as int, gene);
                }
                one.genes.set(l, gene);
            },
            None => {},
        }
        match mut_two {
            Some((l, gene)) => {
                proof {
                    lemma_replace_keeps_acyclic(two.genes@, l as int, gene);
                }
                two.genes.set(l, gene);
            },
            None => {},
        }
        assert(one.genes@ == mutated(crossed_one, mut_one));
        assert(two.genes@ == mutated(crossed_two, mut_two));
        (one, two)
    }

    /// Builds the next generation and puts it in place of the current one:
    /// pairs of offspring, each pair bred (see `breed`) from draws made here
    /// (two tournaments of two members drawn uniformly with replacement; a
    /// crossover, with probability `crossover_chance`, at a uniform locus;
    /// for each offspring a mutation, with probability `mutation_chance`, at
    /// a uniform locus with a fresh random gene), then a copy of the best
    /// (never crossed or mutated). The members keep the fitness they were
    /// cloned with until the next evaluation. Returns the fitness of the best.
    pub fn mate(
        &mut self,
        rng: &mut rand::rngs::StdRng,
        num_variables: usize,
        crossover_chance: &rand::distributions::Bernoulli,
        mutation_chance: &rand::distributions::Bernoulli,
    ) -> (r: u64)
        requires
            old(self).population.len() % 2 == 1,
            old(self).uniform(old(self).population@[0].genes.len() as int),
            num_variables > 0,
        ensures
            r == old(self).best.fitness_value,
            elite_kept(*old(self), *final(self)),
            forall|p: int|
                0 <= p < (old(self).population.len() - 1) / 2 ==> #[trigger] old(self).pair_bred(
                    final(self).population@,
                    p,
                    num_variables as int,
                ),
            forall|i: int|
                0 <= i < final(self).population.len() - 1 ==> {
                    &&& (#[trigger] final(self).population@[i]).genes.len() == old(self).population@[0].genes.len()
                    &&& final(self).population@[i].is_acyclic()
                },
            old(self).best.genes.len() == old(self).population@[0].genes.len() && old(self).best.is_acyclic()
                ==> final(self).uniform(old(self).population@[0].genes.len() as int),
            forall|g: int| old(self).wf(g) ==> #[trigger] final(self).wf(g),
    {
        let ghost g = self.population@[0].genes.len() as int;
        let num_genes = self.population[0].genes.len();
        let n = self.population.len();
        let pairs = (n - 1) / 2;
        let mut next: Vec<Chromosome> = Vec::new();
        let mut p: usize = 0;
        while p < pairs
            invariant
                self == old(self),
                self.uniform(g),
                g == self.population@[0].genes.len(),
                num_genes == g,
                n == self.population.len(),
                n % 2 == 1,
                pairs == (n - 1) / 2,
                num_variables > 0,
                p <= pairs,
                next.len() == 2 * p,
                forall|i: int|
                    0 <= i < next.len() ==> {
                        &&& (#[trigger] next@[i]).genes.len() == g
                        &&& next@[i].is_acyclic()
                    },
                forall|q: int| 0 <= q < p ==> #[trigger] self.pair_bred(next@, q, num_variables as int),
            decreases pairs - p,
        {
            let a = random_below(rng, n as u64) as usize;
            let b = random_below(rng, n as u64) as usize;
            let c = random_below(rng, n as u64) as usize;
            let d = random_below(rng, n as u64) as usize;
            let crossover = if random_event(rng, crossover_chance) {
                Some(random_below(rng, num_genes as u64) as usize)
            } else {
                None
            };
            let mut_one = if random_event(rng, mutation_chance) {
                let l = random_below(rng, num_genes as u64) as usize;
                Some((l, Gene::new_random_gene(rng, l, num_variables, l == 0 || l == 1)))
            } else {
                None
            };
            let mut_two = if random_event(rng, mutation_chance) {
                let l = random_below(rng, num_genes as u64) as usize;
                Some((l, Gene::new_random_gene(rng, l, num_variables, l == 0 || l == 1)))
            } else {
                None
            };
            let (one, two) = self.breed(a, b, c, d, crossover, mut_one, mut_two, num_variables);
            let ghost before = next@;
            next.push(one);
            next.push(two);
            assert(self.offspring_of(
                a as int,
                b as int,
                c as int,
                d as int,
                crossover,
                mut_one,
                mut_two,
                num_variables as int,
                next@[2 * p as int],
                next@[2 * p as int + 1],
            ));
            assert forall|q: int| 0 <= q < p + 1 implies #[trigger] self.pair_bred(next@, q, num_variables as int) by {
                if q < p {
                    assert(next@[2 * q] == before[2 * q]);
                    assert(next@[2 * q + 1] == before[2 * q + 1]);
                    assert(self.pair_bred(before, q, num_variables as int));
                }
            }
            assert forall|i: int| 0 <= i < next.len() implies {
                &&& (#[trigger] next@[i]).genes.len() == g
                &&& next@[i].is_acyclic()
            } by {
                if i < before.len() {
                    assert(next@[i] == before[i]);
                }
            }
            p = p + 1;
        }
        let elite = self.best.clone();
        let ghost offspring = next@;
        assert(offspring.len() == old(self).population.len() - 1);
        next.push(elite);
        self.population = next;
        proof {
            assert forall|i: int| 0 <= i < self.population.len() - 1 implies {
                &&& (#[trigger] self.population@[i]).genes.len() == g
                &&& self.population@[i].is_acyclic()
            } by {
                assert(self.population@[i] == offspring[i]);
            }
            assert forall|q: int| 0 <= q < (old(self).population.len() - 1) / 2 implies #[trigger] old(self).pair_bred(
                self.population@,
                q,
                num_variables as int,
            ) by {
                assert(self.population@[2 * q] == offspring[2 * q]);
                assert(self.population@[2 * q + 1] == offspring[2 * q + 1]);
                assert(old(self).pair_bred(offspring, q, num_variables as int));
            }
            if old(self).best.genes.len() == g && old(self).best.is_acyclic() {
                assert forall|i: int| 0 <= i < self.population.len() implies (#[trigger] self.population@[i]).genes.len()
                    == g && self.population@[i].is_acyclic() by {
                    if i == self.population.len() - 1 {
                        assert(self.population@[i] == elite);
                    }
                }
            }
        }
        self.best.fitness_value
    }

    /// The number of members.
    pub fn len(&self) -> (r: usize)
        ensures
            r == self.population.len(),
    {
        self.population.len()
    }
}

} // verus!
