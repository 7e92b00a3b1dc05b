use vstd::prelude::*;

verus! {

/// One line of the fitness trace: a generation and the fitness key of the
/// best individual carried out of it.
#[derive(Clone, Copy, Debug, PartialEq, Eq, Structural)]
pub struct DataToWrite {
    pub generation: usize,
    pub fitness: u64,
}

/// Where a run stands: the population is to be evaluated, to reproduce, or
/// the run is over and its result can be reported.
#[derive(Clone, Copy, Debug, PartialEq, Eq, Structural)]
pub enum Phase {
    Evaluate,
    Reproduce,
    Report,
}

/// The decisions of the generational loop. The caller performs each phase
/// on its population (evaluation, then reproduction) and reports back; the
/// run keeps count and records one trace entry per generation. Every
/// reproduction is followed by an evaluation, so the run ends on an evaluated
/// population.
pub struct Run {
    pub generations: usize,
    pub generation: usize,
    pub phase: Phase,
    pub fitness_graph: Vec<DataToWrite>,
}

impl Run {
    /// The trace holds one entry per finished generation, numbered in
    /// order; reproduction happens only while generations remain, and the
    /// run reports only when all are done.
    pub open spec fn wf(&self) -> bool {
        &&& self.generation <= self.generations
        &&& self.fitness_graph.len() == self.generation
        &&& forall|i: int| 0 <= i < self.fitness_graph.len() ==> (#[trigger] self.fitness_graph@[i]).generation == i
        &&& self.phase == Phase::Reproduce ==> self.generation < self.generations
        &&& self.phase == Phase::Report ==> self.generation == self.generations
    }

    /// A run of `generations` generations, about to evaluate the initial
    /// population.
    pub fn new(generations: usize) -> (r: Run)
        ensures
            r.wf(),
            r.generations == generations,
            r.generation == 0,
            r.phase == Phase::Evaluate,
            r.fitness_graph@.len() == 0,
    {
        Run { generations, generation: 0, phase: Phase::Evaluate, fitness_graph: Vec::new() }
    }

    /// The population has been evaluated: it reproduces next while
    /// generations remain; otherwise the run is over.
    pub fn evaluated(&mut self)
        requires
            old(self).wf(),
            old(self).phase == Phase::Evaluate,
        ensures
            final(self).wf(),
            final(self).phase == (if old(self).generation < old(self).generations {
                Phase::Reproduce
            } else {
                Phase::Report
            }),
            final(self).generation == old(self).generation,
            final(self).generations == old(self).generations,
            final(self).fitness_graph@ == old(self).fitness_graph@,
    {
        self.phase = if self.generation < self.generations { Phase::Reproduce } else { Phase::Report };
    }

    /// The population has reproduced, carrying forward a best individual of
    /// fitness `elite_fitness`: the generation is recorded and the new
    /// population is evaluated next.
    pub fn reproduced(&mut self, elite_fitness: u64)
        requires
            old(self).wf(),
            old(self).phase == Phase::Reproduce,
        ensures
            final(self).wf(),
            final(self).fitness_graph@ == old(self).fitness_graph@.push(
                DataToWrite { generation: old(self).generation, fitness: elite_fitness },
            ),
            final(self).generation == old(self).generation + 1,
            final(self).generations == old(self).generations,
            final(self).phase == Phase::Evaluate,
    {
        self.fitness_graph.push(DataToWrite { generation: self.generation, fitness: elite_fitness });
        self.generation = self.generation + 1;
        self.phase = Phase::Evaluate;
    }

    /// The fitness trace, one entry per generation in order.
    pub fn trace(&self) -> (r: &Vec<DataToWrite>)
        ensures
            r@ == self.fitness_graph@,
    {
        &self.fitness_graph
    }
}

} // verus!
