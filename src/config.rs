use vstd::prelude::*;

verus! {

/// The fewest genes a chromosome may have: the first two are terminals.
pub const MIN_GENES: usize = 2;

/// A configuration that no run can start from.
#[derive(Clone, Copy, Debug, PartialEq, Eq, Structural)]
pub enum ConfigError {
    /// Elitism takes one slot and the rest are filled in pairs, so the
    /// population size must be odd.
    EvenPopulation,
    /// Fewer genes than `MIN_GENES`.
    TooFewGenes,
    /// A dataset without rows.
    EmptyDataset,
    /// Rows without a variable column before the target.
    TooFewColumns,
    /// Rows of different lengths.
    UnequalRows,
}

impl ConfigError {
    pub open spec fn spec_message(self) -> Seq<char> {
        match self {
            ConfigError::EvenPopulation => "The number of individuals in the population must be odd for elitism to work"@,
            ConfigError::TooFewGenes => "A chromosome needs at least two genes"@,
            ConfigError::EmptyDataset => "The dataset has no rows"@,
            ConfigError::TooFewColumns => "Each row needs at least one variable before the target"@,
            ConfigError::UnequalRows => "All rows of the dataset must have the same length"@,
        }
    }

    /// A sentence describing the error.
    pub fn message(&self) -> (r: String)
        ensures
            r@ == self.spec_message(),
    {
        match self {
            ConfigError::EvenPopulation => "The number of individuals in the population must be odd for elitism to work".to_owned(),
            ConfigError::TooFewGenes => "A chromosome needs at least two genes".to_owned(),
            ConfigError::EmptyDataset => "The dataset has no rows".to_owned(),
            ConfigError::TooFewColumns => "Each row needs at least one variable before the target".to_owned(),
            ConfigError::UnequalRows => "All rows of the dataset must have the same length".to_owned(),
        }
    }
}

/// A population size is accepted exactly when it is odd (and so at least 1).
pub fn validate_population_size(size: usize) -> (r: Result<(), ConfigError>)
    ensures
        r is Ok <==> size % 2 == 1,
        r is Err ==> r->Err_0 == ConfigError::EvenPopulation,
{
    if size % 2 == 1 {
        Ok(())
    } else {
        Err(ConfigError::EvenPopulation)
    }
}

/// The first thing wrong with a configuration, checked in this order:
/// population size, gene count, then the dataset's row lengths.
pub open spec fn configuration_error(population_size: usize, num_genes: usize, row_lengths: Seq<usize>) -> Option<ConfigError> {
    if population_size % 2 == 0 {
        Some(ConfigError::EvenPopulation)
    } else if num_genes < MIN_GENES {
        Some(ConfigError::TooFewGenes)
    } else if row_lengths.len() == 0 {
        Some(ConfigError::EmptyDataset)
    } else if row_lengths[0] < 2 {
        Some(ConfigError::TooFewColumns)
    } else if exists|i: int| 0 <= i < row_lengths.len() && #[trigger] row_lengths[i] != row_lengths[0] {
        Some(ConfigError::UnequalRows)
    } else {
        None
    }
}

/// Checks a configuration before any evolutionary work; on success returns
/// the number of variables (columns before the target).
pub fn check_configuration(population_size: usize, num_genes: usize, row_lengths: &Vec<usize>) -> (r: Result<usize, ConfigError>)
    ensures
        r is Ok <==> configuration_error(population_size, num_genes, row_lengths@) is None,
        r is Ok ==> r->Ok_0 == row_lengths@[0] - 1 && r->Ok_0 > 0,
        r is Err ==> configuration_error(population_size, num_genes, row_lengths@) == Some(r->Err_0),
{
    if let Err(e) = validate_population_size(population_size) {
        return Err(e);
    }
    if num_genes < MIN_GENES {
        return Err(ConfigError::TooFewGenes);
    }
    if row_lengths.len() == 0 {
        return Err(ConfigError::EmptyDataset);
    }
    let width = row_lengths[0];
    if width < 2 {
        return Err(ConfigError::TooFewColumns);
    }
    let mut i: usize = 0;
    while i < row_lengths.len()
        invariant
            i <= row_lengths.len(),
            width == row_lengths@[0],
            width >= 2,
            row_lengths.len() > 0,
            population_size % 2 == 1,
            num_genes >= MIN_GENES,
            forall|j: int| 0 <= j < i ==> #[trigger] row_lengths@[j] == width,
        decreases row_lengths.len() - i,
    {
        if row_lengths[i] != width {
            assert(row_lengths@[i as int] != row_lengths@[0]);
            return Err(ConfigError::UnequalRows);
        }
        i = i + 1;
    }
    Ok(width - 1)
}

/// The settings of one population's run. The chances are Bernoulli
/// distributions, built (and so checked to lie in `[0, 1]`) by the caller.
pub struct PopulationParameters {
    pub generations: usize,
    pub population_size: usize,
    pub num_genes: usize,
    pub mut_chance: rand::distributions::Bernoulli,
    pub crossover_chance: rand::distributions::Bernoulli,
}

} // verus!
