//! Genetic programming over acyclic expression graphs.
//!
//! An expression is a `Chromosome`: a sequence of `Gene`s in which every
//! operator gene refers only to genes at earlier positions, so the graph can
//! never hold a cycle. The library holds the encoding, the random
//! construction of genes and chromosomes, the genetic operators (crossover,
//! mutation, tournament selection with elitism) and the population that ties
//! them together. Numeric evaluation of expressions is left to the caller,
//! which hands fitness values back as order-preserving integer keys (see
//! `fitness`).

pub mod operators;
pub mod random;
pub mod gene;
pub mod chromosome;
pub mod population;
pub mod config;
pub mod island;
pub mod gp;
