use vstd::arithmetic::div_mod::lemma_fundamental_div_mod_converse;
use vstd::arithmetic::power2::{lemma2_to64, lemma2_to64_rest, lemma_pow2_strictly_increases, lemma_pow2_unfold, pow2};
use vstd::prelude::*;

use crate::operators::{get_binary_function, get_unary_function, Operator};
use crate::random::{random_below, random_bool};

verus! {

/// `2^52`: the weight of the implicit leading bit of a double's significand.
pub const FRACTION_UNIT: u64 = 0x10_0000_0000_0000;

/// `2^53`: random constants are the multiples of `1 / 2^53` in `[0, 1)`.
pub const CONSTANT_STEPS: u64 = 0x20_0000_0000_0000;

/// `bits` is the IEEE-754 double encoding of `m / 2^53`: zero for `m == 0`,
/// otherwise a normal number whose significand `2^52 + fraction`, scaled by
/// the power of two the exponent field gives, is `m`.
pub open spec fn encodes_unit_fraction(bits: u64, m: nat) -> bool {
    if m == 0 {
        bits == 0
    } else {
        let e = bits as int / FRACTION_UNIT as int;
        let f = bits as int % FRACTION_UNIT as int;
        &&& 970 <= e <= 1022
        &&& m * pow2((1022 - e) as nat) == FRACTION_UNIT as int + f
    }
}

/// The double encoding of `m / 2^53`, built from the integer alone.
pub fn unit_fraction_bits(m: u64) -> (r: u64)
    requires
        m < CONSTANT_STEPS,
    ensures
        encodes_unit_fraction(r, m as nat),
{
    if m == 0 {
        return 0;
    }
    proof {
        lemma2_to64();
        lemma2_to64_rest();
    }
    let mut x: u64 = m;
    let mut s: u64 = 0;
    while x < FRACTION_UNIT
        invariant
            x as nat == m as nat * pow2(s as nat),
            pow2(s as nat) <= x,
            0 < x < CONSTANT_STEPS,
            s <= 52,
            pow2(52) == FRACTION_UNIT,
        decreases 52 - s,
    {
        proof {
            lemma_pow2_unfold((s + 1) as nat);
            if s >= 52 {
                if s > 52 {
                    lemma_pow2_strictly_increases(52, s as nat);
                }
            }
            assert(m as nat * pow2((s + 1) as nat) == 2 * (m as nat * pow2(s as nat))) by (nonlinear_arith)
                requires
                    pow2((s + 1) as nat) == 2 * pow2(s as nat),
            ;
        }
        x = x * 2;
        s = s + 1;
    }
    let r: u64 = (1022 - s) * FRACTION_UNIT + (x - FRACTION_UNIT);
    proof {
        lemma_fundamental_div_mod_converse(
            r as int,
            FRACTION_UNIT as int,
            (1022 - s) as int,
            (x - FRACTION_UNIT) as int,
        );
        assert((1022 - (1022 - s)) as nat == s as nat);
    }
    r
}

/// What a gene is: a constant (the bit pattern of a double), a reference to
/// an input variable, or the application of an operator to earlier genes.
#[derive(Clone, Copy, Debug, PartialEq, Eq, Structural)]
pub enum GeneType {
    Constant(u64),
    Variable(usize),
    Unary,
    Binary,
}

/// One node of an expression graph. `left_ptr` and `right_ptr` are positions
/// of earlier genes in the owning chromosome; a unary gene reads only
/// `left_ptr`, a terminal neither.
#[derive(Clone, Copy, Debug, PartialEq, Eq, Structural)]
pub struct Gene {
    pub type_of_gene: GeneType,
    pub left_ptr: usize,
    pub right_ptr: usize,
    pub ops: Operator,
}

impl Gene {
    pub open spec fn is_terminal(self) -> bool {
        match self.type_of_gene {
            GeneType::Constant(_) | GeneType::Variable(_) => true,
            _ => false,
        }
    }

    /// Every position the gene reads lies before `pos`.
    pub open spec fn refs_below(self, pos: int) -> bool {
        match self.type_of_gene {
            GeneType::Unary => self.left_ptr < pos,
            GeneType::Binary => self.left_ptr < pos && self.right_ptr < pos,
            _ => true,
        }
    }

    /// The gene could stand at `pos` of a chromosome over `num_variables`
    /// inputs: it reads only earlier genes and existing variables, and its
    /// operator fits its kind.
    pub open spec fn fits(self, pos: int, num_variables: int) -> bool {
        &&& self.refs_below(pos)
        &&& match self.type_of_gene {
            GeneType::Constant(_) => self.ops == Operator::Nothing,
            GeneType::Variable(v) => v < num_variables && self.ops == Operator::Nothing,
            GeneType::Unary => self.ops.is_unary(),
            GeneType::Binary => self.ops.is_binary(),
        }
    }

    /// A random gene for position `curr_loc`: with even odds a terminal
    /// (then, with even odds, a random constant or a random variable) or an
    /// operator gene (binary or unary, with even odds) over earlier genes.
    /// `first_or_second_in_chromosome` forces a terminal.
    pub fn new_random_gene(
        rng: &mut rand::rngs::StdRng,
        curr_loc: usize,
        num_variables: usize,
        first_or_second_in_chromosome: bool,
    ) -> (r: Gene)
        requires
            num_variables > 0,
            first_or_second_in_chromosome || curr_loc > 0,
        ensures
            r.fits(curr_loc as int, num_variables as int),
            first_or_second_in_chromosome ==> r.is_terminal(),
            r.type_of_gene is Constant ==> exists|m: nat|
                m < CONSTANT_STEPS && #[trigger] encodes_unit_fraction(r.type_of_gene->Constant_0, m),
    {
        let terminal = random_bool(rng);
        if terminal || first_or_second_in_chromosome {
            if random_bool(rng) {
                Gene::new_constant(rng, None)
            } else {
                Gene::new_random_variable(rng, num_variables)
            }
        } else if random_bool(rng) {
            Gene::new_binary(rng, curr_loc)
        } else {
            Gene::new_unary(rng, curr_loc)
        }
    }

    /// A gene from its parts; missing positions are 0 and a missing operator
    /// is `Nothing`.
    pub fn new(gene_type: GeneType, func: Option<Operator>, left: Option<usize>, right: Option<usize>) -> (r: Gene)
        ensures
            r.type_of_gene == gene_type,
            r.ops == (match func {
                Some(f) => f,
                None => Operator::Nothing,
            }),
            r.left_ptr == (match left {
                Some(l) => l,
                None => 0,
            }),
            r.right_ptr == (match right {
                Some(p) => p,
                None => 0,
            }),
    {
        Gene {
            type_of_gene: gene_type,
            left_ptr: match left {
                Some(l) => l,
                None => 0,
            },
            right_ptr: match right {
                Some(p) => p,
                None => 0,
            },
            ops: match func {
                Some(f) => f,
                None => Operator::Nothing,
            },
        }
    }

    /// A constant gene holding `constant` (a double's bit pattern), or, when
    /// none is given, a random multiple of `1 / 2^53` in `[0, 1)`.
    pub fn new_constant(rng: &mut rand::rngs::StdRng, constant: Option<u64>) -> (r: Gene)
        ensures
            r.ops == Operator::Nothing,
            r.left_ptr == 0,
            r.right_ptr == 0,
            r.type_of_gene is Constant,
            constant is Some ==> r.type_of_gene->Constant_0 == constant->Some_0,
            constant is None ==> exists|m: nat|
                m < CONSTANT_STEPS && #[trigger] encodes_unit_fraction(r.type_of_gene->Constant_0, m),
    {
        match constant {
            Some(c) => Gene { type_of_gene: GeneType::Constant(c), left_ptr: 0, right_ptr: 0, ops: Operator::Nothing },
            None => {
                let m = random_below(rng, CONSTANT_STEPS);
                let bits = unit_fraction_bits(m);
                let r = Gene { type_of_gene: GeneType::Constant(bits), left_ptr: 0, right_ptr: 0, ops: Operator::Nothing };
                assert(encodes_unit_fraction(r.type_of_gene->Constant_0, m as nat));
                r
            },
        }
    }

    /// A gene reading a variable drawn uniformly from `0..num_variables`.
    pub fn new_random_variable(rng: &mut rand::rngs::StdRng, num_variables: usize) -> (r: Gene)
        requires
            num_variables > 0,
        ensures
            r.type_of_gene is Variable,
            r.type_of_gene->Variable_0 < num_variables,
            r.ops == Operator::Nothing,
            r.left_ptr == 0,
            r.right_ptr == 0,
    {
        let v = random_below(rng, num_variables as u64) as usize;
        Gene::new_variable(v)
    }

    /// A gene reading variable `variable_number`.
    pub fn new_variable(variable_number: usize) -> (r: Gene)
        ensures
            r == (Gene {
                type_of_gene: GeneType::Variable(variable_number),
                left_ptr: 0,
                right_ptr: 0,
                ops: Operator::Nothing,
            }),
    {
        Gene {
            type_of_gene: GeneType::Variable(variable_number),
            left_ptr: 0,
            right_ptr: 0,
            ops: Operator::Nothing,
        }
    }

    /// A unary gene over a random earlier position, with a random unary
    /// operator.
    pub fn new_unary(rng: &mut rand::rngs::StdRng, curr_loc: usize) -> (r: Gene)
        requires
            curr_loc > 0,
        ensures
            r.type_of_gene == GeneType::Unary,
            r.left_ptr < curr_loc,
            r.right_ptr == 0,
            r.ops.is_unary(),
    {
        let left = random_below(rng, curr_loc as u64) as usize;
        let op = get_unary_function(rng);
        Gene::new_unary2(left, op)
    }

    /// A unary gene applying `func` to the gene at `left`.
    pub fn new_unary2(left: usize, func: Operator) -> (r: Gene)
        ensures
            r == (Gene { type_of_gene: GeneType::Unary, left_ptr: left, right_ptr: 0, ops: func }),
    {
        Gene { type_of_gene: GeneType::Unary, left_ptr: left, right_ptr: 0, ops: func }
    }

    /// A binary gene over two random earlier positions, with a random binary
    /// operator.
    pub fn new_binary(rng: &mut rand::rngs::StdRng, curr_loc: usize) -> (r: Gene)
        requires
            curr_loc > 0,
        ensures
            r.type_of_gene == GeneType::Binary,
            r.left_ptr < curr_loc,
            r.right_ptr < curr_loc,
            r.ops.is_binary(),
    {
        let left = random_below(rng, curr_loc as u64) as usize;
        let right = random_below(rng, curr_loc as u64) as usize;
        let op = get_binary_function(rng);
        Gene::new_binary2(left, right, op)
    }

    /// A binary gene applying `func` to the genes at `curr_loc` and
    /// `curr_loc2`.
    pub fn new_binary2(curr_loc: usize, curr_loc2: usize, func: Operator) -> (r: Gene)
        ensures
            r == (Gene {
                type_of_gene: GeneType::Binary,
                left_ptr: curr_loc,
                right_ptr: curr_loc2,
                ops: func,
            }),
    {
        Gene { type_of_gene: GeneType::Binary, left_ptr: curr_loc, right_ptr: curr_loc2, ops: func }
    }

    /// The display name of the gene's operator (`nothing` for a terminal).
    pub fn get_operator(&self) -> (r: String)
        ensures
            r@ == self.ops.spec_name(),
    {
        self.ops.name()
    }
}

} // verus!
