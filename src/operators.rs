use vstd::prelude::*;

use crate::random::random_below;

verus! {

/// The operators an expression gene can apply. Terminal genes carry
/// `Nothing`.
#[derive(Clone, Copy, Debug, PartialEq, Eq, Structural)]
pub enum Operator {
    Add,
    Subtract,
    Divide,
    Multiply,
    Max,
    Min,
    Square,
    Log2,
    Nothing,
}

/// The unary operators, in the order in which a draw picks them.
pub open spec fn unary_operators() -> Seq<Operator> {
    seq![Operator::Square, Operator::Log2]
}

/// The binary operators, in the order in which a draw picks them.
pub open spec fn binary_operators() -> Seq<Operator> {
    seq![
        Operator::Add,
        Operator::Subtract,
        Operator::Divide,
        Operator::Multiply,
        Operator::Max,
        Operator::Min,
    ]
}

/// Number of unary operators.
pub const UNARY_COUNT: usize = 2;

/// Number of binary operators.
pub const BINARY_COUNT: usize = 6;

impl Operator {
    pub open spec fn is_unary(self) -> bool {
        self == Operator::Square || self == Operator::Log2
    }

    pub open spec fn is_binary(self) -> bool {
        !self.is_unary() && self != Operator::Nothing
    }

    /// The display name of the operator.
    pub open spec fn spec_name(self) -> Seq<char> {
        match self {
            Operator::Add => "add"@,
            Operator::Subtract => "sub"@,
            Operator::Divide => "truediv"@,
            Operator::Multiply => "mul"@,
            Operator::Max => "max"@,
            Operator::Min => "min"@,
            Operator::Square => "square"@,
            Operator::Log2 => "log2"@,
            Operator::Nothing => "nothing"@,
        }
    }

    /// The display name of the operator, as used in expression strings.
    pub fn name(&self) -> (r: String)
        ensures
            r@ == self.spec_name(),
    {
        match self {
            Operator::Add => "add".to_owned(),
            Operator::Subtract => "sub".to_owned(),
            Operator::Divide => "truediv".to_owned(),
            Operator::Multiply => "mul".to_owned(),
            Operator::Max => "max".to_owned(),
            Operator::Min => "min".to_owned(),
            Operator::Square => "square".to_owned(),
            Operator::Log2 => "log2".to_owned(),
            Operator::Nothing => "nothing".to_owned(),
        }
    }

    /// The unary operator at position `i` of the unary set.
    pub fn unary_at(i: usize) -> (r: Operator)
        requires
            i < UNARY_COUNT,
        ensures
            r == unary_operators()[i as int],
            r.is_unary(),
    {
        if i == 0 {
            Operator::Square
        } else {
            Operator::Log2
        }
    }

    /// The binary operator at position `i` of the binary set.
    pub fn binary_at(i: usize) -> (r: Operator)
        requires
            i < BINARY_COUNT,
        ensures
            r == binary_operators()[i as int],
            r.is_binary(),
    {
        match i {
            0 => Operator::Add,
            1 => Operator::Subtract,
            2 => Operator::Divide,
            3 => Operator::Multiply,
            4 => Operator::Max,
            _ => Operator::Min,
        }
    }
}

/// A unary operator drawn uniformly from the unary set.
pub fn get_unary_function(rng: &mut rand::rngs::StdRng) -> (r: Operator)
    ensures
        r.is_unary(),
        unary_operators().contains(r),
{
    let i = random_below(rng, UNARY_COUNT as u64) as usize;
    Operator::unary_at(i)
}

/// A binary operator drawn uniformly from the binary set.
pub fn get_binary_function(rng: &mut rand::rngs::StdRng) -> (r: Operator)
    ensures
        r.is_binary(),
        binary_operators().contains(r),
{
    let i = random_below(rng, BINARY_COUNT as u64) as usize;
    Operator::binary_at(i)
}

} // verus!
