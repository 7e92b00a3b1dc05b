use vstd::prelude::*;

use crate::gene::{Gene, GeneType};
use crate::random::{random_below, shuffle_genes};

verus! {

/// The bit pattern of the largest finite double: the fitness of an
/// individual that was never evaluated, or whose error overflowed.
pub const WORST_FITNESS: u64 = 0x7FEF_FFFF_FFFF_FFFF;

/// The fitness key for a mean squared error given as a double's bit pattern.
/// Bit patterns up to `WORST_FITNESS` are exactly the non-negative finite
/// doubles, and on them integer order is numeric order; anything else
/// (infinite, not a number, or negative, which a mean of squares never is)
/// becomes the worst fitness.
pub fn fitness_key(total_bits: u64) -> (r: u64)
    ensures
        r == fitness_key_spec(total_bits),
{
    if total_bits <= WORST_FITNESS {
        total_bits
    } else {
        WORST_FITNESS
    }
}

/// Every gene reads only genes before it: the graph has no cycle.
pub open spec fn acyclic(genes: Seq<Gene>) -> bool {
    forall|i: int| 0 <= i < genes.len() ==> #[trigger] genes[i].refs_below(i)
}

/// Each gene fits its position over `num_variables` inputs, and the first
/// two genes are terminals.
pub open spec fn generated(genes: Seq<Gene>, num_variables: int) -> bool {
    forall|i: int|
        0 <= i < genes.len() ==> #[trigger] genes[i].fits(i, num_variables) && (i < 2 ==> genes[i].is_terminal())
}

/// `a2` and `b2` are `a` and `b` with every gene at or after `locus`
/// exchanged.
pub open spec fn crossed_at(a: Seq<Gene>, b: Seq<Gene>, a2: Seq<Gene>, b2: Seq<Gene>, locus: int) -> bool {
    &&& a2.len() == a.len()
    &&& b2.len() == b.len()
    &&& forall|i: int| 0 <= i < a.len() ==> #[trigger] a2[i] == if i < locus { a[i] } else { b[i] }
    &&& forall|i: int| 0 <= i < b.len() ==> #[trigger] b2[i] == if i < locus { b[i] } else { a[i] }
}

/// The genes of `a` before `locus`, then those of `b` from `locus` on, over
/// the length of `a`.
pub open spec fn spliced(a: Seq<Gene>, b: Seq<Gene>, locus: int) -> Seq<Gene> {
    Seq::new(a.len(), |i: int| if i < locus { a[i] } else { b[i] })
}

/// Replacing one gene by a gene that reads only earlier positions keeps a
/// chromosome acyclic.
pub proof fn lemma_replace_keeps_acyclic(genes: Seq<Gene>, locus: int, gene: Gene)
    requires
        acyclic(genes),
        0 <= locus < genes.len(),
        gene.refs_below(locus),
    ensures
        acyclic(genes.update(locus, gene)),
{
    let after = genes.update(locus, gene);
    assert forall|k: int| 0 <= k < after.len() implies #[trigger] after[k].refs_below(k) by {
        if k != locus {
            assert(genes[k].refs_below(k));
        }
    }
}

/// `after` is `before` with the gene at `locus` replaced by a fresh gene
/// that fits that position.
pub open spec fn mutated_at(before: Seq<Gene>, after: Seq<Gene>, locus: int, num_variables: int) -> bool {
    &&& 0 <= locus < before.len()
    &&& after == before.update(locus, after[locus])
    &&& after[locus].fits(locus, num_variables)
    &&& locus < 2 ==> after[locus].is_terminal()
}

/// Exchanging the genes from a locus on keeps both chromosomes acyclic:
/// the invariant only ties a gene to its own position, which the exchange
/// leaves unchanged.
pub proof fn lemma_crossover_keeps_acyclic(a: Seq<Gene>, b: Seq<Gene>, a2: Seq<Gene>, b2: Seq<Gene>, locus: int)
    requires
        a.len() == b.len(),
        acyclic(a),
        acyclic(b),
        crossed_at(a, b, a2, b2, locus),
    ensures
        acyclic(a2),
        acyclic(b2),
{
    assert forall|i: int| 0 <= i < a2.len() implies #[trigger] a2[i].refs_below(i) by {
        if i >= locus {
            assert(b[i].refs_below(i));
        } else {
            assert(a[i].refs_below(i));
        }
    }
    assert forall|i: int| 0 <= i < b2.len() implies #[trigger] b2[i].refs_below(i) by {
        if i >= locus {
            assert(a[i].refs_below(i));
        } else {
            assert(b[i].refs_below(i));
        }
    }
}

/// The character of a decimal digit.
pub open spec fn digit_char(d: nat) -> char {
    if d == 0 {
        '0'
    } else if d == 1 {
        '1'
    } else if d == 2 {
        '2'
    } else if d == 3 {
        '3'
    } else if d == 4 {
        '4'
    } else if d == 5 {
        '5'
    } else if d == 6 {
        '6'
    } else if d == 7 {
        '7'
    } else if d == 8 {
        '8'
    } else {
        '9'
    }
}

/// The decimal digits of `n`, without leading zeros.
pub open spec fn decimal_text(n: nat) -> Seq<char>
    decreases n,
{
    if n < 10 {
        seq![digit_char(n)]
    } else {
        decimal_text(n / 10) + seq![digit_char(n % 10)]
    }
}

/// Relies on the `Display` of `usize` (through `to_string`): the decimal
/// digits, without sign or leading zeros.
#[verifier::external_body]
fn decimal(n: usize) -> (r: String)
    ensures
        r@ == decimal_text(n as nat),
{
    n.to_string()
}

/// The views of the given strings.
pub open spec fn texts_of(texts: Seq<String>) -> Seq<Seq<char>> {
    texts.map_values(|t: String| t@)
}

/// The expression rooted at gene `pos`: a constant as its given text, a
/// variable as `v` and its index, an operator gene as its operator's name
/// applied to the expressions it reads, as in `add(v0, square(1.8))`.
pub open spec fn expr_text(genes: Seq<Gene>, pos: int, constant_texts: Seq<Seq<char>>) -> Seq<char>
    decreases pos,
{
    if pos < 0 || pos >= genes.len() {
        Seq::empty()
    } else {
        let g = genes[pos];
        match g.type_of_gene {
            GeneType::Constant(_) => constant_texts[pos],
            GeneType::Variable(v) => "v"@ + decimal_text(v as nat),
            GeneType::Unary => if g.left_ptr < pos {
                g.ops.spec_name() + "("@ + expr_text(genes, g.left_ptr as int, constant_texts) + ")"@
            } else {
                Seq::empty()
            },
            GeneType::Binary => if g.left_ptr < pos && g.right_ptr < pos {
                g.ops.spec_name() + "("@ + expr_text(genes, g.left_ptr as int, constant_texts) + ", "@
                    + expr_text(genes, g.right_ptr as int, constant_texts) + ")"@
            } else {
                Seq::empty()
            },
        }
    }
}

/// One candidate expression: its genes (the last one is the root), its
/// fitness key (lower is better) and whether it has been evaluated since the
/// mark was last cleared.
pub struct Chromosome {
    pub genes: Vec<Gene>,
    pub fitness_value: u64,
    pub accessed: bool,
}

impl Clone for Chromosome {
    fn clone(&self) -> (r: Self)
        ensures
            r.genes@ == self.genes@,
            r.fitness_value == self.fitness_value,
            r.accessed == self.accessed,
    {
        let genes = self.genes.clone();
        assert(genes@ =~= self.genes@);
        Chromosome { genes, fitness_value: self.fitness_value, accessed: self.accessed }
    }
}

impl Chromosome {
    pub open spec fn is_acyclic(&self) -> bool {
        acyclic(self.genes@)
    }

    /// An empty chromosome with the worst fitness.
    pub fn new() -> (r: Chromosome)
        ensures
            r.genes@ == Seq::<Gene>::empty(),
            r.fitness_value == WORST_FITNESS,
            !r.accessed,
    {
        Chromosome { genes: Vec::new(), fitness_value: WORST_FITNESS, accessed: false }
    }

    /// A chromosome holding `genes_array`, with the worst fitness.
    pub fn new_from_genes_array(genes_array: Vec<Gene>) -> (r: Chromosome)
        ensures
            r.genes@ == genes_array@,
            r.fitness_value == WORST_FITNESS,
            !r.accessed,
    {
        Chromosome { genes: genes_array, fitness_value: WORST_FITNESS, accessed: false }
    }

    /// A random chromosome of `num_genes` genes over `num_variables` inputs;
    /// gene `i` is drawn for position `i`, and the first two are terminals.
    pub fn new_x(rng: &mut rand::rngs::StdRng, num_genes: usize, num_variables: usize) -> (r: Chromosome)
        requires
            num_variables > 0,
        ensures
            r.genes.len() == num_genes,
            generated(r.genes@, num_variables as int),
            r.is_acyclic(),
            r.fitness_value == WORST_FITNESS,
            !r.accessed,
    {
        let mut c = Chromosome::new();
        let mut i: usize = 0;
        while i < num_genes
            invariant
                i <= num_genes,
                num_variables > 0,
                c.genes.len() == i,
                generated(c.genes@, num_variables as int),
                c.fitness_value == WORST_FITNESS,
                !c.accessed,
            decreases num_genes - i,
        {
            let g = Gene::new_random_gene(rng, i, num_variables, i == 1 || i == 0);
            let ghost before = c.genes@;
            c.genes.push(g);
            assert forall|k: int| 0 <= k < c.genes@.len() implies #[trigger] c.genes@[k].fits(k, num_variables as int)
                && (k < 2 ==> c.genes@[k].is_terminal()) by {
                if k < i {
                    assert(c.genes@[k] == before[k]);
                    assert(before[k].fits(k, num_variables as int));
                } else {
                    assert(c.genes@[k] == g);
                }
            }
            i = i + 1;
        }
        assert forall|k: int| 0 <= k < c.genes@.len() implies #[trigger] c.genes@[k].refs_below(k) by {
            assert(c.genes@[k].fits(k, num_variables as int));
        }
        c
    }

    /// The number of genes.
    pub fn len(&self) -> (r: usize)
        ensures
            r == self.genes.len(),
    {
        self.genes.len()
    }

    /// Puts the genes in a random order. The acyclicity invariant is not
    /// kept in general.
    pub fn shuffle(&mut self, rng: &mut rand::rngs::StdRng)
        ensures
            final(self).genes@.to_multiset() == old(self).genes@.to_multiset(),
            final(self).fitness_value == old(self).fitness_value,
            final(self).accessed == old(self).accessed,
    {
        shuffle_genes(&mut self.genes, rng);
    }

    /// Exchanges, in place, every gene at or after `locus` with the gene at
    /// the same position of `parent_2`. Both stay acyclic.
    pub fn cross_at(&mut self, parent_2: &mut Chromosome, locus: usize)
        requires
            old(self).genes.len() == old(parent_2).genes.len(),
        ensures
            crossed_at(old(self).genes@, old(parent_2).genes@, final(self).genes@, final(parent_2).genes@, locus as int),
            final(self).genes@ == spliced(old(self).genes@, old(parent_2).genes@, locus as int),
            final(parent_2).genes@ == spliced(old(parent_2).genes@, old(self).genes@, locus as int),
            old(self).is_acyclic() && old(parent_2).is_acyclic() ==> final(self).is_acyclic()
                && final(parent_2).is_acyclic(),
            final(self).fitness_value == old(self).fitness_value,
            final(self).accessed == old(self).accessed,
            final(parent_2).fitness_value == old(parent_2).fitness_value,
            final(parent_2).accessed == old(parent_2).accessed,
    {
        let n = self.genes.len();
        let mut i = locus;
        while i < n
            invariant
                n == self.genes.len(),
                n == parent_2.genes.len(),
                n == old(self).genes.len(),
                locus <= i || n <= i,
                forall|j: int|
                    0 <= j < n ==> #[trigger] self.genes@[j] == if locus <= j < i {
                        old(parent_2).genes@[j]
                    } else {
                        old(self).genes@[j]
                    },
                forall|j: int|
                    0 <= j < n ==> #[trigger] parent_2.genes@[j] == if locus <= j < i {
                        old(self).genes@[j]
                    } else {
                        old(parent_2).genes@[j]
                    },
                self.fitness_value == old(self).fitness_value,
                self.accessed == old(self).accessed,
                parent_2.fitness_value == old(parent_2).fitness_value,
                parent_2.accessed == old(parent_2).accessed,
            decreases n - i,
        {
            let mine = self.genes[i];
            let theirs = parent_2.genes[i];
            self.genes.set(i, theirs);
            parent_2.genes.set(i, mine);
            i = i + 1;
        }
        assert(crossed_at(old(self).genes@, old(parent_2).genes@, self.genes@, parent_2.genes@, locus as int));
        assert(self.genes@ =~= spliced(old(self).genes@, old(parent_2).genes@, locus as int));
        assert(parent_2.genes@ =~= spliced(old(parent_2).genes@, old(self).genes@, locus as int));
        proof {
            if old(self).is_acyclic() && old(parent_2).is_acyclic() {
                lemma_crossover_keeps_acyclic(
                    old(self).genes@,
                    old(parent_2).genes@,
                    self.genes@,
                    parent_2.genes@,
                    locus as int,
                );
            }
        }
    }

    /// Exchanges, in place, every gene at or after `crossover_loc` with the
    /// gene at the same position of `parent_2`; without a locus, one is drawn
    /// uniformly from the positions. Both stay acyclic.
    pub fn cross_with(&mut self, rng: &mut rand::rngs::StdRng, parent_2: &mut Chromosome, crossover_loc: Option<usize>)
        requires
            old(self).genes.len() == old(parent_2).genes.len(),
            crossover_loc is None ==> old(self).genes.len() > 0,
        ensures
            exists|locus: int|
                {
                    &&& crossover_loc is Some ==> locus == crossover_loc->Some_0
                    &&& crossover_loc is None ==> 0 <= locus < old(self).genes.len()
                    &&& #[trigger] crossed_at(
                        old(self).genes@,
                        old(parent_2).genes@,
                        final(self).genes@,
                        final(parent_2).genes@,
                        locus,
                    )
                },
            old(self).is_acyclic() && old(parent_2).is_acyclic() ==> final(self).is_acyclic()
                && final(parent_2).is_acyclic(),
            final(self).fitness_value == old(self).fitness_value,
            final(self).accessed == old(self).accessed,
            final(parent_2).fitness_value == old(parent_2).fitness_value,
            final(parent_2).accessed == old(parent_2).accessed,
    {
        let cross_loc = match crossover_loc {
            Some(l) => l,
            None => random_below(rng, self.genes.len() as u64) as usize,
        };
        self.cross_at(parent_2, cross_loc);
    }

    /// Replaces the gene at a uniformly drawn locus with a fresh random gene
    /// for that position; every other gene is kept.
    pub fn mutate(&mut self, rng: &mut rand::rngs::StdRng, num_variables: usize)
        requires
            old(self).genes.len() > 0,
            num_variables > 0,
        ensures
            exists|locus: int| #[trigger]
                mutated_at(old(self).genes@, final(self).genes@, locus, num_variables as int),
            old(self).is_acyclic() ==> final(self).is_acyclic(),
            final(self).fitness_value == old(self).fitness_value,
            final(self).accessed == old(self).accessed,
    {
        let mut_loc = random_below(rng, self.genes.len() as u64) as usize;
        let g = Gene::new_random_gene(rng, mut_loc, num_variables, mut_loc == 0 || mut_loc == 1);
        self.genes.set(mut_loc, g);
        assert(mutated_at(old(self).genes@, self.genes@, mut_loc as int, num_variables as int));
        proof {
            if old(self).is_acyclic() {
                lemma_replace_keeps_acyclic(old(self).genes@, mut_loc as int, g);
            }
        }
    }

    /// Appends the expression rooted at gene `pos` to `builder`.
    fn render(&self, pos: usize, builder: &mut String, constant_texts: &Vec<String>)
        requires
            self.is_acyclic(),
            pos < self.genes.len(),
            constant_texts.len() == self.genes.len(),
        ensures
            final(builder)@ == old(builder)@ + expr_text(self.genes@, pos as int, texts_of(constant_texts@)),
        decreases pos,
    {
        let g = self.genes[pos];
        assert(self.genes@[pos as int].refs_below(pos as int));
        let ghost texts = texts_of(constant_texts@);
        match g.type_of_gene {
            GeneType::Constant(_) => {
                builder.append(constant_texts[pos].as_str());
            },
            GeneType::Variable(v) => {
                let digits = decimal(v);
                builder.append("v");
                builder.append(digits.as_str());
                assert(builder@ =~= old(builder)@ + ("v"@ + decimal_text(v as nat)));
            },
            GeneType::Unary => {
                let name = g.ops.name();
                builder.append(name.as_str());
                builder.append("(");
                self.render(g.left_ptr, builder, constant_texts);
                builder.append(")");
                assert(builder@ =~= old(builder)@ + (g.ops.spec_name() + "("@ + expr_text(
                    self.genes@,
                    g.left_ptr as int,
                    texts,
                ) + ")"@));
            },
            GeneType::Binary => {
                let name = g.ops.name();
                builder.append(name.as_str());
                builder.append("(");
                self.render(g.left_ptr, builder, constant_texts);
                builder.append(", ");
                self.render(g.right_ptr, builder, constant_texts);
                builder.append(")");
                assert(builder@ =~= old(builder)@ + (g.ops.spec_name() + "("@ + expr_text(
                    self.genes@,
                    g.left_ptr as int,
                    texts,
                ) + ", "@ + expr_text(self.genes@, g.right_ptr as int, texts) + ")"@));
            },
        }
    }

    /// `builder` followed by the expression rooted at `position` (the last
    /// gene when none is given). `constant_texts` holds, at the position of
    /// each constant gene, the text to show for it.
    pub fn make_function_string(&self, position: Option<usize>, builder: String, constant_texts: &Vec<String>) -> (r: String)
        requires
            self.is_acyclic(),
            constant_texts.len() == self.genes.len(),
            match position {
                Some(p) => p < self.genes.len(),
                None => self.genes.len() > 0,
            },
        ensures
            r@ == builder@ + expr_text(
                self.genes@,
                match position {
                    Some(p) => p as int,
                    None => self.genes.len() - 1,
                },
                texts_of(constant_texts@),
            ),
    {
        let pos = match position {
            Some(p) => p,
            None => self.genes.len() - 1,
        };
        let mut out = builder;
        self.render(pos, &mut out, constant_texts);
        out
    }

    /// The expression rooted at the last gene.
    pub fn function_string(&self, constant_texts: &Vec<String>) -> (r: String)
        requires
            self.is_acyclic(),
            self.genes.len() > 0,
            constant_texts.len() == self.genes.len(),
        ensures
            r@ == expr_text(self.genes@, self.genes.len() - 1, texts_of(constant_texts@)),
    {
        let r = self.make_function_string(None, String::new(), constant_texts);
        assert(r@ =~= expr_text(self.genes@, self.genes.len() - 1, texts_of(constant_texts@)));
        r
    }

    /// Stores the fitness key for a mean squared error given as a double's
    /// bit pattern, clamping what is not a non-negative finite number to the
    /// worst fitness, marks the chromosome evaluated and returns the key.
    pub fn record_fitness(&mut self, total_bits: u64) -> (r: u64)
        ensures
            r == fitness_key_spec(total_bits),
            final(self).fitness_value == r,
            final(self).accessed,
            final(self).genes == old(self).genes,
    {
        let key = fitness_key(total_bits);
        self.fitness_value = key;
        self.accessed = true;
        key
    }
}

/// The fitness key of a mean squared error's bit pattern.
pub open spec fn fitness_key_spec(total_bits: u64) -> u64 {
    if total_bits <= WORST_FITNESS {
        total_bits
    } else {
        WORST_FITNESS
    }
}

} // verus!
