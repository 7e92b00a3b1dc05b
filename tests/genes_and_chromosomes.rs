use rand::rngs::StdRng;
use rand::SeedableRng;

use rust_gp::chromosome::{fitness_key, Chromosome, WORST_FITNESS};
use rust_gp::gene::{unit_fraction_bits, Gene, GeneType, CONSTANT_STEPS};
use rust_gp::operators::{get_binary_function, get_unary_function, Operator};

fn is_acyclic(c: &Chromosome) -> bool {
    c.genes.iter().enumerate().all(|(i, g)| match g.type_of_gene {
        GeneType::Unary => g.left_ptr < i,
        GeneType::Binary => g.left_ptr < i && g.right_ptr < i,
        _ => true,
    })
}

fn texts(c: &Chromosome) -> Vec<String> {
    c.genes
        .iter()
        .map(|g| match g.type_of_gene {
            GeneType::Constant(bits) => format!("{}", f64::from_bits(bits)),
            _ => String::new(),
        })
        .collect()
}

#[test]
fn operator_names() {
    let all = [
        (Operator::Add, "add"),
        (Operator::Subtract, "sub"),
        (Operator::Divide, "truediv"),
        (Operator::Multiply, "mul"),
        (Operator::Max, "max"),
        (Operator::Min, "min"),
        (Operator::Square, "square"),
        (Operator::Log2, "log2"),
        (Operator::Nothing, "nothing"),
    ];
    for (op, name) in all {
        assert_eq!(op.name(), name);
    }
}

#[test]
fn operator_tables() {
    assert_eq!(Operator::unary_at(0), Operator::Square);
    assert_eq!(Operator::unary_at(1), Operator::Log2);
    assert_eq!(Operator::binary_at(0), Operator::Add);
    assert_eq!(Operator::binary_at(2), Operator::Divide);
    assert_eq!(Operator::binary_at(5), Operator::Min);
}

#[test]
fn random_operators_come_from_their_sets() {
    let mut rng = StdRng::seed_from_u64(7);
    for _ in 0..100 {
        let u = get_unary_function(&mut rng);
        assert!(matches!(u, Operator::Square | Operator::Log2));
        let b = get_binary_function(&mut rng);
        assert!(!matches!(b, Operator::Square | Operator::Log2 | Operator::Nothing));
    }
}

#[test]
fn gene_constructors() {
    let v = Gene::new_variable(2);
    assert_eq!(v.type_of_gene, GeneType::Variable(2));
    assert_eq!(v.get_operator(), "nothing");
    let u = Gene::new_unary2(0, Operator::Square);
    assert_eq!((u.type_of_gene, u.left_ptr, u.right_ptr, u.ops), (GeneType::Unary, 0, 0, Operator::Square));
    let b = Gene::new_binary2(0, 1, Operator::Max);
    assert_eq!((b.type_of_gene, b.left_ptr, b.right_ptr), (GeneType::Binary, 0, 1));
    assert_eq!(b.get_operator(), "max");
    let g = Gene::new(GeneType::Binary, Some(Operator::Add), Some(3), None);
    assert_eq!((g.left_ptr, g.right_ptr, g.ops), (3, 0, Operator::Add));
    let t = Gene::new(GeneType::Variable(1), None, None, None);
    assert_eq!((t.left_ptr, t.right_ptr, t.ops), (0, 0, Operator::Nothing));
}

#[test]
fn given_constant_is_kept() {
    let mut rng = StdRng::seed_from_u64(1);
    let g = Gene::new_constant(&mut rng, Some(1.8f64.to_bits()));
    assert_eq!(g.type_of_gene, GeneType::Constant(1.8f64.to_bits()));
}

#[test]
fn random_constants_are_unit_fractions() {
    let mut rng = StdRng::seed_from_u64(2);
    for _ in 0..200 {
        let g = Gene::new_constant(&mut rng, None);
        match g.type_of_gene {
            GeneType::Constant(bits) => {
                let x = f64::from_bits(bits);
                assert!((0.0..1.0).contains(&x));
                let scaled = x * CONSTANT_STEPS as f64;
                assert_eq!(scaled, scaled.trunc());
            }
            other => panic!("not a constant: {:?}", other),
        }
    }
}

#[test]
fn unit_fraction_bits_match_float_division() {
    let steps = CONSTANT_STEPS as f64;
    for m in [0u64, 1, 2, 3, 1000, 1 << 52, (1 << 52) + 1, CONSTANT_STEPS - 1] {
        assert_eq!(unit_fraction_bits(m), (m as f64 / steps).to_bits(), "m = {}", m);
    }
    assert_eq!(f64::from_bits(unit_fraction_bits(1 << 52)), 0.5);
}

#[test]
fn random_genes_fit_their_position() {
    let mut rng = StdRng::seed_from_u64(3);
    for pos in 0..50usize {
        let g = Gene::new_random_gene(&mut rng, pos, 4, pos < 2);
        match g.type_of_gene {
            GeneType::Constant(_) => assert_eq!(g.ops, Operator::Nothing),
            GeneType::Variable(v) => assert!(v < 4),
            GeneType::Unary => {
                assert!(pos >= 2 && g.left_ptr < pos);
                assert!(matches!(g.ops, Operator::Square | Operator::Log2));
            }
            GeneType::Binary => assert!(pos >= 2 && g.left_ptr < pos && g.right_ptr < pos),
        }
    }
}

#[test]
fn random_chromosome_shape() {
    let mut rng = StdRng::seed_from_u64(4);
    for n in [0usize, 1, 2, 5, 40] {
        let c = Chromosome::new_x(&mut rng, n, 3);
        assert_eq!(c.len(), n);
        assert!(is_acyclic(&c));
        assert_eq!(c.fitness_value, WORST_FITNESS);
        assert!(!c.accessed);
        for g in c.genes.iter().take(2) {
            assert!(matches!(g.type_of_gene, GeneType::Constant(_) | GeneType::Variable(_)));
        }
    }
}

#[test]
fn empty_chromosome() {
    let c = Chromosome::new();
    assert_eq!(c.len(), 0);
    assert_eq!(f64::from_bits(c.fitness_value), f64::MAX);
}

#[test]
fn crossover_at_a_given_locus() {
    let mut rng = StdRng::seed_from_u64(5);
    let a0 = vec![Gene::new_variable(0), Gene::new_variable(1), Gene::new_binary2(0, 1, Operator::Add)];
    let b0 = vec![Gene::new_variable(2), Gene::new_variable(3), Gene::new_unary2(1, Operator::Log2)];
    let mut a = Chromosome::new_from_genes_array(a0.clone());
    let mut b = Chromosome::new_from_genes_array(b0.clone());
    a.cross_with(&mut rng, &mut b, Some(1));
    assert_eq!(a.genes, vec![a0[0], b0[1], b0[2]]);
    assert_eq!(b.genes, vec![b0[0], a0[1], a0[2]]);
    assert!(is_acyclic(&a) && is_acyclic(&b));
}

#[test]
fn crossover_at_zero_and_past_the_end() {
    let mut rng = StdRng::seed_from_u64(6);
    let a0 = vec![Gene::new_variable(0), Gene::new_variable(1)];
    let b0 = vec![Gene::new_variable(2), Gene::new_variable(3)];
    let mut a = Chromosome::new_from_genes_array(a0.clone());
    let mut b = Chromosome::new_from_genes_array(b0.clone());
    a.cross_with(&mut rng, &mut b, Some(0));
    assert_eq!((a.genes.clone(), b.genes.clone()), (b0.clone(), a0.clone()));
    a.cross_with(&mut rng, &mut b, Some(2));
    assert_eq!((a.genes, b.genes), (b0, a0));
}

#[test]
fn random_crossover_swaps_a_suffix() {
    let mut rng = StdRng::seed_from_u64(8);
    for _ in 0..50 {
        let a0 = Chromosome::new_x(&mut rng, 10, 3);
        let b0 = Chromosome::new_x(&mut rng, 10, 3);
        let (mut a, mut b) = (a0.clone(), b0.clone());
        a.cross_with(&mut rng, &mut b, None);
        assert!(is_acyclic(&a) && is_acyclic(&b));
        let locus = (0..=10).find(|&l| {
            (0..10).all(|i| {
                let (ea, eb) = if i < l { (a0.genes[i], b0.genes[i]) } else { (b0.genes[i], a0.genes[i]) };
                a.genes[i] == ea && b.genes[i] == eb
            })
        });
        assert!(locus.is_some());
    }
}

#[test]
fn mutation_changes_at_most_one_gene() {
    let mut rng = StdRng::seed_from_u64(9);
    for _ in 0..100 {
        let before = Chromosome::new_x(&mut rng, 8, 2);
        let mut after = before.clone();
        after.mutate(&mut rng, 2);
        assert!(is_acyclic(&after));
        let differing = (0..8).filter(|&i| before.genes[i] != after.genes[i]).count();
        assert!(differing <= 1);
        assert_eq!(after.fitness_value, before.fitness_value);
    }
}

#[test]
fn shuffle_keeps_the_genes() {
    let mut rng = StdRng::seed_from_u64(10);
    let c0 = Chromosome::new_x(&mut rng, 30, 5);
    let mut c = c0.clone();
    c.shuffle(&mut rng);
    let mut x: Vec<String> = c0.genes.iter().map(|g| format!("{:?}", g)).collect();
    let mut y: Vec<String> = c.genes.iter().map(|g| format!("{:?}", g)).collect();
    x.sort();
    y.sort();
    assert_eq!(x, y);
}

#[test]
fn fitness_keys_clamp_and_keep_order() {
    assert_eq!(fitness_key(2.5f64.to_bits()), 2.5f64.to_bits());
    assert_eq!(fitness_key(0.0f64.to_bits()), 0);
    assert_eq!(fitness_key(f64::INFINITY.to_bits()), WORST_FITNESS);
    assert_eq!(fitness_key(f64::NAN.to_bits()), WORST_FITNESS);
    assert_eq!(fitness_key((-1.0f64).to_bits()), WORST_FITNESS);
    assert_eq!(fitness_key(f64::MAX.to_bits()), f64::MAX.to_bits());
    assert!(fitness_key(1.0f64.to_bits()) < fitness_key(2.0f64.to_bits()));
    assert!(fitness_key(1e-300f64.to_bits()) < fitness_key(1e300f64.to_bits()));
}

#[test]
fn recording_fitness_marks_evaluated() {
    let mut c = Chromosome::new_from_genes_array(vec![Gene::new_variable(0)]);
    assert_eq!(c.record_fitness(0.25f64.to_bits()), 0.25f64.to_bits());
    assert!(c.accessed);
    assert_eq!(c.record_fitness(f64::INFINITY.to_bits()), f64::MAX.to_bits());
    assert_eq!(f64::from_bits(c.fitness_value), f64::MAX);
}

#[test]
fn constant_expression_strings() {
    let mut rng = StdRng::seed_from_u64(11);
    let zero = Chromosome::new_from_genes_array(vec![Gene::new_constant(&mut rng, Some(0.0f64.to_bits()))]);
    assert_eq!(zero.function_string(&texts(&zero)), "0");
    let c = Chromosome::new_from_genes_array(vec![Gene::new_constant(&mut rng, Some(1.8f64.to_bits()))]);
    assert_eq!(c.function_string(&texts(&c)), "1.8");
}

#[test]
fn variable_expression_strings() {
    let c = Chromosome::new_from_genes_array(vec![Gene::new_variable(2)]);
    assert_eq!(c.function_string(&texts(&c)), "v2");
    let c = Chromosome::new_from_genes_array(vec![Gene::new_variable(107)]);
    assert_eq!(c.function_string(&texts(&c)), "v107");
}

#[test]
fn operator_expression_strings() {
    let mut rng = StdRng::seed_from_u64(12);
    let c = Chromosome::new_from_genes_array(vec![Gene::new_variable(1), Gene::new_unary2(0, Operator::Square)]);
    assert_eq!(c.function_string(&texts(&c)), "square(v1)");
    let c = Chromosome::new_from_genes_array(vec![
        Gene::new_variable(1),
        Gene::new_variable(2),
        Gene::new_binary2(0, 1, Operator::Divide),
    ]);
    assert_eq!(c.function_string(&texts(&c)), "truediv(v1, v2)");
    let c = Chromosome::new_from_genes_array(vec![
        Gene::new_variable(0),
        Gene::new_constant(&mut rng, Some(1.8f64.to_bits())),
        Gene::new_unary2(1, Operator::Square),
        Gene::new_binary2(0, 2, Operator::Add),
    ]);
    assert_eq!(c.function_string(&texts(&c)), "add(v0, square(1.8))");
    assert_eq!(c.make_function_string(Some(2), String::from("= "), &texts(&c)), "= square(1.8)");
}
