use abo_evolution::genetics::{Expression, Gene, ABO};
use abo_evolution::population::{count, initial_population, progress, SetupError};
use abo_evolution::simulation::{run, simulate, GenerationCounts};
use rand::SeedableRng;
use rand_pcg::Mcg128Xsl64;

const ALLELES: [ABO; 3] = [ABO::A, ABO::B, ABO::O];

fn aa() -> Gene {
    Gene::new(ABO::A, ABO::A)
}
fn ao() -> Gene {
    Gene::new(ABO::A, ABO::O)
}
fn bb() -> Gene {
    Gene::new(ABO::B, ABO::B)
}
fn bo() -> Gene {
    Gene::new(ABO::B, ABO::O)
}
fn oo() -> Gene {
    Gene::new(ABO::O, ABO::O)
}
fn ab() -> Gene {
    Gene::new(ABO::A, ABO::B)
}

fn seeded(seed: u64) -> Mcg128Xsl64 {
    Mcg128Xsl64::seed_from_u64(seed)
}

#[test]
fn phenotype_table() {
    assert_eq!(Gene::new(ABO::O, ABO::O).expr(), Expression::O);
    assert_eq!(Gene::new(ABO::A, ABO::B).expr(), Expression::AB);
    assert_eq!(Gene::new(ABO::B, ABO::A).expr(), Expression::AB);
    assert_eq!(Gene::new(ABO::A, ABO::O).expr(), Expression::A);
    assert_eq!(Gene::new(ABO::O, ABO::A).expr(), Expression::A);
    assert_eq!(Gene::new(ABO::B, ABO::O).expr(), Expression::B);
    assert_eq!(Gene::new(ABO::O, ABO::B).expr(), Expression::B);
    assert_eq!(Gene::new(ABO::A, ABO::A).expr(), Expression::A);
    assert_eq!(Gene::new(ABO::B, ABO::B).expr(), Expression::B);
}

#[test]
fn phenotype_ignores_allele_order() {
    for x in ALLELES {
        for y in ALLELES {
            assert_eq!(Gene::new(x, y).expr(), Gene::new(y, x).expr());
        }
    }
}

#[test]
fn allele_numbering() {
    assert_eq!(ABO::from_index(0), ABO::A);
    assert_eq!(ABO::from_index(1), ABO::B);
    assert_eq!(ABO::from_index(2), ABO::O);
}

#[test]
fn genotype_numbering() {
    assert_eq!(Gene::from_indices(0, 0), Gene::new(ABO::A, ABO::A));
    assert_eq!(Gene::from_indices(1, 2), Gene::new(ABO::B, ABO::O));
    assert_eq!(Gene::from_indices(2, 1), Gene::new(ABO::O, ABO::B));
    assert_eq!(Gene::from_indices(0, 1), Gene::new(ABO::A, ABO::B));
}

#[test]
fn pick_and_combine() {
    let g = Gene::new(ABO::A, ABO::O);
    assert_eq!(g.pick(true), ABO::A);
    assert_eq!(g.pick(false), ABO::O);
    let h = Gene::new(ABO::B, ABO::O);
    assert_eq!(g.combine(&h, true, true), Gene::new(ABO::A, ABO::B));
    assert_eq!(g.combine(&h, false, true), Gene::new(ABO::O, ABO::B));
    assert_eq!(g.combine(&h, true, false), Gene::new(ABO::A, ABO::O));
    assert_eq!(g.combine(&h, false, false), Gene::new(ABO::O, ABO::O));
}

#[test]
fn random_alleles_cover_all_three() {
    let mut random = seeded(1);
    let mut seen = [false; 3];
    for _ in 0..300 {
        match ABO::from_random(&mut random) {
            ABO::A => seen[0] = true,
            ABO::B => seen[1] = true,
            ABO::O => seen[2] = true,
        }
    }
    assert_eq!(seen, [true, true, true]);
}

#[test]
fn random_genes_vary() {
    let mut random = seeded(2);
    let first = Gene::from_random(&mut random);
    let mut differs = false;
    for _ in 0..100 {
        if Gene::from_random(&mut random) != first {
            differs = true;
        }
    }
    assert!(differs);
}

#[test]
fn chromosome_takes_both_copies() {
    let mut random = seeded(3);
    let g = Gene::new(ABO::A, ABO::B);
    let mut seen_a = false;
    let mut seen_b = false;
    for _ in 0..200 {
        match g.chromosome(&mut random) {
            ABO::A => seen_a = true,
            ABO::B => seen_b = true,
            ABO::O => panic!("O is not carried"),
        }
    }
    assert!(seen_a && seen_b);
}

#[test]
fn cross_of_homozygous_parents() {
    let mut random = seeded(4);
    for _ in 0..20 {
        assert_eq!(aa().cross(&bb(), &mut random), Gene::new(ABO::A, ABO::B));
        assert_eq!(oo().cross(&oo(), &mut random), oo());
    }
}

#[test]
fn initial_population_equal_weights() {
    let people = initial_population(10, 1, 1, 1, 1).unwrap();
    assert_eq!(
        people,
        vec![aa(), ao(), ao(), ao(), bb(), bo(), bo(), bo(), oo(), ab()]
    );
}

#[test]
fn initial_population_rounds_up() {
    // unit weight 2 + 4 = 6; 7 rounds up to 12, two multiples
    let people = initial_population(7, 2, 0, 1, 0).unwrap();
    assert_eq!(
        people,
        vec![aa(), ao(), ao(), ao(), aa(), ao(), ao(), ao(), aa(), ao(), ao(), ao(), aa(), ao(), ao(), ao(), oo(), oo()]
    );
}

#[test]
fn initial_population_only_o() {
    assert_eq!(initial_population(1, 0, 0, 1, 0), Ok(vec![oo()]));
}

#[test]
fn initial_population_empty_request() {
    assert_eq!(initial_population(0, 1, 1, 1, 1), Ok(vec![]));
}

#[test]
fn initial_population_only_a() {
    for n in [1usize, 2, 5, 17] {
        let people = initial_population(n, 1, 0, 0, 0).unwrap();
        assert_eq!(people.len(), 4 * n);
        assert!(people.iter().all(|g| g.expr() == Expression::A));
    }
}

#[test]
fn initial_population_zero_weights() {
    assert_eq!(initial_population(10, 0, 0, 0, 0), Err(SetupError::ZeroWeights));
    assert_eq!(initial_population(0, 0, 0, 0, 0), Err(SetupError::ZeroWeights));
}

#[test]
fn initial_population_overflow() {
    assert_eq!(initial_population(10, 0, 0, usize::MAX, 0), Err(SetupError::Overflow));
    assert_eq!(initial_population(usize::MAX, 1, 0, 0, 0), Err(SetupError::Overflow));
}

#[test]
fn initial_population_deterministic() {
    assert_eq!(initial_population(23, 3, 1, 2, 5), initial_population(23, 3, 1, 2, 5));
}

#[test]
fn count_by_blood_type() {
    let people = vec![aa(), ao(), bb(), bo(), bo(), oo(), ab(), Gene::new(ABO::O, ABO::A)];
    assert_eq!(count(&people), (3, 3, 1, 1));
    assert_eq!(count(&[]), (0, 0, 0, 0));
}

#[test]
fn counts_sum_to_size() {
    let people = initial_population(50, 2, 3, 1, 4).unwrap();
    let (a, b, o, ab) = count(&people);
    assert_eq!((a + b + o + ab) as usize, people.len());
}

#[test]
fn progress_keeps_size() {
    let mut random = seeded(5);
    let people = initial_population(40, 1, 2, 3, 1).unwrap();
    let next = progress(&mut random, &people);
    assert_eq!(next.len(), people.len());
    assert!(progress(&mut random, &[]).is_empty());
}

#[test]
fn progress_draws_from_parents() {
    let mut random = seeded(6);
    let people = vec![aa(), bb()];
    let mut kinds = Vec::new();
    for _ in 0..50 {
        for g in progress(&mut random, &people) {
            assert_ne!(g.0, ABO::O);
            assert_ne!(g.1, ABO::O);
            if !kinds.contains(&g) {
                kinds.push(g);
            }
        }
    }
    assert!(kinds.len() > 1);
}

#[test]
fn all_o_is_absorbing() {
    let mut random = seeded(7);
    let mut people = vec![oo(); 9];
    for _ in 0..5 {
        people = progress(&mut random, &people);
        assert_eq!(people, vec![oo(); 9]);
    }
}

#[test]
fn scenario_ten_people_no_generations() {
    let mut random = seeded(8);
    let rows = run(&mut random, 10, 1, 1, 1, 1, 0).unwrap();
    assert_eq!(rows, vec![GenerationCounts { generation: 0, a: 4, b: 4, o: 1, ab: 1 }]);
}

#[test]
fn scenario_only_o_three_generations() {
    let mut random = seeded(9);
    let rows = run(&mut random, 1, 0, 0, 1, 0, 3).unwrap();
    assert_eq!(rows.len(), 4);
    for (i, row) in rows.iter().enumerate() {
        assert_eq!(*row, GenerationCounts { generation: i, a: 0, b: 0, o: 1, ab: 0 });
    }
}

#[test]
fn one_report_per_generation() {
    let mut random = seeded(10);
    for num_gen in [0usize, 1, 4, 12] {
        let rows = run(&mut random, 30, 2, 1, 1, 1, num_gen).unwrap();
        assert_eq!(rows.len(), num_gen + 1);
        for (i, row) in rows.iter().enumerate() {
            assert_eq!(row.generation, i);
            assert_eq!(row.a + row.b + row.o + row.ab, rows[0].a + rows[0].b + rows[0].o + rows[0].ab);
        }
    }
}

#[test]
fn simulate_reports_start() {
    let mut random = seeded(11);
    let people = vec![aa(), bb(), oo(), ab(), ao()];
    let rows = simulate(&mut random, people, 2);
    assert_eq!(rows.len(), 3);
    assert_eq!(rows[0], GenerationCounts { generation: 0, a: 2, b: 1, o: 1, ab: 1 });
    for row in &rows {
        assert_eq!(row.a + row.b + row.o + row.ab, 5);
    }
}

#[test]
fn run_rejects_zero_weights() {
    let mut random = seeded(12);
    assert_eq!(run(&mut random, 10, 0, 0, 0, 0, 3), Err(SetupError::ZeroWeights));
}
