//! Populations of genotypes: counting blood types and producing the next
//! generation by random mating.

use rand_pcg::Mcg128Xsl64;
use vstd::prelude::*;

use crate::genetics::{Expression, Gene, ABO};
use crate::random::choose_gene;

verus! {

/// How many individuals of `people` have blood type `e`.
pub open spec fn count_of(people: Seq<Gene>, e: Expression) -> nat
    decreases people.len(),
{
    if people.len() == 0 {
        0
    } else {
        count_of(people.drop_last(), e) + if people.last().phenotype() == e {
            1nat
        } else {
            0nat
        }
    }
}

/// The four blood-type counts of `people`, in the order A, B, O, AB.
pub open spec fn counts(people: Seq<Gene>) -> (nat, nat, nat, nat) {
    (
        count_of(people, Expression::A),
        count_of(people, Expression::B),
        count_of(people, Expression::O),
        count_of(people, Expression::AB),
    )
}

/// Every individual is counted under exactly one blood type, so the four
/// counts add up to the size of the population.
pub proof fn lemma_counts_sum(people: Seq<Gene>)
    ensures
        count_of(people, Expression::A) + count_of(people, Expression::B) + count_of(
            people,
            Expression::O,
        ) + count_of(people, Expression::AB) == people.len(),
    decreases people.len(),
{
    if people.len() > 0 {
        lemma_counts_sum(people.drop_last());
    }
}

/// The blood-type counts of `people`, in the order A, B, O, AB.
pub fn count(people: &[Gene]) -> (r: (u64, u64, u64, u64))
    ensures
        r.0 == count_of(people@, Expression::A),
        r.1 == count_of(people@, Expression::B),
        r.2 == count_of(people@, Expression::O),
        r.3 == count_of(people@, Expression::AB),
        r.0 + r.1 + r.2 + r.3 == people@.len(),
{
    let mut a: u64 = 0;
    let mut b: u64 = 0;
    let mut o: u64 = 0;
    let mut ab: u64 = 0;
    let mut i: usize = 0;
    while i < people.len()
        invariant
            i <= people@.len(),
            a == count_of(people@.subrange(0, i as int), Expression::A),
            b == count_of(people@.subrange(0, i as int), Expression::B),
            o == count_of(people@.subrange(0, i as int), Expression::O),
            ab == count_of(people@.subrange(0, i as int), Expression::AB),
            a + b + o + ab == i,
        decreases people@.len() - i,
    {
        let ghost before = people@.subrange(0, i as int);
        assert(people@.subrange(0, i + 1).drop_last() == before);
        match people[i].expr() {
            Expression::A => a += 1,
            Expression::B => b += 1,
            Expression::O => o += 1,
            Expression::AB => ab += 1,
        }
        i += 1;
    }
    assert(people@.subrange(0, i as int) == people@);
    (a, b, o, ab)
}

/// The first allele of `child` is carried by some member of `parents`, and so
/// is its second, possibly by the same member.
pub open spec fn descends_from(child: Gene, parents: Seq<Gene>) -> bool {
    &&& exists|j: int| 0 <= j < parents.len() && #[trigger] parents[j].carries(child.0)
    &&& exists|k: int| 0 <= k < parents.len() && #[trigger] parents[k].carries(child.1)
}

/// `next` can follow `now` by one round of random mating: it has as many
/// individuals, and each descends from `now`.
pub open spec fn is_next_generation(now: Seq<Gene>, next: Seq<Gene>) -> bool {
    &&& next.len() == now.len()
    &&& forall|i: int| 0 <= i < next.len() ==> descends_from(#[trigger] next[i], now)
}

/// Every individual of `people` has genotype O/O.
pub open spec fn all_o(people: Seq<Gene>) -> bool {
    forall|i: int| 0 <= i < people.len() ==> #[trigger] people[i] == Gene(ABO::O, ABO::O)
}

/// The next generation: for each individual of `now`, two parents drawn
/// uniformly from `now` with replacement, and their offspring.
pub fn progress(random: &mut Mcg128Xsl64, now: &[Gene]) -> (r: Vec<Gene>)
    ensures
        is_next_generation(now@, r@),
{
    let mut nex: Vec<Gene> = Vec::with_capacity(now.len());
    let mut i: usize = 0;
    while i < now.len()
        invariant
            i <= now@.len(),
            nex@.len() == i,
            forall|t: int| 0 <= t < i ==> descends_from(#[trigger] nex@[t], now@),
        decreases now@.len() - i,
    {
        let a = choose_gene(random, now);
        let b = choose_gene(random, now);
        match (a, b) {
            (Some(a), Some(b)) => {
                let child = a.cross(&b, random);
                let ghost j = now@.index_of(a);
                let ghost k = now@.index_of(b);
                assert(now@[j].carries(child.0));
                assert(now@[k].carries(child.1));
                nex.push(child);
            },
            // `now` is not empty here, so both draws found a parent.
            _ => {},
        }
        i += 1;
    }
    nex
}

/// A population of O/O genotypes stays so: no round of mating can bring an
/// A or B allele back.
pub proof fn lemma_all_o_absorbing(now: Seq<Gene>, next: Seq<Gene>)
    requires
        all_o(now),
        is_next_generation(now, next),
    ensures
        all_o(next),
{
    assert forall|i: int| 0 <= i < next.len() implies #[trigger] next[i] == Gene(ABO::O, ABO::O) by {
        assert(descends_from(next[i], now));
    }
}


/// For each homozygous A (or B) individual of the initial population, the
/// number of A/O (or B/O) carriers that come with it.
pub const AO_RATE: usize = 3;

/// Why an initial population could not be built.
#[derive(Debug, Copy, Clone, PartialEq, Eq, Structural, Hash)]
pub enum SetupError {
    /// All four weights are zero, so no ratio can be honoured.
    ZeroWeights,
    /// The unit weight or the size of the population exceeds `usize::MAX`.
    Overflow,
}

/// The outcome of building a population, with the population seen as a
/// sequence.
pub open spec fn outcome_view(r: Result<Vec<Gene>, SetupError>) -> Result<Seq<Gene>, SetupError> {
    match r {
        Ok(p) => Ok(p@),
        Err(e) => Err(e),
    }
}

/// The number of individuals that one unit of each weight stands for.
pub open spec fn unit_weight(wa: int, wb: int, wo: int, wab: int) -> int {
    wa + wb + wo * (1 + AO_RATE) + wab * (1 + AO_RATE)
}

/// How many multiples of the unit weight `u` the requested size `n` is
/// rounded up to.
pub open spec fn multiples(n: int, u: int) -> int {
    (n + u - 1) / u
}

/// The requested size `n` rounded up to a multiple of the unit weight `u`.
pub open spec fn rounded_size(n: int, u: int) -> int {
    multiples(n, u) * u
}

/// The number of units of a weight `w` is the rounded size times `w` over
/// the unit weight `u`, which is `w` for each multiple of `u`.
pub proof fn lemma_units_of_weight(n: int, u: int, w: int)
    requires
        n >= 0,
        u > 0,
    ensures
        rounded_size(n, u) * w / u == multiples(n, u) * w,
{
    let k = multiples(n, u);
    let r = rounded_size(n, u);
    assert(r * w == u * (k * w)) by (nonlinear_arith)
        requires
            r == k * u,
    ;
    vstd::arithmetic::div_mod::lemma_div_multiples_vanish(k * w, u);
}

/// `s` repeated `k` times.
pub open spec fn repeat(s: Seq<Gene>, k: nat) -> Seq<Gene>
    decreases k,
{
    if k == 0 {
        Seq::empty()
    } else {
        repeat(s, (k - 1) as nat) + s
    }
}

/// One homozygous individual followed by `AO_RATE` heterozygous carriers.
pub open spec fn family(hom: Gene, het: Gene) -> Seq<Gene> {
    seq![hom] + Seq::new(AO_RATE as nat, |_i: int| het)
}

/// The initial population for requested size `n` and weights `wa`, `wb`,
/// `wo`, `wab` (unit weight positive): `k * wa` A families, `k * wb` B
/// families, `k * wo` O/O and `k * wab` A/B individuals, `k` being the number
/// of multiples of the unit weight.
pub open spec fn initial_people(n: int, wa: int, wb: int, wo: int, wab: int) -> Seq<Gene> {
    let k = multiples(n, unit_weight(wa, wb, wo, wab));
    repeat(family(Gene(ABO::A, ABO::A), Gene(ABO::A, ABO::O)), (k * wa) as nat) + repeat(
        family(Gene(ABO::B, ABO::B), Gene(ABO::B, ABO::O)),
        (k * wb) as nat,
    ) + repeat(seq![Gene(ABO::O, ABO::O)], (k * wo) as nat) + repeat(
        seq![Gene(ABO::A, ABO::B)],
        (k * wab) as nat,
    )
}

/// What building the initial population gives: `ZeroWeights` when all
/// weights are zero, `Overflow` when the unit weight or the population's size
/// exceeds `usize::MAX`, else the population of `initial_people`.
pub open spec fn initial_outcome(n: int, wa: int, wb: int, wo: int, wab: int) -> Result<
    Seq<Gene>,
    SetupError,
> {
    let u = unit_weight(wa, wb, wo, wab);
    if u == 0 {
        Err(SetupError::ZeroWeights)
    } else if u > usize::MAX || initial_people(n, wa, wb, wo, wab).len() > usize::MAX {
        Err(SetupError::Overflow)
    } else {
        Ok(initial_people(n, wa, wb, wo, wab))
    }
}

proof fn lemma_repeat_len(s: Seq<Gene>, k: nat)
    ensures
        repeat(s, k).len() == k * s.len(),
    decreases k,
{
    if k == 0 {
        assert(k * s.len() == 0);
    } else {
        lemma_repeat_len(s, (k - 1) as nat);
        let j = (k - 1) as nat;
        assert(repeat(s, k) == repeat(s, j) + s);
        assert(k * s.len() == j * s.len() + s.len()) by (nonlinear_arith)
            requires
                k == j + 1,
        ;
    }
}

proof fn lemma_repeat_single_len(g: Gene, k: nat)
    ensures
        repeat(seq![g], k).len() == k,
{
    lemma_repeat_len(seq![g], k);
    assert(k * seq![g].len() == k) by (nonlinear_arith)
        requires
            seq![g].len() == 1,
    ;
}

/// Appends `k` copies of `s` to `people`.
fn push_repeated(people: &mut Vec<Gene>, s: &Vec<Gene>, k: usize)
    ensures
        final(people)@ == old(people)@ + repeat(s@, k as nat),
{
    let ghost start = people@;
    let mut i: usize = 0;
    while i < k
        invariant
            i <= k,
            people@ == start + repeat(s@, i as nat),
        decreases k - i,
    {
        let ghost before = people@;
        let mut j: usize = 0;
        while j < s.len()
            invariant
                j <= s@.len(),
                people@ == before + s@.subrange(0, j as int),
            decreases s@.len() - j,
        {
            people.push(s[j]);
            assert(s@.subrange(0, j + 1) == s@.subrange(0, j as int).push(s@[j as int]));
            j += 1;
        }
        assert(s@.subrange(0, j as int) == s@);
        assert(start + repeat(s@, (i + 1) as nat) == start + repeat(s@, i as nat) + s@);
        i += 1;
    }
}

/// One homozygous individual followed by `AO_RATE` heterozygous carriers.
fn family_of(hom: Gene, het: Gene) -> (r: Vec<Gene>)
    ensures
        r@ == family(hom, het),
{
    let mut r: Vec<Gene> = Vec::new();
    r.push(hom);
    let mut i: usize = 0;
    while i < AO_RATE
        invariant
            i <= AO_RATE,
            r@ == seq![hom] + Seq::new(i as nat, |_i: int| het),
        decreases AO_RATE - i,
    {
        r.push(het);
        assert(seq![hom] + Seq::new((i + 1) as nat, |_i: int| het) == (seq![hom] + Seq::new(
            i as nat,
            |_i: int| het,
        )).push(het));
        i += 1;
    }
    r
}

/// Builds the initial population for a requested size `num_people` and the
/// weights of blood types A, B, O and AB. The size is rounded up to a
/// multiple of the unit weight; then for each unit of `rate_a` one A/A and
/// `AO_RATE` A/O individuals are added, likewise for B, and one O/O or A/B
/// individual for each unit of `rate_o` or `rate_ab`. No randomness is used.
pub fn initial_population(
    num_people: usize,
    rate_a: usize,
    rate_b: usize,
    rate_o: usize,
    rate_ab: usize,
) -> (r: Result<Vec<Gene>, SetupError>)
    ensures
        outcome_view(r) == initial_outcome(
            num_people as int,
            rate_a as int,
            rate_b as int,
            rate_o as int,
            rate_ab as int,
        ),
{
    let ghost (n, wa, wb, wo, wab) = (
        num_people as int,
        rate_a as int,
        rate_b as int,
        rate_o as int,
        rate_ab as int,
    );
    let ghost u = unit_weight(wa, wb, wo, wab);
    let ghost people = initial_people(n, wa, wb, wo, wab);
    let ghost k = multiples(n, u);
    let ghost fa = family(Gene(ABO::A, ABO::A), Gene(ABO::A, ABO::O));
    let ghost fb = family(Gene(ABO::B, ABO::B), Gene(ABO::B, ABO::O));
    proof {
        lemma_repeat_len(fa, (k * wa) as nat);
        lemma_repeat_len(fb, (k * wb) as nat);
        lemma_repeat_single_len(Gene(ABO::O, ABO::O), (k * wo) as nat);
        lemma_repeat_single_len(Gene(ABO::A, ABO::B), (k * wab) as nat);
    }
    if rate_a == 0 && rate_b == 0 && rate_o == 0 && rate_ab == 0 {
        return Err(SetupError::ZeroWeights);
    }
    let spread = 1 + AO_RATE;
    let rate_sum = match rate_o.checked_mul(spread) {
        Some(o) => match rate_ab.checked_mul(spread) {
            Some(ab) => match rate_a.checked_add(rate_b) {
                Some(x) => match x.checked_add(o) {
                    Some(y) => y.checked_add(ab),
                    None => None,
                },
                None => None,
            },
            None => None,
        },
        None => None,
    };
    let rate_sum = match rate_sum {
        Some(s) => s,
        None => return Err(SetupError::Overflow),
    };
    assert(rate_sum == u);
    // The number of multiples of `rate_sum` that the requested size is
    // rounded up to.
    let whole = num_people / rate_sum;
    let rest = num_people % rate_sum;
    proof {
        vstd::arithmetic::div_mod::lemma_fundamental_div_mod(n, u);
        if rest > 0 {
            assert(whole <= u * whole < n) by (nonlinear_arith)
                requires
                    n == u * whole + rest,
                    rest > 0,
                    u >= 1,
                    whole >= 0,
            ;
        }
    }
    let times = whole + if rest == 0 {
        0
    } else {
        1
    };
    assert(times == k) by {
        let q = n / u;
        let m = n % u;
        vstd::arithmetic::div_mod::lemma_fundamental_div_mod(n, u);
        if m == 0 {
            vstd::arithmetic::div_mod::lemma_div_multiples_vanish_fancy(q, u - 1, u);
            assert(n + u - 1 == u * q + (u - 1));
        } else {
            vstd::arithmetic::div_mod::lemma_div_multiples_vanish_fancy(q + 1, m - 1, u);
            assert(n + u - 1 == u * (q + 1) + (m - 1)) by (nonlinear_arith)
                requires
                    n == u * q + m,
            ;
        }
    }
    assert(fa.len() == spread && fb.len() == spread);
    assert(k * wa >= 0 && k * wb >= 0 && k * wo >= 0 && k * wab >= 0) by (nonlinear_arith)
        requires
            k >= 0,
            wa >= 0,
            wb >= 0,
            wo >= 0,
            wab >= 0,
    ;
    assert(repeat(fa, (k * wa) as nat).len() == 4 * (k * wa)) by {
        let t = (k * wa) as nat;
        assert(repeat(fa, t).len() == t * fa.len());
        assert(t * fa.len() == 4 * t) by (nonlinear_arith)
            requires
                fa.len() == 4,
        ;
    }
    assert(repeat(fb, (k * wb) as nat).len() == 4 * (k * wb)) by {
        let t = (k * wb) as nat;
        assert(repeat(fb, t).len() == t * fb.len());
        assert(t * fb.len() == 4 * t) by (nonlinear_arith)
            requires
                fb.len() == 4,
        ;
    }
    assert(repeat(seq![Gene(ABO::O, ABO::O)], (k * wo) as nat).len() == k * wo);
    assert(repeat(seq![Gene(ABO::A, ABO::B)], (k * wab) as nat).len() == k * wab);
    assert(people.len() == spread * (k * wa) + spread * (k * wb) + k * wo + k * wab);
    let (units_a, units_b, units_o, units_ab) = match (
        times.checked_mul(rate_a),
        times.checked_mul(rate_b),
        times.checked_mul(rate_o),
        times.checked_mul(rate_ab),
    ) {
        (Some(x), Some(y), Some(z), Some(w)) => (x, y, z, w),
        _ => return Err(SetupError::Overflow),
    };
    let size = match units_a.checked_add(units_b) {
        Some(x) => match x.checked_mul(spread) {
            Some(y) => match y.checked_add(units_o) {
                Some(z) => z.checked_add(units_ab),
                None => None,
            },
            None => None,
        },
        None => None,
    };
    if size.is_none() {
        assert(people.len() > usize::MAX);
        return Err(SetupError::Overflow);
    }
    let mut now_people: Vec<Gene> = Vec::new();
    let with_a = family_of(Gene::new(ABO::A, ABO::A), Gene::new(ABO::A, ABO::O));
    let with_b = family_of(Gene::new(ABO::B, ABO::B), Gene::new(ABO::B, ABO::O));
    let only_o = vec![Gene::new(ABO::O, ABO::O)];
    let only_ab = vec![Gene::new(ABO::A, ABO::B)];
    assert(only_o@ == seq![Gene(ABO::O, ABO::O)]);
    assert(only_ab@ == seq![Gene(ABO::A, ABO::B)]);
    push_repeated(&mut now_people, &with_a, units_a);
    assert(now_people@ == repeat(fa, units_a as nat));
    push_repeated(&mut now_people, &with_b, units_b);
    push_repeated(&mut now_people, &only_o, units_o);
    push_repeated(&mut now_people, &only_ab, units_ab);
    assert(now_people@ == people);
    Ok(now_people)
}


/// Every individual of `s` repeated `k` times has blood type `e` where every
/// individual of `s` has.
proof fn lemma_repeat_phenotype(s: Seq<Gene>, k: nat, e: Expression)
    requires
        forall|j: int| 0 <= j < s.len() ==> (#[trigger] s[j]).phenotype() == e,
    ensures
        forall|i: int| 0 <= i < repeat(s, k).len() ==> (#[trigger] repeat(s, k)[i]).phenotype() == e,
    decreases k,
{
    if k > 0 {
        let j = (k - 1) as nat;
        lemma_repeat_phenotype(s, j, e);
        let r = repeat(s, j);
        assert(repeat(s, k) == r + s);
        assert forall|i: int| 0 <= i < repeat(s, k).len() implies (#[trigger] repeat(s, k)[i]).phenotype() == e by {
            if i < r.len() {
                assert(repeat(s, k)[i] == r[i]);
            } else {
                assert(repeat(s, k)[i] == s[i - r.len()]);
            }
        }
    }
}

/// Building a population is a function of the requested size and the
/// weights alone: two builds from the same inputs give the same outcome.
pub proof fn lemma_initial_population_deterministic(
    n: int,
    wa: int,
    wb: int,
    wo: int,
    wab: int,
    first: Result<Seq<Gene>, SetupError>,
    second: Result<Seq<Gene>, SetupError>,
)
    requires
        first == initial_outcome(n, wa, wb, wo, wab),
        second == initial_outcome(n, wa, wb, wo, wab),
    ensures
        first == second,
{
}

/// With weight only on blood type A, every individual of the initial
/// population has blood type A.
pub proof fn lemma_only_a_weights(n: int)
    requires
        n >= 0,
    ensures
        forall|i: int|
            0 <= i < initial_people(n, 1, 0, 0, 0).len() ==> (#[trigger] initial_people(
                n,
                1,
                0,
                0,
                0,
            )[i]).phenotype() == Expression::A,
{
    let fa = family(Gene(ABO::A, ABO::A), Gene(ABO::A, ABO::O));
    assert(multiples(n, 1) == n);
    assert forall|j: int| 0 <= j < fa.len() implies (#[trigger] fa[j]).phenotype() == Expression::A by {
        if j > 0 {
            assert(fa[j] == Gene(ABO::A, ABO::O));
        }
    }
    lemma_repeat_phenotype(fa, n as nat, Expression::A);
    assert(initial_people(n, 1, 0, 0, 0) == repeat(fa, n as nat));
}

/// With all four weights zero no population is built: the outcome is the
/// `ZeroWeights` error, not an empty population.
pub proof fn lemma_zero_weights_rejected(n: int)
    ensures
        initial_outcome(n, 0, 0, 0, 0) == Err::<Seq<Gene>, SetupError>(SetupError::ZeroWeights),
{
}

} // verus!
