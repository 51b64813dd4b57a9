//! Alleles, genotypes and the dominance rule that maps a genotype to its
//! blood type.

use rand_pcg::Mcg128Xsl64;
use vstd::prelude::*;

use crate::random::{gen_range, gen_ratio};

verus! {

/// One of the three alleles of the ABO gene.
#[derive(Debug, Copy, Clone, PartialEq, Eq, Structural, Hash)]
pub enum ABO {
    A,
    B,
    O,
}

/// The observable blood type of an individual.
#[derive(Debug, Copy, Clone, PartialEq, Eq, Structural, Hash)]
pub enum Expression {
    A,
    B,
    O,
    AB,
}

/// The two alleles an individual carries, one per chromosome copy.
#[derive(Debug, Copy, Clone, PartialEq, Eq, Structural, Hash)]
pub struct Gene(pub ABO, pub ABO);

/// The allele numbered `i` among A, B, O.
pub open spec fn allele_at(i: int) -> ABO {
    if i == 0 {
        ABO::A
    } else if i == 1 {
        ABO::B
    } else {
        ABO::O
    }
}

impl ABO {
    /// The allele with number `i` (0 for A, 1 for B, 2 for O).
    pub fn from_index(i: u32) -> (r: ABO)
        requires
            i < 3,
        ensures
            r == allele_at(i as int),
    {
        if i == 0 {
            ABO::A
        } else if i == 1 {
            ABO::B
        } else {
            ABO::O
        }
    }

    /// An allele drawn uniformly from A, B and O.
    pub fn from_random(random: &mut Mcg128Xsl64) -> (r: ABO)
        ensures
            exists|i: int| 0 <= i < 3 && r == allele_at(i),
    {
        let i = gen_range(random, 0, 3);
        ABO::from_index(i)
    }
}

impl Gene {
    /// Whether one of the two chromosome copies holds `a`.
    pub open spec fn carries(self, a: ABO) -> bool {
        self.0 == a || self.1 == a
    }

    /// A and B are co-dominant with each other and both dominate O.
    pub open spec fn phenotype(self) -> Expression {
        if self.carries(ABO::A) && self.carries(ABO::B) {
            Expression::AB
        } else if self.carries(ABO::A) {
            Expression::A
        } else if self.carries(ABO::B) {
            Expression::B
        } else {
            Expression::O
        }
    }

    /// The allele that segregates from this genotype: the first copy when
    /// `first` holds, else the second.
    pub open spec fn copy(self, first: bool) -> ABO {
        if first {
            self.0
        } else {
            self.1
        }
    }

    pub fn new(x: ABO, y: ABO) -> (r: Gene)
        ensures
            r == Gene(x, y),
    {
        Gene(x, y)
    }

    /// The genotype whose first allele has number `i` and whose second has
    /// number `j` (0 for A, 1 for B, 2 for O).
    pub fn from_indices(i: u32, j: u32) -> (r: Gene)
        requires
            i < 3,
            j < 3,
        ensures
            r == Gene(allele_at(i as int), allele_at(j as int)),
    {
        Gene::new(ABO::from_index(i), ABO::from_index(j))
    }

    /// A genotype of two independently drawn alleles, the first allele from
    /// the first draw.
    pub fn from_random(random: &mut Mcg128Xsl64) -> (r: Gene)
        ensures
            exists|i: int, j: int|
                0 <= i < 3 && 0 <= j < 3 && r == Gene(allele_at(i), allele_at(j)),
    {
        let i = gen_range(random, 0, 3);
        let j = gen_range(random, 0, 3);
        Gene::from_indices(i, j)
    }

    /// The blood type of this genotype.
    pub fn expr(&self) -> (r: Expression)
        ensures
            r == self.phenotype(),
    {
        match (self.0, self.1) {
            (ABO::A, ABO::A) | (ABO::A, ABO::O) | (ABO::O, ABO::A) => Expression::A,
            (ABO::B, ABO::B) | (ABO::B, ABO::O) | (ABO::O, ABO::B) => Expression::B,
            (ABO::O, ABO::O) => Expression::O,
            (ABO::A, ABO::B) | (ABO::B, ABO::A) => Expression::AB,
        }
    }

    /// The chromosome copy picked by a coin that came up `first`.
    pub fn pick(&self, first: bool) -> (r: ABO)
        ensures
            r == self.copy(first),
    {
        if first {
            self.0
        } else {
            self.1
        }
    }

    /// The offspring of `self` and `other` when the coins for the two parents
    /// came up `left` and `right`.
    pub fn combine(&self, other: &Gene, left: bool, right: bool) -> (r: Gene)
        ensures
            r == Gene(self.copy(left), other.copy(right)),
    {
        Gene::new(self.pick(left), other.pick(right))
    }

    /// One of the two chromosome copies, chosen by a fair coin.
    pub fn chromosome(&self, random: &mut Mcg128Xsl64) -> (r: ABO)
        ensures
            self.carries(r),
    {
        let first = gen_ratio(random, 1, 2);
        self.pick(first)
    }

    /// An offspring of `self` and `other`: one chromosome copy from each,
    /// each chosen by a fair coin.
    pub fn cross(&self, other: &Gene, random: &mut Mcg128Xsl64) -> (r: Gene)
        ensures
            self.carries(r.0),
            other.carries(r.1),
    {
        let left = gen_ratio(random, 1, 2);
        let right = gen_ratio(random, 1, 2);
        self.combine(other, left, right)
    }
}

/// The blood type does not depend on the order of the two alleles, and it is
/// one of the four types.
pub proof fn lemma_phenotype_symmetric(x: ABO, y: ABO)
    ensures
        Gene(x, y).phenotype() == Gene(y, x).phenotype(),
        Gene(x, y).phenotype() is A || Gene(x, y).phenotype() is B
            || Gene(x, y).phenotype() is O || Gene(x, y).phenotype() is AB,
{
}

/// The dominance table, row by row.
pub proof fn lemma_phenotype_table()
    ensures
        Gene(ABO::O, ABO::O).phenotype() == Expression::O,
        Gene(ABO::A, ABO::B).phenotype() == Expression::AB,
        Gene(ABO::B, ABO::A).phenotype() == Expression::AB,
        Gene(ABO::A, ABO::O).phenotype() == Expression::A,
        Gene(ABO::O, ABO::A).phenotype() == Expression::A,
        Gene(ABO::B, ABO::O).phenotype() == Expression::B,
        Gene(ABO::O, ABO::B).phenotype() == Expression::B,
        Gene(ABO::A, ABO::A).phenotype() == Expression::A,
        Gene(ABO::B, ABO::B).phenotype() == Expression::B,
{
}

} // verus!
