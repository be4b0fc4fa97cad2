use vstd::prelude::*;

use crate::species::{Species, populations_valid, quantities_of};

verus! {

/// The part a species plays in a reaction, as asked for by a history filter.
#[derive(Clone, Copy, Debug, PartialEq, Eq, Structural)]
pub enum SpeciesRole {
    Reactant,
    Product,
    Both,
}

/// Why a reaction or a network could not be built.
#[derive(Clone, Copy, Debug, PartialEq, Eq, Structural)]
pub enum ReactionError {
    /// The rate constant is not a positive number.
    InvalidRateConstant,
    /// A reactant or product refers to no species of the table.
    UnknownSpecies,
    /// A species starts with a negative population.
    NegativeQuantity,
    /// Two species of the table share a name.
    DuplicateName,
    /// Two reactions share an identity.
    DuplicateIdentity,
}

/// One elementary reaction over a table of species. Reactants and products are
/// indices into that table; an index that occurs k times stands for
/// stoichiometric multiplicity k. The rate constant is the fraction
/// `rate_numer / rate_denom`.
pub struct Reaction {
    pub reactants: Vec<usize>,
    pub products: Vec<usize>,
    pub rate_numer: u64,
    pub rate_denom: u64,
    pub uuid: u128,
    pub formula: String,
}

/// How many times `x` occurs in `v`.
pub open spec fn count_of(v: Seq<usize>, x: usize) -> nat
    decreases v.len(),
{
    if v.len() == 0 {
        0
    } else {
        count_of(v.drop_last(), x) + if v.last() == x {
            1nat
        } else {
            0nat
        }
    }
}

/// Every index of `v` addresses one of `n` species.
pub open spec fn indices_below(v: Seq<usize>, n: nat) -> bool {
    forall|k: int| 0 <= k < v.len() ==> (#[trigger] v[k]) < n
}

/// The product of the populations of the species that `idx` lists, with
/// repeats counted once per occurrence.
pub open spec fn population_product(species: Seq<Species>, idx: Seq<usize>) -> int
    decreases idx.len(),
{
    if idx.len() == 0 {
        1
    } else {
        population_product(species, idx.drop_last()) * species[idx.last() as int].quantity as int
    }
}

/// The separator between two names of a formula's side.
pub open spec fn plus_sep() -> Seq<char> {
    seq![' ', '+', ' ']
}

/// The separator between the two sides of a formula.
pub open spec fn arrow_sep() -> Seq<char> {
    seq![' ', '-', '>', ' ']
}

/// The names of the species that `idx` lists, joined by " + ".
pub open spec fn names_joined(species: Seq<Species>, idx: Seq<usize>) -> Seq<char>
    decreases idx.len(),
{
    if idx.len() == 0 {
        Seq::empty()
    } else if idx.len() == 1 {
        species[idx[0] as int].name@
    } else {
        names_joined(species, idx.drop_last()) + plus_sep() + species[idx.last() as int].name@
    }
}

/// The display formula of a reaction: "A + C -> B + C".
pub open spec fn formula_of(species: Seq<Species>, reactants: Seq<usize>, products: Seq<usize>) -> Seq<
    char,
> {
    names_joined(species, reactants) + arrow_sep() + names_joined(species, products)
}

/// The product of non-negative populations is non-negative, and it is zero
/// exactly when one of the listed populations is zero.
pub proof fn lemma_population_product_sign(species: Seq<Species>, idx: Seq<usize>)
    requires
        indices_below(idx, species.len()),
        populations_valid(species),
    ensures
        population_product(species, idx) >= 0,
        (population_product(species, idx) == 0) <==> exists|k: int|
            0 <= k < idx.len() && species[#[trigger] idx[k] as int].quantity == 0,
    decreases idx.len(),
{
    if idx.len() > 0 {
        let front = idx.drop_last();
        let last = idx.last();
        assert(idx[idx.len() - 1] == last);
        assert(species[last as int].wf());
        lemma_population_product_sign(species, front);
        let a = population_product(species, front);
        let b = species[last as int].quantity as int;
        assert(a >= 0 && b >= 0 ==> a * b >= 0) by (nonlinear_arith);
        assert(a * b == 0 <==> (a == 0 || b == 0)) by (nonlinear_arith);
        if a == 0 {
            let k = choose|k: int| 0 <= k < front.len() && species[#[trigger] front[k] as int].quantity == 0;
            assert(idx[k] == front[k]);
        }
        if exists|k: int| 0 <= k < idx.len() && species[#[trigger] idx[k] as int].quantity == 0 {
            let k = choose|k: int| 0 <= k < idx.len() && species[#[trigger] idx[k] as int].quantity == 0;
            if k < idx.len() - 1 {
                assert(front[k] == idx[k]);
            }
        }
    }
}

/// When every listed population is positive, the product over a prefix is
/// positive and no larger than the product over the whole list.
pub proof fn lemma_population_product_prefix(species: Seq<Species>, idx: Seq<usize>, k: int)
    requires
        0 <= k <= idx.len(),
        indices_below(idx, species.len()),
        forall|j: int| 0 <= j < idx.len() ==> species[#[trigger] idx[j] as int].quantity > 0,
    ensures
        1 <= population_product(species, idx.take(k)) <= population_product(species, idx),
    decreases idx.len(),
{
    if k == idx.len() {
        assert(idx.take(k) == idx);
        if idx.len() > 0 {
            lemma_population_product_prefix(species, idx.drop_last(), 0);
            let a = population_product(species, idx.drop_last());
            let b = species[idx.last() as int].quantity as int;
            assert(idx[idx.len() - 1] == idx.last());
            assert(a >= 1 && b >= 1 ==> a * b >= 1) by (nonlinear_arith);
        } else {
            assert(population_product(species, idx) == 1);
        }
    } else {
        let front = idx.drop_last();
        assert(front.take(k) == idx.take(k));
        assert forall|j: int| 0 <= j < front.len() implies species[#[trigger] front[j] as int].quantity
            > 0 by {
            assert(front[j] == idx[j]);
        }
        lemma_population_product_prefix(species, front, k);
        let a = population_product(species, front);
        let b = species[idx.last() as int].quantity as int;
        assert(idx[idx.len() - 1] == idx.last());
        assert(a >= 1 && b >= 1 ==> a <= a * b) by (nonlinear_arith);
    }
}

/// Relies on uuid::Uuid::new_v4 for a random identifier, read as its 128 bits.
#[verifier::external_body]
fn fresh_uuid() -> (r: u128) {
    uuid::Uuid::new_v4().as_u128()
}

/// Counting over one more element of a prefix adds one exactly when that
/// element is `x`.
pub proof fn lemma_count_take_step(v: Seq<usize>, k: int, x: usize)
    requires
        0 <= k < v.len(),
    ensures
        count_of(v.take(k + 1), x) == count_of(v.take(k), x) + if v[k] == x {
            1nat
        } else {
            0nat
        },
{
    assert(v.take(k + 1).drop_last() == v.take(k));
}

/// A prefix holds no more occurrences of `x` than the whole sequence.
pub proof fn lemma_count_prefix_le(v: Seq<usize>, k: int, x: usize)
    requires
        0 <= k <= v.len(),
    ensures
        count_of(v.take(k), x) <= count_of(v, x),
    decreases v.len(),
{
    if k == v.len() {
        assert(v.take(k) == v);
    } else {
        assert(v.drop_last().take(k) == v.take(k));
        lemma_count_prefix_le(v.drop_last(), k, x);
    }
}

/// An element that is counted at least once occurs at some position.
pub proof fn lemma_count_positive(v: Seq<usize>, x: usize)
    requires
        count_of(v, x) > 0,
    ensures
        exists|k: int| 0 <= k < v.len() && v[k] == x,
    decreases v.len(),
{
    if v.last() == x {
        assert(v[v.len() - 1] == x);
    } else {
        lemma_count_positive(v.drop_last(), x);
        let k = choose|k: int| 0 <= k < v.drop_last().len() && v.drop_last()[k] == x;
        assert(v[k] == x);
    }
}

/// How many times `x` occurs in `v`.
pub fn count_occurrences(v: &Vec<usize>, x: usize) -> (c: usize)
    ensures
        c == count_of(v@, x),
{
    let mut c: usize = 0;
    let mut k: usize = 0;
    while k < v.len()
        invariant
            k <= v@.len(),
            c <= k,
            c == count_of(v@.take(k as int), x),
        decreases v@.len() - k,
    {
        proof {
            lemma_count_take_step(v@, k as int, x);
        }
        if v[k] == x {
            c += 1;
        }
        k += 1;
    }
    proof {
        assert(v@.take(k as int) == v@);
    }
    c
}

/// Whether every index of `v` is below `n`.
pub fn all_below(v: &Vec<usize>, n: usize) -> (r: bool)
    ensures
        r == indices_below(v@, n as nat),
{
    let mut k: usize = 0;
    while k < v.len()
        invariant
            k <= v.len(),
            forall|j: int| 0 <= j < k ==> (#[trigger] v@[j]) < n,
        decreases v.len() - k,
    {
        if v[k] >= n {
            return false;
        }
        k += 1;
    }
    true
}

/// The names of the listed species, joined by " + ".
fn join_names(species: &Vec<Species>, idx: &Vec<usize>) -> (r: String)
    requires
        indices_below(idx@, species@.len()),
    ensures
        r@ == names_joined(species@, idx@),
{
    let mut out = String::new();
    let mut k: usize = 0;
    while k < idx.len()
        invariant
            k <= idx.len(),
            indices_below(idx@, species@.len()),
            out@ == names_joined(species@, idx@.take(k as int)),
        decreases idx.len() - k,
    {
        let ghost before = idx@.take(k as int);
        proof {
            assert(idx@.take(k + 1).drop_last() == before);
            assert(idx@[k as int] < species@.len());
        }
        if k > 0 {
            out.append(" + ");
            proof {
                reveal_strlit(" + ");
            }
        } else {
            assert(before.len() == 0);
        }
        out.append(species[idx[k]].name.as_str());
        k += 1;
    }
    proof {
        assert(idx@.take(idx.len() as int) == idx@);
    }
    out
}

impl Reaction {
    /// A reaction is well formed over a table of `n` species when its rate
    /// constant is positive and all of its indices address that table.
    pub open spec fn wf(&self, n: nat) -> bool {
        &&& self.rate_numer > 0
        &&& self.rate_denom > 0
        &&& indices_below(self.reactants@, n)
        &&& indices_below(self.products@, n)
    }

    /// The numerator of the propensity, `rate_numer` times the product of the
    /// reactant populations; the propensity is this over `rate_denom`.
    pub open spec fn propensity_numer(&self, species: Seq<Species>) -> int {
        self.rate_numer as int * population_product(species, self.reactants@)
    }

    /// Every reactant occurrence has a positive population, so the propensity
    /// is positive.
    pub open spec fn enabled(&self, q: Seq<int>) -> bool {
        forall|k: int| 0 <= k < self.reactants@.len() ==> q[#[trigger] self.reactants@[k] as int] > 0
    }

    /// Builds a reaction over the species table `species`. The rate constant
    /// is `rate_numer / rate_denom`; it must be positive. Each reaction gets a
    /// fresh random identity.
    pub fn new(
        species: &Vec<Species>,
        reactants: Vec<usize>,
        products: Vec<usize>,
        rate_numer: i64,
        rate_denom: u64,
    ) -> (r: Result<Reaction, ReactionError>)
        ensures
            (rate_numer <= 0 || rate_denom == 0) ==> r == Err::<Reaction, ReactionError>(
                ReactionError::InvalidRateConstant,
            ),
            (rate_numer > 0 && rate_denom > 0 && !(indices_below(reactants@, species@.len())
                && indices_below(products@, species@.len()))) ==> r == Err::<
                Reaction,
                ReactionError,
            >(ReactionError::UnknownSpecies),
            (rate_numer > 0 && rate_denom > 0 && indices_below(reactants@, species@.len())
                && indices_below(products@, species@.len())) ==> r is Ok,
            r matches Ok(x) ==> {
                &&& x.wf(species@.len())
                &&& x.reactants@ == reactants@
                &&& x.products@ == products@
                &&& x.rate_numer == rate_numer
                &&& x.rate_denom == rate_denom
                &&& x.formula@ == formula_of(species@, reactants@, products@)
            },
    {
        if rate_numer <= 0 || rate_denom == 0 {
            return Err(ReactionError::InvalidRateConstant);
        }
        if !all_below(&reactants, species.len()) || !all_below(&products, species.len()) {
            return Err(ReactionError::UnknownSpecies);
        }
        let mut formula = join_names(species, &reactants);
        formula.append(" -> ");
        let right = join_names(species, &products);
        formula.append(right.as_str());
        proof {
            reveal_strlit(" -> ");
        }
        let uuid = fresh_uuid();
        Ok(Reaction { reactants, products, rate_numer: rate_numer as u64, rate_denom, uuid, formula })
    }

    /// Whether every reactant occurrence has a positive population.
    pub fn is_enabled(&self, species: &Vec<Species>) -> (r: bool)
        requires
            indices_below(self.reactants@, species@.len()),
        ensures
            r == self.enabled(quantities_of(species@)),
    {
        let mut k: usize = 0;
        while k < self.reactants.len()
            invariant
                k <= self.reactants@.len(),
                indices_below(self.reactants@, species@.len()),
                forall|j: int|
                    0 <= j < k ==> species@[#[trigger] self.reactants@[j] as int].quantity > 0,
            decreases self.reactants@.len() - k,
        {
            let i = self.reactants[k];
            assert(self.reactants@[k as int] < species@.len());
            if species[i].quantity <= 0 {
                return false;
            }
            k += 1;
        }
        true
    }

    /// The numerator of the propensity over `rate_denom`, or `None` where it
    /// exceeds what a `u128` holds. It is zero exactly when some reactant
    /// occurrence has population zero.
    pub fn propensity_numerator(&self, species: &Vec<Species>) -> (r: Option<u128>)
        requires
            self.wf(species@.len()),
            populations_valid(species@),
        ensures
            r matches Some(v) ==> v == self.propensity_numer(species@),
            r is None ==> self.propensity_numer(species@) > u128::MAX,
            (r == Some(0u128)) <==> !self.enabled(quantities_of(species@)),
    {
        proof {
            lemma_population_product_sign(species@, self.reactants@);
            let p = population_product(species@, self.reactants@);
            let c = self.rate_numer as int;
            assert(c > 0 && p >= 0 ==> (c * p == 0 <==> p == 0)) by (nonlinear_arith);
            if !self.enabled(quantities_of(species@)) {
                let k = choose|k: int|
                    !(0 <= k < self.reactants@.len() ==> species@[#[trigger] self.reactants@[k] as int].quantity > 0);
                assert(species@[self.reactants@[k] as int].wf());
            }
        }
        if !self.is_enabled(species) {
            return Some(0);
        }
        let ghost idx = self.reactants@;
        let mut acc: u128 = self.rate_numer as u128;
        let mut k: usize = 0;
        proof {
            assert(idx.take(0) == Seq::<usize>::empty());
        }
        while k < self.reactants.len()
            invariant
                k <= idx.len(),
                idx == self.reactants@,
                self.wf(species@.len()),
                self.enabled(quantities_of(species@)),
                acc == self.rate_numer as int * population_product(species@, idx.take(k as int)),
            decreases idx.len() - k,
        {
            let i = self.reactants[k];
            assert(idx[k as int] < species@.len());
            let q = species[i].quantity as u128;
            proof {
                assert(idx.take(k + 1).drop_last() == idx.take(k as int));
                assert(idx.take(k + 1).last() == i);
                assert(species@[idx[k as int] as int].quantity > 0);
                let c = self.rate_numer as int;
                let p = population_product(species@, idx.take(k as int));
                let qi = species@[i as int].quantity as int;
                assert(population_product(species@, idx.take(k + 1)) == p * qi);
                assert(c * (p * qi) == (c * p) * qi) by (nonlinear_arith);
            }
            match acc.checked_mul(q) {
                Some(v) => {
                    acc = v;
                },
                None => {
                    proof {
                        lemma_population_product_prefix(species@, idx, k + 1);
                        let a = population_product(species@, idx.take(k + 1));
                        let b = population_product(species@, idx);
                        let c = self.rate_numer as int;
                        assert(c > 0 && a <= b ==> c * a <= c * b) by (nonlinear_arith);
                    }
                    return None;
                },
            }
            k += 1;
        }
        proof {
            assert(idx.take(idx.len() as int) == idx);
            assert(self.propensity_numer(species@) > 0);
        }
        Some(acc)
    }

    /// The delay of this reaction for one step, given a delay `sample` drawn
    /// for it: `None`, which never fires, where the propensity is zero.
    pub fn compute_delay(&self, species: &Vec<Species>, sample: u64) -> (r: Option<u64>)
        requires
            indices_below(self.reactants@, species@.len()),
        ensures
            r == if self.enabled(quantities_of(species@)) {
                Some(sample)
            } else {
                None::<u64>
            },
    {
        if self.is_enabled(species) {
            Some(sample)
        } else {
            None
        }
    }
}

} // verus!
