use vstd::prelude::*;

use crate::reaction::{Reaction, ReactionError, all_below, indices_below};
use crate::monitor::{DefaultMonitor, SnapshotData, records_system};
use crate::species::{Species, populations_valid, quantities_of};
use crate::visitor::{SystemVisitor, next_quantities, run_quantities, selected};

verus! {

/// A reaction network: a table of species and the reactions over it. The
/// reactions are kept in ascending order of identity, whatever order they
/// were given in, so that runs are reproducible for a given set of reactions.
pub struct ChemicalSystem {
    pub species: Vec<Species>,
    pub reactions: Vec<Reaction>,
}

/// Every reaction of the list has a positive rate constant.
pub open spec fn rates_positive(reactions: Seq<Reaction>) -> bool {
    forall|i: int|
        0 <= i < reactions.len() ==> (#[trigger] reactions[i]).rate_numer > 0
            && reactions[i].rate_denom > 0
}

/// Every reaction of the list refers to species of a table of `n`.
pub open spec fn reactions_within(reactions: Seq<Reaction>, n: nat) -> bool {
    forall|i: int|
        0 <= i < reactions.len() ==> indices_below((#[trigger] reactions[i]).reactants@, n)
            && indices_below(reactions[i].products@, n)
}

/// The identities of the list ascend strictly.
pub open spec fn uuids_ascending(rs: Seq<Reaction>) -> bool {
    forall|i: int, j: int| 0 <= i < j < rs.len() ==> (#[trigger] rs[i]).uuid < (#[trigger] rs[j]).uuid
}

/// No two reactions of the list share an identity.
pub open spec fn uuids_distinct(rs: Seq<Reaction>) -> bool {
    forall|i: int, j: int|
        0 <= i < rs.len() && 0 <= j < rs.len() && i != j ==> (#[trigger] rs[i]).uuid != (
        #[trigger] rs[j]).uuid
}

/// No two species of the table share a name.
pub open spec fn names_unique(species: Seq<Species>) -> bool {
    forall|i: int, j: int|
        0 <= i < species.len() && 0 <= j < species.len() && i != j ==> (#[trigger] species[i]).name@
            != (#[trigger] species[j]).name@
}

/// The two lists hold the same reactions, each as often as the other: they
/// have one length and every reaction of one occurs in the other. Where the
/// identities are distinct, one is a reordering of the other.
pub open spec fn same_reactions(a: Seq<Reaction>, b: Seq<Reaction>) -> bool {
    &&& a.len() == b.len()
    &&& forall|i: int| 0 <= i < a.len() ==> b.contains(#[trigger] a[i])
    &&& forall|j: int| 0 <= j < b.len() ==> a.contains(#[trigger] b[j])
}

/// Two lists in ascending order of identity that hold the same reactions are
/// equal.
pub proof fn lemma_ascending_lists_equal(a: Seq<Reaction>, b: Seq<Reaction>)
    requires
        uuids_ascending(a),
        uuids_ascending(b),
        forall|i: int| 0 <= i < a.len() ==> b.contains(#[trigger] a[i]),
        forall|j: int| 0 <= j < b.len() ==> a.contains(#[trigger] b[j]),
    ensures
        a == b,
    decreases a.len(),
{
    if a.len() == 0 {
        if b.len() > 0 {
            assert(a.contains(b[0]));
        }
        assert(a =~= b);
    } else {
        assert(b.contains(a[0]));
        let j = choose|j: int| 0 <= j < b.len() && b[j] == a[0];
        assert(a.contains(b[0]));
        let k = choose|k: int| 0 <= k < a.len() && a[k] == b[0];
        if j > 0 {
            assert(b[0].uuid < b[j].uuid);
            if k > 0 {
                assert(a[0].uuid < a[k].uuid);
            }
        }
        assert(b[0] == a[0]);
        let a1 = a.drop_first();
        let b1 = b.drop_first();
        assert forall|i: int| 0 <= i < a1.len() implies b1.contains(#[trigger] a1[i]) by {
            assert(a1[i] == a[i + 1]);
            assert(b.contains(a[i + 1]));
            let t = choose|t: int| 0 <= t < b.len() && b[t] == a[i + 1];
            assert(a[0].uuid < a[i + 1].uuid);
            assert(t != 0);
            assert(b1[t - 1] == b[t]);
        }
        assert forall|i: int| 0 <= i < b1.len() implies a1.contains(#[trigger] b1[i]) by {
            assert(b1[i] == b[i + 1]);
            assert(a.contains(b[i + 1]));
            let t = choose|t: int| 0 <= t < a.len() && a[t] == b[i + 1];
            assert(b[0].uuid < b[i + 1].uuid);
            assert(t != 0);
            assert(a1[t - 1] == a[t]);
        }
        lemma_ascending_lists_equal(a1, b1);
        assert forall|i: int| 0 <= i < a.len() implies a[i] == b[i] by {
            if i > 0 {
                assert(a[i] == a1[i - 1]);
                assert(b[i] == b1[i - 1]);
            }
        }
        assert(a =~= b);
    }
}

/// Whether no two reactions of the list share an identity.
fn check_identities(reactions: &Vec<Reaction>) -> (r: bool)
    ensures
        r == uuids_distinct(reactions@),
{
    let n = reactions.len();
    let mut i: usize = 0;
    while i < n
        invariant
            n == reactions@.len(),
            i <= n,
            forall|a: int, b: int|
                0 <= a < i && 0 <= b < n && a != b ==> (#[trigger] reactions@[a]).uuid != (
                #[trigger] reactions@[b]).uuid,
        decreases n - i,
    {
        let mut j: usize = 0;
        while j < n
            invariant
                n == reactions@.len(),
                i < n,
                j <= n,
                forall|a: int, b: int|
                    0 <= a < i && 0 <= b < n && a != b ==> (#[trigger] reactions@[a]).uuid != (
                    #[trigger] reactions@[b]).uuid,
                forall|b: int|
                    0 <= b < j && b != i ==> reactions@[i as int].uuid != (
                    #[trigger] reactions@[b]).uuid,
            decreases n - j,
        {
            if j != i && reactions[i].uuid == reactions[j].uuid {
                return false;
            }
            j += 1;
        }
        i += 1;
    }
    true
}

/// Whether no two species of the table share a name.
fn check_names(species: &Vec<Species>) -> (r: bool)
    ensures
        r == names_unique(species@),
{
    let n = species.len();
    let mut i: usize = 0;
    while i < n
        invariant
            n == species@.len(),
            i <= n,
            forall|a: int, b: int|
                0 <= a < i && 0 <= b < n && a != b ==> (#[trigger] species@[a]).name@ != (
                #[trigger] species@[b]).name@,
        decreases n - i,
    {
        let mut j: usize = 0;
        while j < n
            invariant
                n == species@.len(),
                i < n,
                j <= n,
                forall|a: int, b: int|
                    0 <= a < i && 0 <= b < n && a != b ==> (#[trigger] species@[a]).name@ != (
                    #[trigger] species@[b]).name@,
                forall|b: int|
                    0 <= b < j && b != i ==> species@[i as int].name@ != (
                    #[trigger] species@[b]).name@,
            decreases n - j,
        {
            if j != i && species[i].name == species[j].name {
                return false;
            }
            j += 1;
        }
        i += 1;
    }
    true
}

/// The reactions in ascending order of identity.
fn sort_by_uuid(reactions: Vec<Reaction>) -> (r: Vec<Reaction>)
    requires
        uuids_distinct(reactions@),
    ensures
        uuids_ascending(r@),
        same_reactions(r@, reactions@),
{
    let ghost orig = reactions@;
    let ghost n = orig.len();
    let mut input = reactions;
    let mut sorted: Vec<Reaction> = Vec::new();
    let ghost mut from: Seq<int> = Seq::empty();
    while input.len() > 0
        invariant
            uuids_distinct(orig),
            n == orig.len(),
            input@.len() <= n,
            input@ == orig.subrange(0, input@.len() as int),
            sorted@.len() + input@.len() == n,
            from.len() == sorted@.len(),
            uuids_ascending(sorted@),
            forall|i: int|
                0 <= i < sorted@.len() ==> input@.len() <= (#[trigger] from[i]) < n && sorted@[i]
                    == orig[from[i]],
            forall|j: int| input@.len() <= j < n ==> sorted@.contains(#[trigger] orig[j]),
        decreases input@.len(),
    {
        let ghost m = (input@.len() - 1) as int;
        let r = input.pop().unwrap();
        assert(r == orig[m]);
        let mut p: usize = 0;
        while p < sorted.len() && sorted[p].uuid < r.uuid
            invariant
                p <= sorted@.len(),
                forall|k: int| 0 <= k < p ==> (#[trigger] sorted@[k]).uuid < r.uuid,
            decreases sorted@.len() - p,
        {
            p += 1;
        }
        proof {
            assert forall|k: int| p <= k < sorted@.len() implies (#[trigger] sorted@[k]).uuid
                > r.uuid by {
                assert(sorted@[k] == orig[from[k]]);
                assert(from[k] != m);
                assert(orig[from[k]].uuid != orig[m].uuid);
                if k > p {
                    assert(sorted@[p as int].uuid < sorted@[k].uuid);
                    assert(sorted@[p as int] == orig[from[p as int]]);
                    assert(orig[from[p as int]].uuid != orig[m].uuid);
                }
            }
            sorted@.insert_ensures(p as int, r);
        }
        let ghost old_sorted = sorted@;
        let ghost old_from = from;
        sorted.insert(p, r);
        proof {
            from = from.insert(p as int, m);
            from.insert_ensures(p as int, m);
            old_from.insert_ensures(p as int, m);
            assert forall|i: int| 0 <= i < sorted@.len() implies m <= (#[trigger] from[i]) < n
                && sorted@[i] == orig[from[i]] by {
                if i < p {
                    assert(from[i] == old_from[i]);
                } else if i > p {
                    assert(from[i] == old_from[i - 1]);
                    assert(sorted@[i] == old_sorted[i - 1]);
                }
            }
            assert forall|a: int, b: int| 0 <= a < b < sorted@.len() implies (
            #[trigger] sorted@[a]).uuid < (#[trigger] sorted@[b]).uuid by {
                if b < p {
                    assert(old_sorted[a].uuid < old_sorted[b].uuid);
                } else if b == p {
                    assert(old_sorted[a].uuid < r.uuid);
                } else if a < p {
                    assert(old_sorted[b - 1].uuid > r.uuid);
                    assert(old_sorted[a].uuid < r.uuid);
                } else if a == p {
                    assert(old_sorted[b - 1].uuid > r.uuid);
                } else {
                    assert(old_sorted[a - 1].uuid < old_sorted[b - 1].uuid);
                }
            }
            assert forall|j: int| m <= j < n implies sorted@.contains(#[trigger] orig[j]) by {
                if j == m {
                    assert(sorted@[p as int] == orig[m]);
                } else {
                    assert(old_sorted.contains(orig[j]));
                    let t = choose|t: int| 0 <= t < old_sorted.len() && old_sorted[t] == orig[j];
                    if t < p {
                        assert(sorted@[t] == orig[j]);
                    } else {
                        assert(sorted@[t + 1] == orig[j]);
                    }
                }
            }
            assert(input@ == orig.subrange(0, m));
        }
    }
    proof {
        assert forall|i: int| 0 <= i < sorted@.len() implies orig.contains(#[trigger] sorted@[i]) by {
            assert(orig[from[i]] == sorted@[i]);
        }
    }
    sorted
}

/// Every reaction of the list is well formed over a table of `n` species.
pub open spec fn reactions_wf(reactions: Seq<Reaction>, n: nat) -> bool {
    forall|i: int| 0 <= i < reactions.len() ==> (#[trigger] reactions[i]).wf(n)
}

impl Reaction {
    /// Two reactions agree in every field, up to the views of their lists.
    pub open spec fn same_as(&self, other: &Reaction) -> bool {
        &&& self.reactants@ == other.reactants@
        &&& self.products@ == other.products@
        &&& self.rate_numer == other.rate_numer
        &&& self.rate_denom == other.rate_denom
        &&& self.uuid == other.uuid
        &&& self.formula == other.formula
    }

    /// An independent copy of this reaction, equal to it in every field.
    pub fn duplicate(&self) -> (r: Reaction)
        ensures
            r.same_as(self),
    {
        let reactants = self.reactants.clone();
        let products = self.products.clone();
        proof {
            assert(reactants@ =~= self.reactants@);
            assert(products@ =~= self.products@);
        }
        Reaction {
            reactants,
            products,
            rate_numer: self.rate_numer,
            rate_denom: self.rate_denom,
            uuid: self.uuid,
            formula: self.formula.clone(),
        }
    }
}

/// Whether every reaction of the list has a positive rate constant.
fn check_rates(reactions: &Vec<Reaction>) -> (r: bool)
    ensures
        r == rates_positive(reactions@),
{
    let mut i: usize = 0;
    while i < reactions.len()
        invariant
            i <= reactions@.len(),
            forall|j: int|
                0 <= j < i ==> (#[trigger] reactions@[j]).rate_numer > 0
                    && reactions@[j].rate_denom > 0,
        decreases reactions@.len() - i,
    {
        if reactions[i].rate_numer == 0 || reactions[i].rate_denom == 0 {
            return false;
        }
        i += 1;
    }
    true
}

/// Whether every species of the table has a non-negative population.
fn check_populations(species: &Vec<Species>) -> (r: bool)
    ensures
        r == populations_valid(species@),
{
    let mut i: usize = 0;
    while i < species.len()
        invariant
            i <= species@.len(),
            forall|j: int| 0 <= j < i ==> (#[trigger] species@[j]).wf(),
        decreases species@.len() - i,
    {
        if species[i].quantity < 0 {
            return false;
        }
        i += 1;
    }
    true
}

/// Whether every reaction of the list refers to species of a table of `n`.
fn check_indices(reactions: &Vec<Reaction>, n: usize) -> (r: bool)
    ensures
        r == reactions_within(reactions@, n as nat),
{
    let mut i: usize = 0;
    while i < reactions.len()
        invariant
            i <= reactions@.len(),
            forall|j: int|
                0 <= j < i ==> indices_below((#[trigger] reactions@[j]).reactants@, n as nat)
                    && indices_below(reactions@[j].products@, n as nat),
        decreases reactions@.len() - i,
    {
        if !all_below(&reactions[i].reactants, n) || !all_below(&reactions[i].products, n) {
            return false;
        }
        i += 1;
    }
    true
}

/// The clock after a step that selected `delay`: advanced by it, held at the
/// largest time where the sum overflows, and set to that largest time where no
/// reaction could fire.
pub open spec fn next_clock(clock: u64, delay: Option<u64>) -> u64 {
    match delay {
        Some(d) => if clock + d > u64::MAX {
            u64::MAX
        } else {
            (clock + d) as u64
        },
        None => u64::MAX,
    }
}

/// A run goes on while its clock has not passed the end time; the largest
/// time, which stands for a clock that no reaction can advance, ends it.
pub open spec fn running(clock: u64, end_time: u64) -> bool {
    clock <= end_time && clock < u64::MAX
}

/// Whether a run with this clock goes on.
pub fn is_running(clock: u64, end_time: u64) -> (r: bool)
    ensures
        r == running(clock, end_time),
{
    clock <= end_time && clock < u64::MAX
}

/// The clock after a step that selected `delay`.
pub fn advance_clock(clock: u64, delay: Option<u64>) -> (r: u64)
    ensures
        r == next_clock(clock, delay),
{
    match delay {
        Some(d) => clock.saturating_add(d),
        None => u64::MAX,
    }
}

/// Every reaction of a well-formed network has a positive rate constant: a
/// reaction with a rate that is not positive never enters one.
pub proof fn lemma_network_rates_positive(sys: ChemicalSystem)
    requires
        sys.wf(),
    ensures
        rates_positive(sys.reactions@),
{
    assert forall|i: int| 0 <= i < sys.reactions@.len() implies (#[trigger] sys.reactions@[i]).rate_numer
        > 0 && sys.reactions@[i].rate_denom > 0 by {
        assert(sys.reactions@[i].wf(sys.species@.len()));
    }
}

/// Two well-formed networks over the same populations that hold the same
/// reactions, given in whatever order, keep them in one order; fed the same
/// delay samples (as one seed gives them), they reach the same populations
/// after every step.
pub proof fn lemma_network_order_irrelevant(a: ChemicalSystem, b: ChemicalSystem, rounds: Seq<Seq<u64>>)
    requires
        a.wf(),
        b.wf(),
        same_reactions(a.reactions@, b.reactions@),
        a.quantities() == b.quantities(),
    ensures
        a.reactions@ == b.reactions@,
        run_quantities(a.reactions@, a.quantities(), rounds) == run_quantities(
            b.reactions@,
            b.quantities(),
            rounds,
        ),
{
    lemma_ascending_lists_equal(a.reactions@, b.reactions@);
}

impl ChemicalSystem {
    /// A network is well formed when every population is non-negative and
    /// every reaction is well formed over its species table.
    pub open spec fn wf(&self) -> bool {
        &&& populations_valid(self.species@)
        &&& names_unique(self.species@)
        &&& reactions_wf(self.reactions@, self.species@.len())
        &&& uuids_ascending(self.reactions@)
    }

    /// The populations of the network, in table order.
    pub open spec fn quantities(&self) -> Seq<int> {
        quantities_of(self.species@)
    }

    /// Builds a network from a species table and reactions over it, with
    /// the reactions put in ascending order of identity. The first failing
    /// check gives the error, in this order: a rate constant that is not
    /// positive, a negative population, a repeated species name, a reference
    /// outside the table, a repeated reaction identity.
    pub fn new(species: Vec<Species>, reactions: Vec<Reaction>) -> (r: Result<
        ChemicalSystem,
        ReactionError,
    >)
        ensures
            !rates_positive(reactions@) ==> r == Err::<ChemicalSystem, ReactionError>(
                ReactionError::InvalidRateConstant,
            ),
            rates_positive(reactions@) && !populations_valid(species@) ==> r == Err::<
                ChemicalSystem,
                ReactionError,
            >(ReactionError::NegativeQuantity),
            rates_positive(reactions@) && populations_valid(species@) && !names_unique(species@)
                ==> r == Err::<ChemicalSystem, ReactionError>(ReactionError::DuplicateName),
            rates_positive(reactions@) && populations_valid(species@) && names_unique(species@)
                && !reactions_within(reactions@, species@.len()) ==> r == Err::<
                ChemicalSystem,
                ReactionError,
            >(ReactionError::UnknownSpecies),
            rates_positive(reactions@) && populations_valid(species@) && names_unique(species@)
                && reactions_within(reactions@, species@.len()) && !uuids_distinct(reactions@)
                ==> r == Err::<ChemicalSystem, ReactionError>(ReactionError::DuplicateIdentity),
            rates_positive(reactions@) && populations_valid(species@) && names_unique(species@)
                && reactions_within(reactions@, species@.len()) && uuids_distinct(reactions@)
                ==> r is Ok,
            r matches Ok(sys) ==> {
                &&& sys.wf()
                &&& sys.species == species
                &&& same_reactions(sys.reactions@, reactions@)
            },
    {
        if !check_rates(&reactions) {
            return Err(ReactionError::InvalidRateConstant);
        }
        if !check_populations(&species) {
            return Err(ReactionError::NegativeQuantity);
        }
        if !check_names(&species) {
            return Err(ReactionError::DuplicateName);
        }
        if !check_indices(&reactions, species.len()) {
            return Err(ReactionError::UnknownSpecies);
        }
        if !check_identities(&reactions) {
            return Err(ReactionError::DuplicateIdentity);
        }
        let ghost given = reactions@;
        let sorted = sort_by_uuid(reactions);
        proof {
            assert forall|i: int| 0 <= i < sorted@.len() implies (#[trigger] sorted@[i]).wf(
                species@.len(),
            ) by {
                assert(given.contains(sorted@[i]));
                let j = choose|j: int| 0 <= j < given.len() && given[j] == sorted@[i];
                assert(rates_positive(given));
                assert(reactions_within(given, species@.len()));
                assert(given[j].wf(species@.len()));
            }
        }
        Ok(ChemicalSystem { species, reactions: sorted })
    }

    /// The population of species `i`.
    pub fn quantity_of(&self, i: usize) -> (r: i32)
        requires
            i < self.species@.len(),
        ensures
            r == self.species@[i as int].quantity,
    {
        self.species[i].quantity
    }

    /// A deep copy of the network: no species or reaction is shared with the
    /// network it was taken from, and the copy equals it in every field.
    pub fn duplicate(&self) -> (r: ChemicalSystem)
        ensures
            r.species@ == self.species@,
            r.reactions@.len() == self.reactions@.len(),
            forall|k: int|
                0 <= k < self.reactions@.len() ==> (#[trigger] r.reactions@[k]).same_as(
                    &self.reactions@[k],
                ),
            self.wf() ==> r.wf(),
    {
        let mut species: Vec<Species> = Vec::new();
        let mut i: usize = 0;
        while i < self.species.len()
            invariant
                i <= self.species@.len(),
                species@ == self.species@.take(i as int),
            decreases self.species@.len() - i,
        {
            species.push(self.species[i].duplicate());
            proof {
                assert(self.species@.take(i + 1) == self.species@.take(i as int).push(
                    self.species@[i as int],
                ));
            }
            i += 1;
        }
        let mut reactions: Vec<Reaction> = Vec::new();
        let mut j: usize = 0;
        while j < self.reactions.len()
            invariant
                j <= self.reactions@.len(),
                reactions@.len() == j,
                forall|k: int|
                    0 <= k < j ==> (#[trigger] reactions@[k]).same_as(&self.reactions@[k]),
            decreases self.reactions@.len() - j,
        {
            reactions.push(self.reactions[j].duplicate());
            j += 1;
        }
        proof {
            assert(self.species@.take(i as int) == self.species@);
            if self.wf() {
                assert forall|k: int| 0 <= k < reactions@.len() implies (
                #[trigger] reactions@[k]).wf(species@.len()) by {
                    assert(self.reactions@[k].wf(self.species@.len()));
                }
                assert forall|a: int, b: int| 0 <= a < b < reactions@.len() implies (
                #[trigger] reactions@[a]).uuid < (#[trigger] reactions@[b]).uuid by {
                    assert(self.reactions@[a].uuid < self.reactions@[b].uuid);
                }
            }
        }
        ChemicalSystem { species, reactions }
    }

    /// Lets the stepper take one step over this network with one delay
    /// sample per reaction.
    pub fn accept(&mut self, visitor: &mut SystemVisitor, samples: &Vec<u64>)
        requires
            old(self).wf(),
            samples@.len() == old(self).reactions@.len(),
        ensures
            final(self).wf(),
            final(self).reactions == old(self).reactions,
            final(self).species@.len() == old(self).species@.len(),
            forall|s: int|
                0 <= s < old(self).species@.len() ==> (#[trigger] final(self).species@[s]).name
                    == old(self).species@[s].name,
            final(self).quantities() == next_quantities(
                old(self).reactions@,
                old(self).quantities(),
                samples@,
            ),
            final(visitor).reaction_with_min_delay matches Some(m) ==> {
                &&& selected(old(self).reactions@, old(self).quantities(), samples@) == Some(
                    m as int,
                )
                &&& final(visitor).min_delay == Some(samples@[m as int])
            },
            final(visitor).reaction_with_min_delay is None ==> {
                &&& selected(old(self).reactions@, old(self).quantities(), samples@) is None
                &&& final(visitor).min_delay is None
            },
    {
        visitor.visit_system(self, samples);
    }

    /// One step of a run at `clock`: the stepper takes a step, the clock
    /// advances by the selected delay, and the recorder takes a snapshot of
    /// the network at the new time, which is returned.
    pub fn simulation_step(
        &mut self,
        clock: u64,
        visitor: &mut SystemVisitor,
        monitor: &mut DefaultMonitor,
        samples: &Vec<u64>,
    ) -> (r: u64)
        requires
            old(self).wf(),
            samples@.len() == old(self).reactions@.len(),
        ensures
            final(self).wf(),
            final(self).reactions == old(self).reactions,
            final(self).species@.len() == old(self).species@.len(),
            forall|s: int|
                0 <= s < old(self).species@.len() ==> (#[trigger] final(self).species@[s]).name
                    == old(self).species@[s].name,
            final(self).quantities() == next_quantities(
                old(self).reactions@,
                old(self).quantities(),
                samples@,
            ),
            final(visitor).reaction_with_min_delay matches Some(m) ==> {
                &&& selected(old(self).reactions@, old(self).quantities(), samples@) == Some(
                    m as int,
                )
                &&& final(visitor).min_delay == Some(samples@[m as int])
            },
            final(visitor).reaction_with_min_delay is None ==> {
                &&& selected(old(self).reactions@, old(self).quantities(), samples@) is None
                &&& final(visitor).min_delay is None
            },
            r == next_clock(clock, final(visitor).min_delay),
            final(monitor).history@.len() == old(monitor).history@.len() + 1,
            final(monitor).history@.drop_last() == old(monitor).history@,
            final(monitor).history@.last().time == r,
            final(monitor).history@.last().data matches SnapshotData::Reactions(v)
                && records_system(v@, *final(self), final(visitor).delays@),
    {
        self.accept(visitor, samples);
        let t = advance_clock(clock, visitor.min_delay());
        monitor.record_state(t, self, &visitor.delays);
        t
    }
}

} // verus!
