use vstd::prelude::*;

use crate::reaction::{
    Reaction,
    count_of,
    count_occurrences,
    indices_below,
    lemma_count_positive,
    lemma_count_prefix_le,
    lemma_count_take_step,
};
use crate::species::{Species, populations_valid, quantities_of};
use crate::system::{ChemicalSystem, reactions_wf};

verus! {

/// A reaction with reactants `r` and products `p` can fire on populations
/// `q`: every species holds at least one unit per reactant occurrence, and no
/// population would exceed what an `i32` holds afterwards.
pub open spec fn fireable(q: Seq<int>, r: Seq<usize>, p: Seq<usize>) -> bool {
    forall|s: int|
        0 <= s < q.len() ==> #[trigger] q[s] >= count_of(r, s as usize) && q[s] - count_of(
            r,
            s as usize,
        ) + count_of(p, s as usize) <= i32::MAX
}

/// The populations after a firing: each reactant occurrence takes one unit
/// from its species and each product occurrence adds one.
pub open spec fn fired(q: Seq<int>, r: Seq<usize>, p: Seq<usize>) -> Seq<int> {
    Seq::new(q.len(), |s: int| q[s] - count_of(r, s as usize) + count_of(p, s as usize))
}

/// The delay that reaction `i` competes with in a step: its sample where its
/// propensity is positive, and none (it never fires) where it is zero.
pub open spec fn effective_delay(reactions: Seq<Reaction>, q: Seq<int>, samples: Seq<u64>, i: int) -> Option<u64> {
    if reactions[i].enabled(q) {
        Some(samples[i])
    } else {
        None
    }
}

/// The delays of all reactions in one step.
pub open spec fn effective_delays(reactions: Seq<Reaction>, q: Seq<int>, samples: Seq<u64>) -> Seq<
    Option<u64>,
> {
    Seq::new(reactions.len(), |i: int| effective_delay(reactions, q, samples, i))
}

/// Among the first `upto` reactions, `m` has the smallest delay of those with
/// positive propensity, and no earlier one has a delay as small.
pub open spec fn is_first_minimum_upto(
    reactions: Seq<Reaction>,
    q: Seq<int>,
    samples: Seq<u64>,
    m: int,
    upto: int,
) -> bool {
    &&& 0 <= m < upto
    &&& reactions[m].enabled(q)
    &&& forall|j: int| 0 <= j < m && (#[trigger] reactions[j]).enabled(q) ==> samples[j] > samples[m]
    &&& forall|j: int|
        m < j < upto && (#[trigger] reactions[j]).enabled(q) ==> samples[j] >= samples[m]
}

/// Reaction `m` is the one a step selects: the soonest, the lowest index on a
/// tie. In a well-formed network the reactions ascend by identity, so this is
/// the lowest identity.
pub open spec fn is_first_minimum(reactions: Seq<Reaction>, q: Seq<int>, samples: Seq<u64>, m: int) -> bool {
    is_first_minimum_upto(reactions, q, samples, m, reactions.len() as int)
}

/// Some reaction has a positive propensity.
pub open spec fn any_enabled(reactions: Seq<Reaction>, q: Seq<int>) -> bool {
    exists|i: int| 0 <= i < reactions.len() && (#[trigger] reactions[i]).enabled(q)
}

/// The reaction that a step selects, if any can fire.
pub open spec fn selected(reactions: Seq<Reaction>, q: Seq<int>, samples: Seq<u64>) -> Option<int> {
    if exists|m: int| is_first_minimum(reactions, q, samples, m) {
        Some(choose|m: int| is_first_minimum(reactions, q, samples, m))
    } else {
        None
    }
}

/// The populations after one step with the given delay samples: the selected
/// reaction fires where it can, and otherwise nothing changes.
pub open spec fn next_quantities(reactions: Seq<Reaction>, q: Seq<int>, samples: Seq<u64>) -> Seq<int> {
    match selected(reactions, q, samples) {
        Some(m) => if fireable(q, reactions[m].reactants@, reactions[m].products@) {
            fired(q, reactions[m].reactants@, reactions[m].products@)
        } else {
            q
        },
        None => q,
    }
}

/// At most one reaction is the first minimum of a step.
pub proof fn lemma_first_minimum_unique(
    reactions: Seq<Reaction>,
    q: Seq<int>,
    samples: Seq<u64>,
    a: int,
    b: int,
)
    requires
        is_first_minimum(reactions, q, samples, a),
        is_first_minimum(reactions, q, samples, b),
    ensures
        a == b,
{
    if a < b {
        assert(reactions[a].enabled(q));
    } else if b < a {
        assert(reactions[b].enabled(q));
    }
}

/// The selection of a step is the reaction that meets the selection rule.
pub proof fn lemma_selected_is_first_minimum(
    reactions: Seq<Reaction>,
    q: Seq<int>,
    samples: Seq<u64>,
    m: int,
)
    requires
        is_first_minimum(reactions, q, samples, m),
    ensures
        selected(reactions, q, samples) == Some(m),
{
    let c = choose|c: int| is_first_minimum(reactions, q, samples, c);
    lemma_first_minimum_unique(reactions, q, samples, c, m);
}

/// Whether reaction `m` can fire on the current populations.
fn can_fire(system: &ChemicalSystem, m: usize) -> (r: bool)
    requires
        system.wf(),
        m < system.reactions@.len(),
    ensures
        r == fireable(
            system.quantities(),
            system.reactions@[m as int].reactants@,
            system.reactions@[m as int].products@,
        ),
{
    let ghost q = system.quantities();
    let n_species = system.species.len();
    let reaction = &system.reactions[m];
    let ghost rs = reaction.reactants@;
    let ghost ps = reaction.products@;
    assert(reaction.wf(system.species@.len()));
    let mut k: usize = 0;
    while k < reaction.reactants.len()
        invariant
            k <= rs.len(),
            rs == reaction.reactants@,
            ps == reaction.products@,
            *reaction == system.reactions@[m as int],
            indices_below(rs, q.len()),
            q == system.quantities(),
            forall|j: int| 0 <= j < k ==> q[#[trigger] rs[j] as int] >= count_of(rs, rs[j]),
        decreases rs.len() - k,
    {
        let s = reaction.reactants[k];
        assert(rs[k as int] < q.len());
        let c = count_occurrences(&reaction.reactants, s);
        assert(q[s as int] == system.species@[s as int].quantity);
        if (system.species[s].quantity as i128) < (c as i128) {
            proof {
                assert(!(q[s as int] >= count_of(rs, (s as int) as usize)));
            }
            return false;
        }
        k += 1;
    }
    let mut k: usize = 0;
    while k < reaction.products.len()
        invariant
            k <= ps.len(),
            ps == reaction.products@,
            rs == reaction.reactants@,
            *reaction == system.reactions@[m as int],
            indices_below(ps, q.len()),
            q == system.quantities(),
            forall|j: int|
                0 <= j < k ==> q[#[trigger] ps[j] as int] - count_of(rs, ps[j]) + count_of(
                    ps,
                    ps[j],
                ) <= i32::MAX,
        decreases ps.len() - k,
    {
        let s = reaction.products[k];
        assert(ps[k as int] < q.len());
        let c = count_occurrences(&reaction.reactants, s);
        let e = count_occurrences(&reaction.products, s);
        assert(q[s as int] == system.species@[s as int].quantity);
        if (system.species[s].quantity as i128) - (c as i128) + (e as i128) > (i32::MAX as i128) {
            proof {
                assert(!(q[s as int] - count_of(rs, (s as int) as usize) + count_of(ps, (s as int) as usize)
                    <= i32::MAX));
            }
            return false;
        }
        k += 1;
    }
    proof {
        assert(q.len() == n_species);
        assert forall|s: int| 0 <= s < q.len() implies #[trigger] q[s] >= count_of(rs, s as usize)
            && q[s] - count_of(rs, s as usize) + count_of(ps, s as usize) <= i32::MAX by {
            assert(system.species@[s].wf());
            assert(q[s] == system.species@[s].quantity);
            if count_of(rs, s as usize) > 0 {
                lemma_count_positive(rs, s as usize);
                let j = choose|j: int| 0 <= j < rs.len() && rs[j] == s as usize;
                assert(q[rs[j] as int] >= count_of(rs, rs[j]));
            }
            if count_of(ps, s as usize) > 0 {
                lemma_count_positive(ps, s as usize);
                let j = choose|j: int| 0 <= j < ps.len() && ps[j] == s as usize;
                assert(q[ps[j] as int] - count_of(rs, ps[j]) + count_of(ps, ps[j]) <= i32::MAX);
            }
        }
    }
    true
}

/// The populations after one step per entry of `rounds`, each entry holding
/// one delay sample per reaction.
pub open spec fn run_quantities(reactions: Seq<Reaction>, q: Seq<int>, rounds: Seq<Seq<u64>>) -> Seq<
    int,
>
    decreases rounds.len(),
{
    if rounds.len() == 0 {
        q
    } else {
        next_quantities(reactions, run_quantities(reactions, q, rounds.drop_last()), rounds.last())
    }
}

/// Every population lies between zero and the largest `i32`.
pub open spec fn populations_in_range(q: Seq<int>) -> bool {
    forall|s: int| 0 <= s < q.len() ==> 0 <= #[trigger] q[s] <= i32::MAX
}

/// A step is balanced: where the selected reaction `m` fires, each species
/// changes by its product occurrences less its reactant occurrences, all at
/// once; where it cannot fire, no population changes.
pub proof fn lemma_step_balanced(reactions: Seq<Reaction>, q: Seq<int>, samples: Seq<u64>, m: int)
    requires
        selected(reactions, q, samples) == Some(m),
    ensures
        next_quantities(reactions, q, samples).len() == q.len(),
        fireable(q, reactions[m].reactants@, reactions[m].products@) ==> forall|s: int|
            0 <= s < q.len() ==> #[trigger] next_quantities(reactions, q, samples)[s] - q[s]
                == count_of(reactions[m].products@, s as usize) - count_of(
                reactions[m].reactants@,
                s as usize,
            ),
        !fireable(q, reactions[m].reactants@, reactions[m].products@) ==> next_quantities(
            reactions,
            q,
            samples,
        ) == q,
{
}

/// Where no reaction is selected, a step changes no population.
pub proof fn lemma_step_without_selection(reactions: Seq<Reaction>, q: Seq<int>, samples: Seq<u64>)
    requires
        selected(reactions, q, samples) is None,
    ensures
        next_quantities(reactions, q, samples) == q,
{
}

/// One step keeps every population between zero and the largest `i32`.
pub proof fn lemma_step_keeps_populations_in_range(
    reactions: Seq<Reaction>,
    q: Seq<int>,
    samples: Seq<u64>,
)
    requires
        populations_in_range(q),
    ensures
        next_quantities(reactions, q, samples).len() == q.len(),
        populations_in_range(next_quantities(reactions, q, samples)),
{
    if let Some(m) = selected(reactions, q, samples) {
        let r = reactions[m].reactants@;
        let p = reactions[m].products@;
        if fireable(q, r, p) {
            assert forall|s: int| 0 <= s < q.len() implies 0 <= #[trigger] fired(q, r, p)[s]
                <= i32::MAX by {
                assert(q[s] >= count_of(r, s as usize));
            }
        }
    }
}

/// No population ever goes negative, over any number of steps and whatever
/// delays are drawn.
pub proof fn lemma_populations_never_negative(
    reactions: Seq<Reaction>,
    q: Seq<int>,
    rounds: Seq<Seq<u64>>,
)
    requires
        populations_in_range(q),
    ensures
        run_quantities(reactions, q, rounds).len() == q.len(),
        populations_in_range(run_quantities(reactions, q, rounds)),
    decreases rounds.len(),
{
    if rounds.len() > 0 {
        lemma_populations_never_negative(reactions, q, rounds.drop_last());
        lemma_step_keeps_populations_in_range(
            reactions,
            run_quantities(reactions, q, rounds.drop_last()),
            rounds.last(),
        );
    }
}

/// Where some reaction has positive propensity, a reaction that meets the
/// selection rule exists among the first `upto`.
proof fn lemma_first_minimum_exists_upto(
    reactions: Seq<Reaction>,
    q: Seq<int>,
    samples: Seq<u64>,
    upto: int,
) -> (m: int)
    requires
        0 <= upto <= reactions.len(),
        exists|j: int| 0 <= j < upto && (#[trigger] reactions[j]).enabled(q),
    ensures
        is_first_minimum_upto(reactions, q, samples, m, upto),
    decreases upto,
{
    let t = upto - 1;
    if exists|j: int| 0 <= j < t && (#[trigger] reactions[j]).enabled(q) {
        let m = lemma_first_minimum_exists_upto(reactions, q, samples, t);
        if reactions[t].enabled(q) && samples[t] < samples[m] {
            t
        } else {
            m
        }
    } else {
        let j = choose|j: int| 0 <= j < upto && (#[trigger] reactions[j]).enabled(q);
        assert(j == t);
        t
    }
}

/// A reaction with a reactant at population zero is never selected, and
/// where another reaction has positive propensity, a reaction with positive
/// propensity is selected instead.
pub proof fn lemma_starved_reaction_never_selected(
    reactions: Seq<Reaction>,
    q: Seq<int>,
    samples: Seq<u64>,
    j: int,
    k: int,
)
    requires
        0 <= j < reactions.len(),
        0 <= k < reactions[j].reactants@.len(),
        q[reactions[j].reactants@[k] as int] == 0,
    ensures
        selected(reactions, q, samples) != Some(j),
        any_enabled(reactions, q) ==> (selected(reactions, q, samples) matches Some(m)
            && reactions[m].enabled(q)),
{
    if selected(reactions, q, samples) == Some(j) {
        let c = choose|c: int| is_first_minimum(reactions, q, samples, c);
        assert(reactions[j].enabled(q));
        assert(q[reactions[j].reactants@[k] as int] > 0);
    }
    if any_enabled(reactions, q) {
        let m = lemma_first_minimum_exists_upto(reactions, q, samples, reactions.len() as int);
        lemma_selected_is_first_minimum(reactions, q, samples, m);
    }
}

/// The stepper. A step draws no randomness itself: it takes one delay sample
/// per reaction, keeps in `delays` the delay each reaction competes with,
/// selects the soonest reaction and fires it where its reactants suffice.
pub struct SystemVisitor {
    pub min_delay: Option<u64>,
    pub reaction_with_min_delay: Option<usize>,
    pub delays: Vec<Option<u64>>,
}

impl SystemVisitor {
    pub fn new() -> (r: SystemVisitor)
        ensures
            r.min_delay is None,
            r.reaction_with_min_delay is None,
            r.delays@.len() == 0,
    {
        SystemVisitor { min_delay: None, reaction_with_min_delay: None, delays: Vec::new() }
    }

    /// The delay selected by the last step, if any reaction could fire.
    pub fn min_delay(&self) -> (r: Option<u64>)
        ensures
            r == self.min_delay,
    {
        self.min_delay
    }

    /// The index of the reaction selected by the last step, if any.
    pub fn reaction_with_min_delay(&self) -> (r: Option<usize>)
        ensures
            r == self.reaction_with_min_delay,
    {
        self.reaction_with_min_delay
    }

    /// Lets reaction `index`, with delay `delay`, compete for the minimum. A
    /// strictly smaller delay wins, so the earlier reaction keeps a tie; no
    /// delay never wins.
    pub fn visit_reactions(&mut self, index: usize, delay: Option<u64>)
        ensures
            final(self).delays == old(self).delays,
            (delay matches Some(d) && (old(self).min_delay matches Some(m) ==> d < m)) ==> {
                &&& final(self).min_delay == delay
                &&& final(self).reaction_with_min_delay == Some(index)
            },
            !(delay matches Some(d) && (old(self).min_delay matches Some(m) ==> d < m)) ==> {
                &&& final(self).min_delay == old(self).min_delay
                &&& final(self).reaction_with_min_delay == old(self).reaction_with_min_delay
            },
    {
        if let Some(d) = delay {
            match self.min_delay {
                None => {
                    self.min_delay = Some(d);
                    self.reaction_with_min_delay = Some(index);
                },
                Some(m) => {
                    if d < m {
                        self.min_delay = Some(d);
                        self.reaction_with_min_delay = Some(index);
                    }
                },
            }
        }
    }

    /// Takes one unit from species `index` where it has one.
    pub fn visit_reactants(&mut self, system: &mut ChemicalSystem, index: usize) -> (r: bool)
        requires
            index < old(system).species@.len(),
        ensures
            *final(self) == *old(self),
            r == (old(system).species@[index as int].quantity >= 1),
            final(system).reactions == old(system).reactions,
            final(system).species@.len() == old(system).species@.len(),
            forall|s: int|
                0 <= s < old(system).species@.len() && s != index ==> final(system).species@[s]
                    == old(system).species@[s],
            final(system).species@[index as int].name == old(system).species@[index as int].name,
            final(system).species@[index as int].quantity == if r {
                old(system).species@[index as int].quantity - 1
            } else {
                old(system).species@[index as int].quantity as int
            },
    {
        let q = system.species[index].quantity;
        if q >= 1 {
            let name = system.species[index].name.clone();
            system.species.set(index, Species { name, quantity: q - 1 });
            true
        } else {
            false
        }
    }

    /// Adds one unit to species `index` where its population can grow.
    pub fn visit_products(&mut self, system: &mut ChemicalSystem, index: usize) -> (r: bool)
        requires
            index < old(system).species@.len(),
        ensures
            *final(self) == *old(self),
            r == (old(system).species@[index as int].quantity < i32::MAX),
            final(system).reactions == old(system).reactions,
            final(system).species@.len() == old(system).species@.len(),
            forall|s: int|
                0 <= s < old(system).species@.len() && s != index ==> final(system).species@[s]
                    == old(system).species@[s],
            final(system).species@[index as int].name == old(system).species@[index as int].name,
            final(system).species@[index as int].quantity == if r {
                old(system).species@[index as int].quantity + 1
            } else {
                old(system).species@[index as int].quantity as int
            },
    {
        let q = system.species[index].quantity;
        if q < i32::MAX {
            let name = system.species[index].name.clone();
            system.species.set(index, Species { name, quantity: q + 1 });
            true
        } else {
            false
        }
    }

    /// Scans the reactions in order: records each one's delay for this step
    /// and selects the soonest.
    fn select(&mut self, system: &ChemicalSystem, samples: &Vec<u64>)
        requires
            system.wf(),
            samples@.len() == system.reactions@.len(),
        ensures
            final(self).delays@ == effective_delays(
                system.reactions@,
                system.quantities(),
                samples@,
            ),
            final(self).reaction_with_min_delay matches Some(m) ==> {
                &&& is_first_minimum(system.reactions@, system.quantities(), samples@, m as int)
                &&& final(self).min_delay == Some(samples@[m as int])
            },
            final(self).reaction_with_min_delay is None ==> {
                &&& !any_enabled(system.reactions@, system.quantities())
                &&& final(self).min_delay is None
            },
    {
        let ghost rs = system.reactions@;
        let ghost q = system.quantities();
        self.min_delay = None;
        self.reaction_with_min_delay = None;
        let mut delays: Vec<Option<u64>> = Vec::new();
        let n = system.reactions.len();
        let mut i: usize = 0;
        while i < n
            invariant
                n == rs.len(),
                rs == system.reactions@,
                q == system.quantities(),
                system.wf(),
                samples@.len() == n,
                i <= n,
                delays@ == effective_delays(rs, q, samples@).take(i as int),
                self.reaction_with_min_delay matches Some(m) ==> {
                    &&& is_first_minimum_upto(rs, q, samples@, m as int, i as int)
                    &&& self.min_delay == Some(samples@[m as int])
                },
                self.reaction_with_min_delay is None ==> {
                    &&& forall|j: int| 0 <= j < i ==> !(#[trigger] rs[j]).enabled(q)
                    &&& self.min_delay is None
                },
            decreases n - i,
        {
            assert(rs[i as int].wf(system.species@.len()));
            let d = system.reactions[i].compute_delay(&system.species, samples[i]);
            delays.push(d);
            self.visit_reactions(i, d);
            proof {
                assert(delays@ =~= effective_delays(rs, q, samples@).take(i + 1));
            }
            i += 1;
        }
        proof {
            assert(effective_delays(rs, q, samples@).take(n as int) =~= effective_delays(
                rs,
                q,
                samples@,
            ));
        }
        self.delays = delays;
    }

    /// Fires reaction `m`, whose reactants suffice: one unit leaves for each
    /// reactant occurrence, then one arrives for each product occurrence.
    fn fire(&mut self, system: &mut ChemicalSystem, m: usize)
        requires
            old(system).wf(),
            m < old(system).reactions@.len(),
            fireable(
                old(system).quantities(),
                old(system).reactions@[m as int].reactants@,
                old(system).reactions@[m as int].products@,
            ),
        ensures
            *final(self) == *old(self),
            final(system).reactions == old(system).reactions,
            final(system).species@.len() == old(system).species@.len(),
            forall|s: int|
                0 <= s < old(system).species@.len() ==> (#[trigger] final(system).species@[s]).name
                    == old(system).species@[s].name,
            final(system).quantities() == fired(
                old(system).quantities(),
                old(system).reactions@[m as int].reactants@,
                old(system).reactions@[m as int].products@,
            ),
    {
        let ghost q0 = system.quantities();
        let ghost names = system.species@;
        let ghost reactions = system.reactions;
        let ghost rs = system.reactions@[m as int].reactants@;
        let ghost ps = system.reactions@[m as int].products@;
        let n = system.species.len();
        assert(system.reactions@[m as int].wf(n as nat));
        let mut k: usize = 0;
        while k < system.reactions[m].reactants.len()
            invariant
                system.reactions == reactions,
                *self == *old(self),
                m < system.reactions@.len(),
                rs == system.reactions@[m as int].reactants@,
                ps == system.reactions@[m as int].products@,
                indices_below(rs, n as nat),
                system.species@.len() == n,
                q0.len() == n,
                fireable(q0, rs, ps),
                k <= rs.len(),
                forall|s: int| 0 <= s < n ==> (#[trigger] system.species@[s]).name == names[s].name,
                forall|s: int|
                    0 <= s < n ==> (#[trigger] system.species@[s]).quantity == q0[s] - count_of(
                        rs.take(k as int),
                        s as usize,
                    ),
            decreases rs.len() - k,
        {
            let i = system.reactions[m].reactants[k];
            proof {
                assert(rs[k as int] < n);
                lemma_count_take_step(rs, k as int, i);
                lemma_count_prefix_le(rs, k + 1, i);
                assert(q0[i as int] >= count_of(rs, i));
                assert(system.species@[i as int].quantity >= 1);
            }
            let consumed = self.visit_reactants(system, i);
            assert(consumed);
            proof {
                assert forall|s: int| 0 <= s < n implies (#[trigger] system.species@[s]).quantity
                    == q0[s] - count_of(rs.take(k + 1), s as usize) by {
                    lemma_count_take_step(rs, k as int, s as usize);
                }
            }
            k += 1;
        }
        proof {
            assert(rs.take(k as int) == rs);
        }
        let mut k: usize = 0;
        while k < system.reactions[m].products.len()
            invariant
                system.reactions == reactions,
                *self == *old(self),
                m < system.reactions@.len(),
                rs == system.reactions@[m as int].reactants@,
                ps == system.reactions@[m as int].products@,
                indices_below(ps, n as nat),
                system.species@.len() == n,
                q0.len() == n,
                fireable(q0, rs, ps),
                k <= ps.len(),
                forall|s: int| 0 <= s < n ==> (#[trigger] system.species@[s]).name == names[s].name,
                forall|s: int|
                    0 <= s < n ==> (#[trigger] system.species@[s]).quantity == q0[s] - count_of(
                        rs,
                        s as usize,
                    ) + count_of(ps.take(k as int), s as usize),
            decreases ps.len() - k,
        {
            let i = system.reactions[m].products[k];
            proof {
                assert(ps[k as int] < n);
                lemma_count_take_step(ps, k as int, i);
                lemma_count_prefix_le(ps, k + 1, i);
                assert(q0[i as int] - count_of(rs, i) + count_of(ps, i) <= i32::MAX);
            }
            let produced = self.visit_products(system, i);
            assert(produced);
            proof {
                assert forall|s: int| 0 <= s < n implies (#[trigger] system.species@[s]).quantity
                    == q0[s] - count_of(rs, s as usize) + count_of(ps.take(k + 1), s as usize) by {
                    lemma_count_take_step(ps, k as int, s as usize);
                }
            }
            k += 1;
        }
        proof {
            assert(ps.take(k as int) == ps);
            assert(system.quantities() =~= fired(q0, rs, ps));
        }
    }

    /// One step over the network with one delay sample per reaction, in the
    /// order of `system.reactions`, which is ascending order of identity.
    /// Every reaction's delay is recomputed; the soonest reaction with
    /// positive propensity is selected, the one of lowest identity on a tie;
    /// it fires where every reactant occurrence finds a unit and no population
    /// would overflow, and otherwise nothing changes.
    pub fn visit_system(&mut self, system: &mut ChemicalSystem, samples: &Vec<u64>)
        requires
            old(system).wf(),
            samples@.len() == old(system).reactions@.len(),
        ensures
            final(system).wf(),
            final(system).reactions == old(system).reactions,
            final(system).species@.len() == old(system).species@.len(),
            forall|s: int|
                0 <= s < old(system).species@.len() ==> (#[trigger] final(system).species@[s]).name
                    == old(system).species@[s].name,
            final(system).quantities() == next_quantities(
                old(system).reactions@,
                old(system).quantities(),
                samples@,
            ),
            final(self).delays@ == effective_delays(
                old(system).reactions@,
                old(system).quantities(),
                samples@,
            ),
            final(self).reaction_with_min_delay matches Some(m) ==> {
                &&& selected(old(system).reactions@, old(system).quantities(), samples@) == Some(
                    m as int,
                )
                &&& final(self).min_delay == Some(samples@[m as int])
                &&& forall|j: int|
                    0 <= j < old(system).reactions@.len() && (#[trigger] old(
                        system,
                    ).reactions@[j]).enabled(old(system).quantities()) && samples@[j]
                        == samples@[m as int] ==> old(system).reactions@[m as int].uuid
                        <= old(system).reactions@[j].uuid
            },
            final(self).reaction_with_min_delay is None ==> {
                &&& selected(old(system).reactions@, old(system).quantities(), samples@) is None
                &&& final(self).min_delay is None
            },
    {
        let ghost q0 = system.quantities();
        let ghost rs = system.reactions@;
        self.select(system, samples);
        match self.reaction_with_min_delay {
            Some(m) => {
                proof {
                    lemma_selected_is_first_minimum(rs, q0, samples@, m as int);
                    assert forall|j: int|
                        0 <= j < rs.len() && (#[trigger] rs[j]).enabled(q0) && samples@[j]
                            == samples@[m as int] implies rs[m as int].uuid <= rs[j].uuid by {
                        if j != m {
                            assert(rs[m as int].uuid < rs[j].uuid);
                        }
                    }
                }
                if can_fire(system, m) {
                    self.fire(system, m);
                    proof {
                        let r = rs[m as int].reactants@;
                        assert forall|s: int| 0 <= s < system.species@.len() implies (
                        #[trigger] system.species@[s]).wf() by {
                            assert(system.quantities()[s] == system.species@[s].quantity);
                            assert(q0[s] >= count_of(r, s as usize));
                        }
                    }
                }
            },
            None => {
                proof {
                    if exists|c: int| is_first_minimum(rs, q0, samples@, c) {
                        let c = choose|c: int| is_first_minimum(rs, q0, samples@, c);
                        assert(rs[c].enabled(q0));
                    }
                }
            },
        }
    }
}

} // verus!
