use vstd::prelude::*;

use crate::reaction::{Reaction, SpeciesRole, count_of, count_occurrences, indices_below};
use crate::species::Species;
use crate::system::ChemicalSystem;

verus! {

/// A species whose population changed, with its new population.
pub struct SpeciesEvents {
    pub species_name: String,
    pub new_quantity: i32,
}

/// A recorded copy of one reaction: its identity, rate constant, formula and
/// the delay it drew in the step, and a copy of each reactant and product
/// occurrence, in order.
pub struct ReactionState {
    pub uuid: u128,
    pub rate_numer: u64,
    pub rate_denom: u64,
    pub formula: String,
    pub delay: Option<u64>,
    pub reactants: Vec<Species>,
    pub products: Vec<Species>,
}

/// What a snapshot holds: copies of all reactions, or a list of changes.
pub enum SnapshotData {
    Reactions(Vec<ReactionState>),
    SpeciesEvents(Vec<SpeciesEvents>),
}

/// A time-stamped entry of the history.
pub struct SystemStateSnapshot {
    pub time: u64,
    pub data: SnapshotData,
}

/// The recorder: an append-only history of snapshots.
pub struct DefaultMonitor {
    pub history: Vec<SystemStateSnapshot>,
}

/// The species that `idx` lists, in order.
pub open spec fn species_at(species: Seq<Species>, idx: Seq<usize>) -> Seq<Species> {
    Seq::new(idx.len(), |k: int| species[idx[k] as int])
}

/// The delay that reaction `i` drew, where `delays` holds one for it.
pub open spec fn delay_at(delays: Seq<Option<u64>>, i: int) -> Option<u64> {
    if 0 <= i < delays.len() {
        delays[i]
    } else {
        None
    }
}

/// `rs` is a copy of reaction `r` over the species table `species`, with
/// the delay `delay`.
pub open spec fn records_reaction(
    rs: ReactionState,
    species: Seq<Species>,
    r: Reaction,
    delay: Option<u64>,
) -> bool {
    &&& rs.uuid == r.uuid
    &&& rs.rate_numer == r.rate_numer
    &&& rs.rate_denom == r.rate_denom
    &&& rs.formula == r.formula
    &&& rs.delay == delay
    &&& rs.reactants@ == species_at(species, r.reactants@)
    &&& rs.products@ == species_at(species, r.products@)
}

/// `v` holds one copy of each reaction of the network, in order, each with
/// the delay that `delays` holds for it.
pub open spec fn records_system(v: Seq<ReactionState>, sys: ChemicalSystem, delays: Seq<Option<u64>>) -> bool {
    &&& v.len() == sys.reactions@.len()
    &&& forall|i: int|
        0 <= i < v.len() ==> records_reaction(
            #[trigger] v[i],
            sys.species@,
            sys.reactions@[i],
            delay_at(delays, i),
        )
}

/// Two recorded reactions agree, up to the views of their lists.
pub open spec fn same_state(a: ReactionState, b: ReactionState) -> bool {
    &&& a.uuid == b.uuid
    &&& a.rate_numer == b.rate_numer
    &&& a.rate_denom == b.rate_denom
    &&& a.formula == b.formula
    &&& a.delay == b.delay
    &&& a.reactants@ == b.reactants@
    &&& a.products@ == b.products@
}

/// Some species of the list is named `name`.
pub open spec fn names_in(list: Seq<Species>, name: Seq<char>) -> bool {
    exists|k: int| 0 <= k < list.len() && (#[trigger] list[k]).name@ == name
}

/// The recorded reaction holds one of the requested species in the requested
/// role: as a reactant for `Reactant`, as a product for `Product`, as either
/// for `Both`.
pub open spec fn involves(rs: ReactionState, filter: Seq<(String, SpeciesRole)>) -> bool {
    exists|f: int|
        0 <= f < filter.len() && {
            ||| ((#[trigger] filter[f]).1 != SpeciesRole::Product && names_in(
                rs.reactants@,
                filter[f].0@,
            ))
            ||| (filter[f].1 != SpeciesRole::Reactant && names_in(rs.products@, filter[f].0@))
        }
}

/// The recorded reactions of `v` that the filter asks for, in order.
pub open spec fn kept(v: Seq<ReactionState>, filter: Seq<(String, SpeciesRole)>) -> Seq<
    ReactionState,
>
    decreases v.len(),
{
    if v.len() == 0 {
        Seq::empty()
    } else if involves(v.last(), filter) {
        kept(v.drop_last(), filter).push(v.last())
    } else {
        kept(v.drop_last(), filter)
    }
}

/// What a snapshot contributes to a plot: its recorded reactions that the
/// filter asks for; a list of changes contributes none.
pub open spec fn plotted(s: SystemStateSnapshot, filter: Seq<(String, SpeciesRole)>) -> Seq<
    ReactionState,
> {
    match s.data {
        SnapshotData::Reactions(v) => kept(v@, filter),
        SnapshotData::SpeciesEvents(_) => Seq::empty(),
    }
}

/// Some snapshot of the history holds a requested species in its role.
pub open spec fn history_mentions(h: Seq<SystemStateSnapshot>, filter: Seq<(String, SpeciesRole)>) -> bool {
    exists|i: int| 0 <= i < h.len() && plotted(#[trigger] h[i], filter).len() > 0
}

/// `out` is the plot data of snapshot `s`: the same time and copies of the
/// reactions that the filter asks for.
pub open spec fn plots_snapshot(
    out: SystemStateSnapshot,
    s: SystemStateSnapshot,
    filter: Seq<(String, SpeciesRole)>,
) -> bool {
    &&& out.time == s.time
    &&& out.data matches SnapshotData::Reactions(v) && v@.len() == plotted(s, filter).len()
        && forall|k: int| 0 <= k < v@.len() ==> same_state(#[trigger] v@[k], plotted(s, filter)[k])
}

/// The population of the first species named `name` in a list.
pub open spec fn first_named(list: Seq<Species>, name: Seq<char>) -> Option<i32>
    decreases list.len(),
{
    if list.len() == 0 {
        None
    } else {
        match first_named(list.drop_last(), name) {
            Some(q) => Some(q),
            None => if list.last().name@ == name {
                Some(list.last().quantity)
            } else {
                None
            },
        }
    }
}

/// The population of `name` in a recorded reaction: its reactants first.
pub open spec fn named_in_state(rs: ReactionState, name: Seq<char>) -> Option<i32> {
    match first_named(rs.reactants@, name) {
        Some(q) => Some(q),
        None => first_named(rs.products@, name),
    }
}

/// The population of `name` in the first recorded reaction that holds it.
pub open spec fn named_in_states(v: Seq<ReactionState>, name: Seq<char>) -> Option<i32>
    decreases v.len(),
{
    if v.len() == 0 {
        None
    } else {
        match named_in_states(v.drop_last(), name) {
            Some(q) => Some(q),
            None => named_in_state(v.last(), name),
        }
    }
}

/// The population of the first change of `name` in a list of changes.
pub open spec fn named_in_events(e: Seq<SpeciesEvents>, name: Seq<char>) -> Option<i32>
    decreases e.len(),
{
    if e.len() == 0 {
        None
    } else {
        match named_in_events(e.drop_last(), name) {
            Some(q) => Some(q),
            None => if e.last().species_name@ == name {
                Some(e.last().new_quantity)
            } else {
                None
            },
        }
    }
}

/// The population of `name` that a snapshot holds, if it holds one.
pub open spec fn named_in_snapshot(s: SystemStateSnapshot, name: Seq<char>) -> Option<i32> {
    match s.data {
        SnapshotData::Reactions(v) => named_in_states(v@, name),
        SnapshotData::SpeciesEvents(e) => named_in_events(e@, name),
    }
}

/// The population most recently recorded for `name`: the one of the latest
/// snapshot that holds it.
pub open spec fn last_recorded(h: Seq<SystemStateSnapshot>, name: Seq<char>) -> Option<i32>
    decreases h.len(),
{
    if h.len() == 0 {
        None
    } else {
        match named_in_snapshot(h.last(), name) {
            Some(q) => Some(q),
            None => last_recorded(h.drop_last(), name),
        }
    }
}

/// Species `s` is a reactant of some reaction of the list.
pub open spec fn is_reactant_in(reactions: Seq<Reaction>, s: usize) -> bool {
    exists|i: int| 0 <= i < reactions.len() && count_of((#[trigger] reactions[i]).reactants@, s) > 0
}

/// Species `s` is a product of some reaction of the list.
pub open spec fn is_product_in(reactions: Seq<Reaction>, s: usize) -> bool {
    exists|i: int| 0 <= i < reactions.len() && count_of((#[trigger] reactions[i]).products@, s) > 0
}

/// Species `s` of the network is asked for by the filter: by its name, and in
/// a role that it plays in some reaction.
pub open spec fn wanted(sys: ChemicalSystem, filter: Seq<(String, SpeciesRole)>, s: int) -> bool {
    exists|f: int|
        0 <= f < filter.len() && (#[trigger] filter[f]).0@ == sys.species@[s].name@ && {
            ||| (filter[f].1 != SpeciesRole::Product && is_reactant_in(sys.reactions@, s as usize))
            ||| (filter[f].1 != SpeciesRole::Reactant && is_product_in(sys.reactions@, s as usize))
        }
}

/// The changes among the first `upto` species of the network, in table
/// order: each wanted species whose population differs from the one most
/// recently recorded for it, or that has none recorded.
pub open spec fn changes(
    sys: ChemicalSystem,
    filter: Seq<(String, SpeciesRole)>,
    h: Seq<SystemStateSnapshot>,
    upto: nat,
) -> Seq<(Seq<char>, i32)>
    decreases upto,
{
    if upto == 0 {
        Seq::empty()
    } else {
        let prev = changes(sys, filter, h, (upto - 1) as nat);
        let sp = sys.species@[upto - 1];
        if wanted(sys, filter, upto - 1) && last_recorded(h, sp.name@) != Some(sp.quantity) {
            prev.push((sp.name@, sp.quantity))
        } else {
            prev
        }
    }
}

/// The list of changes `e` holds exactly the changes `c`, in order.
pub open spec fn events_match(e: Seq<SpeciesEvents>, c: Seq<(Seq<char>, i32)>) -> bool {
    &&& e.len() == c.len()
    &&& forall|k: int|
        0 <= k < e.len() ==> (#[trigger] e[k]).species_name@ == c[k].0 && e[k].new_quantity
            == c[k].1
}

/// The population of the first species named `name` in a list.
fn first_named_in(list: &Vec<Species>, name: &String) -> (r: Option<i32>)
    ensures
        r == first_named(list@, name@),
{
    let mut found: Option<i32> = None;
    let mut k: usize = 0;
    while k < list.len()
        invariant
            k <= list@.len(),
            found == first_named(list@.take(k as int), name@),
        decreases list@.len() - k,
    {
        proof {
            assert(list@.take(k + 1).drop_last() == list@.take(k as int));
        }
        if found.is_none() && list[k].name == *name {
            found = Some(list[k].quantity);
        }
        k += 1;
    }
    proof {
        assert(list@.take(k as int) == list@);
    }
    found
}

/// The population of the first change of `name` in a list of changes.
fn first_event_of(e: &Vec<SpeciesEvents>, name: &String) -> (r: Option<i32>)
    ensures
        r == named_in_events(e@, name@),
{
    let mut found: Option<i32> = None;
    let mut k: usize = 0;
    while k < e.len()
        invariant
            k <= e@.len(),
            found == named_in_events(e@.take(k as int), name@),
        decreases e@.len() - k,
    {
        proof {
            assert(e@.take(k + 1).drop_last() == e@.take(k as int));
        }
        if found.is_none() && e[k].species_name == *name {
            found = Some(e[k].new_quantity);
        }
        k += 1;
    }
    proof {
        assert(e@.take(k as int) == e@);
    }
    found
}

/// The population of `name` in the first recorded reaction that holds it.
fn first_state_of(v: &Vec<ReactionState>, name: &String) -> (r: Option<i32>)
    ensures
        r == named_in_states(v@, name@),
{
    let mut found: Option<i32> = None;
    let mut k: usize = 0;
    while k < v.len()
        invariant
            k <= v@.len(),
            found == named_in_states(v@.take(k as int), name@),
        decreases v@.len() - k,
    {
        proof {
            assert(v@.take(k + 1).drop_last() == v@.take(k as int));
        }
        if found.is_none() {
            found = match first_named_in(&v[k].reactants, name) {
                Some(q) => Some(q),
                None => first_named_in(&v[k].products, name),
            };
        }
        k += 1;
    }
    proof {
        assert(v@.take(k as int) == v@);
    }
    found
}

/// Whether species `s` is a reactant (`as_reactant`) or a product of some
/// reaction of the list.
fn plays_role(reactions: &Vec<Reaction>, s: usize, as_reactant: bool) -> (r: bool)
    ensures
        r == if as_reactant {
            is_reactant_in(reactions@, s)
        } else {
            is_product_in(reactions@, s)
        },
{
    let mut i: usize = 0;
    while i < reactions.len()
        invariant
            i <= reactions@.len(),
            forall|j: int|
                0 <= j < i ==> count_of(
                    if as_reactant {
                        (#[trigger] reactions@[j]).reactants@
                    } else {
                        reactions@[j].products@
                    },
                    s,
                ) == 0,
        decreases reactions@.len() - i,
    {
        let c = if as_reactant {
            count_occurrences(&reactions[i].reactants, s)
        } else {
            count_occurrences(&reactions[i].products, s)
        };
        if c > 0 {
            return true;
        }
        i += 1;
    }
    false
}

/// Whether species `s` of the network is asked for by the filter.
fn is_wanted(system: &ChemicalSystem, filter: &[(String, SpeciesRole)], s: usize) -> (r: bool)
    requires
        s < system.species@.len(),
    ensures
        r == wanted(*system, filter@, s as int),
{
    let as_reactant = plays_role(&system.reactions, s, true);
    let as_product = plays_role(&system.reactions, s, false);
    let mut f: usize = 0;
    while f < filter.len()
        invariant
            f <= filter@.len(),
            s < system.species@.len(),
            as_reactant == is_reactant_in(system.reactions@, s),
            as_product == is_product_in(system.reactions@, s),
            forall|g: int|
                0 <= g < f ==> !((#[trigger] filter@[g]).0@ == system.species@[s as int].name@ && {
                    ||| (filter@[g].1 != SpeciesRole::Product && as_reactant)
                    ||| (filter@[g].1 != SpeciesRole::Reactant && as_product)
                }),
        decreases filter@.len() - f,
    {
        let role = filter[f].1;
        if filter[f].0 == system.species[s].name {
            if (role != SpeciesRole::Product && as_reactant) || (role != SpeciesRole::Reactant
                && as_product) {
                return true;
            }
        }
        f += 1;
    }
    false
}

/// Copies of the species that `idx` lists.
fn copy_species(species: &Vec<Species>, idx: &Vec<usize>) -> (r: Vec<Species>)
    requires
        indices_below(idx@, species@.len()),
    ensures
        r@ == species_at(species@, idx@),
{
    let mut out: Vec<Species> = Vec::new();
    let mut k: usize = 0;
    while k < idx.len()
        invariant
            k <= idx@.len(),
            indices_below(idx@, species@.len()),
            out@ == species_at(species@, idx@.take(k as int)),
        decreases idx@.len() - k,
    {
        assert(idx@[k as int] < species@.len());
        out.push(species[idx[k]].duplicate());
        proof {
            assert(out@ =~= species_at(species@, idx@.take(k + 1)));
        }
        k += 1;
    }
    proof {
        assert(idx@.take(k as int) == idx@);
    }
    out
}

/// Copies of a list of species.
fn copy_list(list: &Vec<Species>) -> (r: Vec<Species>)
    ensures
        r@ == list@,
{
    let mut out: Vec<Species> = Vec::new();
    let mut k: usize = 0;
    while k < list.len()
        invariant
            k <= list@.len(),
            out@ == list@.take(k as int),
        decreases list@.len() - k,
    {
        out.push(list[k].duplicate());
        proof {
            assert(out@ =~= list@.take(k + 1));
        }
        k += 1;
    }
    proof {
        assert(list@.take(k as int) == list@);
    }
    out
}

/// Whether some species of the list is named `name`.
fn names_contain(list: &Vec<Species>, name: &String) -> (r: bool)
    ensures
        r == names_in(list@, name@),
{
    let mut k: usize = 0;
    while k < list.len()
        invariant
            k <= list@.len(),
            forall|j: int| 0 <= j < k ==> (#[trigger] list@[j]).name@ != name@,
        decreases list@.len() - k,
    {
        if list[k].name == *name {
            return true;
        }
        k += 1;
    }
    false
}

impl ReactionState {
    /// An independent copy of this record.
    pub fn duplicate(&self) -> (r: ReactionState)
        ensures
            same_state(r, *self),
    {
        ReactionState {
            uuid: self.uuid,
            rate_numer: self.rate_numer,
            rate_denom: self.rate_denom,
            formula: self.formula.clone(),
            delay: self.delay,
            reactants: copy_list(&self.reactants),
            products: copy_list(&self.products),
        }
    }

    /// Whether this record holds one of the requested species in its role.
    pub fn involves_any(&self, filter: &[(String, SpeciesRole)]) -> (r: bool)
        ensures
            r == involves(*self, filter@),
    {
        let mut f: usize = 0;
        while f < filter.len()
            invariant
                f <= filter@.len(),
                forall|g: int|
                    0 <= g < f ==> !{
                        ||| ((#[trigger] filter@[g]).1 != SpeciesRole::Product && names_in(
                            self.reactants@,
                            filter@[g].0@,
                        ))
                        ||| (filter@[g].1 != SpeciesRole::Reactant && names_in(
                            self.products@,
                            filter@[g].0@,
                        ))
                    },
            decreases filter@.len() - f,
        {
            let role = filter[f].1;
            if role != SpeciesRole::Product && names_contain(&self.reactants, &filter[f].0) {
                return true;
            }
            if role != SpeciesRole::Reactant && names_contain(&self.products, &filter[f].0) {
                return true;
            }
            f += 1;
        }
        false
    }
}

/// The recorded reactions of `v` that the filter asks for, copied.
fn keep_involved(v: &Vec<ReactionState>, filter: &[(String, SpeciesRole)]) -> (r: Vec<ReactionState>)
    ensures
        r@.len() == kept(v@, filter@).len(),
        forall|k: int| 0 <= k < r@.len() ==> same_state(#[trigger] r@[k], kept(v@, filter@)[k]),
{
    let mut out: Vec<ReactionState> = Vec::new();
    let mut k: usize = 0;
    while k < v.len()
        invariant
            k <= v@.len(),
            out@.len() == kept(v@.take(k as int), filter@).len(),
            forall|j: int|
                0 <= j < out@.len() ==> same_state(
                    #[trigger] out@[j],
                    kept(v@.take(k as int), filter@)[j],
                ),
        decreases v@.len() - k,
    {
        proof {
            assert(v@.take(k + 1).drop_last() == v@.take(k as int));
            assert(v@.take(k + 1).last() == v@[k as int]);
        }
        if v[k].involves_any(filter) {
            out.push(v[k].duplicate());
        }
        k += 1;
    }
    proof {
        assert(v@.take(k as int) == v@);
    }
    out
}

impl DefaultMonitor {
    pub fn new() -> (r: DefaultMonitor)
        ensures
            r.history@.len() == 0,
    {
        DefaultMonitor { history: Vec::new() }
    }

    /// Appends a snapshot at `time` that holds a deep copy of every reaction of
    /// the network, with its rate constant, formula and the current
    /// populations of its species. `delays` holds the delay each reaction
    /// drew in the last step, as a stepper keeps them; a reaction that it
    /// holds none for is recorded with none.
    pub fn record_state(&mut self, time: u64, system: &ChemicalSystem, delays: &Vec<Option<u64>>)
        requires
            system.wf(),
        ensures
            final(self).history@.len() == old(self).history@.len() + 1,
            final(self).history@.drop_last() == old(self).history@,
            final(self).history@.last().time == time,
            final(self).history@.last().data matches SnapshotData::Reactions(v) && records_system(
                v@,
                *system,
                delays@,
            ),
    {
        let mut states: Vec<ReactionState> = Vec::new();
        let mut i: usize = 0;
        while i < system.reactions.len()
            invariant
                i <= system.reactions@.len(),
                system.wf(),
                states@.len() == i,
                forall|j: int|
                    0 <= j < i ==> records_reaction(
                        #[trigger] states@[j],
                        system.species@,
                        system.reactions@[j],
                        delay_at(delays@, j),
                    ),
            decreases system.reactions@.len() - i,
        {
            let reaction = &system.reactions[i];
            assert(reaction.wf(system.species@.len()));
            let delay = if i < delays.len() {
                delays[i]
            } else {
                None
            };
            let st = ReactionState {
                uuid: reaction.uuid,
                rate_numer: reaction.rate_numer,
                rate_denom: reaction.rate_denom,
                formula: reaction.formula.clone(),
                delay,
                reactants: copy_species(&system.species, &reaction.reactants),
                products: copy_species(&system.species, &reaction.products),
            };
            states.push(st);
            i += 1;
        }
        self.history.push(SystemStateSnapshot { time, data: SnapshotData::Reactions(states) });
        proof {
            assert(self.history@.drop_last() =~= old(self).history@);
        }
    }

    /// The history as a plot would show the requested species: one snapshot
    /// per recorded one, in the same order and at the same time, holding the
    /// recorded reactions that involve a requested species in its role; or
    /// `None` where no snapshot holds any such reaction.
    pub fn extract_plot_data(&self, species_to_plot: &[(String, SpeciesRole)]) -> (r: Option<
        Vec<SystemStateSnapshot>,
    >)
        ensures
            r is None <==> !history_mentions(self.history@, species_to_plot@),
            r matches Some(v) ==> {
                &&& v@.len() == self.history@.len()
                &&& forall|i: int|
                    0 <= i < v@.len() ==> plots_snapshot(
                        #[trigger] v@[i],
                        self.history@[i],
                        species_to_plot@,
                    )
            },
    {
        let ghost filter = species_to_plot@;
        let mut out: Vec<SystemStateSnapshot> = Vec::new();
        let mut found = false;
        let mut i: usize = 0;
        while i < self.history.len()
            invariant
                i <= self.history@.len(),
                filter == species_to_plot@,
                out@.len() == i,
                forall|j: int|
                    0 <= j < i ==> plots_snapshot(#[trigger] out@[j], self.history@[j], filter),
                found <==> exists|j: int|
                    0 <= j < i && plotted(#[trigger] self.history@[j], filter).len() > 0,
            decreases self.history@.len() - i,
        {
            let snapshot = &self.history[i];
            let selected = match &snapshot.data {
                SnapshotData::Reactions(v) => keep_involved(v, species_to_plot),
                SnapshotData::SpeciesEvents(_) => Vec::new(),
            };
            if selected.len() > 0 {
                found = true;
            }
            out.push(SystemStateSnapshot { time: snapshot.time, data: SnapshotData::Reactions(selected) });
            proof {
                assert(plots_snapshot(out@[i as int], self.history@[i as int], filter));
            }
            i += 1;
        }
        if found {
            Some(out)
        } else {
            None
        }
    }

    /// The population most recently recorded for `name`, if any snapshot
    /// holds one.
    pub fn last_recorded_quantity(&self, name: &String) -> (r: Option<i32>)
        ensures
            r == last_recorded(self.history@, name@),
    {
        let mut found: Option<i32> = None;
        let mut i: usize = 0;
        while i < self.history.len()
            invariant
                i <= self.history@.len(),
                found == last_recorded(self.history@.take(i as int), name@),
            decreases self.history@.len() - i,
        {
            proof {
                assert(self.history@.take(i + 1).drop_last() == self.history@.take(i as int));
            }
            let here = match &self.history[i].data {
                SnapshotData::Reactions(v) => first_state_of(v, name),
                SnapshotData::SpeciesEvents(e) => first_event_of(e, name),
            };
            if here.is_some() {
                found = here;
            }
            i += 1;
        }
        proof {
            assert(self.history@.take(i as int) == self.history@);
        }
        found
    }

    /// Appends at `time` the changes of the requested species since they were
    /// last recorded, in table order; appends nothing where none changed.
    pub fn record_state_with_filter(
        &mut self,
        time: u64,
        system: &ChemicalSystem,
        species_to_record: &[(String, SpeciesRole)],
    )
        ensures
            changes(*system, species_to_record@, old(self).history@, system.species@.len()).len()
                == 0 ==> final(self).history@ == old(self).history@,
            changes(*system, species_to_record@, old(self).history@, system.species@.len()).len()
                > 0 ==> {
                &&& final(self).history@.len() == old(self).history@.len() + 1
                &&& final(self).history@.drop_last() == old(self).history@
                &&& final(self).history@.last().time == time
                &&& final(self).history@.last().data matches SnapshotData::SpeciesEvents(e)
                    && events_match(
                    e@,
                    changes(
                        *system,
                        species_to_record@,
                        old(self).history@,
                        system.species@.len(),
                    ),
                )
            },
    {
        let ghost h = self.history@;
        let mut events: Vec<SpeciesEvents> = Vec::new();
        let mut s: usize = 0;
        while s < system.species.len()
            invariant
                s <= system.species@.len(),
                h == self.history@,
                events_match(events@, changes(*system, species_to_record@, h, s as nat)),
            decreases system.species@.len() - s,
        {
            if is_wanted(system, species_to_record, s) {
                let name = &system.species[s].name;
                let q = system.species[s].quantity;
                let before = self.last_recorded_quantity(name);
                let same = match before {
                    Some(p) => p == q,
                    None => false,
                };
                if !same {
                    events.push(SpeciesEvents { species_name: name.clone(), new_quantity: q });
                }
            }
            s += 1;
        }
        if events.len() > 0 {
            self.history.push(
                SystemStateSnapshot { time, data: SnapshotData::SpeciesEvents(events) },
            );
            proof {
                assert(self.history@.drop_last() =~= h);
            }
        }
    }

    /// Appends the other recorder's history after this one's, as it is.
    pub fn merge(&mut self, other: DefaultMonitor, _species_to_plot: &[(String, SpeciesRole)])
        ensures
            final(self).history@ == old(self).history@ + other.history@,
    {
        let mut other = other;
        self.history.append(&mut other.history);
    }
}

} // verus!
