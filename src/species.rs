use vstd::prelude::*;

verus! {

/// A chemical species: its name, unique within a network, and its population.
pub struct Species {
    pub name: String,
    pub quantity: i32,
}

/// Every species of the table has a non-negative population.
pub open spec fn populations_valid(species: Seq<Species>) -> bool {
    forall|i: int| 0 <= i < species.len() ==> (#[trigger] species[i]).wf()
}

/// The populations of a species table, in table order.
pub open spec fn quantities_of(species: Seq<Species>) -> Seq<int> {
    Seq::new(species.len(), |i: int| species[i].quantity as int)
}

/// Builds a species from a borrowed name and an initial population.
pub fn species_builder(name: &str, quantity: i32) -> (r: Species)
    requires
        quantity >= 0,
    ensures
        r.name@ == name@,
        r.quantity == quantity,
{
    Species { name: String::from_str(name), quantity }
}

impl Species {
    /// A species is well formed when its population is not negative.
    pub open spec fn wf(&self) -> bool {
        self.quantity >= 0
    }

    pub fn new(name: String, quantity: i32) -> (r: Species)
        requires
            quantity >= 0,
        ensures
            r.name == name,
            r.quantity == quantity,
            r.wf(),
    {
        Species { name, quantity }
    }

    pub fn get_quantity(&self) -> (r: i32)
        ensures
            r == self.quantity,
    {
        self.quantity
    }

    /// An independent copy of this species, equal to it in every field.
    pub fn duplicate(&self) -> (r: Species)
        ensures
            r == *self,
    {
        Species { name: self.name.clone(), quantity: self.quantity }
    }
}

} // verus!
