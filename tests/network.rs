use stochastic_simulation::reaction::{Reaction, ReactionError};
use stochastic_simulation::species::{species_builder, Species};
use stochastic_simulation::system::ChemicalSystem;

fn table() -> Vec<Species> {
    vec![species_builder("A", 100), species_builder("B", 0), species_builder("C", 1)]
}

#[test]
fn species_builder_keeps_name_and_quantity() {
    let s = species_builder("A", 7);
    assert_eq!(s.name, "A");
    assert_eq!(s.get_quantity(), 7);
    let t = Species::new("Z".to_string(), 0);
    assert_eq!(t.get_quantity(), 0);
    let u = t.duplicate();
    assert_eq!(u.name, "Z");
}

#[test]
fn reaction_rejects_non_positive_rate() {
    let sp = table();
    assert!(matches!(
        Reaction::new(&sp, vec![0, 2], vec![1, 2], 0, 1000),
        Err(ReactionError::InvalidRateConstant)
    ));
    assert!(matches!(
        Reaction::new(&sp, vec![0, 2], vec![1, 2], -3, 1000),
        Err(ReactionError::InvalidRateConstant)
    ));
    assert!(matches!(
        Reaction::new(&sp, vec![0, 2], vec![1, 2], 1, 0),
        Err(ReactionError::InvalidRateConstant)
    ));
    assert!(Reaction::new(&sp, vec![0, 2], vec![1, 2], 1, 1000).is_ok());
}

#[test]
fn reaction_rejects_unknown_species() {
    let sp = table();
    assert!(matches!(
        Reaction::new(&sp, vec![0, 3], vec![1], 1, 1),
        Err(ReactionError::UnknownSpecies)
    ));
    assert!(matches!(
        Reaction::new(&sp, vec![0], vec![9], 1, 1),
        Err(ReactionError::UnknownSpecies)
    ));
}

#[test]
fn reaction_formula_joins_names() {
    let sp = table();
    let r = Reaction::new(&sp, vec![0, 2], vec![1, 2], 1, 1000).ok().unwrap();
    assert_eq!(r.formula, "A + C -> B + C");
    let s = Reaction::new(&sp, vec![], vec![1], 1, 1).ok().unwrap();
    assert_eq!(s.formula, " -> B");
}

#[test]
fn reactions_get_distinct_identities() {
    let sp = table();
    let r = Reaction::new(&sp, vec![0], vec![1], 1, 1).ok().unwrap();
    let s = Reaction::new(&sp, vec![0], vec![1], 1, 1).ok().unwrap();
    assert_ne!(r.uuid, s.uuid);
    // version 4 and the RFC variant are set in every random identifier
    assert_eq!((r.uuid >> 76) & 0xF, 4);
    assert_eq!((r.uuid >> 62) & 0x3, 2);
}

#[test]
fn propensity_is_rate_times_reactant_product() {
    let sp = table();
    let r = Reaction::new(&sp, vec![0, 2], vec![1, 2], 1, 1000).ok().unwrap();
    assert_eq!(r.propensity_numerator(&sp), Some(100));
    let sq = vec![species_builder("A", 3)];
    let d = Reaction::new(&sq, vec![0, 0], vec![], 2, 1).ok().unwrap();
    assert_eq!(d.propensity_numerator(&sq), Some(18));
    let e = Reaction::new(&sp, vec![1, 0], vec![2], 5, 1).ok().unwrap();
    assert_eq!(e.propensity_numerator(&sp), Some(0));
}

#[test]
fn propensity_reports_overflow() {
    let sp = vec![species_builder("X", i32::MAX)];
    let r = Reaction::new(&sp, vec![0, 0, 0, 0, 0], vec![], i64::MAX, 1).ok().unwrap();
    assert_eq!(r.propensity_numerator(&sp), None);
    // a zero factor after the overflowing ones still makes the propensity zero
    let sq = vec![species_builder("X", i32::MAX), species_builder("Y", 0)];
    let s = Reaction::new(&sq, vec![0, 0, 0, 0, 0, 1], vec![], i64::MAX, 1).ok().unwrap();
    assert_eq!(s.propensity_numerator(&sq), Some(0));
}

#[test]
fn zero_propensity_gives_no_delay() {
    let sp = table();
    let r = Reaction::new(&sp, vec![1], vec![0], 1, 1).ok().unwrap();
    assert!(!r.is_enabled(&sp));
    assert_eq!(r.compute_delay(&sp, 42), None);
    let s = Reaction::new(&sp, vec![0], vec![1], 1, 1).ok().unwrap();
    assert!(s.is_enabled(&sp));
    assert_eq!(s.compute_delay(&sp, 42), Some(42));
}

#[test]
fn system_validates_its_parts() {
    let sp = table();
    let good = Reaction::new(&sp, vec![0], vec![1], 1, 1).ok().unwrap();
    let mut bad_rate = Reaction::new(&sp, vec![0], vec![1], 1, 1).ok().unwrap();
    bad_rate.rate_numer = 0;
    assert!(matches!(
        ChemicalSystem::new(table(), vec![good, bad_rate]),
        Err(ReactionError::InvalidRateConstant)
    ));
    let good = Reaction::new(&sp, vec![0], vec![1], 1, 1).ok().unwrap();
    let mut neg = table();
    neg[1].quantity = -1;
    assert!(matches!(ChemicalSystem::new(neg, vec![good]), Err(ReactionError::NegativeQuantity)));
    let wide = Reaction::new(&sp, vec![2], vec![1], 1, 1).ok().unwrap();
    let small = vec![species_builder("A", 1), species_builder("B", 0)];
    assert!(matches!(ChemicalSystem::new(small, vec![wide]), Err(ReactionError::UnknownSpecies)));
    let ok = Reaction::new(&sp, vec![0], vec![1], 1, 1).ok().unwrap();
    let sys = ChemicalSystem::new(table(), vec![ok]).ok().unwrap();
    assert_eq!(sys.quantity_of(0), 100);
    assert_eq!(sys.reactions.len(), 1);
    let mut twice = table();
    twice[2].name = "A".to_string();
    let r = Reaction::new(&sp, vec![0], vec![1], 1, 1).ok().unwrap();
    assert!(matches!(ChemicalSystem::new(twice, vec![r]), Err(ReactionError::DuplicateName)));
    let mut r1 = Reaction::new(&sp, vec![0], vec![1], 1, 1).ok().unwrap();
    let mut r2 = Reaction::new(&sp, vec![1], vec![2], 1, 1).ok().unwrap();
    r1.uuid = 5;
    r2.uuid = 5;
    assert!(matches!(
        ChemicalSystem::new(table(), vec![r1, r2]),
        Err(ReactionError::DuplicateIdentity)
    ));
}
