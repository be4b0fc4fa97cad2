use rand::rngs::StdRng;
use rand::{Rng, SeedableRng};
use rand_distr::Exp;
use stochastic_simulation::monitor::{DefaultMonitor, SnapshotData, SystemStateSnapshot};
use stochastic_simulation::reaction::{Reaction, SpeciesRole};
use stochastic_simulation::species::{species_builder, Species};
use stochastic_simulation::system::{advance_clock, is_running, ChemicalSystem};
use stochastic_simulation::visitor::SystemVisitor;

const TICKS_PER_UNIT: f64 = 1_000_000.0;

fn sample_delays(system: &ChemicalSystem, rng: &mut StdRng) -> Vec<u64> {
    let mut out = Vec::new();
    for r in system.reactions.iter() {
        let delay = match r.propensity_numerator(&system.species) {
            Some(0) => 0,
            Some(n) => {
                let lambda = n as f64 / r.rate_denom as f64;
                let d: f64 = rng.sample(Exp::new(lambda).unwrap());
                (d * TICKS_PER_UNIT).min(u64::MAX as f64) as u64
            }
            None => 0,
        };
        out.push(delay);
    }
    out
}

fn run(system: &mut ChemicalSystem, end_time: u64, seed: u64) -> DefaultMonitor {
    let mut rng = StdRng::seed_from_u64(seed);
    let mut visitor = SystemVisitor::new();
    let mut monitor = DefaultMonitor::new();
    let mut clock: u64 = 0;
    while is_running(clock, end_time) {
        let samples = sample_delays(system, &mut rng);
        clock = system.simulation_step(clock, &mut visitor, &mut monitor, &samples);
    }
    monitor
}

fn catalysed() -> ChemicalSystem {
    let sp = vec![species_builder("A", 100), species_builder("B", 0), species_builder("C", 1)];
    let r = Reaction::new(&sp, vec![0, 2], vec![1, 2], 1, 1000).ok().unwrap();
    ChemicalSystem::new(sp, vec![r]).ok().unwrap()
}

fn quantity_in(snapshot: &SystemStateSnapshot, name: &str) -> Option<i32> {
    if let SnapshotData::Reactions(v) = &snapshot.data {
        for rs in v.iter() {
            for s in rs.reactants.iter().chain(rs.products.iter()) {
                if s.name == name {
                    return Some(s.quantity);
                }
            }
        }
    }
    None
}

fn quantities(system: &ChemicalSystem) -> Vec<i32> {
    system.species.iter().map(|s: &Species| s.quantity).collect()
}

#[test]
fn catalysed_conversion_keeps_total() {
    let mut sys = catalysed();
    let monitor = run(&mut sys, 2000 * TICKS_PER_UNIT as u64, 0);
    assert!(!monitor.history.is_empty());
    let mut last_a = 100;
    let mut last_b = 0;
    for snap in monitor.history.iter() {
        let a = quantity_in(snap, "A").unwrap();
        let b = quantity_in(snap, "B").unwrap();
        let c = quantity_in(snap, "C").unwrap();
        assert_eq!(a + b, 100);
        assert_eq!(c, 1);
        assert!(a <= last_a);
        assert!(b >= last_b);
        last_a = a;
        last_b = b;
    }
    for w in monitor.history.windows(2) {
        assert!(w[0].time <= w[1].time);
    }
}

#[test]
fn firing_is_balanced() {
    let sp = vec![species_builder("A", 5), species_builder("B", 0)];
    let r = Reaction::new(&sp, vec![0, 0], vec![1], 1, 1).ok().unwrap();
    let mut sys = ChemicalSystem::new(sp, vec![r]).ok().unwrap();
    let mut v = SystemVisitor::new();
    sys.accept(&mut v, &vec![10]);
    assert_eq!(quantities(&sys), vec![3, 1]);
    assert_eq!(v.min_delay(), Some(10));
    assert_eq!(v.reaction_with_min_delay(), Some(0));
}

#[test]
fn insufficient_reactants_skip_but_advance_time() {
    let sp = vec![species_builder("A", 1), species_builder("B", 0)];
    let r = Reaction::new(&sp, vec![0, 0], vec![1], 1, 1).ok().unwrap();
    let mut sys = ChemicalSystem::new(sp, vec![r]).ok().unwrap();
    let mut v = SystemVisitor::new();
    let mut m = DefaultMonitor::new();
    let t = sys.simulation_step(5, &mut v, &mut m, &vec![7]);
    assert_eq!(quantities(&sys), vec![1, 0]);
    assert_eq!(t, 12);
    assert_eq!(v.reaction_with_min_delay(), Some(0));
    assert_eq!(m.history.len(), 1);
    assert_eq!(m.history[0].time, 12);
}

#[test]
fn product_overflow_skips_firing() {
    let sp = vec![species_builder("A", 3), species_builder("B", i32::MAX)];
    let r = Reaction::new(&sp, vec![0], vec![1], 1, 1).ok().unwrap();
    let mut sys = ChemicalSystem::new(sp, vec![r]).ok().unwrap();
    let mut v = SystemVisitor::new();
    sys.accept(&mut v, &vec![1]);
    assert_eq!(quantities(&sys), vec![3, i32::MAX]);
}

#[test]
fn starved_reaction_never_fires() {
    let sp = vec![
        species_builder("X", 0),
        species_builder("Y", 0),
        species_builder("A", 5),
        species_builder("B", 0),
    ];
    let mut starved = Reaction::new(&sp, vec![0], vec![1], 1, 1).ok().unwrap();
    let mut live = Reaction::new(&sp, vec![2], vec![3], 1, 1).ok().unwrap();
    starved.uuid = 1;
    live.uuid = 2;
    let mut sys = ChemicalSystem::new(sp, vec![starved, live]).ok().unwrap();
    let mut v = SystemVisitor::new();
    sys.accept(&mut v, &vec![1, 100]);
    assert_eq!(v.reaction_with_min_delay(), Some(1));
    assert_eq!(v.min_delay(), Some(100));
    assert_eq!(v.delays, vec![None, Some(100)]);
    assert_eq!(quantities(&sys), vec![0, 0, 4, 1]);
}

#[test]
fn nothing_enabled_ends_the_run() {
    let sp = vec![species_builder("X", 0), species_builder("Y", 0)];
    let r = Reaction::new(&sp, vec![0], vec![1], 1, 1).ok().unwrap();
    let mut sys = ChemicalSystem::new(sp, vec![r]).ok().unwrap();
    let mut v = SystemVisitor::new();
    let mut m = DefaultMonitor::new();
    let t = sys.simulation_step(3, &mut v, &mut m, &vec![1]);
    assert_eq!(v.min_delay(), None);
    assert_eq!(t, u64::MAX);
    assert!(!is_running(t, 1000));
}

#[test]
fn equal_delays_pick_the_lowest_identity() {
    let sp = vec![species_builder("A", 5), species_builder("B", 0), species_builder("C", 0)];
    let mut to_b = Reaction::new(&sp, vec![0], vec![1], 1, 1).ok().unwrap();
    let mut to_c = Reaction::new(&sp, vec![0], vec![2], 1, 1).ok().unwrap();
    to_b.uuid = 20;
    to_c.uuid = 10;
    let mut sys = ChemicalSystem::new(sp, vec![to_b, to_c]).ok().unwrap();
    assert_eq!(sys.reactions[0].uuid, 10);
    assert_eq!(sys.reactions[1].uuid, 20);
    let mut v = SystemVisitor::new();
    sys.accept(&mut v, &vec![4, 4]);
    assert_eq!(v.reaction_with_min_delay(), Some(0));
    assert_eq!(quantities(&sys), vec![4, 0, 1]);
    sys.accept(&mut v, &vec![9, 2]);
    assert_eq!(v.reaction_with_min_delay(), Some(1));
    assert_eq!(quantities(&sys), vec![3, 1, 1]);
}

#[test]
fn reaction_order_does_not_depend_on_input_order() {
    let sp = vec![species_builder("A", 5), species_builder("B", 0), species_builder("C", 0)];
    let make = |uuid: u128, product: usize| {
        let mut r = Reaction::new(&sp, vec![0], vec![product], 1, 1).ok().unwrap();
        r.uuid = uuid;
        r
    };
    let table = || vec![species_builder("A", 5), species_builder("B", 0), species_builder("C", 0)];
    let mut x = ChemicalSystem::new(table(), vec![make(7, 1), make(3, 2)]).ok().unwrap();
    let mut y = ChemicalSystem::new(table(), vec![make(3, 2), make(7, 1)]).ok().unwrap();
    let ids = |s: &ChemicalSystem| s.reactions.iter().map(|r| r.uuid).collect::<Vec<u128>>();
    assert_eq!(ids(&x), vec![3, 7]);
    assert_eq!(ids(&y), vec![3, 7]);
    let mut vx = SystemVisitor::new();
    let mut vy = SystemVisitor::new();
    for samples in [vec![5, 5], vec![8, 1], vec![2, 6]] {
        x.accept(&mut vx, &samples);
        y.accept(&mut vy, &samples);
        assert_eq!(quantities(&x), quantities(&y));
    }
    assert_eq!(quantities(&x), vec![2, 1, 2]);
}

#[test]
fn clock_advances_and_saturates() {
    assert_eq!(advance_clock(10, Some(5)), 15);
    assert_eq!(advance_clock(u64::MAX - 1, Some(5)), u64::MAX);
    assert_eq!(advance_clock(10, None), u64::MAX);
    assert!(is_running(10, 10));
    assert!(!is_running(11, 10));
    assert!(!is_running(u64::MAX, u64::MAX));
}

#[test]
fn populations_never_negative_over_a_run() {
    let sp = vec![species_builder("A", 3), species_builder("B", 2), species_builder("C", 0)];
    let r1 = Reaction::new(&sp, vec![0, 1], vec![2], 3, 1).ok().unwrap();
    let r2 = Reaction::new(&sp, vec![2, 2], vec![0], 1, 2).ok().unwrap();
    let r3 = Reaction::new(&sp, vec![1, 1, 1], vec![], 1, 1).ok().unwrap();
    let mut sys = ChemicalSystem::new(sp, vec![r1, r2, r3]).ok().unwrap();
    let monitor = run(&mut sys, 50 * TICKS_PER_UNIT as u64, 7);
    for snap in monitor.history.iter() {
        for name in ["A", "B", "C"] {
            assert!(quantity_in(snap, name).unwrap() >= 0);
        }
    }
    assert!(quantities(&sys).iter().all(|q| *q >= 0));
}

#[test]
fn same_seed_gives_same_history() {
    let mut a = catalysed();
    let mut b = catalysed();
    let ha = run(&mut a, 500 * TICKS_PER_UNIT as u64, 42);
    let hb = run(&mut b, 500 * TICKS_PER_UNIT as u64, 42);
    assert_eq!(ha.history.len(), hb.history.len());
    for (x, y) in ha.history.iter().zip(hb.history.iter()) {
        assert_eq!(x.time, y.time);
        assert_eq!(quantity_in(x, "A"), quantity_in(y, "A"));
        assert_eq!(quantity_in(x, "B"), quantity_in(y, "B"));
    }
}

#[test]
fn replicates_do_not_share_species() {
    let base = catalysed();
    let mut one = base.duplicate();
    let two = base.duplicate();
    let mut v = SystemVisitor::new();
    let mut m = DefaultMonitor::new();
    m.record_state(0, &two, &vec![]);
    one.accept(&mut v, &vec![1]);
    assert_eq!(quantities(&one), vec![99, 1, 1]);
    assert_eq!(quantities(&two), vec![100, 0, 1]);
    assert_eq!(quantities(&base), vec![100, 0, 1]);
    assert_eq!(quantity_in(&m.history[0], "A"), Some(100));
    assert_eq!(one.reactions[0].uuid, two.reactions[0].uuid);
}

#[test]
fn recorded_reactions_keep_rate_formula_and_delay() {
    let mut sys = catalysed();
    let mut v = SystemVisitor::new();
    let mut m = DefaultMonitor::new();
    let t = sys.simulation_step(0, &mut v, &mut m, &vec![25]);
    assert_eq!(t, 25);
    match &m.history[0].data {
        SnapshotData::Reactions(rs) => {
            assert_eq!(rs.len(), 1);
            assert_eq!(rs[0].rate_numer, 1);
            assert_eq!(rs[0].rate_denom, 1000);
            assert_eq!(rs[0].formula, "A + C -> B + C");
            assert_eq!(rs[0].delay, Some(25));
            assert_eq!(rs[0].uuid, sys.reactions[0].uuid);
        }
        SnapshotData::SpeciesEvents(_) => panic!("expected recorded reactions"),
    }
    m.record_state(30, &sys, &vec![]);
    match &m.history[1].data {
        SnapshotData::Reactions(rs) => assert_eq!(rs[0].delay, None),
        SnapshotData::SpeciesEvents(_) => panic!("expected recorded reactions"),
    }
}

#[test]
fn recorded_history_is_a_deep_copy() {
    let mut sys = catalysed();
    let mut v = SystemVisitor::new();
    let mut m = DefaultMonitor::new();
    m.record_state(0, &sys, &vec![]);
    sys.accept(&mut v, &vec![1]);
    m.record_state(1, &sys, &vec![]);
    assert_eq!(quantity_in(&m.history[0], "A"), Some(100));
    assert_eq!(quantity_in(&m.history[1], "A"), Some(99));
    assert_eq!(quantity_in(&m.history[1], "B"), Some(1));
}

#[test]
fn plot_data_absent_for_unknown_species_or_role() {
    let sys = catalysed();
    let mut m = DefaultMonitor::new();
    assert!(m.extract_plot_data(&[("A".to_string(), SpeciesRole::Reactant)]).is_none());
    m.record_state(0, &sys, &vec![]);
    m.record_state(3, &sys, &vec![]);
    assert!(m.extract_plot_data(&[("Q".to_string(), SpeciesRole::Both)]).is_none());
    assert!(m.extract_plot_data(&[("A".to_string(), SpeciesRole::Product)]).is_none());
    assert!(m.extract_plot_data(&[("B".to_string(), SpeciesRole::Reactant)]).is_none());
    assert!(m.extract_plot_data(&[]).is_none());
}

#[test]
fn plot_data_keeps_matching_reactions_in_time_order() {
    let sp = vec![species_builder("A", 5), species_builder("B", 0), species_builder("C", 2)];
    let mut ab = Reaction::new(&sp, vec![0], vec![1], 1, 1).ok().unwrap();
    let mut cc = Reaction::new(&sp, vec![2], vec![2, 2], 1, 1).ok().unwrap();
    ab.uuid = 1;
    cc.uuid = 2;
    let ab_id = ab.uuid;
    let mut sys = ChemicalSystem::new(sp, vec![ab, cc]).ok().unwrap();
    let mut v = SystemVisitor::new();
    let mut m = DefaultMonitor::new();
    m.record_state(2, &sys, &vec![]);
    sys.accept(&mut v, &vec![1, 5]);
    m.record_state(4, &sys, &vec![]);
    let out = m.extract_plot_data(&[("B".to_string(), SpeciesRole::Product)]).unwrap();
    assert_eq!(out.len(), 2);
    assert_eq!(out[0].time, 2);
    assert_eq!(out[1].time, 4);
    for snap in out.iter() {
        match &snap.data {
            SnapshotData::Reactions(v) => {
                assert_eq!(v.len(), 1);
                assert_eq!(v[0].uuid, ab_id);
            }
            SnapshotData::SpeciesEvents(_) => panic!("plot data holds reactions"),
        }
    }
    assert_eq!(quantity_in(&out[1], "B"), Some(1));
    let both = m.extract_plot_data(&[("C".to_string(), SpeciesRole::Both)]).unwrap();
    match &both[0].data {
        SnapshotData::Reactions(v) => assert_eq!(v.len(), 1),
        SnapshotData::SpeciesEvents(_) => panic!("plot data holds reactions"),
    }
}

#[test]
fn merge_concatenates_histories() {
    let sys = catalysed();
    let mut a = DefaultMonitor::new();
    let mut b = DefaultMonitor::new();
    a.record_state(1, &sys, &vec![]);
    b.record_state(0, &sys, &vec![]);
    b.record_state(9, &sys, &vec![]);
    a.merge(b, &[]);
    let times: Vec<u64> = a.history.iter().map(|s| s.time).collect();
    assert_eq!(times, vec![1, 0, 9]);
}

fn events_of(snapshot: &SystemStateSnapshot) -> Vec<(String, i32)> {
    match &snapshot.data {
        SnapshotData::SpeciesEvents(e) => {
            e.iter().map(|ev| (ev.species_name.clone(), ev.new_quantity)).collect()
        }
        SnapshotData::Reactions(_) => panic!("expected a list of changes"),
    }
}

#[test]
fn filtered_recording_keeps_only_changes() {
    let mut sys = catalysed();
    let filter = vec![("A".to_string(), SpeciesRole::Reactant), ("B".to_string(), SpeciesRole::Product)];
    let mut m = DefaultMonitor::new();
    m.record_state_with_filter(0, &sys, &filter);
    assert_eq!(m.history.len(), 1);
    assert_eq!(events_of(&m.history[0]), vec![("A".to_string(), 100), ("B".to_string(), 0)]);
    m.record_state_with_filter(1, &sys, &filter);
    assert_eq!(m.history.len(), 1);
    let mut v = SystemVisitor::new();
    sys.accept(&mut v, &vec![3]);
    m.record_state_with_filter(4, &sys, &filter);
    assert_eq!(m.history.len(), 2);
    assert_eq!(m.history[1].time, 4);
    assert_eq!(events_of(&m.history[1]), vec![("A".to_string(), 99), ("B".to_string(), 1)]);
    assert_eq!(m.last_recorded_quantity(&"A".to_string()), Some(99));
    assert_eq!(m.last_recorded_quantity(&"C".to_string()), None);
}

#[test]
fn filtered_recording_respects_roles() {
    let sys = catalysed();
    let mut m = DefaultMonitor::new();
    m.record_state_with_filter(0, &sys, &[("A".to_string(), SpeciesRole::Product)]);
    assert!(m.history.is_empty());
    m.record_state_with_filter(0, &sys, &[("C".to_string(), SpeciesRole::Product)]);
    assert_eq!(events_of(&m.history[0]), vec![("C".to_string(), 1)]);
}

#[test]
fn filtered_recording_diffs_against_full_snapshots() {
    let mut sys = catalysed();
    let mut m = DefaultMonitor::new();
    m.record_state(0, &sys, &vec![]);
    let filter = vec![("A".to_string(), SpeciesRole::Both), ("B".to_string(), SpeciesRole::Both)];
    m.record_state_with_filter(1, &sys, &filter);
    assert_eq!(m.history.len(), 1);
    let mut v = SystemVisitor::new();
    sys.accept(&mut v, &vec![3]);
    sys.accept(&mut v, &vec![3]);
    m.record_state_with_filter(2, &sys, &filter);
    assert_eq!(events_of(&m.history[1]), vec![("A".to_string(), 98), ("B".to_string(), 2)]);
}
