//! Unit-level checks: the fixed-point interval sampler, the scored candidate
//! queue, the species/rule catalog, and the configuration faults.

use chitin::pqueue::{queue_new, queue_pop, queue_put};
use chitin::reactions::{ConfigError, ReactionDescription, ReactionPattern, TIME_ONE};
use chitin::sampling::{sample_interval, LN2_FIXED};
use chitin::simulator::compute_next_t;
use chitin::state::{ColorRgb, Settings, SimulatorComponents, SurfaceGeometry};

fn settings(rows: usize, cols: usize) -> Settings {
    Settings {
        n_rows: rows,
        n_cols: cols,
        cell_size: 5,
        margin: 0,
        fps: 60 * TIME_ONE,
        speedup_factor: TIME_ONE,
        wrap: false,
        debug: false,
        rng_seed: None,
        max_duration: 100 * TIME_ONE,
        display_text: false,
        surface_geometry: SurfaceGeometry::Square,
    }
}

#[test]
fn test_sample_interval_exact_values() {
    // A draw of 2^63 means U = 1/2, so the interval is ln(2) / rate.
    assert_eq!(sample_interval(TIME_ONE, 1u64 << 63), Some(LN2_FIXED));
    assert_eq!(sample_interval(2 * TIME_ONE, 1u64 << 63), Some(LN2_FIXED / 2));
    // A draw of 2^63 + 2^62 interpolates half an octave: -log2(U) = 1/2.
    assert_eq!(sample_interval(TIME_ONE, (1u64 << 63) + (1u64 << 62)), Some(LN2_FIXED / 2));
    // A draw of 0 is read as U = 2^-64, the largest possible interval.
    assert_eq!(sample_interval(TIME_ONE, 0), Some(64 * LN2_FIXED));
}

#[test]
fn test_sample_interval_zero_rate_never_fires() {
    assert_eq!(sample_interval(0, 0), None);
    assert_eq!(sample_interval(0, 12345), None);
    assert_eq!(sample_interval(0, u64::MAX), None);
}

#[test]
fn test_sample_interval_is_strictly_positive() {
    // Even the smallest possible -log2(U) rounds up to at least one tick,
    // whatever the rate.
    assert_eq!(sample_interval(u64::MAX, u64::MAX), Some(1));
    for draw in [1u64, 2, 3, 1 << 20, u64::MAX - 1, u64::MAX] {
        let d = sample_interval(5 * TIME_ONE, draw).unwrap();
        assert!(d >= 1);
    }
}

#[test]
fn test_queue_pops_in_score_order_with_insertion_tie_break() {
    let mut q = queue_new();
    let entry = |n: usize| (n, 0usize, None, 0u64, 0u64);
    queue_put(&mut q, (5, 0), entry(0));
    queue_put(&mut q, (1, 1), entry(1));
    queue_put(&mut q, (3, 2), entry(2));
    queue_put(&mut q, (1, 3), entry(3));
    assert_eq!(queue_pop(&mut q), Some(((1, 1), entry(1))));
    assert_eq!(queue_pop(&mut q), Some(((1, 3), entry(3))));
    assert_eq!(queue_pop(&mut q), Some(((3, 2), entry(2))));
    assert_eq!(queue_pop(&mut q), Some(((5, 0), entry(0))));
    assert_eq!(queue_pop(&mut q), None);
}

#[test]
fn test_compute_next_t_zero_rate_never_fires() {
    let mut c = SimulatorComponents::new();
    let frozen = ReactionDescription {
        r1: "A".to_owned(),
        r2: None,
        p1: "B".to_owned(),
        p2: None,
        rate: 0,
    };
    c.add_transition_rule(&frozen).unwrap();
    assert_eq!(compute_next_t(&c, 0), None);
}

#[test]
fn test_compute_next_t_is_strictly_after_last_commit() {
    let mut c = SimulatorComponents::new();
    let decay = ReactionDescription {
        r1: "A".to_owned(),
        r2: None,
        p1: "B".to_owned(),
        p2: None,
        rate: 3 * TIME_ONE,
    };
    c.add_transition_rule(&decay).unwrap();
    for _ in 0..100 {
        let t = compute_next_t(&c, 0).unwrap();
        assert!(t > 0);
    }
}

#[test]
fn test_add_state_assigns_dense_ids() {
    let mut c = SimulatorComponents::new();
    let a = c.add_state("A", None);
    let b = c.add_state("B", None);
    assert_eq!(a, 0);
    assert_eq!(b, 1);
    assert_eq!(c.n_states_known, 2);
    assert_eq!(c.state_id_of("A"), Some(0));
    assert_eq!(c.state_id_of("B"), Some(1));
    assert_eq!(c.state_id_of("C"), None);
    // Each got a fresh color class named after it.
    assert_eq!(c.n_colorclasses, 2);
    assert_eq!(c.colorclass_names[0], "A");
    assert_eq!(c.state_colorclasses[a], 0);
    assert_eq!(c.state_colorclasses[b], 1);
}

#[test]
fn test_add_color_class_groups_species() {
    let mut c = SimulatorComponents::new();
    let grey = ColorRgb { r: 128, g: 128, b: 128 };
    let class = c.add_color_class("inert", &grey, &vec!["X".to_owned(), "Y".to_owned()]);
    assert_eq!(class, 0);
    assert_eq!(c.n_colorclasses, 1);
    assert_eq!(c.colorclass_colors[class], grey);
    assert_eq!(c.n_states_known, 2);
    assert_eq!(c.state_colorclasses, vec![0, 0]);
    assert_eq!(c.state_id_of("X"), Some(0));
    assert_eq!(c.state_id_of("Y"), Some(1));
}

#[test]
fn test_add_transition_rule_resolves_names() {
    let mut c = SimulatorComponents::new();
    let desc = ReactionDescription {
        r1: "A".to_owned(),
        r2: Some("B".to_owned()),
        p1: "B".to_owned(),
        p2: Some("B".to_owned()),
        rate: 2 * TIME_ONE,
    };
    c.add_transition_rule(&desc).unwrap();
    assert_eq!(c.all_reactions.len(), 1);
    let rule = c.all_reactions[0];
    assert_eq!(rule.rate, 2 * TIME_ONE);
    match rule.pattern {
        ReactionPattern::Bimolecular { r1_num, r2_num, p1_num, p2_num } => {
            assert_eq!(r1_num, c.state_id_of("A").unwrap());
            assert_eq!(r2_num, c.state_id_of("B").unwrap());
            assert_eq!(p1_num, r2_num);
            assert_eq!(p2_num, r2_num);
        },
        ReactionPattern::Unimolecular { .. } => panic!("expected a bimolecular rule"),
    }
}

#[test]
fn test_arity_mismatch_is_refused() {
    let mut c = SimulatorComponents::new();
    let lopsided = ReactionDescription {
        r1: "A".to_owned(),
        r2: Some("B".to_owned()),
        p1: "B".to_owned(),
        p2: None,
        rate: TIME_ONE,
    };
    assert_eq!(c.add_transition_rule(&lopsided), Err(ConfigError::ArityMismatch));
    assert_eq!(c.all_reactions.len(), 0);
    assert_eq!(c.n_states_known, 0);
}

#[test]
fn test_non_rectangular_board_is_refused() {
    let mut c = SimulatorComponents::new();
    c.add_state("A", None);
    let three = vec!["A".to_owned(), "A".to_owned(), "A".to_owned()];
    assert_eq!(
        c.set_board_state(&three, &settings(2, 2)),
        Err(ConfigError::NonRectangularGrid)
    );
    assert_eq!(c.current_states.len(), 0);
}

#[test]
fn test_unknown_species_is_refused() {
    let mut c = SimulatorComponents::new();
    c.add_state("A", None);
    let alien = vec!["A".to_owned(), "C".to_owned()];
    assert_eq!(
        c.set_board_state(&alien, &settings(1, 2)),
        Err(ConfigError::UnknownSpecies)
    );
    assert_eq!(c.current_states.len(), 0);
}

#[test]
fn test_board_is_loaded_into_both_views() {
    let mut c = SimulatorComponents::new();
    c.add_state("A", None);
    c.add_state("B", None);
    let b = vec!["A".to_owned(), "B".to_owned(), "B".to_owned(), "A".to_owned()];
    c.set_board_state(&b, &settings(2, 2)).unwrap();
    assert_eq!(c.current_states, vec![0, 1, 1, 0]);
    assert_eq!(c.latest_states, vec![0, 1, 1, 0]);
    assert_eq!(c.state_timestamps, vec![0, 0, 0, 0]);
}

#[test]
fn test_all_states_lists_reactants_then_products() {
    let desc = ReactionDescription {
        r1: "A".to_owned(),
        r2: Some("B".to_owned()),
        p1: "C".to_owned(),
        p2: Some("D".to_owned()),
        rate: TIME_ONE,
    };
    assert_eq!(desc.all_states(), vec!["A", "C", "B", "D"]);
    let uni = ReactionDescription {
        r1: "A".to_owned(),
        r2: None,
        p1: "C".to_owned(),
        p2: None,
        rate: TIME_ONE,
    };
    assert_eq!(uni.all_states(), vec!["A", "C"]);
}
