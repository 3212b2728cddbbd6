//! End-to-end scenarios for the simulation engine: committing events,
//! staleness filtering, replay in both directions, scrubbing, and the
//! per-frame tick.

use chitin::reactions::{ReactionDescription, TIME_ONE};
use chitin::simulator::{extend_reaction_history, initialize_queue, jump_to_cursor, tick};
use chitin::state::{Settings, SimulatorComponents, SimulatorState, SurfaceGeometry};

fn settings(rows: usize, cols: usize, wrap: bool, max_duration: u64) -> Settings {
    Settings {
        n_rows: rows,
        n_cols: cols,
        cell_size: 5,
        margin: 0,
        fps: TIME_ONE,
        speedup_factor: TIME_ONE,
        wrap,
        debug: false,
        rng_seed: Some(12345),
        max_duration,
        display_text: false,
        surface_geometry: SurfaceGeometry::Square,
    }
}

fn uni_rule(r1: &str, p1: &str, rate: u64) -> ReactionDescription {
    ReactionDescription {
        r1: r1.to_owned(),
        r2: None,
        p1: p1.to_owned(),
        p2: None,
        rate,
    }
}

fn bi_rule(r1: &str, r2: &str, p1: &str, p2: &str, rate: u64) -> ReactionDescription {
    ReactionDescription {
        r1: r1.to_owned(),
        r2: Some(r2.to_owned()),
        p1: p1.to_owned(),
        p2: Some(p2.to_owned()),
        rate,
    }
}

fn board(names: &[&str]) -> Vec<String> {
    names.iter().map(|n| (*n).to_owned()).collect()
}

fn count_species(states: &[usize], species: usize) -> usize {
    states.iter().filter(|s| **s == species).count()
}

/// Walk the committed history and recompute every cell's timestamp; no
/// committed event may have been issued before the then-current timestamp
/// of any of its reactant cells.
fn assert_no_stale_commit(c: &SimulatorComponents) {
    let n = c.latest_states.len();
    let mut ts: Vec<u64> = vec![0; n];
    for e in &c.reaction_history {
        assert!(e.t_issued >= ts[e.r1_loc]);
        ts[e.r1_loc] = e.t;
        if let Some(l2) = e.r2_loc {
            assert!(e.t_issued >= ts[l2]);
            ts[l2] = e.t;
        }
    }
}

#[test]
fn test_unimolecular_first_commit() {
    let s = settings(3, 3, false, 1000 * TIME_ONE);
    let mut c = SimulatorComponents::new();
    c.add_transition_rule(&uni_rule("A", "B", TIME_ONE)).unwrap();
    let a_idx = c.state_id_of("A").unwrap();
    let b_idx = c.state_id_of("B").unwrap();
    c.set_board_state(&board(&["A"; 9]), &s).unwrap();
    let mut gs = SimulatorState::new();
    initialize_queue(&c, &mut gs, &s);

    extend_reaction_history(&mut c, &mut gs, &s);

    assert_eq!(c.reaction_history.len(), 1);
    let e = c.reaction_history[0];
    assert!(e.r1_loc < 9);
    assert!(e.r2_loc.is_none());
    assert!(e.t > 0);
    assert!(e.t < u64::MAX);
    assert_eq!(e.t_issued, 0);
    // The reactant cell held A and now holds B in the frontier board; the
    // displayed board has not moved.
    assert_eq!(c.current_states[e.r1_loc], a_idx);
    assert_eq!(c.latest_states[e.r1_loc], b_idx);
    assert_eq!(count_species(&c.latest_states, b_idx), 1);
    assert_eq!(c.state_timestamps[e.r1_loc], e.t);
}

#[test]
fn test_bimolecular_conversion_counts() {
    let s = settings(1, 4, true, 1000 * TIME_ONE);
    let mut c = SimulatorComponents::new();
    c.add_transition_rule(&bi_rule("A", "B", "B", "B", 2 * TIME_ONE)).unwrap();
    let b_idx = c.state_id_of("B").unwrap();
    c.set_board_state(&board(&["A", "B", "A", "A"]), &s).unwrap();
    let mut gs = SimulatorState::new();
    initialize_queue(&c, &mut gs, &s);

    let initial_b = count_species(&c.latest_states, b_idx);
    assert_eq!(initial_b, 1);
    let mut last_count = initial_b;
    for _ in 0..20 {
        extend_reaction_history(&mut c, &mut gs, &s);
        let now = count_species(&c.latest_states, b_idx);
        // The count of B cells never decreases, and grows by exactly one
        // per committed event.
        assert!(now >= last_count);
        assert_eq!(now, initial_b + c.reaction_history.len());
        last_count = now;
    }
    // Every cell can be converted on a torus, and then the queue drains.
    assert_eq!(count_species(&c.latest_states, b_idx), 4);
    assert_eq!(c.reaction_history.len(), 3);
    assert_no_stale_commit(&c);
}

#[test]
fn test_staleness_discards_overwritten_candidates() {
    let s = settings(1, 3, false, 1000 * TIME_ONE);
    let mut c = SimulatorComponents::new();
    c.add_transition_rule(&bi_rule("A", "B", "B", "B", TIME_ONE)).unwrap();
    let b_idx = c.state_id_of("B").unwrap();
    c.set_board_state(&board(&["A", "B", "A"]), &s).unwrap();
    let mut gs = SimulatorState::new();
    initialize_queue(&c, &mut gs, &s);

    // Both outer cells race for the middle B; each commit may strand the
    // other's candidate, which the staleness filter must then discard.
    for _ in 0..5 {
        extend_reaction_history(&mut c, &mut gs, &s);
    }
    assert_eq!(c.reaction_history.len(), 2);
    assert_eq!(count_species(&c.latest_states, b_idx), 3);
    assert_no_stale_commit(&c);
}

#[test]
fn test_history_times_strictly_increase() {
    let s = settings(1, 4, true, 1000 * TIME_ONE);
    let mut c = SimulatorComponents::new();
    c.add_transition_rule(&bi_rule("A", "B", "B", "B", 2 * TIME_ONE)).unwrap();
    c.set_board_state(&board(&["A", "B", "A", "A"]), &s).unwrap();
    let mut gs = SimulatorState::new();
    initialize_queue(&c, &mut gs, &s);
    for _ in 0..30 {
        extend_reaction_history(&mut c, &mut gs, &s);
    }
    assert!(c.reaction_history.len() >= 2);
    for k in 1..c.reaction_history.len() {
        assert!(c.reaction_history[k - 1].t < c.reaction_history[k].t);
    }
}

#[test]
fn test_round_trip_restores_board_for_every_event() {
    let s = settings(2, 3, false, 1000 * TIME_ONE);
    let mut c = SimulatorComponents::new();
    c.add_transition_rule(&bi_rule("A", "B", "B", "B", TIME_ONE)).unwrap();
    c.add_transition_rule(&uni_rule("B", "A", TIME_ONE)).unwrap();
    c.set_board_state(&board(&["A", "B", "A", "A", "B", "A"]), &s).unwrap();
    let mut gs = SimulatorState::new();
    initialize_queue(&c, &mut gs, &s);
    for _ in 0..8 {
        extend_reaction_history(&mut c, &mut gs, &s);
    }
    let total = c.reaction_history.len();
    assert!(total >= 2);
    for k in 0..total {
        jump_to_cursor(&mut gs, &mut c, &s, k);
        let before = c.current_states.clone();
        jump_to_cursor(&mut gs, &mut c, &s, k + 1);
        jump_to_cursor(&mut gs, &mut c, &s, k);
        assert_eq!(c.current_states, before);
    }
}

#[test]
fn test_scrubbing_reproduces_board() {
    let s = settings(1, 4, true, 1000 * TIME_ONE);
    let mut c = SimulatorComponents::new();
    c.add_transition_rule(&bi_rule("A", "B", "B", "B", 2 * TIME_ONE)).unwrap();
    c.set_board_state(&board(&["A", "B", "A", "A"]), &s).unwrap();
    let initial_board = c.current_states.clone();
    let mut gs = SimulatorState::new();
    initialize_queue(&c, &mut gs, &s);
    for _ in 0..10 {
        extend_reaction_history(&mut c, &mut gs, &s);
    }
    let k = c.reaction_history.len();
    assert!(k >= 1);
    jump_to_cursor(&mut gs, &mut c, &s, k);
    let at_k = c.current_states.clone();
    jump_to_cursor(&mut gs, &mut c, &s, 0);
    assert_eq!(c.current_states, initial_board);
    jump_to_cursor(&mut gs, &mut c, &s, k);
    assert_eq!(c.current_states, at_k);
    assert_eq!(gs.next_rxn_event, k);
}

#[test]
fn test_jump_target_is_clamped() {
    let s = settings(1, 2, false, 1000 * TIME_ONE);
    let mut c = SimulatorComponents::new();
    c.add_transition_rule(&bi_rule("A", "B", "B", "B", TIME_ONE)).unwrap();
    c.set_board_state(&board(&["A", "B"]), &s).unwrap();
    let mut gs = SimulatorState::new();
    initialize_queue(&c, &mut gs, &s);
    extend_reaction_history(&mut c, &mut gs, &s);
    let len = c.reaction_history.len();
    jump_to_cursor(&mut gs, &mut c, &s, 1000);
    assert_eq!(gs.next_rxn_event, len);
}

#[test]
fn test_tick_clamps_at_max_duration_and_goes_idle() {
    // No rules at all: the queue stays empty and only the clock moves.
    let s = settings(2, 2, false, 3 * TIME_ONE);
    let mut c = SimulatorComponents::new();
    c.add_state("A", None);
    c.set_board_state(&board(&["A", "A", "A", "A"]), &s).unwrap();
    let mut gs = SimulatorState::new();
    initialize_queue(&c, &mut gs, &s);
    gs.is_playing = true;
    for _ in 0..10 {
        tick(&mut gs, &mut c, &s);
        assert!(gs.current_t <= s.max_duration);
    }
    // The budget is 1.0 per frame, so 3.0 is passed on the fourth tick.
    assert_eq!(gs.current_t, s.max_duration);
    assert!(!gs.is_playing);
    assert!(!gs.tick);

    // The mirror property at 0 for backward playback.
    gs.is_playing = true;
    gs.run_direction_forward = false;
    for _ in 0..10 {
        tick(&mut gs, &mut c, &s);
    }
    assert_eq!(gs.current_t, 0);
    assert!(!gs.is_playing);
    assert!(!gs.tick);
}

#[test]
fn test_tick_replays_committed_events() {
    let s = settings(3, 3, false, 1000 * TIME_ONE);
    let mut c = SimulatorComponents::new();
    c.add_transition_rule(&uni_rule("A", "B", TIME_ONE)).unwrap();
    let b_idx = c.state_id_of("B").unwrap();
    c.set_board_state(&board(&["A"; 9]), &s).unwrap();
    let mut gs = SimulatorState::new();
    initialize_queue(&c, &mut gs, &s);
    gs.is_playing = true;
    for _ in 0..200 {
        tick(&mut gs, &mut c, &s);
        assert!(gs.next_rxn_event <= c.reaction_history.len());
        assert!(gs.current_t <= s.max_duration);
    }
    // With nine cells decaying at rate 1, two hundred seconds of playback
    // are far more than enough to see events replayed onto the display.
    assert!(gs.next_rxn_event > 0);
    assert!(count_species(&c.current_states, b_idx) == gs.next_rxn_event);
    assert_no_stale_commit(&c);
}

#[test]
fn test_tick_snaps_clock_to_event_boundaries() {
    let s = settings(1, 1, false, 100_000 * TIME_ONE);
    let mut c = SimulatorComponents::new();
    c.add_transition_rule(&uni_rule("A", "B", TIME_ONE)).unwrap();
    c.set_board_state(&board(&["A"]), &s).unwrap();
    let mut gs = SimulatorState::new();
    initialize_queue(&c, &mut gs, &s);
    extend_reaction_history(&mut c, &mut gs, &s);
    assert_eq!(c.reaction_history.len(), 1);
    let e_t = c.reaction_history[0].t;

    // Tick forward (budget 1.0 per frame) until the event is replayed; the
    // clock must land exactly on the event's time, never past it.
    gs.is_playing = true;
    let mut guard = 0;
    while gs.next_rxn_event == 0 {
        tick(&mut gs, &mut c, &s);
        assert!(gs.current_t <= s.max_duration);
        guard += 1;
        assert!(guard < 200_000);
    }
    assert_eq!(gs.next_rxn_event, 1);
    assert_eq!(gs.current_t, e_t);

    // One backward tick unapplies it and snaps the clock back onto it.
    gs.is_playing = true;
    gs.run_direction_forward = false;
    tick(&mut gs, &mut c, &s);
    assert_eq!(gs.next_rxn_event, 0);
    assert_eq!(gs.current_t, e_t);
}

#[test]
fn test_tick_does_nothing_when_paused() {
    let s = settings(1, 2, false, 10 * TIME_ONE);
    let mut c = SimulatorComponents::new();
    c.add_state("A", None);
    c.set_board_state(&board(&["A", "A"]), &s).unwrap();
    let mut gs = SimulatorState::new();
    initialize_queue(&c, &mut gs, &s);
    tick(&mut gs, &mut c, &s);
    assert_eq!(gs.current_t, 0);
    assert_eq!(gs.next_rxn_event, 0);
    assert!(!gs.is_playing);
}

#[test]
fn test_quiescence_leaves_history_fixed() {
    let s = settings(1, 2, false, 1000 * TIME_ONE);
    let mut c = SimulatorComponents::new();
    c.add_transition_rule(&bi_rule("A", "B", "B", "B", TIME_ONE)).unwrap();
    c.set_board_state(&board(&["A", "B"]), &s).unwrap();
    let mut gs = SimulatorState::new();
    initialize_queue(&c, &mut gs, &s);
    for _ in 0..6 {
        extend_reaction_history(&mut c, &mut gs, &s);
    }
    // One conversion is possible; after that the simulation is quiescent.
    assert_eq!(c.reaction_history.len(), 1);
}
