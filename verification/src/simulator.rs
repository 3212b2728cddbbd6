//! The simulation engine: candidate generation, the staleness-filtered pop,
//! history extension, replay of committed events onto the displayed board,
//! and the per-frame `tick` that drives playback in either direction.

use vstd::prelude::*;
use crate::geometry::{neighbors_spec, square_neighbors};
use crate::pqueue::{
    EventEntry, EventScore, queue_entries, queue_pop, queue_put, score_le,
};
use crate::reactions::{
    Reaction, ReactionEvent, ReactionPattern, applies_backward, applies_forward,
    apply_backward_spec, apply_forward_spec, event_wf, replay_state,
};
use crate::reactions::TIME_ONE;
use crate::sampling::sample_interval;
use crate::state::{
    Settings, SimulatorComponents, SimulatorState, candidate_fresh, engine_wf, entry_event,
    last_history_t, queue_entry_inv, queue_inv, sim_wf,
};

verus! {

broadcast use vstd::multiset::group_multiset_axioms;

/// A queued candidate is valid when it is still fresh (no reactant cell was
/// overwritten since it was issued) and scheduled strictly after the last
/// committed event.
pub open spec fn candidate_valid(x: (EventScore, EventEntry), c: SimulatorComponents) -> bool {
    &&& candidate_fresh(entry_event(x), c)
    &&& entry_event(x).t > last_history_t(c)
}

/// The fire time for a fresh candidate of rule `rxn_idx`: the last committed
/// time plus an exponential draw at the rule's rate.  Yields nothing when
/// the rule's rate is 0 (it never fires) or when the time axis is exhausted;
/// otherwise the sampled time lies strictly after the last committed event.
pub fn compute_next_t(components: &SimulatorComponents, rxn_idx: usize) -> (r: Option<u64>)
    requires
        rxn_idx < components.all_reactions@.len(),
    ensures
        r is Some <==> (components.all_reactions@[rxn_idx as int].rate != 0 && last_history_t(
            *components,
        ) < u64::MAX),
        r matches Some(t) ==> t > last_history_t(*components),
{
    let hist_len = components.reaction_history.len();
    let last_t: u64 = if hist_len == 0 {
        0
    } else {
        components.reaction_history[hist_len - 1].t
    };
    let rate = components.all_reactions[rxn_idx].rate;
    let draw = crate::sampling::random_bits();
    match sample_interval(rate, draw) {
        None => None,
        Some(delta) => {
            if last_t == u64::MAX {
                None
            } else if u64::MAX - last_t < delta {
                Some(u64::MAX)
            } else {
                Some(last_t + delta)
            }
        },
    }
}

/// The neighbor indices of `idx` under the configured lattice.
pub open spec fn neighbor_list(idx: int, s: Settings) -> Seq<int> {
    neighbors_spec(idx, s.n_cols as int, s.n_rows as int, s.wrap)
}

/// There is still room on the time axis for a later event.
pub open spec fn horizon_open(c: SimulatorComponents) -> bool {
    last_history_t(c) < u64::MAX
}

/// How many of the first `j` neighbors are proper partners (not the cell
/// itself) holding `species`.
pub open spec fn matching_neighbors_upto(
    latest: Seq<usize>,
    nbs: Seq<int>,
    idx: int,
    species: usize,
    j: int,
) -> nat
    decreases j,
{
    if j <= 0 {
        0
    } else {
        matching_neighbors_upto(latest, nbs, idx, species, j - 1) + (if nbs[j - 1] != idx
            && latest[nbs[j - 1]] == species {
            1nat
        } else {
            0nat
        })
    }
}

/// The number of candidates rule `i` contributes at cell `idx`: one for a
/// matching unimolecular rule, one per matching neighbor for a bimolecular
/// rule — scanning from the second reactant's side as well in symmetric
/// mode — and none for a rule whose rate is 0.
pub open spec fn rule_candidates_at(
    c: SimulatorComponents,
    s: Settings,
    idx: int,
    i: int,
    symmetric: bool,
) -> nat {
    let latest = c.latest_states@;
    let rule = c.all_reactions@[i];
    let nbs = neighbor_list(idx, s);
    if rule.rate == 0 {
        0
    } else {
        match rule.pattern {
            ReactionPattern::Unimolecular { r1_num, .. } => if latest[idx] == r1_num {
                1nat
            } else {
                0nat
            },
            ReactionPattern::Bimolecular { r1_num, r2_num, .. } => if latest[idx] == r1_num {
                matching_neighbors_upto(latest, nbs, idx, r2_num, nbs.len() as int)
            } else if symmetric && latest[idx] == r2_num {
                matching_neighbors_upto(latest, nbs, idx, r1_num, nbs.len() as int)
            } else {
                0nat
            },
        }
    }
}

/// The candidates the first `i` rules contribute at cell `idx`.
pub open spec fn candidates_at_upto(
    c: SimulatorComponents,
    s: Settings,
    idx: int,
    symmetric: bool,
    i: int,
) -> nat
    decreases i,
{
    if i <= 0 {
        0
    } else {
        candidates_at_upto(c, s, idx, symmetric, i - 1) + rule_candidates_at(
            c,
            s,
            idx,
            i - 1,
            symmetric,
        )
    }
}

/// All candidates that generation finds at cell `idx`.
pub open spec fn candidates_at(c: SimulatorComponents, s: Settings, idx: int, symmetric: bool) -> nat {
    candidates_at_upto(c, s, idx, symmetric, c.all_reactions@.len() as int)
}

/// `x` is a candidate that generation at cell `idx` may enqueue: issued at
/// the last committed time, scheduled strictly later, and matching a rule of
/// nonzero rate at `idx` — from the first reactant's side, or, in symmetric
/// mode, from the second's.
pub open spec fn is_candidate_at(
    x: (EventScore, EventEntry),
    c: SimulatorComponents,
    s: Settings,
    idx: int,
    symmetric: bool,
) -> bool {
    let e = entry_event(x);
    let latest = c.latest_states@;
    let nbs = neighbor_list(idx, s);
    &&& x.0.0 == e.t
    &&& e.t_issued == last_history_t(c)
    &&& e.t > e.t_issued
    &&& e.rxn_idx < c.all_reactions@.len()
    &&& c.all_reactions@[e.rxn_idx as int].rate != 0
    &&& match c.all_reactions@[e.rxn_idx as int].pattern {
        ReactionPattern::Unimolecular { r1_num, .. } => {
            &&& e.r2_loc is None
            &&& e.r1_loc == idx
            &&& latest[idx] == r1_num
        },
        ReactionPattern::Bimolecular { r1_num, r2_num, .. } => {
            &&& e.r2_loc matches Some(l2)
            &&& ((e.r1_loc == idx && l2 != idx && nbs.contains(l2 as int) && latest[idx]
                == r1_num && latest[l2 as int] == r2_num) || (symmetric && l2 == idx
                && e.r1_loc != idx && nbs.contains(e.r1_loc as int) && latest[idx] == r2_num
                && latest[e.r1_loc as int] == r1_num))
        },
    }
}

/// Scan the neighbors of `idx` for partners holding `partner_species` and
/// enqueue one candidate per match for bimolecular rule `rxn_idx`.  With
/// `idx_is_first` the event reads (idx, neighbor); otherwise — the symmetric
/// pass — it reads (neighbor, idx).
fn enqueue_bi_candidates(
    idx: usize,
    rxn_idx: usize,
    partner_species: usize,
    idx_is_first: bool,
    symmetric: bool,
    components: &SimulatorComponents,
    global_state: &mut SimulatorState,
    settings: &Settings,
)
    requires
        engine_wf(*components),
        queue_inv(*old(global_state), *components),
        idx < components.latest_states@.len(),
        components.latest_states@.len() == settings.n_rows * settings.n_cols,
        rxn_idx < components.all_reactions@.len(),
        components.all_reactions@[rxn_idx as int].pattern matches
            ReactionPattern::Bimolecular { r1_num, r2_num, .. } && (if idx_is_first {
            components.latest_states@[idx as int] == r1_num && partner_species == r2_num
        } else {
            symmetric && components.latest_states@[idx as int] == r2_num && partner_species
                == r1_num
        }),
    ensures
        queue_inv(*final(global_state), *components),
        final(global_state).current_t == old(global_state).current_t,
        final(global_state).next_rxn_event == old(global_state).next_rxn_event,
        final(global_state).is_playing == old(global_state).is_playing,
        final(global_state).run_direction_forward == old(global_state).run_direction_forward,
        final(global_state).tick == old(global_state).tick,
        forall|y: (EventScore, EventEntry)|
            #[trigger] queue_entries(final(global_state).rxn_queue).count(y) >= queue_entries(
                old(global_state).rxn_queue,
            ).count(y),
        forall|y: (EventScore, EventEntry)|
            #[trigger] queue_entries(final(global_state).rxn_queue).count(y) > queue_entries(
                old(global_state).rxn_queue,
            ).count(y) ==> is_candidate_at(y, *components, *settings, idx as int, symmetric),
        horizon_open(*components) && components.all_reactions@[rxn_idx as int].rate != 0
            ==> queue_entries(final(global_state).rxn_queue).len() == queue_entries(
            old(global_state).rxn_queue,
        ).len() + matching_neighbors_upto(
            components.latest_states@,
            neighbor_list(idx as int, *settings),
            idx as int,
            partner_species,
            neighbor_list(idx as int, *settings).len() as int,
        ),
        !(horizon_open(*components) && components.all_reactions@[rxn_idx as int].rate != 0)
            ==> queue_entries(final(global_state).rxn_queue).len() == queue_entries(
            old(global_state).rxn_queue,
        ).len(),
{
    let n_cells = components.latest_states.len();
    proof {
        assert(settings.n_cols >= 1 && settings.n_rows >= 1) by (nonlinear_arith)
            requires
                (idx as int) < (settings.n_rows as int) * (settings.n_cols as int),
                idx >= 0,
        ;
        assert((settings.n_cols as int) * (settings.n_rows as int) == (settings.n_rows as int)
            * (settings.n_cols as int)) by (nonlinear_arith);
    }
    let hist_len = components.reaction_history.len();
    let last_t: u64 = if hist_len == 0 {
        0
    } else {
        components.reaction_history[hist_len - 1].t
    };
    let neighbors = square_neighbors(idx, settings.n_cols, settings.n_rows, settings.wrap);
    let ghost nbs = neighbor_list(idx as int, *settings);
    let n_nbs = neighbors.len();
    let mut j: usize = 0;
    while j < n_nbs
        invariant
            engine_wf(*components),
            queue_inv(*global_state, *components),
            idx < components.latest_states@.len(),
            components.latest_states@.len() == settings.n_rows * settings.n_cols,
            rxn_idx < components.all_reactions@.len(),
            components.all_reactions@[rxn_idx as int].pattern matches
                ReactionPattern::Bimolecular { r1_num, r2_num, .. } && (if idx_is_first {
                components.latest_states@[idx as int] == r1_num && partner_species == r2_num
            } else {
                symmetric && components.latest_states@[idx as int] == r2_num && partner_species
                    == r1_num
            }),
            last_t == last_history_t(*components),
            nbs == neighbor_list(idx as int, *settings),
            neighbors@.map_values(|n: usize| n as int) == nbs,
            n_nbs == neighbors@.len(),
            j <= n_nbs,
            forall|k: int| 0 <= k < neighbors@.len() ==> (#[trigger] neighbors@[k]) < components.latest_states@.len(),
            global_state.current_t == old(global_state).current_t,
            global_state.next_rxn_event == old(global_state).next_rxn_event,
            global_state.is_playing == old(global_state).is_playing,
            global_state.run_direction_forward == old(global_state).run_direction_forward,
            global_state.tick == old(global_state).tick,
            forall|y: (EventScore, EventEntry)|
                #[trigger] queue_entries(global_state.rxn_queue).count(y) >= queue_entries(
                    old(global_state).rxn_queue,
                ).count(y),
            forall|y: (EventScore, EventEntry)|
                #[trigger] queue_entries(global_state.rxn_queue).count(y) > queue_entries(
                    old(global_state).rxn_queue,
                ).count(y) ==> is_candidate_at(y, *components, *settings, idx as int, symmetric),
            horizon_open(*components) && components.all_reactions@[rxn_idx as int].rate != 0
                ==> queue_entries(global_state.rxn_queue).len() == queue_entries(
                old(global_state).rxn_queue,
            ).len() + matching_neighbors_upto(
                components.latest_states@,
                nbs,
                idx as int,
                partner_species,
                j as int,
            ),
            !(horizon_open(*components) && components.all_reactions@[rxn_idx as int].rate != 0)
                ==> queue_entries(global_state.rxn_queue).len() == queue_entries(
                old(global_state).rxn_queue,
            ).len(),
        decreases n_nbs - j,
    {
        let neighbor_idx = neighbors[j];
        proof {
            assert(nbs[j as int] == neighbors@[j as int] as int);
        }
        if neighbor_idx != idx && components.latest_states[neighbor_idx] == partner_species {
            match compute_next_t(components, rxn_idx) {
                Some(next_t) => {
                    let seqno = global_state.next_seq;
                    let (r1_loc, r2_loc): (usize, usize) = if idx_is_first {
                        (idx, neighbor_idx)
                    } else {
                        (neighbor_idx, idx)
                    };
                    let entry: EventEntry = (rxn_idx, r1_loc, Some(r2_loc), next_t, last_t);
                    let ghost before = queue_entries(global_state.rxn_queue);
                    queue_put(&mut global_state.rxn_queue, (next_t, seqno), entry);
                    if global_state.next_seq < u64::MAX {
                        global_state.next_seq = global_state.next_seq + 1;
                    }
                    proof {
                        let x = (((next_t, seqno)), entry);
                        assert(nbs.contains(neighbor_idx as int));
                        assert(is_candidate_at(x, *components, *settings, idx as int, symmetric));
                        assert(candidate_fresh(entry_event(x), *components));
                        assert(applies_forward(
                            components.latest_states@,
                            components.all_reactions@,
                            entry_event(x),
                        ));
                        assert(queue_entry_inv(x, *components));
                        assert forall|y: (EventScore, EventEntry)|
                            #[trigger] queue_entries(global_state.rxn_queue).count(y) > 0 implies queue_entry_inv(
                            y,
                            *components,
                        ) by {
                            if y != x {
                                assert(before.count(y) > 0);
                            }
                        }
                    }
                },
                None => {
                },
            }
        }
        j = j + 1;
    }
}

/// Look for reactions that can occur at `idx` in the frontier board and
/// enqueue a candidate for each, with a freshly sampled fire time.  In
/// symmetric mode (every update after the initial fill) the cell may stand
/// for either reactant of a bimolecular rule; in asymmetric mode (initial
/// fill) only for the first, since every pair is then found from one of its
/// two members.
fn check_for_new_reactions_at(
    idx: usize,
    components: &SimulatorComponents,
    global_state: &mut SimulatorState,
    settings: &Settings,
    symmetric: bool,
)
    requires
        engine_wf(*components),
        queue_inv(*old(global_state), *components),
        idx < components.latest_states@.len(),
        components.latest_states@.len() == settings.n_rows * settings.n_cols,
    ensures
        queue_inv(*final(global_state), *components),
        final(global_state).current_t == old(global_state).current_t,
        final(global_state).next_rxn_event == old(global_state).next_rxn_event,
        final(global_state).is_playing == old(global_state).is_playing,
        final(global_state).run_direction_forward == old(global_state).run_direction_forward,
        final(global_state).tick == old(global_state).tick,
        forall|y: (EventScore, EventEntry)|
            #[trigger] queue_entries(final(global_state).rxn_queue).count(y) >= queue_entries(
                old(global_state).rxn_queue,
            ).count(y),
        forall|y: (EventScore, EventEntry)|
            #[trigger] queue_entries(final(global_state).rxn_queue).count(y) > queue_entries(
                old(global_state).rxn_queue,
            ).count(y) ==> is_candidate_at(y, *components, *settings, idx as int, symmetric),
        horizon_open(*components) ==> queue_entries(final(global_state).rxn_queue).len()
            == queue_entries(old(global_state).rxn_queue).len() + candidates_at(
            *components,
            *settings,
            idx as int,
            symmetric,
        ),
        !horizon_open(*components) ==> queue_entries(final(global_state).rxn_queue).len()
            == queue_entries(old(global_state).rxn_queue).len(),
{
    let hist_len = components.reaction_history.len();
    let last_t: u64 = if hist_len == 0 {
        0
    } else {
        components.reaction_history[hist_len - 1].t
    };
    let n_rules = components.all_reactions.len();
    let mut rxn_idx: usize = 0;
    while rxn_idx < n_rules
        invariant
            engine_wf(*components),
            queue_inv(*global_state, *components),
            idx < components.latest_states@.len(),
            components.latest_states@.len() == settings.n_rows * settings.n_cols,
            last_t == last_history_t(*components),
            n_rules == components.all_reactions@.len(),
            rxn_idx <= n_rules,
            global_state.current_t == old(global_state).current_t,
            global_state.next_rxn_event == old(global_state).next_rxn_event,
            global_state.is_playing == old(global_state).is_playing,
            global_state.run_direction_forward == old(global_state).run_direction_forward,
            global_state.tick == old(global_state).tick,
            forall|y: (EventScore, EventEntry)|
                #[trigger] queue_entries(global_state.rxn_queue).count(y) >= queue_entries(
                    old(global_state).rxn_queue,
                ).count(y),
            forall|y: (EventScore, EventEntry)|
                #[trigger] queue_entries(global_state.rxn_queue).count(y) > queue_entries(
                    old(global_state).rxn_queue,
                ).count(y) ==> is_candidate_at(y, *components, *settings, idx as int, symmetric),
            horizon_open(*components) ==> queue_entries(global_state.rxn_queue).len()
                == queue_entries(old(global_state).rxn_queue).len() + candidates_at_upto(
                *components,
                *settings,
                idx as int,
                symmetric,
                rxn_idx as int,
            ),
            !horizon_open(*components) ==> queue_entries(global_state.rxn_queue).len()
                == queue_entries(old(global_state).rxn_queue).len(),
        decreases n_rules - rxn_idx,
    {
        let ghost mid = queue_entries(global_state.rxn_queue);
        let rxn: Reaction = components.all_reactions[rxn_idx];
        match rxn.pattern {
            ReactionPattern::Unimolecular { r1_num, .. } => {
                if components.latest_states[idx] == r1_num {
                    match compute_next_t(components, rxn_idx) {
                        Some(next_t) => {
                            let seqno = global_state.next_seq;
                            let entry: EventEntry = (rxn_idx, idx, None, next_t, last_t);
                            let ghost before = queue_entries(global_state.rxn_queue);
                            queue_put(&mut global_state.rxn_queue, (next_t, seqno), entry);
                            if global_state.next_seq < u64::MAX {
                                global_state.next_seq = global_state.next_seq + 1;
                            }
                            proof {
                                let x = (((next_t, seqno)), entry);
                                assert(is_candidate_at(
                                    x,
                                    *components,
                                    *settings,
                                    idx as int,
                                    symmetric,
                                ));
                                assert(queue_entry_inv(x, *components));
                                assert forall|y: (EventScore, EventEntry)|
                                    #[trigger] queue_entries(global_state.rxn_queue).count(y)
                                        > 0 implies queue_entry_inv(y, *components) by {
                                    if y != x {
                                        assert(before.count(y) > 0);
                                    }
                                }
                            }
                        },
                        None => {
                        },
                    }
                }
            },
            ReactionPattern::Bimolecular { r1_num, r2_num, .. } => {
                let my_species = components.latest_states[idx];
                if my_species == r1_num {
                    enqueue_bi_candidates(
                        idx,
                        rxn_idx,
                        r2_num,
                        true,
                        symmetric,
                        components,
                        global_state,
                        settings,
                    );
                } else if symmetric && my_species == r2_num {
                    enqueue_bi_candidates(
                        idx,
                        rxn_idx,
                        r1_num,
                        false,
                        symmetric,
                        components,
                        global_state,
                        settings,
                    );
                }
                proof {
                    assert forall|y: (EventScore, EventEntry)|
                        #[trigger] queue_entries(global_state.rxn_queue).count(y) > queue_entries(
                            old(global_state).rxn_queue,
                        ).count(y) implies is_candidate_at(
                        y,
                        *components,
                        *settings,
                        idx as int,
                        symmetric,
                    ) by {
                        if queue_entries(global_state.rxn_queue).count(y) <= mid.count(y) {
                            assert(mid.count(y) > queue_entries(old(global_state).rxn_queue).count(
                                y,
                            ));
                        }
                    }
                }
            },
        }
        rxn_idx = rxn_idx + 1;
    }
}

/// Pop candidates off the queue, in score order, until one is valid — still
/// fresh at every reactant cell and scheduled strictly after the last
/// committed event — or the queue runs dry.  `None` is the normal terminal
/// signal: the simulation has reached quiescence.  A returned event is
/// applicable to the frontier board, and every candidate that was scheduled
/// before it was invalid.
pub fn pop_next_reaction(
    global_state: &mut SimulatorState,
    components: &mut SimulatorComponents,
) -> (r: Option<ReactionEvent>)
    requires
        engine_wf(*old(components)),
        queue_inv(*old(global_state), *old(components)),
    ensures
        *final(components) == *old(components),
        final(global_state).next_seq == old(global_state).next_seq,
        final(global_state).current_t == old(global_state).current_t,
        final(global_state).next_rxn_event == old(global_state).next_rxn_event,
        final(global_state).is_playing == old(global_state).is_playing,
        final(global_state).run_direction_forward == old(global_state).run_direction_forward,
        final(global_state).tick == old(global_state).tick,
        queue_inv(*final(global_state), *old(components)),
        forall|y: (EventScore, EventEntry)|
            #[trigger] queue_entries(final(global_state).rxn_queue).count(y) <= queue_entries(
                old(global_state).rxn_queue,
            ).count(y),
        r is None ==> queue_entries(final(global_state).rxn_queue).len() == 0,
        r is None ==> forall|y: (EventScore, EventEntry)|
            #[trigger] queue_entries(old(global_state).rxn_queue).count(y) > 0
                ==> !candidate_valid(y, *old(components)),
        r matches Some(e) ==> {
            &&& event_wf(
                e,
                old(components).latest_states@.len() as nat,
                old(components).all_reactions@,
            )
            &&& candidate_fresh(e, *old(components))
            &&& e.t > last_history_t(*old(components))
            &&& applies_forward(
                old(components).latest_states@,
                old(components).all_reactions@,
                e,
            )
            &&& exists|x: (EventScore, EventEntry)|
                {
                    &&& #[trigger] queue_entries(old(global_state).rxn_queue).count(x) > 0
                    &&& entry_event(x) == e
                    &&& forall|y: (EventScore, EventEntry)|
                        #[trigger] queue_entries(old(global_state).rxn_queue).count(y) > 0
                            && !score_le(x.0, y.0) ==> !candidate_valid(y, *old(components))
                }
        },
{
    let ghost orig = queue_entries(old(global_state).rxn_queue);
    loop
        invariant
            engine_wf(*components),
            *components == *old(components),
            global_state.next_seq == old(global_state).next_seq,
            global_state.current_t == old(global_state).current_t,
            global_state.next_rxn_event == old(global_state).next_rxn_event,
            global_state.is_playing == old(global_state).is_playing,
            global_state.run_direction_forward == old(global_state).run_direction_forward,
            global_state.tick == old(global_state).tick,
            queue_inv(*global_state, *components),
            orig == queue_entries(old(global_state).rxn_queue),
            forall|y: (EventScore, EventEntry)|
                #[trigger] queue_entries(global_state.rxn_queue).count(y) <= orig.count(y),
            forall|y: (EventScore, EventEntry)|
                orig.count(y) > #[trigger] queue_entries(global_state.rxn_queue).count(y)
                    ==> !candidate_valid(y, *components),
            forall|y: (EventScore, EventEntry), z: (EventScore, EventEntry)|
                orig.count(y) > #[trigger] queue_entries(global_state.rxn_queue).count(y)
                    && #[trigger] queue_entries(global_state.rxn_queue).count(z) > 0
                    ==> score_le(y.0, z.0),
        decreases queue_entries(global_state.rxn_queue).len(),
    {
        let ghost before = queue_entries(global_state.rxn_queue);
        let popped = queue_pop(&mut global_state.rxn_queue);
        match popped {
            None => {
                proof {
                    assert forall|y: (EventScore, EventEntry)|
                        #[trigger] orig.count(y) > 0 implies !candidate_valid(
                        y,
                        *components,
                    ) by {
                        assert(queue_entries(global_state.rxn_queue).count(y) <= queue_entries(
                            global_state.rxn_queue,
                        ).len());
                    }
                }
                return None;
            },
            Some((score, entry)) => {
                proof {
                    assert(before.count((score, entry)) > 0);
                    assert(queue_entry_inv((score, entry), *components));
                }
                let rxn = ReactionEvent {
                    rxn_idx: entry.0,
                    r1_loc: entry.1,
                    r2_loc: entry.2,
                    t: entry.3,
                    t_issued: entry.4,
                };
                let hist_len = components.reaction_history.len();
                let last_t: u64 = if hist_len == 0 {
                    0
                } else {
                    components.reaction_history[hist_len - 1].t
                };
                let fresh_r1 = rxn.t_issued >= components.state_timestamps[rxn.r1_loc];
                let fresh_r2 = match rxn.r2_loc {
                    Some(l2) => rxn.t_issued >= components.state_timestamps[l2],
                    None => true,
                };
                if fresh_r1 && fresh_r2 && rxn.t > last_t {
                    proof {
                        let x = (score, entry);
                        assert(candidate_fresh(rxn, *components));
                        assert(applies_forward(
                            components.latest_states@,
                            components.all_reactions@,
                            rxn,
                        ));
                        assert(orig.count(x) > 0);
                        assert forall|y: (EventScore, EventEntry)|
                            #[trigger] orig.count(y) > 0 && !score_le(x.0, y.0) implies !candidate_valid(
                            y,
                            *components,
                        ) by {
                            if queue_entries(global_state.rxn_queue).count(y) == orig.count(y) {
                                assert(queue_entries(global_state.rxn_queue).count(y) > 0);
                                assert(score_le(x.0, y.0));
                            } else {
                                assert(!candidate_valid(y, *components));
                            }
                        }
                    }
                    return Some(rxn);
                }
                proof {
                    let x = (score, entry);
                    assert(!candidate_valid(x, *components));
                    assert forall|y: (EventScore, EventEntry), z: (EventScore, EventEntry)|
                        orig.count(y) > #[trigger] queue_entries(global_state.rxn_queue).count(y)
                            && #[trigger] queue_entries(global_state.rxn_queue).count(z) > 0 implies score_le(
                        y.0,
                        z.0,
                    ) by {
                        if y == x {
                            assert(score_le(x.0, z.0));
                        } else if before.count(y) == orig.count(y) {
                            assert(score_le(y.0, z.0));
                        } else {
                            assert(before.count(z) > 0);
                        }
                    }
                }
            },
        }
    }
}

/// The candidates an asymmetric pass over the first `idx` cells finds.
pub open spec fn init_candidates_upto(c: SimulatorComponents, s: Settings, idx: int) -> nat
    decreases idx,
{
    if idx <= 0 {
        0
    } else {
        init_candidates_upto(c, s, idx - 1) + candidates_at(c, s, idx - 1, false)
    }
}

/// Fill the candidate queue from scratch: one asymmetric pass over every
/// cell, so that each reacting pair is found from exactly one of its two
/// members.  Call once at startup, after the board is loaded.
pub fn initialize_queue(
    components: &SimulatorComponents,
    global_state: &mut SimulatorState,
    settings: &Settings,
)
    requires
        sim_wf(*old(global_state), *components, *settings),
    ensures
        sim_wf(*final(global_state), *components, *settings),
        final(global_state).current_t == old(global_state).current_t,
        final(global_state).next_rxn_event == old(global_state).next_rxn_event,
        final(global_state).is_playing == old(global_state).is_playing,
        final(global_state).run_direction_forward == old(global_state).run_direction_forward,
        final(global_state).tick == old(global_state).tick,
        forall|y: (EventScore, EventEntry)|
            #[trigger] queue_entries(final(global_state).rxn_queue).count(y) >= queue_entries(
                old(global_state).rxn_queue,
            ).count(y),
        forall|y: (EventScore, EventEntry)|
            #[trigger] queue_entries(final(global_state).rxn_queue).count(y) > queue_entries(
                old(global_state).rxn_queue,
            ).count(y) ==> exists|cell: int|
                0 <= cell < components.latest_states@.len() && is_candidate_at(
                    y,
                    *components,
                    *settings,
                    cell,
                    false,
                ),
        horizon_open(*components) ==> queue_entries(final(global_state).rxn_queue).len()
            == queue_entries(old(global_state).rxn_queue).len() + init_candidates_upto(
            *components,
            *settings,
            components.latest_states@.len() as int,
        ),
        !horizon_open(*components) ==> queue_entries(final(global_state).rxn_queue).len()
            == queue_entries(old(global_state).rxn_queue).len(),
{
    let n_cells = components.current_states.len();
    let mut idx: usize = 0;
    while idx < n_cells
        invariant
            engine_wf(*components),
            sim_wf(*global_state, *components, *settings),
            n_cells == components.latest_states@.len(),
            idx <= n_cells,
            global_state.current_t == old(global_state).current_t,
            global_state.next_rxn_event == old(global_state).next_rxn_event,
            global_state.is_playing == old(global_state).is_playing,
            global_state.run_direction_forward == old(global_state).run_direction_forward,
            global_state.tick == old(global_state).tick,
            forall|y: (EventScore, EventEntry)|
                #[trigger] queue_entries(global_state.rxn_queue).count(y) >= queue_entries(
                    old(global_state).rxn_queue,
                ).count(y),
            forall|y: (EventScore, EventEntry)|
                #[trigger] queue_entries(global_state.rxn_queue).count(y) > queue_entries(
                    old(global_state).rxn_queue,
                ).count(y) ==> exists|cell: int|
                    0 <= cell < components.latest_states@.len() && is_candidate_at(
                        y,
                        *components,
                        *settings,
                        cell,
                        false,
                    ),
            horizon_open(*components) ==> queue_entries(global_state.rxn_queue).len()
                == queue_entries(old(global_state).rxn_queue).len() + init_candidates_upto(
                *components,
                *settings,
                idx as int,
            ),
            !horizon_open(*components) ==> queue_entries(global_state.rxn_queue).len()
                == queue_entries(old(global_state).rxn_queue).len(),
        decreases n_cells - idx,
    {
        let ghost mid = queue_entries(global_state.rxn_queue);
        check_for_new_reactions_at(idx, components, global_state, settings, false);
        proof {
            assert forall|y: (EventScore, EventEntry)|
                #[trigger] queue_entries(global_state.rxn_queue).count(y) > queue_entries(
                    old(global_state).rxn_queue,
                ).count(y) implies exists|cell: int|
                0 <= cell < components.latest_states@.len() && is_candidate_at(
                    y,
                    *components,
                    *settings,
                    cell,
                    false,
                ) by {
                if queue_entries(global_state.rxn_queue).count(y) > mid.count(y) {
                    assert(is_candidate_at(y, *components, *settings, idx as int, false));
                    assert(0 <= (idx as int) < components.latest_states@.len() && is_candidate_at(
                        y,
                        *components,
                        *settings,
                        idx as int,
                        false,
                    ));
                } else {
                    assert(mid.count(y) > queue_entries(old(global_state).rxn_queue).count(y));
                }
            }
        }
        idx = idx + 1;
    }
}

/// Grow the history by at most one committed event: resolve the next valid
/// candidate, append it, propagate its products and timestamp into the
/// frontier board, and enqueue the reactions the changed cells now make
/// possible.  When no valid candidate is left the queue is drained empty and
/// nothing changes: the simulation has reached quiescence.  The committed
/// event, if any, was never stale (its issue time is at or after the
/// timestamp of each of its reactant cells) and fires strictly after the
/// previous last event.
pub fn extend_reaction_history(
    components: &mut SimulatorComponents,
    global_state: &mut SimulatorState,
    settings: &Settings,
)
    requires
        sim_wf(*old(global_state), *old(components), *settings),
    ensures
        sim_wf(*final(global_state), *final(components), *settings),
        final(components).reaction_history@.len() <= old(components).reaction_history@.len() + 1,
        final(components).reaction_history@.take(
            old(components).reaction_history@.len() as int,
        ) == old(components).reaction_history@,
        final(components).current_states@ == old(components).current_states@,
        final(components).initial_states@ == old(components).initial_states@,
        final(components).all_reactions@ == old(components).all_reactions@,
        final(components).state_names@ == old(components).state_names@,
        final(components).latest_states@.len() == old(components).latest_states@.len(),
        final(global_state).next_rxn_event == old(global_state).next_rxn_event,
        final(global_state).current_t == old(global_state).current_t,
        final(global_state).is_playing == old(global_state).is_playing,
        final(global_state).run_direction_forward == old(global_state).run_direction_forward,
        final(global_state).tick == old(global_state).tick,
        final(components).reaction_history@.len() == old(components).reaction_history@.len()
            ==> queue_entries(final(global_state).rxn_queue).len() == 0 && *final(components)
            == *old(components),
        final(components).reaction_history@.len() == old(components).reaction_history@.len()
            ==> forall|y: (EventScore, EventEntry)|
                #[trigger] queue_entries(old(global_state).rxn_queue).count(y) > 0
                    ==> !candidate_valid(y, *old(components)),
        final(components).reaction_history@.len() == old(components).reaction_history@.len() + 1
            ==> {
            let e = final(components).reaction_history@.last();
            &&& candidate_fresh(e, *old(components))
            &&& e.t > last_history_t(*old(components))
            &&& applies_forward(
                old(components).latest_states@,
                old(components).all_reactions@,
                e,
            )
            &&& final(components).latest_states@ == apply_forward_spec(
                old(components).latest_states@,
                old(components).all_reactions@,
                e,
            )
            &&& final(components).state_timestamps@ == (match e.r2_loc {
                Some(l2) => old(components).state_timestamps@.update(
                    e.r1_loc as int,
                    e.t,
                ).update(l2 as int, e.t),
                None => old(components).state_timestamps@.update(e.r1_loc as int, e.t),
            })
        },
{
    let maybe_next_event = pop_next_reaction(global_state, components);
    let next_event: ReactionEvent = match maybe_next_event {
        None => {
            proof {
                assert(components.reaction_history@.take(
                    old(components).reaction_history@.len() as int,
                ) =~= old(components).reaction_history@);
            }
            return ;
        },
        Some(e) => e,
    };
    let next_rxn: Reaction = components.all_reactions[next_event.rxn_idx];
    let ghost c0 = *components;
    let ghost hist0 = components.reaction_history@;
    components.reaction_history.push(next_event);
    match next_rxn.pattern {
        ReactionPattern::Unimolecular { p1_num, .. } => {
            components.latest_states.set(next_event.r1_loc, p1_num);
            components.state_timestamps.set(next_event.r1_loc, next_event.t);
        },
        ReactionPattern::Bimolecular { p1_num, p2_num, .. } => {
            let l2: usize = match next_event.r2_loc {
                Some(l) => l,
                None => unreached(),
            };
            components.latest_states.set(next_event.r1_loc, p1_num);
            components.state_timestamps.set(next_event.r1_loc, next_event.t);
            components.latest_states.set(l2, p2_num);
            components.state_timestamps.set(l2, next_event.t);
        },
    }
    proof {
        lemma_after_commit(c0, *components, *global_state, next_event);
    }
    check_for_new_reactions_at(next_event.r1_loc, components, global_state, settings, true);
    match next_event.r2_loc {
        Some(l2) => {
            check_for_new_reactions_at(l2, components, global_state, settings, true);
        },
        None => {
        },
    }
    proof {
        assert(components.reaction_history@.take(hist0.len() as int) =~= hist0);
        crate::reactions::lemma_replay_prefix(
            components.initial_states@,
            components.all_reactions@,
            hist0,
            components.reaction_history@,
            global_state.next_rxn_event as int,
        );
    }
}

/// The heart of the commit step: after appending a valid popped event and
/// applying its products and timestamp to the frontier board, the engine
/// and queue invariants hold again.
proof fn lemma_after_commit(
    c0: SimulatorComponents,
    c1: SimulatorComponents,
    gs: SimulatorState,
    e: ReactionEvent,
)
    requires
        engine_wf(c0),
        event_wf(e, c0.latest_states@.len() as nat, c0.all_reactions@),
        candidate_fresh(e, c0),
        e.t > last_history_t(c0),
        applies_forward(c0.latest_states@, c0.all_reactions@, e),
        queue_inv(gs, c0),
        c1.reaction_history@ == c0.reaction_history@.push(e),
        c1.latest_states@ == apply_forward_spec(c0.latest_states@, c0.all_reactions@, e),
        c1.state_timestamps@ == (match e.r2_loc {
            Some(l2) => c0.state_timestamps@.update(e.r1_loc as int, e.t).update(l2 as int, e.t),
            None => c0.state_timestamps@.update(e.r1_loc as int, e.t),
        }),
        c1.current_states@ == c0.current_states@,
        c1.all_reactions@ == c0.all_reactions@,
        c1.initial_states@ == c0.initial_states@,
    ensures
        engine_wf(c1),
        queue_inv(gs, c1),
        last_history_t(c1) == e.t,
{
    let init = c0.initial_states@;
    let rules = c0.all_reactions@;
    let hist0 = c0.reaction_history@;
    let hist1 = c1.reaction_history@;
    let n = c0.latest_states@.len();
    assert(c1.latest_states@.len() == n);
    assert(hist1.last() == e);
    assert(last_history_t(c1) == e.t);
    // The old history is untouched, so everything proved of its prefixes
    // carries over.
    assert forall|k: int| 0 <= k < hist1.len() implies event_wf(
        #[trigger] hist1[k],
        n,
        rules,
    ) by {
        if k < hist0.len() {
            assert(hist1[k] == hist0[k]);
        }
    }
    assert forall|k: int| 0 < k < hist1.len() implies (#[trigger] hist1[k].t) > hist1[k
        - 1].t by {
        if k < hist0.len() {
            assert(hist1[k] == hist0[k]);
            assert(hist1[k - 1] == hist0[k - 1]);
        } else {
            assert(hist1[k] == e);
            assert(hist1[k - 1] == hist0[k - 1]);
            assert(hist0[k - 1].t == last_history_t(c0));
        }
    }
    assert forall|k: int| 0 <= k < hist1.len() implies applies_forward(
        replay_state(init, rules, hist1, k),
        rules,
        #[trigger] hist1[k],
    ) by {
        crate::reactions::lemma_replay_prefix(init, rules, hist0, hist1, k);
        if k < hist0.len() {
            assert(hist1[k] == hist0[k]);
        } else {
            assert(replay_state(init, rules, hist1, k) == c0.latest_states@);
        }
    }
    assert forall|i: int| 0 <= i < c1.state_timestamps@.len() implies (
    #[trigger] c1.state_timestamps@[i]) <= e.t by {
        let touched = i == e.r1_loc || (match e.r2_loc {
            Some(el2) => i == el2,
            None => false,
        });
        if !touched {
            assert(c1.state_timestamps@[i] == c0.state_timestamps@[i]);
        }
    }
    crate::reactions::lemma_replay_prefix(init, rules, hist0, hist1, hist0.len() as int);
    assert(replay_state(init, rules, hist1, hist1.len() as int) == apply_forward_spec(
        c0.latest_states@,
        rules,
        e,
    ));
    // Queue entries survive the commit: one whose cells the commit touched
    // is no longer fresh; one whose cells it left alone is unaffected.
    assert forall|y: (EventScore, EventEntry)|
        #[trigger] queue_entries(gs.rxn_queue).count(y) > 0 implies queue_entry_inv(
        y,
        c1,
    ) by {
        assert(queue_entry_inv(y, c0));
        let ev = entry_event(y);
        if candidate_fresh(ev, c1) {
            let r1_touched = ev.r1_loc == e.r1_loc || (match e.r2_loc {
                Some(el2) => ev.r1_loc == el2,
                None => false,
            });
            if r1_touched {
                assert(c1.state_timestamps@[ev.r1_loc as int] == e.t);
                assert(false);
            }
            assert(c1.state_timestamps@[ev.r1_loc as int] == c0.state_timestamps@[ev.r1_loc as int]);
            match ev.r2_loc {
                Some(yl2) => {
                    let r2_touched = yl2 == e.r1_loc || (match e.r2_loc {
                        Some(el2) => yl2 == el2,
                        None => false,
                    });
                    if r2_touched {
                        assert(c1.state_timestamps@[yl2 as int] == e.t);
                        assert(false);
                    }
                    assert(c1.state_timestamps@[yl2 as int] == c0.state_timestamps@[yl2 as int]);
                },
                None => {},
            }
            assert(candidate_fresh(ev, c0));
            assert(applies_forward(c0.latest_states@, rules, ev));
            assert(c1.latest_states@[ev.r1_loc as int] == c0.latest_states@[ev.r1_loc as int]);
            match ev.r2_loc {
                Some(yl2) => {
                    assert(c1.latest_states@[yl2 as int] == c0.latest_states@[yl2 as int]);
                },
                None => {},
            }
            assert(applies_forward(c1.latest_states@, rules, ev));
        }
    }
}

/// Replay one committed event onto the displayed board, forward (reactants
/// become products) or backward (products become reactants).  This is purely
/// mechanical: it touches neither the frontier board, the timestamps, the
/// queue, nor the history.
pub fn apply_reaction(
    next_event: &ReactionEvent,
    global_state: &SimulatorState,
    components: &mut SimulatorComponents,
    settings: &Settings,
    forward: bool,
)
    requires
        forward ==> applies_forward(
            old(components).current_states@,
            old(components).all_reactions@,
            *next_event,
        ),
        !forward ==> applies_backward(
            old(components).current_states@,
            old(components).all_reactions@,
            *next_event,
        ),
    ensures
        forward ==> final(components).current_states@ == apply_forward_spec(
            old(components).current_states@,
            old(components).all_reactions@,
            *next_event,
        ),
        !forward ==> final(components).current_states@ == apply_backward_spec(
            old(components).current_states@,
            old(components).all_reactions@,
            *next_event,
        ),
        final(components).latest_states@ == old(components).latest_states@,
        final(components).state_timestamps@ == old(components).state_timestamps@,
        final(components).reaction_history@ == old(components).reaction_history@,
        final(components).all_reactions@ == old(components).all_reactions@,
        final(components).state_names@ == old(components).state_names@,
        final(components).state_colorclasses@ == old(components).state_colorclasses@,
        final(components).colorclass_names@ == old(components).colorclass_names@,
        final(components).colorclass_colors@ == old(components).colorclass_colors@,
        final(components).n_states_known == old(components).n_states_known,
        final(components).n_colorclasses == old(components).n_colorclasses,
        final(components).initial_states@ == old(components).initial_states@,
        final(components).current_states@.len() == old(components).current_states@.len(),
{
    let next_rxn: Reaction = components.all_reactions[next_event.rxn_idx];
    match next_rxn.pattern {
        ReactionPattern::Unimolecular { r1_num, p1_num } => {
            if forward {
                components.current_states.set(next_event.r1_loc, p1_num);
            } else {
                components.current_states.set(next_event.r1_loc, r1_num);
            }
        },
        ReactionPattern::Bimolecular { r1_num, r2_num, p1_num, p2_num } => {
            let r2_loc: usize = match next_event.r2_loc {
                Some(l2) => l2,
                None => unreached(),
            };
            if forward {
                components.current_states.set(next_event.r1_loc, p1_num);
                components.current_states.set(r2_loc, p2_num);
            } else {
                components.current_states.set(next_event.r1_loc, r1_num);
                components.current_states.set(r2_loc, r2_num);
            }
        },
    }
}

/// The saturated sum `a + b` on the time axis.
pub open spec fn sat_add_time(a: u64, b: u64) -> u64 {
    if a + b > u64::MAX {
        u64::MAX
    } else {
        (a + b) as u64
    }
}

/// The clock after the forward advance of one frame: the budget is added
/// (saturating) and the result clamped to `max_duration`.
pub open spec fn forward_clock(t0: u64, s: Settings) -> u64 {
    let a = sat_add_time(t0, frame_budget_spec(s));
    if a > s.max_duration {
        s.max_duration
    } else {
        a
    }
}

/// The clock after the backward advance of one frame: the budget is
/// subtracted, clamping at 0.
pub open spec fn backward_clock(t0: u64, s: Settings) -> u64 {
    if frame_budget_spec(s) > t0 {
        0u64
    } else {
        (t0 - frame_budget_spec(s)) as u64
    }
}

/// The simulated-time budget of one frame: `speedup_factor / fps`, saturated.
pub open spec fn frame_budget_spec(s: Settings) -> u64 {
    let b = (s.speedup_factor * TIME_ONE) / (s.fps as int);
    if b > u64::MAX {
        u64::MAX
    } else {
        b as u64
    }
}

/// How much simulated time one frame covers: the speedup factor divided by
/// the target frame rate.
fn frame_budget(settings: &Settings) -> (b: u64)
    requires
        settings.fps >= 1,
    ensures
        b == frame_budget_spec(*settings),
{
    let wide: u128 = ((settings.speedup_factor as u128) * (TIME_ONE as u128)) / (
    settings.fps as u128);
    proof {
        vstd::arithmetic::div_mod::lemma_div_pos_is_pos(
            (settings.speedup_factor as int) * (TIME_ONE as int),
            settings.fps as int,
        );
    }
    if wide > u64::MAX as u128 {
        u64::MAX
    } else {
        wide as u64
    }
}

/// The forward phase of a frame: move the clock ahead by the budget,
/// clamping at `max_duration` (and going idle exactly at that boundary),
/// grow the history just in time, and replay the next committed event once
/// it falls inside the clock, snapping the clock to its exact time.
#[verifier::rlimit(100)]
fn tick_forward(
    global_state: &mut SimulatorState,
    components: &mut SimulatorComponents,
    settings: &Settings,
)
    requires
        sim_wf(*old(global_state), *old(components), *settings),
    ensures
        sim_wf(*final(global_state), *final(components), *settings),
        final(components).reaction_history@.take(
            old(components).reaction_history@.len() as int,
        ) == old(components).reaction_history@,
        final(components).current_states@.len() == old(components).current_states@.len(),
        final(components).all_reactions@ == old(components).all_reactions@,
        final(components).initial_states@ == old(components).initial_states@,
        final(global_state).current_t <= settings.max_duration,
        sat_add_time(old(global_state).current_t, frame_budget_spec(*settings))
            > settings.max_duration ==> !final(global_state).is_playing,
        old(global_state).next_rxn_event <= final(global_state).next_rxn_event <= old(global_state).next_rxn_event + 1,
        final(global_state).is_playing == (old(global_state).is_playing && !(sat_add_time(
            old(global_state).current_t,
            frame_budget_spec(*settings),
        ) > settings.max_duration)),
        final(global_state).run_direction_forward == old(global_state).run_direction_forward,
        final(global_state).tick == old(global_state).tick,
        old(global_state).next_rxn_event < old(components).reaction_history@.len() ==> ({
            let clock = forward_clock(old(global_state).current_t, *settings);
            let next = old(components).reaction_history@[old(global_state).next_rxn_event as int];
            &&& final(components).reaction_history@ == old(components).reaction_history@
            &&& (next.t <= clock ==> final(global_state).next_rxn_event == old(
                global_state,
            ).next_rxn_event + 1 && final(global_state).current_t == next.t)
            &&& (next.t > clock ==> final(global_state).next_rxn_event == old(
                global_state,
            ).next_rxn_event && final(global_state).current_t == clock)
        }),
{
    let budget = frame_budget(settings);
    let ghost hist0 = components.reaction_history@;
    let advanced: u64 = if u64::MAX - global_state.current_t < budget {
        u64::MAX
    } else {
        global_state.current_t + budget
    };
    if advanced > settings.max_duration {
        global_state.current_t = settings.max_duration;
        global_state.is_playing = false;
    } else {
        global_state.current_t = advanced;
    }
    // Grow the history just in time; if nothing grew, the queue is
    // exhausted and no further event will ever occur.
    if global_state.next_rxn_event == components.reaction_history.len() {
        extend_reaction_history(components, global_state, settings);
    }
    if global_state.next_rxn_event < components.reaction_history.len() {
        let next_event = components.reaction_history[global_state.next_rxn_event];
        if next_event.t <= global_state.current_t {
            proof {
                assert(applies_forward(
                    components.current_states@,
                    components.all_reactions@,
                    next_event,
                ));
            }
            apply_reaction(&next_event, global_state, components, settings, true);
            global_state.next_rxn_event = global_state.next_rxn_event + 1;
            global_state.current_t = next_event.t;
        }
    }
    proof {
        assert(components.reaction_history@.take(hist0.len() as int) =~= hist0);
    }
}

/// The backward phase of a frame: move the clock back by the budget,
/// clamping at 0 (and going idle exactly at that boundary), and replay the
/// preceding committed event backward once the clock has passed it.
fn tick_backward(
    global_state: &mut SimulatorState,
    components: &mut SimulatorComponents,
    settings: &Settings,
)
    requires
        sim_wf(*old(global_state), *old(components), *settings),
    ensures
        sim_wf(*final(global_state), *final(components), *settings),
        final(components).reaction_history@ == old(components).reaction_history@,
        final(components).current_states@.len() == old(components).current_states@.len(),
        final(components).all_reactions@ == old(components).all_reactions@,
        final(components).initial_states@ == old(components).initial_states@,
        frame_budget_spec(*settings) > old(global_state).current_t ==> !final(global_state).is_playing,
        old(global_state).next_rxn_event - 1 <= final(global_state).next_rxn_event <= old(global_state).next_rxn_event,
        final(global_state).is_playing == (old(global_state).is_playing && !(frame_budget_spec(
            *settings,
        ) > old(global_state).current_t)),
        final(global_state).run_direction_forward == old(global_state).run_direction_forward,
        final(global_state).tick == old(global_state).tick,
        ({
            let clock = backward_clock(old(global_state).current_t, *settings);
            let cur = old(global_state).next_rxn_event;
            let hist = old(components).reaction_history@;
            if cur > 0 && hist[cur - 1].t >= clock {
                final(global_state).next_rxn_event == cur - 1 && final(global_state).current_t
                    == hist[cur - 1].t
            } else {
                final(global_state).next_rxn_event == cur && final(global_state).current_t
                    == clock
            }
        }),
{
    let budget = frame_budget(settings);
    if budget > global_state.current_t {
        global_state.current_t = 0;
        global_state.is_playing = false;
    } else {
        global_state.current_t = global_state.current_t - budget;
    }
    if global_state.next_rxn_event > 0 {
        let prev_event = components.reaction_history[global_state.next_rxn_event - 1];
        if prev_event.t >= global_state.current_t {
            proof {
                let k = global_state.next_rxn_event as int;
                let init = components.initial_states@;
                let rules = components.all_reactions@;
                crate::reactions::lemma_apply_round_trip(
                    replay_state(init, rules, components.reaction_history@, k - 1),
                    rules,
                    prev_event,
                );
            }
            apply_reaction(&prev_event, global_state, components, settings, false);
            global_state.next_rxn_event = global_state.next_rxn_event - 1;
            global_state.current_t = prev_event.t;
        }
    }
}

/// Advance playback by one frame in the configured direction, if the engine
/// is playing or a single-step was requested.  Forward: move the clock by
/// the frame budget, clamp it to `max_duration` (going idle exactly at that
/// boundary), grow the history just in time, and replay the next committed
/// event once it falls inside the clock — snapping the clock to the event's
/// exact time.  Backward: the mirror image, clamping at 0.  Replay never
/// skips an entry, and the clock never passes `max_duration`.
pub fn tick(
    global_state: &mut SimulatorState,
    components: &mut SimulatorComponents,
    settings: &Settings,
)
    requires
        sim_wf(*old(global_state), *old(components), *settings),
    ensures
        sim_wf(*final(global_state), *final(components), *settings),
        !(old(global_state).is_playing || old(global_state).tick) ==> *final(global_state)
            == *old(global_state) && *final(components) == *old(components),
        final(components).reaction_history@.take(
            old(components).reaction_history@.len() as int,
        ) == old(components).reaction_history@,
        final(components).current_states@.len() == old(components).current_states@.len(),
        final(components).all_reactions@ == old(components).all_reactions@,
        final(components).initial_states@ == old(components).initial_states@,
        (old(global_state).is_playing || old(global_state).tick) && old(global_state).run_direction_forward ==> {
            &&& final(global_state).current_t <= settings.max_duration
            &&& sat_add_time(old(global_state).current_t, frame_budget_spec(*settings))
                > settings.max_duration ==> !final(global_state).is_playing
            &&& old(global_state).next_rxn_event <= final(global_state).next_rxn_event <= old(global_state).next_rxn_event + 1
        },
        (old(global_state).is_playing || old(global_state).tick) && old(global_state).run_direction_forward && old(global_state).next_rxn_event < old(components).reaction_history@.len() ==> ({
            let clock = forward_clock(old(global_state).current_t, *settings);
            let next = old(components).reaction_history@[old(global_state).next_rxn_event as int];
            &&& final(components).reaction_history@ == old(components).reaction_history@
            &&& (next.t <= clock ==> final(global_state).next_rxn_event == old(
                global_state,
            ).next_rxn_event + 1 && final(global_state).current_t == next.t)
            &&& (next.t > clock ==> final(global_state).next_rxn_event == old(
                global_state,
            ).next_rxn_event && final(global_state).current_t == clock)
        }),
        (old(global_state).is_playing || old(global_state).tick) && !old(global_state).run_direction_forward ==> {
            &&& (frame_budget_spec(*settings) > old(global_state).current_t ==> !final(global_state).is_playing)
            &&& old(global_state).next_rxn_event - 1 <= final(global_state).next_rxn_event
                <= old(global_state).next_rxn_event
            &&& final(components).reaction_history@ == old(components).reaction_history@
        },
        (old(global_state).is_playing || old(global_state).tick) && !old(global_state).run_direction_forward ==> ({
            let clock = backward_clock(old(global_state).current_t, *settings);
            let cur = old(global_state).next_rxn_event;
            let hist = old(components).reaction_history@;
            if cur > 0 && hist[cur - 1].t >= clock {
                final(global_state).next_rxn_event == cur - 1 && final(global_state).current_t
                    == hist[cur - 1].t
            } else {
                final(global_state).next_rxn_event == cur && final(global_state).current_t
                    == clock
            }
        }),
        !final(global_state).is_playing ==> !final(global_state).tick,
{
    if !(global_state.is_playing || global_state.tick) {
        proof {
            assert(components.reaction_history@.take(
                components.reaction_history@.len() as int,
            ) =~= components.reaction_history@);
        }
        return ;
    }
    if global_state.run_direction_forward {
        tick_forward(global_state, components, settings);
    } else {
        tick_backward(global_state, components, settings);
        proof {
            assert(components.reaction_history@.take(
                components.reaction_history@.len() as int,
            ) =~= components.reaction_history@);
        }
    }
    if !global_state.is_playing {
        global_state.tick = false;
    }
}

/// Drive the playback cursor to `target` (clamped to the history length),
/// replaying entries through the displayed board one at a time — never
/// skipping — forward or backward as needed.  The displayed clock follows
/// the time of the last entry replayed.  The board that results depends on
/// the clamped target alone, so scrubbing away and back reproduces it
/// exactly.
pub fn jump_to_cursor(
    global_state: &mut SimulatorState,
    components: &mut SimulatorComponents,
    settings: &Settings,
    target: usize,
)
    requires
        sim_wf(*old(global_state), *old(components), *settings),
    ensures
        sim_wf(*final(global_state), *final(components), *settings),
        final(global_state).next_rxn_event == (if target
            <= old(components).reaction_history@.len() {
            target as int
        } else {
            old(components).reaction_history@.len() as int
        }),
        final(components).current_states@ == replay_state(
            old(components).initial_states@,
            old(components).all_reactions@,
            old(components).reaction_history@,
            final(global_state).next_rxn_event as int,
        ),
        final(components).reaction_history@ == old(components).reaction_history@,
        final(components).latest_states@ == old(components).latest_states@,
        final(components).state_timestamps@ == old(components).state_timestamps@,
        final(components).all_reactions@ == old(components).all_reactions@,
        final(components).initial_states@ == old(components).initial_states@,
        queue_entries(final(global_state).rxn_queue) == queue_entries(
            old(global_state).rxn_queue,
        ),
        final(global_state).is_playing == old(global_state).is_playing,
        final(global_state).run_direction_forward == old(global_state).run_direction_forward,
        final(global_state).tick == old(global_state).tick,
        final(global_state).next_rxn_event > old(global_state).next_rxn_event ==> final(global_state).current_t == old(components).reaction_history@[final(global_state).next_rxn_event
            - 1].t,
        final(global_state).next_rxn_event < old(global_state).next_rxn_event ==> final(global_state).current_t == old(components).reaction_history@[final(global_state).next_rxn_event as int].t,
        final(global_state).next_rxn_event == old(global_state).next_rxn_event ==> final(global_state).current_t == old(global_state).current_t,
{
    let hist_len = components.reaction_history.len();
    let tgt: usize = if target > hist_len {
        hist_len
    } else {
        target
    };
    if global_state.next_rxn_event < tgt {
        while global_state.next_rxn_event < tgt
            invariant
                sim_wf(*global_state, *components, *settings),
                tgt <= components.reaction_history@.len(),
                global_state.next_rxn_event <= tgt,
                components.reaction_history@ == old(components).reaction_history@,
                components.latest_states@ == old(components).latest_states@,
                components.state_timestamps@ == old(components).state_timestamps@,
                components.all_reactions@ == old(components).all_reactions@,
                components.initial_states@ == old(components).initial_states@,
                queue_entries(global_state.rxn_queue) == queue_entries(old(global_state).rxn_queue),
                global_state.is_playing == old(global_state).is_playing,
                global_state.run_direction_forward == old(global_state).run_direction_forward,
                global_state.tick == old(global_state).tick,
                global_state.next_rxn_event >= old(global_state).next_rxn_event,
                global_state.next_rxn_event > old(global_state).next_rxn_event
                    ==> global_state.current_t == components.reaction_history@[
                global_state.next_rxn_event - 1].t,
                global_state.next_rxn_event == old(global_state).next_rxn_event
                    ==> global_state.current_t == old(global_state).current_t,
            decreases tgt - global_state.next_rxn_event,
        {
            let next_event = components.reaction_history[global_state.next_rxn_event];
            proof {
                assert(applies_forward(
                    components.current_states@,
                    components.all_reactions@,
                    next_event,
                ));
            }
            apply_reaction(&next_event, global_state, components, settings, true);
            global_state.next_rxn_event = global_state.next_rxn_event + 1;
            global_state.current_t = next_event.t;
        }
    } else {
        while global_state.next_rxn_event > tgt
            invariant
                sim_wf(*global_state, *components, *settings),
                tgt <= components.reaction_history@.len(),
                tgt <= global_state.next_rxn_event,
                components.reaction_history@ == old(components).reaction_history@,
                components.latest_states@ == old(components).latest_states@,
                components.state_timestamps@ == old(components).state_timestamps@,
                components.all_reactions@ == old(components).all_reactions@,
                components.initial_states@ == old(components).initial_states@,
                queue_entries(global_state.rxn_queue) == queue_entries(old(global_state).rxn_queue),
                global_state.is_playing == old(global_state).is_playing,
                global_state.run_direction_forward == old(global_state).run_direction_forward,
                global_state.tick == old(global_state).tick,
                global_state.next_rxn_event <= old(global_state).next_rxn_event,
                global_state.next_rxn_event < old(global_state).next_rxn_event
                    ==> global_state.current_t == components.reaction_history@[
                global_state.next_rxn_event as int].t,
                global_state.next_rxn_event == old(global_state).next_rxn_event
                    ==> global_state.current_t == old(global_state).current_t,
            decreases global_state.next_rxn_event,
        {
            let prev_event = components.reaction_history[global_state.next_rxn_event - 1];
            proof {
                let k = global_state.next_rxn_event as int;
                let init = components.initial_states@;
                let rules = components.all_reactions@;
                crate::reactions::lemma_apply_round_trip(
                    replay_state(init, rules, components.reaction_history@, k - 1),
                    rules,
                    prev_event,
                );
            }
            apply_reaction(&prev_event, global_state, components, settings, false);
            global_state.next_rxn_event = global_state.next_rxn_event - 1;
            global_state.current_t = prev_event.t;
        }
    }
}

} // verus!
