//! Reaction rules and reaction events, and the mathematical semantics of
//! applying a committed event to a board state, forward or backward.
//!
//! Simulated time and rate constants are fixed-point values: `TIME_ONE`
//! stands for 1.0, so a `u64` time `t` denotes the real time `t / TIME_ONE`.

use vstd::prelude::*;

verus! {

/// The fixed-point unit: this value stands for 1.0 in times and rates.
pub const TIME_ONE: u64 = 0x1_0000_0000;

/// The reactant/product shape of a rule.  A bimolecular rule always has a
/// second reactant and a second product, so a mismatched arity is not
/// representable.
#[derive(Clone, Copy, Debug)]
pub enum ReactionPattern {
    Unimolecular { r1_num: usize, p1_num: usize },
    Bimolecular { r1_num: usize, r2_num: usize, p1_num: usize, p2_num: usize },
}

/// A reaction rule: a pattern and a non-negative rate constant
/// (fixed point, `TIME_ONE` = 1.0).  A rate of 0 means the rule never fires.
#[derive(Clone, Copy, Debug)]
pub struct Reaction {
    pub pattern: ReactionPattern,
    pub rate: u64,
}

/// A plaintext description of a rule, as the manifest loader hands it over.
#[derive(Clone, Debug)]
pub struct ReactionDescription {
    pub r1: String,
    pub r2: Option<String>,
    pub p1: String,
    pub p2: Option<String>,
    pub rate: u64,
}

/// A concrete, timed instance of a rule applying at specific cell locations.
/// `t` is the scheduled fire time; `t_issued` is the history time at which
/// this candidate was computed.
#[derive(Clone, Copy, Debug)]
pub struct ReactionEvent {
    pub r1_loc: usize,
    pub r2_loc: Option<usize>,
    pub rxn_idx: usize,
    pub t: u64,
    pub t_issued: u64,
}

/// The configuration faults that the load boundary can report.
#[derive(Clone, Copy, Debug, PartialEq, Eq, Structural)]
pub enum ConfigError {
    /// The initial board does not fill the configured lattice exactly.
    NonRectangularGrid,
    /// The initial board names a species that was never declared.
    UnknownSpecies,
    /// A rule has a second reactant without a second product, or vice versa.
    ArityMismatch,
}

impl ReactionDescription {
    /// All species names the description mentions, reactants first.
    pub fn all_states(&self) -> (states: Vec<&str>)
        ensures
            states@.len() == 2 + (if self.r2 is Some {
                1int
            } else {
                0
            }) + (if self.p2 is Some {
                1int
            } else {
                0
            }),
            states@[0]@ == self.r1@,
            states@[1]@ == self.p1@,
            self.r2 matches Some(r2) ==> states@[2]@ == r2@,
            self.p2 matches Some(p2) ==> states@[states@.len() - 1]@ == p2@,
    {
        let mut states: Vec<&str> = Vec::new();
        states.push(self.r1.as_str());
        states.push(self.p1.as_str());
        if let Some(r2) = &self.r2 {
            states.push(r2.as_str());
        }
        if let Some(p2) = &self.p2 {
            states.push(p2.as_str());
        }
        states
    }
}

/// A well-formed event names an existing rule, lies on the grid, and its
/// location arity matches the rule's arity.  The two cells of a bimolecular
/// event are distinct: a cell is never its own reaction partner.
pub open spec fn event_wf(e: ReactionEvent, n_cells: nat, rules: Seq<Reaction>) -> bool {
    &&& e.rxn_idx < rules.len()
    &&& e.r1_loc < n_cells
    &&& match e.r2_loc {
        Some(l2) => {
            &&& l2 < n_cells
            &&& l2 != e.r1_loc
            &&& rules[e.rxn_idx as int].pattern is Bimolecular
        },
        None => rules[e.rxn_idx as int].pattern is Unimolecular,
    }
}

/// The reactant cells of `e` currently hold the rule's reactant species, so
/// the event can be replayed forward on board `s`.
pub open spec fn applies_forward(s: Seq<usize>, rules: Seq<Reaction>, e: ReactionEvent) -> bool {
    &&& event_wf(e, s.len(), rules)
    &&& match rules[e.rxn_idx as int].pattern {
        ReactionPattern::Unimolecular { r1_num, .. } => s[e.r1_loc as int] == r1_num,
        ReactionPattern::Bimolecular { r1_num, r2_num, .. } => {
            &&& s[e.r1_loc as int] == r1_num
            &&& (e.r2_loc matches Some(l2) && s[l2 as int] == r2_num)
        },
    }
}

/// The reactant cells of `e` currently hold the rule's product species, so
/// the event can be replayed backward on board `s`.
pub open spec fn applies_backward(s: Seq<usize>, rules: Seq<Reaction>, e: ReactionEvent) -> bool {
    &&& event_wf(e, s.len(), rules)
    &&& match rules[e.rxn_idx as int].pattern {
        ReactionPattern::Unimolecular { p1_num, .. } => s[e.r1_loc as int] == p1_num,
        ReactionPattern::Bimolecular { p1_num, p2_num, .. } => {
            &&& s[e.r1_loc as int] == p1_num
            &&& (e.r2_loc matches Some(l2) && s[l2 as int] == p2_num)
        },
    }
}

/// The board after replaying `e` forward: the reactant cells now hold the
/// rule's product species.
pub open spec fn apply_forward_spec(s: Seq<usize>, rules: Seq<Reaction>, e: ReactionEvent) -> Seq<
    usize,
> {
    match rules[e.rxn_idx as int].pattern {
        ReactionPattern::Unimolecular { p1_num, .. } => s.update(e.r1_loc as int, p1_num),
        ReactionPattern::Bimolecular { p1_num, p2_num, .. } => match e.r2_loc {
            Some(l2) => s.update(e.r1_loc as int, p1_num).update(l2 as int, p2_num),
            None => s,
        },
    }
}

/// The board after replaying `e` backward: the reactant cells hold the
/// rule's reactant species again.
pub open spec fn apply_backward_spec(s: Seq<usize>, rules: Seq<Reaction>, e: ReactionEvent) -> Seq<
    usize,
> {
    match rules[e.rxn_idx as int].pattern {
        ReactionPattern::Unimolecular { r1_num, .. } => s.update(e.r1_loc as int, r1_num),
        ReactionPattern::Bimolecular { r1_num, r2_num, .. } => match e.r2_loc {
            Some(l2) => s.update(e.r1_loc as int, r1_num).update(l2 as int, r2_num),
            None => s,
        },
    }
}

/// Round trip: replaying an applicable event forward and then immediately
/// backward restores the exact pre-event board, for both rule shapes.
pub proof fn lemma_apply_round_trip(s: Seq<usize>, rules: Seq<Reaction>, e: ReactionEvent)
    requires
        applies_forward(s, rules, e),
    ensures
        applies_backward(apply_forward_spec(s, rules, e), rules, e),
        apply_backward_spec(apply_forward_spec(s, rules, e), rules, e) == s,
{
    assert(apply_backward_spec(apply_forward_spec(s, rules, e), rules, e) =~= s);
}

/// The mirror image: replaying backward and then forward restores the board.
pub proof fn lemma_apply_round_trip_rev(s: Seq<usize>, rules: Seq<Reaction>, e: ReactionEvent)
    requires
        applies_backward(s, rules, e),
    ensures
        applies_forward(apply_backward_spec(s, rules, e), rules, e),
        apply_forward_spec(apply_backward_spec(s, rules, e), rules, e) == s,
{
    assert(apply_forward_spec(apply_backward_spec(s, rules, e), rules, e) =~= s);
}

/// The board obtained by replaying the first `k` history entries, in order,
/// onto the initial board.
pub open spec fn replay_state(
    init: Seq<usize>,
    rules: Seq<Reaction>,
    hist: Seq<ReactionEvent>,
    k: int,
) -> Seq<usize>
    decreases k,
{
    if k <= 0 {
        init
    } else {
        apply_forward_spec(replay_state(init, rules, hist, k - 1), rules, hist[k - 1])
    }
}

/// Replaying `k` entries only looks at the first `k` entries, so a longer
/// history replays the same board over any shared prefix.
pub proof fn lemma_replay_prefix(
    init: Seq<usize>,
    rules: Seq<Reaction>,
    hist1: Seq<ReactionEvent>,
    hist2: Seq<ReactionEvent>,
    k: int,
)
    requires
        k <= hist1.len(),
        k <= hist2.len(),
        forall|i: int| 0 <= i < k ==> hist1[i] == hist2[i],
    ensures
        replay_state(init, rules, hist1, k) == replay_state(init, rules, hist2, k),
    decreases k,
{
    if k > 0 {
        lemma_replay_prefix(init, rules, hist1, hist2, k - 1);
    }
}

} // verus!
