//! The simulator's data model: the species/rule catalog and the grid
//! (`SimulatorComponents`), the playback and queue state (`SimulatorState`),
//! the loader-supplied `Settings`, and the well-formedness invariants the
//! engine maintains.

use vstd::prelude::*;
use crate::pqueue::{EventEntry, EventScore, queue_entries, queue_new};
use crate::reactions::{
    ConfigError, Reaction, ReactionDescription, ReactionEvent, ReactionPattern, applies_forward,
    event_wf, replay_state,
};

verus! {

broadcast use vstd::multiset::group_multiset_axioms;

/// An RGB color for a color class; only the excluded rendering layer
/// interprets it.
#[derive(Clone, Copy, Debug, PartialEq, Eq, Structural)]
pub struct ColorRgb {
    pub r: u8,
    pub g: u8,
    pub b: u8,
}

/// The lattice shape.  Only the square lattice is simulated; the variant is
/// carried for the rendering layer.
#[derive(Clone, Copy, Debug)]
pub enum SurfaceGeometry {
    Square,
    Hex,
}

/// A pixel size, used by the rendering layer.
#[derive(Clone, Copy, Debug, PartialEq, Eq, Structural)]
pub struct Size {
    pub width: u32,
    pub height: u32,
}

/// The on-screen transport controls, dispatched by the input layer.
#[derive(Clone, Copy, Debug)]
pub enum ButtonID {
    PlayPause,
    StepForward,
    StepBackward,
    PlaybarBackground,
}

/// Loader-supplied configuration.  Times and rates are fixed point
/// (`TIME_ONE` = 1.0): `fps` is the target frame rate, `speedup_factor`
/// scales simulated time per frame, `max_duration` bounds playback.
#[derive(Clone, Copy, Debug)]
pub struct Settings {
    pub n_rows: usize,
    pub n_cols: usize,
    pub cell_size: u32,
    pub margin: u32,
    pub fps: u64,
    pub speedup_factor: u64,
    pub wrap: bool,
    pub debug: bool,
    pub rng_seed: Option<i32>,
    pub max_duration: u64,
    pub display_text: bool,
    pub surface_geometry: SurfaceGeometry,
}

/// The species/rule catalog and the grid.  Species are dense integer ids:
/// `state_names[id]` is the display name, `state_colorclasses[id]` the color
/// class.  The grid holds two boards — `current_states` (displayed, follows
/// the playback cursor) and `latest_states` (the simulated frontier) — plus
/// the per-cell time of the last committed reaction, and the append-only
/// history of committed events.
pub struct SimulatorComponents {
    pub current_states: Vec<usize>,
    pub latest_states: Vec<usize>,
    pub state_timestamps: Vec<u64>,
    pub reaction_history: Vec<ReactionEvent>,
    pub all_reactions: Vec<Reaction>,
    pub state_names: Vec<String>,
    pub state_colorclasses: Vec<usize>,
    pub colorclass_names: Vec<String>,
    pub colorclass_colors: Vec<ColorRgb>,
    pub n_states_known: usize,
    pub n_colorclasses: usize,
    /// The board as it was first loaded; replaying the whole history onto it
    /// yields `latest_states`, replaying the first `cursor` entries yields
    /// `current_states`.
    pub initial_states: Ghost<Seq<usize>>,
}

/// Playback and scheduling state: the candidate queue with its insertion
/// counter, the displayed time, the playback cursor, and the transport
/// flags written by the input layer.
pub struct SimulatorState {
    pub rxn_queue: priq::PriorityQueue<EventScore, EventEntry>,
    pub next_seq: u64,
    pub current_t: u64,
    pub next_rxn_event: usize,
    pub is_playing: bool,
    pub run_direction_forward: bool,
    pub tick: bool,
}

/// The time of the last committed event, or 0 for an empty history.
pub open spec fn last_history_t(c: SimulatorComponents) -> u64 {
    if c.reaction_history@.len() == 0 {
        0u64
    } else {
        c.reaction_history@.last().t
    }
}

/// The event a queue entry stands for.
pub open spec fn entry_event(x: (EventScore, EventEntry)) -> ReactionEvent {
    ReactionEvent {
        rxn_idx: x.1.0,
        r1_loc: x.1.1,
        r2_loc: x.1.2,
        t: x.1.3,
        t_issued: x.1.4,
    }
}

/// The staleness test: a candidate is fresh iff no reaction has been
/// committed at any of its reactant cells since it was issued.
pub open spec fn candidate_fresh(e: ReactionEvent, c: SimulatorComponents) -> bool {
    &&& e.t_issued >= c.state_timestamps@[e.r1_loc as int]
    &&& (e.r2_loc matches Some(l2) ==> e.t_issued >= c.state_timestamps@[l2 as int])
}

/// What holds of every entry in the candidate queue: it is a well-formed
/// event whose score is its fire time, issued no later than the last commit
/// and scheduled strictly after its issue; and as long as it stays fresh,
/// its reactant cells still hold the rule's reactants in the frontier board.
pub open spec fn queue_entry_inv(x: (EventScore, EventEntry), c: SimulatorComponents) -> bool {
    let e = entry_event(x);
    &&& event_wf(e, c.latest_states@.len() as nat, c.all_reactions@)
    &&& x.0.0 == e.t
    &&& e.t_issued <= last_history_t(c)
    &&& e.t > e.t_issued
    &&& (candidate_fresh(e, c) ==> applies_forward(c.latest_states@, c.all_reactions@, e))
}

/// Every queued candidate satisfies `queue_entry_inv`.
pub open spec fn queue_inv(gs: SimulatorState, c: SimulatorComponents) -> bool {
    forall|x: (EventScore, EventEntry)|
        #[trigger] queue_entries(gs.rxn_queue).count(x) > 0 ==> queue_entry_inv(x, c)
}

/// The history invariant: every committed event is well-formed, fire times
/// increase strictly (and start after time 0), and each entry was applicable
/// to the board obtained by replaying the entries before it.
pub open spec fn history_wf(c: SimulatorComponents) -> bool {
    let hist = c.reaction_history@;
    let n = c.latest_states@.len() as nat;
    &&& forall|k: int| 0 <= k < hist.len() ==> event_wf(#[trigger] hist[k], n, c.all_reactions@)
    &&& forall|k: int| 0 < k < hist.len() ==> (#[trigger] hist[k].t) > hist[k - 1].t
    &&& hist.len() > 0 ==> hist[0].t > 0
    &&& forall|k: int|
        0 <= k < hist.len() ==> applies_forward(
            replay_state(c.initial_states@, c.all_reactions@, hist, k),
            c.all_reactions@,
            #[trigger] hist[k],
        )
}

/// The grid/history invariant of the components alone: all per-cell vectors
/// have the same length, the history is well-formed, the frontier board is
/// exactly the whole history replayed onto the initial board, and no cell's
/// timestamp lies after the last commit.
pub open spec fn engine_wf(c: SimulatorComponents) -> bool {
    let n = c.latest_states@.len();
    &&& c.current_states@.len() == n
    &&& c.state_timestamps@.len() == n
    &&& c.initial_states@.len() == n
    &&& history_wf(c)
    &&& c.latest_states@ == replay_state(
        c.initial_states@,
        c.all_reactions@,
        c.reaction_history@,
        c.reaction_history@.len() as int,
    )
    &&& forall|i: int|
        0 <= i < c.state_timestamps@.len()
            ==> (#[trigger] c.state_timestamps@[i]) <= last_history_t(c)
}

/// The full simulation invariant, tying playback state, components and
/// settings together: the grid matches the configured lattice, the queue
/// invariant holds, the cursor stays within the history, and the displayed
/// board is exactly the first `cursor` history entries replayed onto the
/// initial board.
pub open spec fn sim_wf(gs: SimulatorState, c: SimulatorComponents, s: Settings) -> bool {
    &&& engine_wf(c)
    &&& c.latest_states@.len() == s.n_rows * s.n_cols
    &&& s.fps >= 1
    &&& queue_inv(gs, c)
    &&& gs.next_rxn_event <= c.reaction_history@.len()
    &&& c.current_states@ == replay_state(
        c.initial_states@,
        c.all_reactions@,
        c.reaction_history@,
        gs.next_rxn_event as int,
    )
}

/// The history's fire times increase strictly across adjacent entries, for
/// any run length: the log is totally ordered in time.
pub proof fn lemma_history_strictly_increasing(c: SimulatorComponents)
    requires
        engine_wf(c),
    ensures
        forall|j: int, k: int|
            0 <= j < k < c.reaction_history@.len() ==> (#[trigger] c.reaction_history@[j].t) < (
            #[trigger] c.reaction_history@[k].t),
    decreases c.reaction_history@.len(),
{
    assert forall|j: int, k: int| 0 <= j < k < c.reaction_history@.len() implies (
    #[trigger] c.reaction_history@[j].t) < (#[trigger] c.reaction_history@[k].t) by {
        lemma_times_ordered(c.reaction_history@, j, k);
    }
}

/// Times at two positions of an adjacently increasing log compare as the
/// positions do.
proof fn lemma_times_ordered(hist: Seq<ReactionEvent>, j: int, k: int)
    requires
        forall|i: int| 0 < i < hist.len() ==> (#[trigger] hist[i].t) > hist[i - 1].t,
        0 <= j < k < hist.len(),
    ensures
        hist[j].t < hist[k].t,
    decreases k - j,
{
    if j + 1 < k {
        lemma_times_ordered(hist, j, k - 1);
    }
}

/// The species names as mathematical sequences of characters.
pub open spec fn names_view(names: Seq<String>) -> Seq<Seq<char>> {
    names.map_values(|s: String| s@)
}

/// `i` is the first index at which `name` occurs in `names`.
pub open spec fn is_first_index(names: Seq<Seq<char>>, name: Seq<char>, i: int) -> bool {
    &&& 0 <= i < names.len()
    &&& names[i] == name
    &&& forall|j: int| 0 <= j < i ==> names[j] != name
}

/// `name` occurs somewhere in `names`.
pub open spec fn has_species(names: Seq<Seq<char>>, name: Seq<char>) -> bool {
    exists|i: int| 0 <= i < names.len() && names[i] == name
}

impl SimulatorComponents {
    /// The catalog's internal consistency: the counters equal the table
    /// lengths and every species' color class exists.
    pub open spec fn catalog_wf(self) -> bool {
        &&& self.state_names@.len() == self.n_states_known
        &&& self.state_colorclasses@.len() == self.n_states_known
        &&& self.colorclass_names@.len() == self.n_colorclasses
        &&& self.colorclass_colors@.len() == self.n_colorclasses
        &&& forall|i: int|
            0 <= i < self.state_colorclasses@.len()
                ==> (#[trigger] self.state_colorclasses@[i]) < self.n_colorclasses
    }

    /// An empty catalog with an empty grid and history.
    pub fn new() -> (c: SimulatorComponents)
        ensures
            c.current_states@ =~= Seq::<usize>::empty(),
            c.latest_states@ =~= Seq::<usize>::empty(),
            c.state_timestamps@ =~= Seq::<u64>::empty(),
            c.reaction_history@ =~= Seq::<ReactionEvent>::empty(),
            c.all_reactions@ =~= Seq::<Reaction>::empty(),
            c.state_names@ =~= Seq::<String>::empty(),
            c.state_colorclasses@ =~= Seq::<usize>::empty(),
            c.colorclass_names@ =~= Seq::<String>::empty(),
            c.colorclass_colors@ =~= Seq::<ColorRgb>::empty(),
            c.n_states_known == 0,
            c.n_colorclasses == 0,
            c.initial_states@ =~= Seq::<usize>::empty(),
            c.catalog_wf(),
            engine_wf(c),
    {
        let c = SimulatorComponents {
            current_states: Vec::new(),
            latest_states: Vec::new(),
            state_timestamps: Vec::new(),
            reaction_history: Vec::new(),
            all_reactions: Vec::new(),
            state_names: Vec::new(),
            state_colorclasses: Vec::new(),
            colorclass_names: Vec::new(),
            colorclass_colors: Vec::new(),
            n_states_known: 0,
            n_colorclasses: 0,
            initial_states: Ghost(Seq::empty()),
        };
        c
    }

    /// A color drawn from the random generator; the value is arbitrary.
    pub fn new_random_color(&mut self) -> (color: ColorRgb)
        ensures
            *final(self) == *old(self),
    {
        let bits = crate::sampling::random_bits();
        ColorRgb {
            r: (bits % 256) as u8,
            g: ((bits / 256) % 256) as u8,
            b: ((bits / 65536) % 256) as u8,
        }
    }

    /// Register a species under `name`.  With `Some(class)` it joins that
    /// color class; with `None` a fresh color class named after it, with a
    /// random color, is created.  Returns the new species id.
    pub fn add_state(&mut self, name: &str, colorclass_id: Option<usize>) -> (id: usize)
        requires
            old(self).catalog_wf(),
            old(self).n_states_known < usize::MAX,
            colorclass_id matches Some(cls) ==> cls < old(self).n_colorclasses,
            colorclass_id is None ==> old(self).n_colorclasses < usize::MAX,
        ensures
            final(self).catalog_wf(),
            id == old(self).n_states_known,
            final(self).n_states_known == old(self).n_states_known + 1,
            names_view(final(self).state_names@) == names_view(old(self).state_names@).push(
                name@,
            ),
            final(self).state_colorclasses@ == old(self).state_colorclasses@.push(
                match colorclass_id {
                    Some(cls) => cls,
                    None => old(self).n_colorclasses,
                },
            ),
            final(self).n_colorclasses == old(self).n_colorclasses + (if colorclass_id is None {
                1int
            } else {
                0
            }),
            colorclass_id is None ==> names_view(final(self).colorclass_names@) == names_view(
                old(self).colorclass_names@,
            ).push(name@),
            colorclass_id is Some ==> final(self).colorclass_names@ == old(
                self,
            ).colorclass_names@ && final(self).colorclass_colors@ == old(self).colorclass_colors@,
            final(self).current_states@ == old(self).current_states@,
            final(self).latest_states@ == old(self).latest_states@,
            final(self).state_timestamps@ == old(self).state_timestamps@,
            final(self).reaction_history@ == old(self).reaction_history@,
            final(self).all_reactions@ == old(self).all_reactions@,
            final(self).initial_states@ == old(self).initial_states@,
    {
        let color_id: usize = match colorclass_id {
            Some(c) => c,
            None => {
                self.colorclass_names.push(name.to_owned());
                let new_color = self.new_random_color();
                self.colorclass_colors.push(new_color);
                self.n_colorclasses = self.n_colorclasses + 1;
                self.n_colorclasses - 1
            },
        };
        self.state_names.push(name.to_owned());
        self.state_colorclasses.push(color_id);
        self.n_states_known = self.n_states_known + 1;
        proof {
            assert(names_view(self.state_names@) =~= names_view(old(self).state_names@).push(
                name@,
            ));
            if colorclass_id is None {
                assert(names_view(self.colorclass_names@) =~= names_view(
                    old(self).colorclass_names@,
                ).push(name@));
            }
        }
        self.n_states_known - 1
    }

    /// Register a color class holding the given species, all of which are
    /// created as fresh species assigned to it.  Returns the class id.
    pub fn add_color_class(&mut self, name: &str, color: &ColorRgb, states: &Vec<String>) -> (id:
        usize)
        requires
            old(self).catalog_wf(),
            old(self).n_colorclasses < usize::MAX,
            old(self).n_states_known + states@.len() < usize::MAX,
        ensures
            final(self).catalog_wf(),
            id == old(self).n_colorclasses,
            final(self).n_colorclasses == old(self).n_colorclasses + 1,
            names_view(final(self).colorclass_names@) == names_view(
                old(self).colorclass_names@,
            ).push(name@),
            final(self).colorclass_colors@ == old(self).colorclass_colors@.push(*color),
            final(self).n_states_known == old(self).n_states_known + states@.len(),
            names_view(final(self).state_names@) == names_view(old(self).state_names@)
                + names_view(states@),
            forall|i: int|
                0 <= i < old(self).state_colorclasses@.len()
                    ==> (#[trigger] final(self).state_colorclasses@[i])
                    == old(self).state_colorclasses@[i],
            forall|i: int|
                old(self).state_colorclasses@.len() <= i < final(self).state_colorclasses@.len()
                    ==> (#[trigger] final(self).state_colorclasses@[i])
                    == old(self).n_colorclasses,
            final(self).current_states@ == old(self).current_states@,
            final(self).latest_states@ == old(self).latest_states@,
            final(self).state_timestamps@ == old(self).state_timestamps@,
            final(self).reaction_history@ == old(self).reaction_history@,
            final(self).all_reactions@ == old(self).all_reactions@,
            final(self).initial_states@ == old(self).initial_states@,
    {
        self.colorclass_colors.push(*color);
        self.colorclass_names.push(name.to_owned());
        self.n_colorclasses = self.n_colorclasses + 1;
        let class_id: usize = self.n_colorclasses - 1;
        let ghost mid = *self;
        let n: usize = states.len();
        let mut k: usize = 0;
        while k < n
            invariant
                n == states@.len(),
                k <= n,
                self.catalog_wf(),
                mid.catalog_wf(),
                self.n_colorclasses == mid.n_colorclasses,
                class_id + 1 == self.n_colorclasses,
                mid.n_states_known + states@.len() < usize::MAX,
                self.n_states_known == mid.n_states_known + k,
                names_view(self.state_names@) =~= names_view(mid.state_names@) + names_view(
                    states@.take(k as int),
                ),
                self.colorclass_names@ == mid.colorclass_names@,
                self.colorclass_colors@ == mid.colorclass_colors@,
                forall|i: int|
                    0 <= i < mid.state_colorclasses@.len() ==> (#[trigger] self
                        .state_colorclasses@[i]) == mid.state_colorclasses@[i],
                forall|i: int|
                    mid.state_colorclasses@.len() <= i < self.state_colorclasses@.len() ==> (
                    #[trigger] self.state_colorclasses@[i]) == class_id,
                self.current_states@ == mid.current_states@,
                self.latest_states@ == mid.latest_states@,
                self.state_timestamps@ == mid.state_timestamps@,
                self.reaction_history@ == mid.reaction_history@,
                self.all_reactions@ == mid.all_reactions@,
                self.initial_states@ == mid.initial_states@,
            decreases n - k,
        {
            let ghost prior = *self;
            self.add_state(states[k].as_str(), Some(class_id));
            k = k + 1;
            proof {
                assert(names_view(self.state_names@) =~= names_view(mid.state_names@)
                    + names_view(states@.take(k as int)));
                assert(self.state_colorclasses@ == prior.state_colorclasses@.push(class_id));
                assert forall|i: int| 0 <= i < mid.state_colorclasses@.len() implies (
                #[trigger] self.state_colorclasses@[i]) == mid.state_colorclasses@[i] by {
                    assert(prior.state_colorclasses@.push(class_id)[i]
                        == prior.state_colorclasses@[i]);
                }
                assert forall|i: int|
                    mid.state_colorclasses@.len() <= i
                        < self.state_colorclasses@.len() implies (#[trigger] self
                    .state_colorclasses@[i]) == class_id by {
                    if i < prior.state_colorclasses@.len() {
                        assert(prior.state_colorclasses@.push(class_id)[i]
                            == prior.state_colorclasses@[i]);
                    } else {
                        assert(prior.state_colorclasses@.push(class_id)[i] == class_id);
                    }
                }
            }
        }
        proof {
            assert(states@.take(n as int) =~= states@);
            assert(names_view(self.state_names@) =~= names_view(old(self).state_names@)
                + names_view(states@));
            assert(names_view(self.colorclass_names@) =~= names_view(
                old(self).colorclass_names@,
            ).push(name@));
            assert(self.colorclass_colors@ =~= old(self).colorclass_colors@.push(*color));
        }
        class_id
    }

    /// The id of the species called `name`, creating it (with a fresh color
    /// class) if the catalog does not know it yet.
    fn ensure_state(&mut self, name: &str) -> (id: usize)
        requires
            old(self).catalog_wf(),
            old(self).n_states_known < usize::MAX,
            old(self).n_colorclasses < usize::MAX,
        ensures
            final(self).catalog_wf(),
            is_first_index(names_view(final(self).state_names@), name@, id as int),
            id < final(self).n_states_known,
            old(self).n_states_known <= final(self).n_states_known <= old(self).n_states_known
                + 1,
            old(self).n_colorclasses <= final(self).n_colorclasses <= old(self).n_colorclasses
                + 1,
            names_view(final(self).state_names@).take(old(self).state_names@.len() as int)
                == names_view(old(self).state_names@),
            forall|nm: Seq<char>, i: int|
                #[trigger] is_first_index(names_view(old(self).state_names@), nm, i)
                    ==> is_first_index(names_view(final(self).state_names@), nm, i),
            final(self).current_states@ == old(self).current_states@,
            final(self).latest_states@ == old(self).latest_states@,
            final(self).state_timestamps@ == old(self).state_timestamps@,
            final(self).reaction_history@ == old(self).reaction_history@,
            final(self).all_reactions@ == old(self).all_reactions@,
            final(self).initial_states@ == old(self).initial_states@,
    {
        let found = self.state_id_of(name);
        match found {
            Some(i) => i,
            None => {
                let id: usize = self.add_state(name, None);
                proof {
                    let names = names_view(self.state_names@);
                    assert(names[id as int] == name@);
                    assert forall|j: int| 0 <= j < id implies names[j] != name@ by {
                        assert(names[j] == names_view(old(self).state_names@)[j]);
                    }
                }
                id
            },
        }
    }

    /// Resolve a described rule against the catalog — creating any species
    /// it names that are still unknown — and append it to the rule table.
    /// A description whose reactant and product arities differ is refused.
    pub fn add_transition_rule(&mut self, rule_description: &ReactionDescription) -> (r: Result<
        (),
        ConfigError,
    >)
        requires
            old(self).catalog_wf(),
            old(self).n_states_known + 4 < usize::MAX,
            old(self).n_colorclasses + 4 < usize::MAX,
        ensures
            final(self).catalog_wf(),
            r is Err <==> (rule_description.r2 is Some) != (rule_description.p2 is Some),
            r matches Err(e) ==> e == ConfigError::ArityMismatch && *final(self) == *old(self),
            r is Ok ==> {
                let rules = final(self).all_reactions@;
                let names = names_view(final(self).state_names@);
                let rule = rules.last();
                &&& rules.len() == old(self).all_reactions@.len() + 1
                &&& rules.take(old(self).all_reactions@.len() as int) == old(
                    self,
                ).all_reactions@
                &&& rule.rate == rule_description.rate
                &&& match rule.pattern {
                    ReactionPattern::Unimolecular { r1_num, p1_num } => {
                        &&& rule_description.r2 is None
                        &&& is_first_index(names, rule_description.r1@, r1_num as int)
                        &&& is_first_index(names, rule_description.p1@, p1_num as int)
                    },
                    ReactionPattern::Bimolecular { r1_num, r2_num, p1_num, p2_num } => {
                        &&& rule_description.r2 is Some
                        &&& is_first_index(names, rule_description.r1@, r1_num as int)
                        &&& is_first_index(names, rule_description.p1@, p1_num as int)
                        &&& is_first_index(
                            names,
                            rule_description.r2->Some_0@,
                            r2_num as int,
                        )
                        &&& is_first_index(
                            names,
                            rule_description.p2->Some_0@,
                            p2_num as int,
                        )
                    },
                }
            },
            final(self).current_states@ == old(self).current_states@,
            final(self).latest_states@ == old(self).latest_states@,
            final(self).state_timestamps@ == old(self).state_timestamps@,
            final(self).reaction_history@ == old(self).reaction_history@,
            final(self).initial_states@ == old(self).initial_states@,
            r is Ok ==> final(self).all_reactions@.len() == old(self).all_reactions@.len() + 1,
    {
        let bimolecular = rule_description.r2.is_some();
        if bimolecular != rule_description.p2.is_some() {
            return Err(ConfigError::ArityMismatch);
        }
        let r1_num: usize = self.ensure_state(rule_description.r1.as_str());
        let p1_num: usize = self.ensure_state(rule_description.p1.as_str());
        let pattern: ReactionPattern = if bimolecular {
            let r2_num: usize = match &rule_description.r2 {
                Some(name) => self.ensure_state(name.as_str()),
                None => unreached(),
            };
            let p2_num: usize = match &rule_description.p2 {
                Some(name) => self.ensure_state(name.as_str()),
                None => unreached(),
            };
            ReactionPattern::Bimolecular { r1_num, r2_num, p1_num, p2_num }
        } else {
            ReactionPattern::Unimolecular { r1_num, p1_num }
        };
        let new_rule = Reaction { pattern, rate: rule_description.rate };
        self.all_reactions.push(new_rule);
        proof {
            assert(self.all_reactions@.take(old(self).all_reactions@.len() as int) =~= old(
                self,
            ).all_reactions@);
        }
        Ok(())
    }

    /// Load the initial board, which becomes both the displayed and the
    /// frontier state.  The board must fill the configured lattice exactly
    /// and name only known species; a fault leaves the components untouched.
    pub fn set_board_state(&mut self, board_state: &Vec<String>, settings: &Settings) -> (r:
        Result<(), ConfigError>)
        requires
            old(self).current_states@.len() == 0,
            old(self).latest_states@.len() == 0,
            old(self).state_timestamps@.len() == 0,
            old(self).reaction_history@.len() == 0,
        ensures
            r matches Err(e) ==> *final(self) == *old(self) && (e
                == ConfigError::NonRectangularGrid || e == ConfigError::UnknownSpecies),
            r matches Err(e) ==> (e == ConfigError::NonRectangularGrid <==> board_state@.len()
                != settings.n_rows * settings.n_cols),
            r is Ok <==> board_state@.len() == settings.n_rows * settings.n_cols && (forall|
                i: int,
            |
                0 <= i < board_state@.len() ==> has_species(
                    names_view(old(self).state_names@),
                    #[trigger] board_state@[i]@,
                )),
            r is Ok ==> {
                let names = names_view(final(self).state_names@);
                &&& final(self).current_states@.len() == board_state@.len()
                &&& final(self).latest_states@ == final(self).current_states@
                &&& final(self).initial_states@ == final(self).current_states@
                &&& final(self).state_timestamps@.len() == board_state@.len()
                &&& forall|i: int|
                    0 <= i < board_state@.len()
                        ==> (#[trigger] final(self).state_timestamps@[i]) == 0
                &&& forall|i: int|
                    0 <= i < board_state@.len() ==> is_first_index(
                        names,
                        board_state@[i]@,
                        #[trigger] final(self).current_states@[i] as int,
                    )
                &&& engine_wf(*final(self))
            },
            final(self).state_names@ == old(self).state_names@,
            final(self).state_colorclasses@ == old(self).state_colorclasses@,
            final(self).colorclass_names@ == old(self).colorclass_names@,
            final(self).colorclass_colors@ == old(self).colorclass_colors@,
            final(self).all_reactions@ == old(self).all_reactions@,
            final(self).reaction_history@ == old(self).reaction_history@,
            final(self).n_states_known == old(self).n_states_known,
            final(self).n_colorclasses == old(self).n_colorclasses,
    {
        let n: usize = board_state.len();
        let expected: usize = match settings.n_rows.checked_mul(settings.n_cols) {
            Some(cells) => cells,
            None => {
                return Err(ConfigError::NonRectangularGrid);
            },
        };
        if n != expected {
            return Err(ConfigError::NonRectangularGrid);
        }
        let mut ids: Vec<usize> = Vec::new();
        let mut k: usize = 0;
        while k < n
            invariant
                n == board_state@.len(),
                n == settings.n_rows * settings.n_cols,
                k <= n,
                ids@.len() == k,
                forall|i: int|
                    0 <= i < k ==> is_first_index(
                        names_view(self.state_names@),
                        board_state@[i]@,
                        #[trigger] ids@[i] as int,
                    ),
                *self == *old(self),
            decreases n - k,
        {
            match self.state_id_of(board_state[k].as_str()) {
                Some(id) => {
                    ids.push(id);
                },
                None => {
                    proof {
                        assert(!has_species(
                            names_view(old(self).state_names@),
                            board_state@[k as int]@,
                        ));
                    }
                    return Err(ConfigError::UnknownSpecies);
                },
            }
            k = k + 1;
        }
        let mut i: usize = 0;
        while i < n
            invariant
                n == board_state@.len(),
                i <= n,
                ids@.len() == n,
                self.current_states@ == ids@.take(i as int),
                self.latest_states@ == ids@.take(i as int),
                self.state_timestamps@.len() == i,
                forall|j: int| 0 <= j < i ==> (#[trigger] self.state_timestamps@[j]) == 0,
                self.reaction_history@ == old(self).reaction_history@,
                self.reaction_history@.len() == 0,
                self.all_reactions@ == old(self).all_reactions@,
                self.state_names@ == old(self).state_names@,
                self.state_colorclasses@ == old(self).state_colorclasses@,
                self.colorclass_names@ == old(self).colorclass_names@,
                self.colorclass_colors@ == old(self).colorclass_colors@,
                self.n_states_known == old(self).n_states_known,
                self.n_colorclasses == old(self).n_colorclasses,
            decreases n - i,
        {
            self.state_timestamps.push(0);
            self.current_states.push(ids[i]);
            self.latest_states.push(ids[i]);
            i = i + 1;
            proof {
                assert(self.current_states@ =~= ids@.take(i as int));
                assert(self.latest_states@ =~= ids@.take(i as int));
            }
        }
        self.initial_states = Ghost(self.current_states@);
        proof {
            assert(ids@.take(n as int) =~= ids@);
            assert forall|i: int| 0 <= i < board_state@.len() implies has_species(
                names_view(old(self).state_names@),
                #[trigger] board_state@[i]@,
            ) by {
                assert(is_first_index(
                    names_view(self.state_names@),
                    board_state@[i]@,
                    ids@[i] as int,
                ));
            }
        }
        Ok(())
    }

    /// The id of the species called `name`: the first index in the name
    /// table holding it, if any.
    pub fn state_id_of(&self, name: &str) -> (r: Option<usize>)
        ensures
            r matches Some(i) ==> is_first_index(names_view(self.state_names@), name@, i as int),
            r is None <==> !has_species(names_view(self.state_names@), name@),
    {
        let owned: String = name.to_owned();
        let n: usize = self.state_names.len();
        let mut i: usize = 0;
        while i < n
            invariant
                n == self.state_names@.len(),
                i <= n,
                owned@ == name@,
                forall|j: int|
                    0 <= j < i ==> names_view(self.state_names@)[j] != name@,
            decreases n - i,
        {
            if self.state_names[i] == owned {
                proof {
                    assert(names_view(self.state_names@)[i as int] == name@);
                }
                return Some(i);
            }
            i = i + 1;
        }
        None
    }
}

impl SimulatorState {
    /// Fresh playback state: an empty candidate queue, the cursor and the
    /// clock at 0, paused, facing forward.
    pub fn new() -> (gs: SimulatorState)
        ensures
            queue_entries(gs.rxn_queue).len() == 0,
            forall|x: (EventScore, EventEntry)|
                #[trigger] queue_entries(gs.rxn_queue).count(x) == 0,
            gs.next_seq == 0,
            gs.current_t == 0,
            gs.next_rxn_event == 0,
            !gs.is_playing,
            gs.run_direction_forward,
            !gs.tick,
    {
        SimulatorState {
            rxn_queue: queue_new(),
            next_seq: 0,
            current_t: 0,
            next_rxn_event: 0,
            is_playing: false,
            run_direction_forward: true,
            tick: false,
        }
    }
}

} // verus!
