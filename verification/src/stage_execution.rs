//! Run-scoped stage execution identity.
//!
//! A *stage execution* is one top-level handler invocation of a node that became
//! observable within a run. Its 1-based ordinal is the numeric component of the
//! external [`StageId`] (`node_id@N`). The ordinal is distinct from the *graph visit*
//! (how many times workflow control entered the node) and from the *handler attempt*
//! (automatic retries inside one execution).
//!
//! The tracker is not checkpointed: its durable source of truth is the append-only
//! history of stage events. On resume it is seeded from the stages of the run, so a
//! node that is executed again allocates the next unused ordinal.

use vstd::prelude::*;

use crate::text_map::TextMap;

verus! {

/// The external identity of a stage execution.
#[derive(Debug, PartialEq, Eq)]
pub struct StageId {
    pub node_id: String,
    pub visit: u32,
}

impl StageId {
    /// The execution `visit` of a node.
    pub fn new(node_id: &str, visit: u32) -> (r: Self)
        ensures
            r.node_id@ == node_id@,
            r.visit == visit,
    {
        StageId { node_id: node_id.to_owned(), visit }
    }
}

impl Clone for StageId {
    fn clone(&self) -> (r: Self)
        ensures
            r == *self,
    {
        StageId { node_id: self.node_id.clone(), visit: self.visit }
    }
}

fn clone_link(link: &Option<StageId>) -> (r: Option<StageId>)
    ensures
        r == *link,
{
    match link {
        Some(id) => Some(id.clone()),
        None => None,
    }
}

/// One reserved stage execution.
#[derive(Debug, PartialEq, Eq)]
pub struct StageExecution {
    /// 1-based execution ordinal; becomes the `@N` in the external [`StageId`].
    pub ordinal: u32,
    /// Graph visit that produced this execution.
    pub graph_visit: u32,
    /// Prior execution this one resumes from, when the node had an observable
    /// execution after the checkpoint before the run was interrupted.
    pub resumed_from: Option<StageId>,
}

impl Clone for StageExecution {
    fn clone(&self) -> (r: Self)
        ensures
            r == *self,
    {
        StageExecution {
            ordinal: self.ordinal,
            graph_visit: self.graph_visit,
            resumed_from: clone_link(&self.resumed_from),
        }
    }
}

/// A stage of a run, and the number of the event that made it observable.
#[derive(Debug, PartialEq, Eq)]
pub struct StageRecord {
    pub id: StageId,
    pub first_event_seq: u32,
}

/// The highest ordinal of a node, zero where it has none.
pub open spec fn highest(marks: Map<Seq<char>, u32>, node: Seq<char>) -> u32 {
    if marks.dom().contains(node) {
        marks[node]
    } else {
        0
    }
}

/// The highest ordinal of each node that has stages.
pub open spec fn marks_of(stages: Seq<StageRecord>) -> Map<Seq<char>, u32>
    decreases stages.len(),
{
    if stages.len() == 0 {
        Map::empty()
    } else {
        let before = marks_of(stages.drop_last());
        let id = stages.last().id;
        before.insert(
            id.node_id@,
            if highest(before, id.node_id@) < id.visit {
                id.visit
            } else {
                highest(before, id.node_id@)
            },
        )
    }
}

/// The latest stage of each node that became observable after the event
/// `checkpoint_seq`.
pub open spec fn links_of(stages: Seq<StageRecord>, checkpoint_seq: u32) -> Map<Seq<char>, StageId>
    decreases stages.len(),
{
    if stages.len() == 0 {
        Map::empty()
    } else {
        let before = links_of(stages.drop_last(), checkpoint_seq);
        let stage = stages.last();
        if stage.first_event_seq > checkpoint_seq {
            before.insert(stage.id.node_id@, stage.id)
        } else {
            before
        }
    }
}

/// Seed data for the [`StageExecutionTracker`]. A fresh run uses the default (empty)
/// seed.
#[derive(Debug, PartialEq, Eq)]
pub struct StageExecutionSeed {
    /// Highest execution ordinal already observable per node.
    pub high_water: TextMap<u32>,
    /// Latest execution after the checkpoint per node; the next reservation for that
    /// node links back to it.
    pub resumed_from: TextMap<StageId>,
}

impl Default for StageExecutionSeed {
    fn default() -> (r: Self)
        ensures
            r.high_water@ == Map::<Seq<char>, u32>::empty(),
            r.resumed_from@ == Map::<Seq<char>, StageId>::empty(),
    {
        StageExecutionSeed { high_water: TextMap::new(), resumed_from: TextMap::new() }
    }
}

impl StageExecutionSeed {
    /// Builds the seed from the stages of a run, given in the order in which they
    /// became observable.
    ///
    /// `checkpoint_seq` is the event sequence number of the selected checkpoint. Only
    /// stages that first became observable *after* it are linked to: an older execution
    /// of the node completed before the checkpoint.
    pub fn from_projection(stages: &Vec<StageRecord>, checkpoint_seq: u32) -> (r: Self)
        ensures
            r.high_water@ == marks_of(stages@),
            r.resumed_from@ == links_of(stages@, checkpoint_seq),
    {
        let mut high_water: TextMap<u32> = TextMap::new();
        let mut resumed_from: TextMap<StageId> = TextMap::new();
        let mut i: usize = 0;
        proof {
            assert(stages@.take(0).len() == 0);
        }
        while i < stages.len()
            invariant
                i <= stages@.len(),
                high_water@ == marks_of(stages@.take(i as int)),
                resumed_from@ == links_of(stages@.take(i as int), checkpoint_seq),
            decreases stages@.len() - i,
        {
            let stage = &stages[i];
            proof {
                assert(stages@.take(i + 1).drop_last() =~= stages@.take(i as int));
                assert(stages@.take(i + 1).last() == stages@[i as int]);
            }
            let known: u32 = match high_water.get(stage.id.node_id.as_str()) {
                Some(mark) => *mark,
                None => 0,
            };
            let mark: u32 = if known < stage.id.visit {
                stage.id.visit
            } else {
                known
            };
            high_water.insert(stage.id.node_id.clone(), mark);
            if stage.first_event_seq > checkpoint_seq {
                resumed_from.insert(stage.id.node_id.clone(), stage.id.clone());
            }
            i += 1;
        }
        proof {
            assert(stages@.take(stages@.len() as int) =~= stages@);
        }
        StageExecutionSeed { high_water, resumed_from }
    }
}

/// Run-scoped allocator for stage execution ordinals.
#[derive(Debug, PartialEq, Eq)]
pub struct StageExecutionTracker {
    high_water: TextMap<u32>,
    resumed_from: TextMap<StageId>,
    active: TextMap<StageExecution>,
}

/// The state of a tracker as a value.
#[verifier::ext_equal]
pub struct TrackerState {
    /// Highest ordinal observed or reserved per node.
    pub high_water: Map<Seq<char>, u32>,
    /// Links that the first reservation per node consumes.
    pub resumed_from: Map<Seq<char>, StageId>,
    /// Active execution per node.
    pub active: Map<Seq<char>, StageExecution>,
}

impl View for StageExecutionTracker {
    type V = TrackerState;

    closed spec fn view(&self) -> TrackerState {
        TrackerState {
            high_water: self.high_water@,
            resumed_from: self.resumed_from@,
            active: self.active@,
        }
    }
}

/// The execution that the next reservation for a node gives: the next ordinal, as long
/// as there is one.
pub open spec fn next_execution(
    state: TrackerState,
    node: Seq<char>,
    graph_visit: u32,
) -> StageExecution {
    StageExecution {
        ordinal: if highest(state.high_water, node) < u32::MAX {
            (highest(state.high_water, node) + 1) as u32
        } else {
            u32::MAX
        },
        graph_visit,
        resumed_from: if state.resumed_from.dom().contains(node) {
            Some(state.resumed_from[node])
        } else {
            None
        },
    }
}

/// The state after the reservation.
pub open spec fn reserved(
    state: TrackerState,
    node: Seq<char>,
    graph_visit: u32,
) -> TrackerState {
    let execution = next_execution(state, node, graph_visit);
    TrackerState {
        high_water: state.high_water.insert(node, execution.ordinal),
        resumed_from: state.resumed_from.remove(node),
        active: state.active.insert(node, execution),
    }
}

/// The state once control has come to the node anew.
pub open spec fn begun(state: TrackerState, node: Seq<char>) -> TrackerState {
    TrackerState { active: state.active.remove(node), ..state }
}

/// The active execution of a node.
pub open spec fn active_execution(state: TrackerState, node: Seq<char>) -> Option<StageExecution> {
    if state.active.dom().contains(node) {
        Some(state.active[node])
    } else {
        None
    }
}

impl Default for StageExecutionTracker {
    fn default() -> (r: Self)
        ensures
            r@ == (TrackerState {
                high_water: Map::empty(),
                resumed_from: Map::empty(),
                active: Map::empty(),
            }),
    {
        StageExecutionTracker::seeded(StageExecutionSeed::default())
    }
}

impl StageExecutionTracker {
    /// A tracker that goes on from a seed.
    pub fn seeded(seed: StageExecutionSeed) -> (r: Self)
        ensures
            r@ == (TrackerState {
                high_water: seed.high_water@,
                resumed_from: seed.resumed_from@,
                active: Map::empty(),
            }),
    {
        StageExecutionTracker {
            high_water: seed.high_water,
            resumed_from: seed.resumed_from,
            active: TextMap::new(),
        }
    }

    /// Clears the node's prior execution at the node boundary. No reservation is made
    /// here, so that nothing that ends the run before a stage event leaves a phantom
    /// execution.
    pub fn begin_node(&mut self, node_id: &str)
        ensures
            final(self)@ == begun(old(self)@, node_id@),
    {
        self.active.remove(node_id);
    }

    /// The node's active execution, if one has been reserved since the last node
    /// boundary.
    pub fn active(&self, node_id: &str) -> (r: Option<StageExecution>)
        ensures
            r == active_execution(self@, node_id@),
    {
        match self.active.get(node_id) {
            Some(execution) => Some(execution.clone()),
            None => None,
        }
    }

    /// Allocates the next execution ordinal for the node and makes it the active
    /// execution. Consumes the node's pending link, if any.
    pub fn reserve(&mut self, node_id: &str, graph_visit: u32) -> (r: StageExecution)
        ensures
            r == next_execution(old(self)@, node_id@, graph_visit),
            final(self)@ == reserved(old(self)@, node_id@, graph_visit),
    {
        let known: u32 = match self.high_water.get(node_id) {
            Some(mark) => *mark,
            None => 0,
        };
        let ordinal: u32 = if known < u32::MAX {
            known + 1
        } else {
            known
        };
        self.high_water.insert(node_id.to_owned(), ordinal);
        let resumed_from = self.resumed_from.remove(node_id);
        let execution = StageExecution { ordinal, graph_visit, resumed_from };
        self.active.insert(node_id.to_owned(), execution.clone());
        execution
    }

    /// The active execution of the node, reserving one only when none exists. Later
    /// attempts within one execution reuse the first attempt's reservation.
    pub fn ensure(&mut self, node_id: &str, graph_visit: u32) -> (r: StageExecution)
        ensures
            match active_execution(old(self)@, node_id@) {
                Some(execution) => r == execution && final(self)@ == old(self)@,
                None => r == next_execution(old(self)@, node_id@, graph_visit) && final(self)@
                    == reserved(old(self)@, node_id@, graph_visit),
            },
    {
        if let Some(execution) = self.active(node_id) {
            return execution;
        }
        self.reserve(node_id, graph_visit)
    }
}

/// `later` follows from `state` by a step of the tracker: a node boundary or a
/// reservation.
pub open spec fn steps_to(state: TrackerState, later: TrackerState) -> bool {
    ||| exists|node: Seq<char>| later == #[trigger] begun(state, node)
    ||| exists|node: Seq<char>, visit: u32| later == #[trigger] reserved(state, node, visit)
}

/// The highest ordinal of a node never goes down, whatever the tracker does.
pub proof fn ordinals_never_go_down(state: TrackerState, later: TrackerState, node: Seq<char>)
    requires
        steps_to(state, later),
    ensures
        highest(state.high_water, node) <= highest(later.high_water, node),
{
}

/// The tracker goes from the state at `i` to the next one by a step.
pub open spec fn step_at(states: Seq<TrackerState>, i: int) -> bool {
    steps_to(states[i], states[i + 1])
}

/// The states follow one another, step by step.
pub open spec fn is_history(states: Seq<TrackerState>) -> bool {
    forall|i: int| 0 <= i < states.len() - 1 ==> #[trigger] step_at(states, i)
}

proof fn lemma_history(states: Seq<TrackerState>, i: int, j: int, node: Seq<char>)
    requires
        is_history(states),
        0 <= i <= j < states.len(),
    ensures
        highest(states[i].high_water, node) <= highest(states[j].high_water, node),
    decreases j - i,
{
    if i < j {
        assert(step_at(states, i));
        ordinals_never_go_down(states[i], states[i + 1], node);
        lemma_history(states, i + 1, j, node);
    }
}

/// No two executions of a node have the same ordinal, as long as there are ordinals
/// left: whatever the tracker does between two reservations, the later one has the
/// greater.
pub proof fn later_reservations_have_greater_ordinals(
    states: Seq<TrackerState>,
    i: int,
    j: int,
    node: Seq<char>,
    visit: u32,
    later_visit: u32,
)
    requires
        is_history(states),
        0 <= i < j < states.len(),
        states[i + 1] == reserved(states[i], node, visit),
        highest(states[j].high_water, node) < u32::MAX,
    ensures
        next_execution(states[i], node, visit).ordinal < next_execution(
            states[j],
            node,
            later_visit,
        ).ordinal,
{
    lemma_history(states, i + 1, j, node);
}

/// Asking for the execution of a node again, without a node boundary between, gives the
/// same execution and changes nothing.
pub proof fn attempts_share_their_execution(
    state: TrackerState,
    node: Seq<char>,
    visit: u32,
)
    ensures
        active_execution(reserved(state, node, visit), node) == Some(
            next_execution(state, node, visit),
        ),
{
}

/// A node boundary clears the execution of that node only.
pub proof fn boundaries_clear_only_their_node(
    state: TrackerState,
    node: Seq<char>,
    other: Seq<char>,
)
    requires
        node != other,
    ensures
        active_execution(begun(state, node), node) is None,
        active_execution(begun(state, node), other) == active_execution(state, other),
        begun(state, node).high_water == state.high_water,
{
}

/// A link is consumed by the first reservation for its node: the next one has none.
pub proof fn links_are_consumed_once(
    state: TrackerState,
    node: Seq<char>,
    visit: u32,
    later_visit: u32,
)
    ensures
        next_execution(reserved(state, node, visit), node, later_visit).resumed_from is None,
{
}

/// A resumed run reuses no ordinal: what is reserved for a node comes after every stage
/// of it that was observable, as long as there are ordinals left.
pub proof fn resumed_runs_reuse_no_ordinal(
    stages: Seq<StageRecord>,
    i: int,
    state: TrackerState,
    visit: u32,
)
    requires
        0 <= i < stages.len(),
        state.high_water == marks_of(stages),
        highest(state.high_water, stages[i].id.node_id@) < u32::MAX,
    ensures
        stages[i].id.visit < next_execution(state, stages[i].id.node_id@, visit).ordinal,
{
    lemma_marks(stages, i);
}

proof fn lemma_marks(stages: Seq<StageRecord>, i: int)
    requires
        0 <= i < stages.len(),
    ensures
        stages[i].id.visit <= highest(marks_of(stages), stages[i].id.node_id@),
    decreases stages.len(),
{
    let init = stages.drop_last();
    if i < init.len() {
        assert(init[i] == stages[i]);
        lemma_marks(init, i);
    }
}

/// A stage of the node that became observable after the checkpoint.
pub open spec fn behind_checkpoint(
    stage: StageRecord,
    node: Seq<char>,
    checkpoint_seq: u32,
) -> bool {
    stage.id.node_id@ == node && stage.first_event_seq > checkpoint_seq
}

/// A node links to the latest of its stages that became observable after the
/// checkpoint, and to none where there is no such stage.
pub proof fn links_lead_behind_the_checkpoint(
    stages: Seq<StageRecord>,
    checkpoint_seq: u32,
    node: Seq<char>,
)
    ensures
        links_of(stages, checkpoint_seq).dom().contains(node) ==> exists|i: int|
            {
                &&& 0 <= i < stages.len()
                &&& #[trigger] behind_checkpoint(stages[i], node, checkpoint_seq)
                &&& stages[i].id == links_of(stages, checkpoint_seq)[node]
                &&& forall|j: int|
                    i < j < stages.len() ==> !behind_checkpoint(
                        #[trigger] stages[j],
                        node,
                        checkpoint_seq,
                    )
            },
        !links_of(stages, checkpoint_seq).dom().contains(node) ==> forall|j: int|
            0 <= j < stages.len() ==> !behind_checkpoint(#[trigger] stages[j], node, checkpoint_seq),
    decreases stages.len(),
{
    if stages.len() > 0 {
        let init = stages.drop_last();
        let last = stages.last();
        links_lead_behind_the_checkpoint(init, checkpoint_seq, node);
        assert(stages[stages.len() - 1] == last);
        assert forall|j: int| 0 <= j < init.len() implies #[trigger] stages[j] == init[j] by {}
        if behind_checkpoint(last, node, checkpoint_seq) {
            assert(behind_checkpoint(stages[stages.len() - 1], node, checkpoint_seq));
        } else if links_of(init, checkpoint_seq).dom().contains(node) {
            let i = choose|i: int|
                {
                    &&& 0 <= i < init.len()
                    &&& #[trigger] behind_checkpoint(init[i], node, checkpoint_seq)
                    &&& init[i].id == links_of(init, checkpoint_seq)[node]
                    &&& forall|j: int|
                        i < j < init.len() ==> !behind_checkpoint(
                            #[trigger] init[j],
                            node,
                            checkpoint_seq,
                        )
                };
            assert(behind_checkpoint(stages[i], node, checkpoint_seq));
            assert forall|j: int| i < j < stages.len() implies !behind_checkpoint(
                #[trigger] stages[j],
                node,
                checkpoint_seq,
            ) by {
                if j < init.len() {
                    assert(stages[j] == init[j]);
                }
            }
        } else {
            assert forall|j: int| 0 <= j < stages.len() implies !behind_checkpoint(
                #[trigger] stages[j],
                node,
                checkpoint_seq,
            ) by {
                if j < init.len() {
                    assert(stages[j] == init[j]);
                }
            }
        }
    }
}

/// The first execution of a node in a fresh run is its number one, and each further
/// reservation counts up by one, whatever happens to other nodes meanwhile.
pub proof fn ordinals_count_up_from_one(
    state: TrackerState,
    node: Seq<char>,
    other: Seq<char>,
    visit: u32,
    later_visit: u32,
)
    requires
        node != other,
    ensures
        !state.high_water.dom().contains(node) ==> next_execution(state, node, visit).ordinal == 1,
        next_execution(state, node, visit).ordinal < u32::MAX ==> next_execution(
            reserved(state, node, visit),
            node,
            later_visit,
        ).ordinal == next_execution(state, node, visit).ordinal + 1,
        next_execution(reserved(state, other, visit), node, later_visit) == next_execution(
            state,
            node,
            later_visit,
        ),
        next_execution(begun(state, node), node, visit) == next_execution(state, node, visit),
        next_execution(state, node, visit).graph_visit == visit,
        active_execution(reserved(state, other, visit), node) == active_execution(state, node),
{
}

/// The next execution of a node that has a link resumes from it, and of no other.
pub proof fn executions_resume_from_their_link(
    state: TrackerState,
    node: Seq<char>,
    visit: u32,
)
    ensures
        state.resumed_from.dom().contains(node) ==> next_execution(state, node, visit).resumed_from
            == Some(state.resumed_from[node]),
        !state.resumed_from.dom().contains(node) ==> next_execution(state, node, visit).resumed_from
            is None,
{
}

/// The seed of a resumed run holds the highest ordinal of each node that has stages: none
/// of its stages is above it, and one of them has it.
pub proof fn seeds_hold_the_highest_ordinals(
    stages: &Vec<StageRecord>,
    checkpoint_seq: u32,
    seed: StageExecutionSeed,
    i: int,
    node: Seq<char>,
)
    requires
        call_ensures(StageExecutionSeed::from_projection, (stages, checkpoint_seq), seed),
    ensures
        0 <= i < stages@.len() ==> seed.high_water@.dom().contains(stages@[i].id.node_id@)
            && stages@[i].id.visit <= seed.high_water@[stages@[i].id.node_id@],
        seed.high_water@.dom().contains(node) ==> exists|j: int|
            0 <= j < stages@.len() && (#[trigger] stages@[j]).id.node_id@ == node && (
            stages@[j].id.visit == seed.high_water@[node] || seed.high_water@[node] == 0),
{
    if 0 <= i < stages@.len() {
        lemma_marks(stages@, i);
        lemma_marked(stages@, i);
    }
    if seed.high_water@.dom().contains(node) {
        lemma_marks_are_reached(stages@, node);
    }
}

proof fn lemma_marked(stages: Seq<StageRecord>, i: int)
    requires
        0 <= i < stages.len(),
    ensures
        marks_of(stages).dom().contains(stages[i].id.node_id@),
    decreases stages.len(),
{
    let init = stages.drop_last();
    if i < init.len() {
        assert(init[i] == stages[i]);
        lemma_marked(init, i);
    }
}

proof fn lemma_marks_are_reached(stages: Seq<StageRecord>, node: Seq<char>)
    requires
        marks_of(stages).dom().contains(node),
    ensures
        exists|j: int|
            0 <= j < stages.len() && (#[trigger] stages[j]).id.node_id@ == node && (
            stages[j].id.visit == marks_of(stages)[node] || marks_of(stages)[node] == 0),
    decreases stages.len(),
{
    let init = stages.drop_last();
    let last = stages.last();
    assert(stages[stages.len() - 1] == last);
    if marks_of(init).dom().contains(node) {
        lemma_marks_are_reached(init, node);
        let j = choose|j: int|
            0 <= j < init.len() && (#[trigger] init[j]).id.node_id@ == node && (init[j].id.visit
                == marks_of(init)[node] || marks_of(init)[node] == 0);
        assert(stages[j] == init[j]);
    }
}

/// A tracker goes on from its seed, with no execution active.
pub proof fn trackers_go_on_from_their_seed(
    stages: &Vec<StageRecord>,
    checkpoint_seq: u32,
    seed: StageExecutionSeed,
    tracker: StageExecutionTracker,
    i: int,
    visit: u32,
)
    requires
        call_ensures(StageExecutionSeed::from_projection, (stages, checkpoint_seq), seed),
        call_ensures(StageExecutionTracker::seeded, (seed,), tracker),
        0 <= i < stages@.len(),
        stages@[i].id.visit < u32::MAX,
    ensures
        active_execution(tracker@, stages@[i].id.node_id@) is None,
        stages@[i].id.visit < next_execution(tracker@, stages@[i].id.node_id@, visit).ordinal,
{
    lemma_marks(stages@, i);
}

/// The seed of a resumed run links each node to the last of its stages that became
/// observable behind the checkpoint, and no other node.
pub proof fn seeds_link_behind_the_checkpoint(
    stages: &Vec<StageRecord>,
    checkpoint_seq: u32,
    seed: StageExecutionSeed,
    i: int,
)
    requires
        call_ensures(StageExecutionSeed::from_projection, (stages, checkpoint_seq), seed),
        0 <= i < stages@.len(),
        stages@[i].first_event_seq > checkpoint_seq,
        forall|j: int|
            i < j < stages@.len() && (#[trigger] stages@[j]).id.node_id@ == stages@[i].id.node_id@
                ==> stages@[j].first_event_seq <= checkpoint_seq,
    ensures
        seed.resumed_from@.dom().contains(stages@[i].id.node_id@),
        seed.resumed_from@[stages@[i].id.node_id@] == stages@[i].id,
{
    let node = stages@[i].id.node_id@;
    links_lead_behind_the_checkpoint(stages@, checkpoint_seq, node);
    assert(behind_checkpoint(stages@[i], node, checkpoint_seq));
    let links = links_of(stages@, checkpoint_seq);
    if links.dom().contains(node) {
        let k = choose|k: int|
            {
                &&& 0 <= k < stages@.len()
                &&& #[trigger] behind_checkpoint(stages@[k], node, checkpoint_seq)
                &&& stages@[k].id == links[node]
                &&& forall|j: int|
                    k < j < stages@.len() ==> !behind_checkpoint(
                        #[trigger] stages@[j],
                        node,
                        checkpoint_seq,
                    )
            };
        if k < i {
            assert(!behind_checkpoint(stages@[i], node, checkpoint_seq));
        } else if i < k {
            assert(stages@[k].id.node_id@ == node);
        }
    }
}

/// A stage is named by its node and its execution, and the active execution of a node is the
/// one that was reserved last, as long as control has not come to the node anew.
pub proof fn active_executions_are_the_reserved_ones(
    node: &str,
    visit: u32,
    id: StageId,
    tracker: StageExecutionTracker,
    state: TrackerState,
    r: Option<StageExecution>,
)
    requires
        call_ensures(StageId::new, (node, visit), id),
        call_ensures(StageExecutionTracker::active, (&tracker, node), r),
    ensures
        id.node_id@ == node@,
        id.visit == visit,
        tracker@ == reserved(state, node@, visit) ==> (r matches Some(execution)
            && execution.graph_visit == visit && execution.ordinal
            == tracker@.high_water[node@]),
        tracker@ == begun(state, node@) ==> r is None,
{
}

} // verus!
