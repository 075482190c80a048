//! Queued pull-request creations: the order in which they are taken up, how many run
//! at a time, and how one of them is carried out.

use std::collections::{HashMap, HashSet};

use vstd::prelude::*;
use vstd::string::*;

use crate::outcome::StageOutcome;
use crate::publish::{CreatedPullRequest, OpenPullRequestRequest};
use crate::pull_requests::{
    can_open, has_all_for_a_pull_request, lemma_stored, refuses, taken_from, ApiError, OriginFacts,
    PullRequestCreation, RunPrInputs, RunProjection,
};

verus! {

broadcast use vstd::std_specs::hash::group_hash_axioms;

/// The id of a run. Ids of later runs are greater.
pub type RunId = u128;

/// How many creations run at a time.
pub const MAX_CONCURRENT_PULL_REQUEST_CREATIONS: usize = 4;

// ---- Carrying out one creation ----

/// What comes next for a queued creation.
#[derive(Debug, PartialEq, Eq)]
pub enum ProcessNext {
    /// There is nothing to do.
    Stop,
    /// Record that the creation failed.
    RecordFailure { creation_id: u128, error: String },
    /// Look up the credentials and the client for GitHub.
    PrepareGithub { creation: PullRequestCreation, inputs: RunPrInputs },
}

/// The creation of the run that is to be carried out: a pending one of a run
/// without a pull request.
pub open spec fn due(run: RunProjection) -> Option<PullRequestCreation> {
    if run.pull_request is None {
        run.pending_creation()
    } else {
        None
    }
}

/// Takes up the queued creation of a run.
pub fn begin_process(run: &RunProjection, origin: &OriginFacts) -> (r: ProcessNext)
    ensures
        match due(*run) {
            None => r is Stop,
            Some(creation) => if can_open(*run, creation.force, *origin) {
                r matches ProcessNext::PrepareGithub { creation: c, inputs } && c == creation
                    && taken_from(inputs, *run, *origin)
            } else {
                r matches ProcessNext::RecordFailure { creation_id, error } && creation_id
                    == creation.id && exists|e: ApiError|
                    refuses(*run, creation.force, *origin, e) && #[trigger] e.detail == error
            },
        },
{
    let creation = match &run.pull_request_creation {
        Some(creation) => {
            if !creation.pending {
                return ProcessNext::Stop;
            }
            creation
        },
        None => {
            return ProcessNext::Stop;
        },
    };
    if run.pull_request.is_some() {
        return ProcessNext::Stop;
    }
    match RunPrInputs::extract(run, creation.force, origin) {
        Ok(inputs) => ProcessNext::PrepareGithub { creation: creation.clone(), inputs },
        Err(error) => {
            let ghost whole = error;
            let detail = error.detail;
            proof {
                assert(whole.detail == detail);
            }
            ProcessNext::RecordFailure { creation_id: creation.id, error: detail }
        },
    }
}

/// What comes next once GitHub has been prepared.
#[derive(Debug, PartialEq, Eq)]
pub enum OpenNext {
    RecordFailure { creation_id: u128, error: String },
    Open(OpenPullRequestRequest),
}

/// The pull request that a creation asks for: a draft that is not merged by itself.
pub open spec fn drafted(
    request: OpenPullRequestRequest,
    creation: PullRequestCreation,
    inputs: RunPrInputs,
) -> bool {
    &&& request.origin_url == inputs.normalized_origin
    &&& request.base_branch == inputs.base_branch
    &&& request.head_branch == inputs.run_branch
    &&& request.expected_head_sha == inputs.final_git_sha
    &&& request.goal == inputs.goal
    &&& request.diff == inputs.diff
    &&& request.model == creation.model
    &&& request.draft
    &&& request.auto_merge is None
}

/// Goes on once the credentials and the client have been looked up.
pub fn after_prepare(
    creation: &PullRequestCreation,
    inputs: &RunPrInputs,
    credentials: Result<(), ApiError>,
    context: Result<(), ApiError>,
) -> (r: OpenNext)
    ensures
        match (credentials, context) {
            (Err(e), _) => r == (OpenNext::RecordFailure {
                creation_id: creation.id,
                error: e.detail,
            }),
            (Ok(_), Err(e)) => r == (OpenNext::RecordFailure {
                creation_id: creation.id,
                error: e.detail,
            }),
            (Ok(_), Ok(_)) => r matches OpenNext::Open(request) && drafted(
                request,
                *creation,
                *inputs,
            ),
        },
{
    match credentials {
        Err(e) => {
            return OpenNext::RecordFailure { creation_id: creation.id, error: e.detail };
        },
        Ok(_) => {},
    }
    match context {
        Err(e) => {
            return OpenNext::RecordFailure { creation_id: creation.id, error: e.detail };
        },
        Ok(_) => {},
    }
    OpenNext::Open(
        OpenPullRequestRequest {
            origin_url: inputs.normalized_origin.clone(),
            base_branch: inputs.base_branch.clone(),
            head_branch: inputs.run_branch.clone(),
            expected_head_sha: inputs.final_git_sha.clone(),
            goal: inputs.goal.clone(),
            diff: inputs.diff.clone(),
            model: creation.model.clone(),
            draft: true,
            auto_merge: None,
        },
    )
}

/// How the attempt to open the pull request ended.
#[derive(Debug, PartialEq, Eq)]
pub enum OpenEnd {
    ShutDown,
    TimedOut,
    Failed(String),
    Created(CreatedPullRequest),
}

/// What is recorded of a creation that was carried out.
#[derive(Debug, PartialEq, Eq)]
pub enum ProcessEnd {
    Nothing,
    RecordFailure { creation_id: u128, error: String },
    RecordCreated {
        creation_id: u128,
        html_url: String,
        base_branch: String,
        head_branch: String,
        head_sha: String,
        title: String,
        draft: bool,
    },
}

/// Ends the creation. The commit that is recorded is the one the run ended with.
pub fn after_open(creation: &PullRequestCreation, inputs: &RunPrInputs, end: OpenEnd) -> (r:
    ProcessEnd)
    ensures
        match end {
            OpenEnd::ShutDown => r is Nothing,
            OpenEnd::TimedOut => r matches ProcessEnd::RecordFailure { creation_id, error }
                && creation_id == creation.id && error@
                == "Pull request creation timed out after 10 minutes."@,
            OpenEnd::Failed(message) => r == (ProcessEnd::RecordFailure {
                creation_id: creation.id,
                error: message,
            }),
            OpenEnd::Created(pr) => r == (ProcessEnd::RecordCreated {
                creation_id: creation.id,
                html_url: pr.html_url,
                base_branch: pr.base_branch,
                head_branch: pr.head_branch,
                head_sha: inputs.final_git_sha,
                title: pr.title,
                draft: true,
            }),
        },
{
    match end {
        OpenEnd::ShutDown => ProcessEnd::Nothing,
        OpenEnd::TimedOut => ProcessEnd::RecordFailure {
            creation_id: creation.id,
            error: "Pull request creation timed out after 10 minutes.".to_owned(),
        },
        OpenEnd::Failed(message) => ProcessEnd::RecordFailure {
            creation_id: creation.id,
            error: message,
        },
        OpenEnd::Created(pr) => ProcessEnd::RecordCreated {
            creation_id: creation.id,
            html_url: pr.html_url,
            base_branch: pr.base_branch,
            head_branch: pr.head_branch,
            head_sha: inputs.final_git_sha.clone(),
            title: pr.title,
            draft: true,
        },
    }
}

/// The creation `creation_id` is the one that the run waits for.
pub open spec fn awaits(run: RunProjection, creation_id: u128) -> bool {
    run.pending_creation() matches Some(creation) && creation.id == creation_id
}

/// Whether the failure of a creation may be recorded: the run still waits for it.
pub fn may_record_failure(run: &RunProjection, creation_id: u128) -> (b: bool)
    ensures
        b == awaits(*run, creation_id),
{
    match &run.pull_request_creation {
        Some(creation) => creation.id == creation_id && creation.pending,
        None => false,
    }
}

/// Whether the pull request of a creation may be recorded: the run has none yet and
/// still waits for it.
pub fn may_record_created(run: &RunProjection, creation_id: u128) -> (b: bool)
    ensures
        b == (run.pull_request is None && awaits(*run, creation_id)),
{
    run.pull_request.is_none() && may_record_failure(run, creation_id)
}

/// A creation is settled once: after it has been, neither its failure nor its pull
/// request may be recorded, nor is it taken up again.
pub proof fn a_settled_creation_stays_settled(
    run: RunProjection,
    creation: PullRequestCreation,
)
    requires
        run.pull_request_creation == Some(creation),
        !creation.pending,
    ensures
        !awaits(run, creation.id),
        due(run) is None,
{
}

// ---- The order of the queue ----

/// What the scan reads of a run.
#[derive(Debug, PartialEq, Eq)]
pub struct CachedRun {
    pub run_id: RunId,
    pub projection: RunProjection,
}

/// The time at which a creation was requested, and the run it is for.
pub type QueueKey = (i128, RunId);

/// The queue keys of the runs that wait for a creation, in the order of the runs.
pub open spec fn waiting(runs: Seq<CachedRun>) -> Seq<QueueKey>
    decreases runs.len(),
{
    if runs.len() == 0 {
        Seq::empty()
    } else {
        let rest = waiting(runs.drop_last());
        match due(runs.last().projection) {
            Some(creation) => rest.push((creation.requested_at, runs.last().run_id)),
            None => rest,
        }
    }
}

/// `a` does not come after `b` in the queue: by time of request, then by run.
pub open spec fn not_after(a: QueueKey, b: QueueKey) -> bool {
    a.0 < b.0 || (a.0 == b.0 && a.1 <= b.1)
}

/// The keys stand in the order of the queue.
pub open spec fn queue_ordered(keys: Seq<QueueKey>) -> bool {
    forall|i: int, j: int| 0 <= i < j < keys.len() ==> not_after(#[trigger] keys[i], #[trigger] keys[j])
}

/// `ids` are the runs of the waiting keys, in the order of the queue.
pub open spec fn is_queue(ids: Seq<RunId>, waiting: Seq<QueueKey>) -> bool {
    exists|keys: Seq<QueueKey>|
        #![trigger queue_ordered(keys)]
        queue_ordered(keys) && keys.to_multiset() == waiting.to_multiset() && ids
            == keys.map_values(|k: QueueKey| k.1)
}

/// The queue is determined by the waiting keys: whatever order the runs were read in,
/// they are taken up in the same one.
pub proof fn the_queue_is_determined(a: Seq<RunId>, b: Seq<RunId>, keys: Seq<QueueKey>)
    requires
        is_queue(a, keys),
        is_queue(b, keys),
    ensures
        a == b,
{
    let x = choose|x: Seq<QueueKey>|
        #![trigger queue_ordered(x)]
        queue_ordered(x) && x.to_multiset() == keys.to_multiset() && a == x.map_values(
            |k: QueueKey| k.1,
        );
    let y = choose|y: Seq<QueueKey>|
        #![trigger queue_ordered(y)]
        queue_ordered(y) && y.to_multiset() == keys.to_multiset() && b == y.map_values(
            |k: QueueKey| k.1,
        );
    let leq = |p: QueueKey, q: QueueKey| not_after(p, q);
    assert(vstd::relations::total_ordering(leq));
    assert(vstd::relations::sorted_by(x, leq));
    assert(vstd::relations::sorted_by(y, leq));
    vstd::seq_lib::lemma_sorted_unique(x, y, leq);
}

/// The run at `i` waits for a creation under this key.
pub open spec fn waits_under(runs: Seq<CachedRun>, i: int, key: QueueKey) -> bool {
    &&& runs[i].run_id == key.1
    &&& due(runs[i].projection) matches Some(creation) && creation.requested_at == key.0
}

proof fn lemma_waiting(runs: Seq<CachedRun>, key: QueueKey)
    ensures
        waiting(runs).contains(key) <==> exists|i: int|
            0 <= i < runs.len() && #[trigger] waits_under(runs, i, key),
    decreases runs.len(),
{
    if runs.len() > 0 {
        let init = runs.drop_last();
        let last = runs.len() - 1;
        let rest = waiting(init);
        lemma_waiting(init, key);
        assert(runs[last] == runs.last());
        assert forall|i: int| 0 <= i < init.len() implies #[trigger] waits_under(runs, i, key)
            == waits_under(init, i, key) by {}
        if rest.contains(key) {
            let i = choose|i: int| 0 <= i < init.len() && #[trigger] waits_under(init, i, key);
            assert(waits_under(runs, i, key));
            let k = choose|k: int| 0 <= k < rest.len() && rest[k] == key;
            assert(waiting(runs)[k] == key);
        }
        if waits_under(runs, last, key) {
            assert(waiting(runs)[rest.len() as int] == key);
        }
        if waiting(runs).contains(key) && !rest.contains(key) {
            let k = choose|k: int| 0 <= k < waiting(runs).len() && waiting(runs)[k] == key;
            if k < rest.len() {
                assert(rest[k] == key);
            }
            assert(waits_under(runs, last, key));
        }
        if exists|i: int| 0 <= i < runs.len() && #[trigger] waits_under(runs, i, key) {
            let i = choose|i: int| 0 <= i < runs.len() && #[trigger] waits_under(runs, i, key);
            if i < last {
                assert(waits_under(init, i, key));
            }
        }
    } else {
        assert(waiting(runs) =~= Seq::<QueueKey>::empty());
    }
}

/// The queue holds the runs that wait for a creation and no others.
pub proof fn the_queue_holds_the_waiting_runs(ids: Seq<RunId>, runs: Seq<CachedRun>, id: RunId)
    requires
        is_queue(ids, waiting(runs)),
    ensures
        ids.contains(id) <==> exists|i: int|
            0 <= i < runs.len() && (#[trigger] runs[i]).run_id == id && due(
                runs[i].projection,
            ) is Some,
{
    let keys = choose|keys: Seq<QueueKey>|
        #![trigger queue_ordered(keys)]
        queue_ordered(keys) && keys.to_multiset() == waiting(runs).to_multiset() && ids
            == keys.map_values(|k: QueueKey| k.1);
    keys.to_multiset_ensures();
    waiting(runs).to_multiset_ensures();
    if ids.contains(id) {
        let k = choose|k: int| 0 <= k < ids.len() && ids[k] == id;
        let key = keys[k];
        assert(key.1 == id);
        assert(keys.contains(key));
        assert(keys.to_multiset().count(key) > 0);
        assert(waiting(runs).contains(key));
        lemma_waiting(runs, key);
        let i = choose|i: int| 0 <= i < runs.len() && #[trigger] waits_under(runs, i, key);
        assert(runs[i].run_id == id);
    }
    if exists|i: int|
        0 <= i < runs.len() && (#[trigger] runs[i]).run_id == id && due(runs[i].projection) is Some {
        let i = choose|i: int|
            0 <= i < runs.len() && (#[trigger] runs[i]).run_id == id && due(
                runs[i].projection,
            ) is Some;
        let key = (due(runs[i].projection)->0.requested_at, id);
        assert(waits_under(runs, i, key));
        lemma_waiting(runs, key);
        assert(waiting(runs).to_multiset().count(key) > 0);
        assert(keys.contains(key));
        let k = choose|k: int| 0 <= k < keys.len() && keys[k] == key;
        assert(ids[k] == id);
    }
}

fn insert_key(keys: &mut Vec<QueueKey>, key: QueueKey)
    requires
        queue_ordered(old(keys)@),
    ensures
        queue_ordered(final(keys)@),
        final(keys)@.to_multiset() == old(keys)@.to_multiset().insert(key),
{
    let ghost before = keys@;
    let mut at: usize = keys.len();
    while at > 0 && !(keys[at - 1].0 < key.0 || (keys[at - 1].0 == key.0 && keys[at - 1].1 <= key.1))
        invariant
            at <= keys@.len(),
            keys@ == before,
            forall|j: int| at <= j < keys@.len() ==> not_after(key, #[trigger] keys@[j]),
        decreases at,
    {
        at -= 1;
    }
    proof {
        if at > 0 {
            assert forall|i: int| 0 <= i < at implies not_after(#[trigger] before[i], key) by {
                assert(not_after(before[at - 1], key));
                if i < at - 1 {
                    assert(not_after(before[i], before[at - 1]));
                }
            }
        }
        before.to_multiset_ensures();
        before.insert(at as int, key).to_multiset_ensures();
        vstd::seq_lib::to_multiset_insert(before, at as int, key);
        assert(queue_ordered(before.insert(at as int, key))) by {
            let after = before.insert(at as int, key);
            assert forall|i: int, j: int| 0 <= i < j < after.len() implies not_after(
                #[trigger] after[i],
                #[trigger] after[j],
            ) by {
                let a = if i < at { i } else { i - 1 };
                let b = if j < at { j } else { j - 1 };
                if i != at && j != at {
                    assert(after[i] == before[a] && after[j] == before[b]);
                } else if i == at {
                    assert(after[j] == before[b]);
                } else {
                    assert(after[i] == before[a]);
                }
            }
        }
    }
    keys.insert(at, key);
}

/// The runs that wait for a creation, in the order of the queue: the creation that
/// was requested first comes first.
pub fn pending_pull_request_creation_run_ids(runs: &Vec<CachedRun>) -> (ids: Vec<RunId>)
    ensures
        is_queue(ids@, waiting(runs@)),
{
    let mut keys: Vec<QueueKey> = Vec::new();
    let mut i: usize = 0;
    while i < runs.len()
        invariant
            i <= runs@.len(),
            queue_ordered(keys@),
            keys@.to_multiset() == waiting(runs@.take(i as int)).to_multiset(),
        decreases runs@.len() - i,
    {
        let ghost so_far = runs@.take(i as int);
        proof {
            assert(runs@.take(i + 1).drop_last() == so_far);
            assert(runs@.take(i + 1).last() == runs@[i as int]);
            waiting(so_far).to_multiset_ensures();
        }
        let run = &runs[i];
        if let Some(creation) = &run.projection.pull_request_creation {
            if creation.pending && run.projection.pull_request.is_none() {
                let requested_at: i128 = creation.requested_at;
                insert_key(&mut keys, (requested_at, run.run_id));
            }
        }
        i += 1;
    }
    let mut ids: Vec<RunId> = Vec::new();
    let mut j: usize = 0;
    while j < keys.len()
        invariant
            j <= keys@.len(),
            ids@.len() == j,
            forall|k: int| 0 <= k < j ==> ids@[k] == (#[trigger] keys@[k]).1,
        decreases keys@.len() - j,
    {
        ids.push(keys[j].1);
        j += 1;
    }
    proof {
        assert(runs@.take(runs@.len() as int) == runs@);
        assert(ids@ =~= keys@.map_values(|k: QueueKey| k.1));
    }
    ids
}

// ---- The supervisor ----

/// The pending runs that are not active, in order.
pub open spec fn inactive(pending: Seq<RunId>, active: Set<RunId>) -> Seq<RunId> {
    pending.filter(|id: RunId| !active.contains(id))
}

/// The first `n` of `ids`, or all of them.
pub open spec fn first_of(ids: Seq<RunId>, n: int) -> Seq<RunId> {
    if n < ids.len() {
        ids.take(n)
    } else {
        ids
    }
}

/// What ended a worker.
#[derive(Debug, PartialEq, Eq)]
pub enum WorkerEnd {
    /// The worker of a run came to its end, in success or not.
    Finished { task: u64, run_id: RunId, succeeded: bool },
    /// The worker stopped without saying for which run it worked.
    Stopped { task: u64 },
}

/// What a supervisor knows.
#[verifier::ext_equal]
pub struct Supervision {
    /// The runs whose creations are being carried out.
    pub active: Set<RunId>,
    /// The run of each task.
    pub tasks: Map<u64, RunId>,
    /// Whether a scan is due.
    pub scan_due: bool,
    /// Whether the supervisor is to start no more workers.
    pub shut_down: bool,
}

impl Supervision {
    /// Without workers, about to scan.
    pub open spec fn start() -> Self {
        Supervision { active: Set::empty(), tasks: Map::empty(), scan_due: true, shut_down: false }
    }

    /// No more creations run than may.
    pub open spec fn within_limit(self) -> bool {
        self.active.finite() && self.active.len() <= MAX_CONCURRENT_PULL_REQUEST_CREATIONS
    }

    /// The runs of a queue to start workers for: the first of those that are not active,
    /// as many as there is room for; none after the shutdown.
    pub open spec fn ready(self, pending: Seq<RunId>) -> Seq<RunId> {
        if self.shut_down {
            Seq::empty()
        } else {
            first_of(
                inactive(pending, self.active),
                MAX_CONCURRENT_PULL_REQUEST_CREATIONS - self.active.len(),
            )
        }
    }

    /// After a request for a scan.
    pub open spec fn requested(self) -> Self {
        Supervision { scan_due: true, ..self }
    }

    /// After a scan that found the queue.
    pub open spec fn scanned(self, pending: Seq<RunId>) -> Self {
        Supervision {
            active: self.active.union(self.ready(pending).to_set()),
            scan_due: false,
            ..self
        }
    }

    /// After a scan that failed.
    pub open spec fn scan_failed(self) -> Self {
        Supervision { scan_due: false, ..self }
    }

    /// After a worker was started.
    pub open spec fn spawned(self, task: u64, run_id: RunId) -> Self {
        Supervision { tasks: self.tasks.insert(task, run_id), ..self }
    }

    /// After a worker ended. The run it worked for is no longer active; a scan is due
    /// where it succeeded.
    pub open spec fn joined(self, end: WorkerEnd) -> Self {
        match end {
            WorkerEnd::Finished { task, run_id, succeeded } => Supervision {
                active: self.active.remove(run_id),
                tasks: self.tasks.remove(task),
                scan_due: self.scan_due || succeeded,
                ..self
            },
            WorkerEnd::Stopped { task } => Supervision {
                active: if self.tasks.dom().contains(task) {
                    self.active.remove(self.tasks[task])
                } else {
                    self.active
                },
                tasks: self.tasks.remove(task),
                ..self
            },
        }
    }

    /// After the shutdown.
    pub open spec fn stopped(self) -> Self {
        Supervision { shut_down: true, ..self }
    }

    /// The supervisor has no more to do: it was shut down and its last worker has ended.
    pub open spec fn finished(self) -> bool {
        self.shut_down && self.tasks.dom() == Set::<u64>::empty()
    }
}

/// The supervisor of the workers that carry out queued creations.
pub struct Supervisor {
    active: HashSet<RunId>,
    tasks: HashMap<u64, RunId>,
    scan_requested: bool,
    shut_down: bool,
}

impl View for Supervisor {
    type V = Supervision;

    closed spec fn view(&self) -> Supervision {
        Supervision {
            active: self.active@,
            tasks: self.tasks@,
            scan_due: self.scan_requested,
            shut_down: self.shut_down,
        }
    }
}

impl Supervisor {
    #[verifier::type_invariant]
    spec fn wf(self) -> bool {
        self@.within_limit()
    }

    /// A supervisor without workers, about to scan.
    pub fn new() -> (r: Self)
        ensures
            r@ == Supervision::start(),
    {
        Supervisor {
            active: HashSet::new(),
            tasks: HashMap::new(),
            scan_requested: true,
            shut_down: false,
        }
    }

    /// Whether a scan is due.
    pub fn scan_requested(&self) -> (b: bool)
        ensures
            b == self@.scan_due,
    {
        self.scan_requested
    }

    /// Asks for a scan: a request came in, or it is time.
    pub fn request_scan(&mut self)
        ensures
            final(self)@ == old(self)@.requested(),
    {
        proof {
            use_type_invariant(&*self);
        }
        self.scan_requested = true;
    }

    /// Stops the supervisor from starting workers. Those it has work on.
    pub fn shut_down(&mut self)
        ensures
            final(self)@ == old(self)@.stopped(),
    {
        proof {
            use_type_invariant(&*self);
        }
        self.shut_down = true;
    }

    /// Whether the supervisor was shut down and its last worker has ended.
    pub fn finished(&self) -> (b: bool)
        ensures
            b == self@.finished(),
    {
        proof {
            broadcast use vstd::set_lib::group_set_properties;

            if self.tasks@.dom().len() == 0 {
                assert(self.tasks@.dom() =~= Set::<u64>::empty());
            }
        }
        self.shut_down && self.tasks.len() == 0
    }

    /// Takes the queue that a scan found and gives the runs to start workers for: the
    /// first of those that are not active, as many as there is room for; none after the
    /// shutdown.
    pub fn scanned(&mut self, pending: &Vec<RunId>) -> (ready: Vec<RunId>)
        ensures
            ready@ == old(self)@.ready(pending@),
            final(self)@ == old(self)@.scanned(pending@),
            final(self)@.within_limit(),
    {
        proof {
            use_type_invariant(&*self);
        }
        let mut active: HashSet<RunId> = HashSet::new();
        std::mem::swap(&mut active, &mut self.active);
        let ghost before = active@;
        let ghost limit: int = if self.shut_down {
            0
        } else {
            MAX_CONCURRENT_PULL_REQUEST_CREATIONS - before.len()
        };
        let available: usize = if self.shut_down {
            0
        } else {
            MAX_CONCURRENT_PULL_REQUEST_CREATIONS - active.len()
        };
        let mut ready: Vec<RunId> = Vec::new();
        let mut i: usize = 0;
        while i < pending.len() && ready.len() < available
            invariant
                i <= pending@.len(),
                active@ == before,
                available == limit,
                ready@.len() <= available,
                ready@ == inactive(pending@.take(i as int), before),
            decreases pending@.len() - i,
        {
            let id: RunId = pending[i];
            proof {
                assert(pending@.take(i + 1) == pending@.take(i as int).push(id));
                reveal(Seq::filter);
                assert(pending@.take(i + 1).drop_last() == pending@.take(i as int));
            }
            if !active.contains(&id) {
                ready.push(id);
            }
            i += 1;
        }
        proof {
            lemma_first_of(pending@, before, i as int, limit);
            ready@.lemma_cardinality_of_set();
            vstd::set_lib::lemma_len_union(before, ready@.to_set());
            assert(before.union(Seq::<RunId>::empty().to_set()) =~= before);
        }
        let mut j: usize = 0;
        while j < ready.len()
            invariant
                j <= ready@.len(),
                active@ == before.union(ready@.take(j as int).to_set()),
            decreases ready@.len() - j,
        {
            active.insert(ready[j]);
            proof {
                let next = ready@.take(j + 1);
                assert(next == ready@.take(j as int).push(ready@[j as int]));
                assert(before.union(next.to_set()) =~= before.union(
                    ready@.take(j as int).to_set(),
                ).insert(ready@[j as int])) by {
                    assert forall|x: RunId| next.contains(x) == (ready@.take(j as int).contains(x) || x
                        == ready@[j as int]) by {
                        if ready@.take(j as int).contains(x) {
                            let k = choose|k: int| 0 <= k < j && ready@.take(j as int)[k] == x;
                            assert(next[k] == x);
                        }
                        assert(next[j as int] == ready@[j as int]);
                    }
                }
            }
            j += 1;
        }
        proof {
            assert(ready@.take(ready@.len() as int) == ready@);
        }
        self.active = active;
        self.scan_requested = false;
        ready
    }

    /// Notes that a scan failed: none is due until the next request for one.
    pub fn scan_failed(&mut self)
        ensures
            final(self)@ == old(self)@.scan_failed(),
    {
        proof {
            use_type_invariant(&*self);
        }
        self.scan_requested = false;
    }

    /// Notes the task that works for a run.
    pub fn spawned(&mut self, task: u64, run_id: RunId)
        ensures
            final(self)@ == old(self)@.spawned(task, run_id),
    {
        proof {
            use_type_invariant(&*self);
        }
        let mut tasks: HashMap<u64, RunId> = HashMap::new();
        std::mem::swap(&mut tasks, &mut self.tasks);
        tasks.insert(task, run_id);
        self.tasks = tasks;
    }

    /// Notes the end of a worker. The run it worked for is no longer active; a scan
    /// is due where it succeeded.
    pub fn joined(&mut self, end: WorkerEnd)
        ensures
            final(self)@ == old(self)@.joined(end),
            final(self)@.within_limit(),
    {
        proof {
            use_type_invariant(&*self);
        }
        let mut active: HashSet<RunId> = HashSet::new();
        std::mem::swap(&mut active, &mut self.active);
        let mut tasks: HashMap<u64, RunId> = HashMap::new();
        std::mem::swap(&mut tasks, &mut self.tasks);
        let ghost known_tasks = tasks@;
        match end {
            WorkerEnd::Finished { task, run_id, succeeded } => {
                tasks.remove(&task);
                active.remove(&run_id);
                if succeeded {
                    self.scan_requested = true;
                }
            },
            WorkerEnd::Stopped { task } => {
                let known = tasks.remove(&task);
                match known {
                    Some(run_id) => {
                        active.remove(&run_id);
                    },
                    None => {
                        proof {
                            assert(known_tasks.remove(task) =~= known_tasks);
                        }
                    },
                }
            },
        }
        self.tasks = tasks;
        self.active = active;
    }
}

/// Either the whole queue was read or the room was filled: in both cases what was
/// taken is the first part of the inactive runs.
proof fn lemma_first_of(pending: Seq<RunId>, active: Set<RunId>, i: int, limit: int)
    requires
        0 <= i <= pending.len(),
        inactive(pending.take(i), active).len() <= limit,
        i == pending.len() || inactive(pending.take(i), active).len() == limit,
    ensures
        inactive(pending.take(i), active) == first_of(inactive(pending, active), limit),
{
    let p = |id: RunId| !active.contains(id);
    if i == pending.len() {
        assert(pending.take(i) == pending);
    } else {
        let a = pending.take(i);
        let b = pending.skip(i);
        assert(pending == a + b);
        Seq::filter_distributes_over_add(a, b, p);
        assert(inactive(pending, active) == a.filter(p) + b.filter(p));
        assert((a.filter(p) + b.filter(p)).take(limit) =~= a.filter(p));
        if limit >= inactive(pending, active).len() {
            assert(a.filter(p) + b.filter(p) =~= a.filter(p));
        }
    }
}

/// A worker is started for no run that already has one, and for none twice.
pub proof fn no_run_is_worked_on_twice(pending: Seq<RunId>, active: Set<RunId>, limit: int)
    requires
        0 <= limit,
        pending.no_duplicates(),
    ensures
        forall|i: int|
            0 <= i < first_of(inactive(pending, active), limit).len() ==> !active.contains(
                #[trigger] first_of(inactive(pending, active), limit)[i],
            ),
        first_of(inactive(pending, active), limit).no_duplicates(),
        first_of(inactive(pending, active), limit).len() <= limit,
{
    broadcast use vstd::seq_lib::group_filter_ensures;

    let p = |id: RunId| !active.contains(id);
    lemma_filter_no_duplicates(pending, p);
}

proof fn lemma_filter_no_duplicates(s: Seq<RunId>, p: spec_fn(RunId) -> bool)
    requires
        s.no_duplicates(),
    ensures
        s.filter(p).no_duplicates(),
        forall|x: RunId| s.filter(p).contains(x) ==> s.contains(x),
    decreases s.len(),
{
    reveal(Seq::filter);
    if s.len() > 0 {
        let init = s.drop_last();
        lemma_filter_no_duplicates(init, p);
        let kept = init.filter(p);
        assert forall|x: RunId| init.contains(x) implies s.contains(x) && x != s.last() by {
            let k = choose|k: int| 0 <= k < init.len() && init[k] == x;
            assert(s[k] == x);
        }
        assert forall|x: RunId| s.filter(p).contains(x) implies s.contains(x) by {
            let k = choose|k: int| 0 <= k < s.filter(p).len() && s.filter(p)[k] == x;
            if k < kept.len() {
                assert(kept[k] == x);
                assert(kept.contains(x));
            } else {
                assert(s[s.len() - 1] == x);
            }
        }
        assert forall|i: int, j: int| 0 <= i < j < s.filter(p).len() implies s.filter(p)[i]
            != s.filter(p)[j] by {
            assert(s.filter(p)[i] == kept[i]);
            if j == kept.len() {
                assert(kept.contains(kept[i]));
                assert(init.contains(kept[i]));
                assert(s.filter(p)[j] == s.last());
            } else {
                assert(s.filter(p)[j] == kept[j]);
                assert(kept[i] != kept[j]);
            }
        }
    }
}

/// A scan starts the oldest first: where a waiting run that is not active gets no worker,
/// there is room for none, and every run that gets one was requested no later, or at the
/// same time with a run id that is no greater.
pub proof fn the_oldest_waiting_runs_start_first(
    state: Supervision,
    ids: Seq<RunId>,
    runs: Seq<CachedRun>,
    passed_over: QueueKey,
    k: int,
)
    requires
        state.within_limit(),
        !state.shut_down,
        is_queue(ids, waiting(runs)),
        waiting(runs).contains(passed_over),
        !state.active.contains(passed_over.1),
        !state.ready(ids).contains(passed_over.1),
    ensures
        state.active.len() + state.ready(ids).len() == MAX_CONCURRENT_PULL_REQUEST_CREATIONS,
        0 <= k < state.ready(ids).len() ==> exists|key: QueueKey|
            waiting(runs).contains(key) && key.1 == state.ready(ids)[k] && #[trigger] not_after(
                key,
                passed_over,
            ),
{
    let keys = choose|keys: Seq<QueueKey>|
        #![trigger queue_ordered(keys)]
        queue_ordered(keys) && keys.to_multiset() == waiting(runs).to_multiset() && ids
            == keys.map_values(|k: QueueKey| k.1);
    keys.to_multiset_ensures();
    waiting(runs).to_multiset_ensures();
    let p = |id: RunId| !state.active.contains(id);
    let room = MAX_CONCURRENT_PULL_REQUEST_CREATIONS - state.active.len();
    assert(waiting(runs).to_multiset().count(passed_over) > 0);
    assert(keys.contains(passed_over));
    let j = choose|j: int| 0 <= j < keys.len() && keys[j] == passed_over;
    let earlier = ids.take(j);
    let rest = ids.skip(j);
    assert(ids == earlier + rest);
    Seq::filter_distributes_over_add(earlier, rest, p);
    assert(rest == seq![ids[j]] + ids.skip(j + 1));
    Seq::filter_distributes_over_add(seq![ids[j]], ids.skip(j + 1), p);
    assert(seq![ids[j]].filter(p) =~= seq![ids[j]]) by {
        reveal(Seq::filter);
        assert(seq![ids[j]].drop_last() =~= Seq::<RunId>::empty());
    }
    let kept = earlier.filter(p);
    assert(inactive(ids, state.active) == kept + (seq![ids[j]] + ids.skip(j + 1).filter(p)));
    if kept.len() < room {
        assert(state.ready(ids)[kept.len() as int] == ids[j]);
        assert(state.ready(ids).contains(passed_over.1));
    }
    assert(state.ready(ids) == kept.take(room));
    if 0 <= k < state.ready(ids).len() {
        assert(kept.contains(kept[k]));
        earlier.lemma_filter_contains_rev(p, kept[k]);
        let i = choose|i: int| 0 <= i < earlier.len() && earlier[i] == kept[k];
        assert(ids[i] == kept[k]);
        assert(keys.contains(keys[i]));
        assert(keys.to_multiset().count(keys[i]) > 0);
        assert(waiting(runs).contains(keys[i]));
        assert(not_after(keys[i], keys[j]));
    }
}

// ---- The supervisor over time ----

/// Something that happens to a supervisor.
pub enum SupervisorEvent {
    /// A scan was asked for.
    Requested,
    /// A scan found a queue, and a worker was started for each run that was ready, each
    /// under a task of its own.
    Scanned { pending: Seq<RunId>, tasks: Seq<u64> },
    /// A scan failed.
    ScanFailed,
    /// A worker ended.
    Joined(WorkerEnd),
    /// The supervisor was shut down.
    ShutDown,
}

impl Supervision {
    /// After a worker was started for each of `runs`, under the task at the same place.
    pub open spec fn spawned_all(self, tasks: Seq<u64>, runs: Seq<RunId>) -> Self
        decreases runs.len(),
    {
        if runs.len() == 0 {
            self
        } else {
            self.spawned_all(tasks.drop_last(), runs.drop_last()).spawned(tasks.last(), runs.last())
        }
    }

    /// The event can happen: a queue names no run twice, the tasks of new workers are new,
    /// and only a worker that was started ends, for the run that it was started for.
    pub open spec fn admits(self, event: SupervisorEvent) -> bool {
        match event {
            SupervisorEvent::Scanned { pending, tasks } => {
                &&& pending.no_duplicates()
                &&& tasks.no_duplicates()
                &&& tasks.len() == self.ready(pending).len()
                &&& forall|k: int|
                    0 <= k < tasks.len() ==> !self.tasks.dom().contains(#[trigger] tasks[k])
            },
            SupervisorEvent::Joined(WorkerEnd::Finished { task, run_id, .. }) => {
                self.tasks.dom().contains(task) && self.tasks[task] == run_id
            },
            SupervisorEvent::Joined(WorkerEnd::Stopped { task }) => self.tasks.dom().contains(task),
            _ => true,
        }
    }

    /// After the event.
    pub open spec fn after(self, event: SupervisorEvent) -> Self {
        match event {
            SupervisorEvent::Requested => self.requested(),
            SupervisorEvent::Scanned { pending, tasks } => self.scanned(pending).spawned_all(
                tasks,
                self.ready(pending),
            ),
            SupervisorEvent::ScanFailed => self.scan_failed(),
            SupervisorEvent::Joined(end) => self.joined(end),
            SupervisorEvent::ShutDown => self.stopped(),
        }
    }

    /// No more workers than may run, each for an active run, and no two for the same run.
    pub open spec fn workers_in_order(self) -> bool {
        &&& self.within_limit()
        &&& self.tasks.dom().finite()
        &&& self.tasks.dom().len() <= MAX_CONCURRENT_PULL_REQUEST_CREATIONS
        &&& forall|t: u64| #[trigger]
            self.tasks.dom().contains(t) ==> self.active.contains(self.tasks[t])
        &&& forall|t: u64, u: u64| #[trigger]
            self.tasks.dom().contains(t) && #[trigger] self.tasks.dom().contains(u) && t != u
                ==> self.tasks[t] != self.tasks[u]
    }
}

/// The state before event `i` admits it and leads to the state after it.
pub open spec fn takes_step(
    states: Seq<Supervision>,
    events: Seq<SupervisorEvent>,
    i: int,
) -> bool {
    states[i].admits(events[i]) && states[i + 1] == states[i].after(events[i])
}

/// The states that a supervisor goes through from its start.
pub open spec fn is_supervised(states: Seq<Supervision>, events: Seq<SupervisorEvent>) -> bool {
    &&& states.len() == events.len() + 1
    &&& states[0] == Supervision::start()
    &&& forall|i: int| 0 <= i < events.len() ==> #[trigger] takes_step(states, events, i)
}

/// At every moment at most four workers run, each for an active run, and never two for
/// the same run.
pub proof fn workers_stay_in_order(
    states: Seq<Supervision>,
    events: Seq<SupervisorEvent>,
    i: int,
)
    requires
        is_supervised(states, events),
        0 <= i < states.len(),
    ensures
        states[i].workers_in_order(),
    decreases i,
{
    if i > 0 {
        workers_stay_in_order(states, events, i - 1);
        assert(takes_step(states, events, i - 1));
        lemma_one_event(states[i - 1], events[i - 1]);
    }
}

/// Once a supervisor is shut down it stays so: from then on no queue has a run to start
/// a worker for, and the workers that run are among those that ran at the shutdown.
pub proof fn no_worker_starts_after_the_shutdown(
    states: Seq<Supervision>,
    events: Seq<SupervisorEvent>,
    i: int,
    j: int,
    pending: Seq<RunId>,
)
    requires
        is_supervised(states, events),
        0 <= i <= j < states.len(),
        states[i].shut_down,
    ensures
        states[j].shut_down,
        states[j].ready(pending) == Seq::<RunId>::empty(),
        states[j].tasks.dom().subset_of(states[i].tasks.dom()),
    decreases j - i,
{
    if i < j {
        no_worker_starts_after_the_shutdown(states, events, i, j - 1, pending);
        assert(takes_step(states, events, j - 1));
        let before = states[j - 1];
        if let SupervisorEvent::Scanned { pending: found, tasks } = events[j - 1] {
            assert(before.ready(found).len() == 0);
            assert(before.after(events[j - 1]) == before.scanned(found));
        }
    }
}

/// A supervisor has no more to do only when it was shut down and every worker that was
/// ever started has ended.
pub proof fn a_finished_supervisor_has_no_worker(
    states: Seq<Supervision>,
    events: Seq<SupervisorEvent>,
    i: int,
    task: u64,
)
    requires
        is_supervised(states, events),
        0 <= i < states.len(),
    ensures
        states[i].finished() ==> states[i].shut_down && !states[i].tasks.dom().contains(task),
        states[i].shut_down && !states[i].finished() ==> exists|t: u64|
            states[i].tasks.dom().contains(t),
{
    if forall|t: u64| !states[i].tasks.dom().contains(t) {
        assert(states[i].tasks.dom() =~= Set::<u64>::empty());
    }
}

/// What holds of the workers is kept by every event.
proof fn lemma_one_event(before: Supervision, event: SupervisorEvent)
    requires
        before.workers_in_order(),
        before.admits(event),
    ensures
        before.after(event).workers_in_order(),
{
    match event {
        SupervisorEvent::Scanned { pending, tasks } => {
            let ready = before.ready(pending);
            let room = MAX_CONCURRENT_PULL_REQUEST_CREATIONS - before.active.len();
            no_run_is_worked_on_twice(pending, before.active, room);
            ready.unique_seq_to_set();
            vstd::set_lib::lemma_len_union(before.active, ready.to_set());
            lemma_spawned_all(before, before.scanned(pending), tasks, ready);
        },
        SupervisorEvent::Joined(end) => {
            let after = before.joined(end);
            let task = match end {
                WorkerEnd::Finished { task, .. } => task,
                WorkerEnd::Stopped { task } => task,
            };
            assert(after.active == before.active.remove(before.tasks[task]));
            assert(after.tasks == before.tasks.remove(task));
        },
        _ => {},
    }
}

/// Workers for new runs, under new tasks, keep the workers in order.
proof fn lemma_spawned_all(
    before: Supervision,
    scanned: Supervision,
    tasks: Seq<u64>,
    runs: Seq<RunId>,
)
    requires
        before.workers_in_order(),
        scanned.tasks == before.tasks,
        scanned.within_limit(),
        before.active.subset_of(scanned.active),
        tasks.len() == runs.len(),
        tasks.no_duplicates(),
        runs.no_duplicates(),
        forall|k: int| 0 <= k < tasks.len() ==> !before.tasks.dom().contains(#[trigger] tasks[k]),
        forall|k: int|
            0 <= k < runs.len() ==> !before.active.contains(#[trigger] runs[k])
                && scanned.active.contains(runs[k]),
    ensures
        scanned.spawned_all(tasks, runs).workers_in_order(),
        scanned.spawned_all(tasks, runs).active == scanned.active,
        forall|t: u64| #[trigger]
            scanned.spawned_all(tasks, runs).tasks.dom().contains(t) ==> {
                ||| before.tasks.dom().contains(t) && scanned.spawned_all(tasks, runs).tasks[t]
                    == before.tasks[t]
                ||| exists|k: int|
                    0 <= k < runs.len() && #[trigger] tasks[k] == t && scanned.spawned_all(
                        tasks,
                        runs,
                    ).tasks[t] == runs[k]
            },
    decreases runs.len(),
{
    if runs.len() > 0 {
        lemma_spawned_all(before, scanned, tasks.drop_last(), runs.drop_last());
        let most = scanned.spawned_all(tasks.drop_last(), runs.drop_last());
        let all = most.spawned(tasks.last(), runs.last());
        assert forall|t: u64| most.tasks.dom().contains(t) implies t != tasks.last()
            && most.tasks[t] != runs.last() by {
            if before.tasks.dom().contains(t) && most.tasks[t] == before.tasks[t] {
                assert(!before.tasks.dom().contains(tasks[tasks.len() - 1]));
                assert(!before.active.contains(runs[runs.len() - 1]));
            }
        }
        assert forall|t: u64| all.tasks.dom().contains(t) implies {
            ||| before.tasks.dom().contains(t) && all.tasks[t] == before.tasks[t]
            ||| exists|k: int|
                0 <= k < runs.len() && #[trigger] tasks[k] == t && all.tasks[t] == runs[k]
        } by {
            if t == tasks.last() {
                assert(tasks[tasks.len() - 1] == t);
            } else {
                assert(most.tasks.dom().contains(t));
                if !(before.tasks.dom().contains(t) && most.tasks[t] == before.tasks[t]) {
                    let k = choose|k: int|
                        0 <= k < runs.len() - 1 && #[trigger] tasks.drop_last()[k] == t
                            && most.tasks[t] == runs.drop_last()[k];
                    assert(tasks[k] == t);
                }
            }
        }
        lemma_distinct_runs_bound_tasks(all);
    }
    if runs.len() == 0 {
        assert(scanned.spawned_all(tasks, runs) == scanned);
    }
}

/// Tasks that work for different active runs are no more than those runs.
proof fn lemma_distinct_runs_bound_tasks(state: Supervision)
    requires
        state.within_limit(),
        state.tasks.dom().finite(),
        forall|t: u64| #[trigger]
            state.tasks.dom().contains(t) ==> state.active.contains(state.tasks[t]),
        forall|t: u64, u: u64| #[trigger]
            state.tasks.dom().contains(t) && #[trigger] state.tasks.dom().contains(u) && t != u
                ==> state.tasks[t] != state.tasks[u],
    ensures
        state.tasks.dom().len() <= state.active.len(),
{
    let run_of = |t: u64| state.tasks[t];
    let runs = state.tasks.dom().map(run_of);
    assert(vstd::relations::injective_on(run_of, state.tasks.dom()));
    vstd::set_lib::lemma_map_size(state.tasks.dom(), runs, run_of);
    assert(runs.subset_of(state.active));
    vstd::set_lib::lemma_len_subset(runs, state.active);
}

// ---- What a creation comes to ----

/// A queued creation is taken up where it is pending and the run has no pull request, and
/// left alone else. It goes on to GitHub exactly if the run has everything a pull request
/// is made from, on github.com, and succeeded, wholly or in part, or was forced when the
/// creation was requested; else its failure is recorded.
pub proof fn pending_creations_are_taken_up(
    run: &RunProjection,
    origin: &OriginFacts,
    r: ProcessNext,
)
    requires
        call_ensures(begin_process, (run, origin), r),
    ensures
        r is Stop <==> run.pull_request is Some || !(run.pull_request_creation matches Some(
            creation,
        ) && creation.pending),
        r matches ProcessNext::PrepareGithub { creation, inputs } ==> {
            &&& run.pull_request_creation == Some(creation)
            &&& has_all_for_a_pull_request(*run)
            &&& creation.force || run.conclusion->0.status == StageOutcome::Succeeded
                || run.conclusion->0.status == StageOutcome::PartiallySucceeded
            &&& inputs.goal == run.goal
            &&& run.base_branch == Some(inputs.base_branch)
            &&& run.run_branch == Some(inputs.run_branch)
            &&& run.conclusion->0.patch == Some(inputs.diff)
            &&& run.conclusion->0.final_git_commit_sha == Some(inputs.final_git_sha)
            &&& inputs.normalized_origin == origin.normalized
        },
        r matches ProcessNext::RecordFailure { creation_id, .. } ==> {
            &&& run.pull_request_creation matches Some(creation) && creation.id == creation_id
            &&& !(has_all_for_a_pull_request(*run) && (run.pull_request_creation->0.force
                || run.conclusion->0.status == StageOutcome::Succeeded || run.conclusion->0.status
                == StageOutcome::PartiallySucceeded) && (origin.url.host matches Ok(Some(host))
                && host@ == "github.com"@) && origin.url.owner_repo is Ok)
        },
{
    lemma_stored(*run);
}

/// The pull request of a creation is a draft that is never merged by itself, made from
/// the inputs of the run with the model of the creation. It is opened exactly where both
/// credentials and client are there; else the first fault is recorded.
pub proof fn creations_open_drafts(
    creation: &PullRequestCreation,
    inputs: &RunPrInputs,
    credentials: Result<(), ApiError>,
    context: Result<(), ApiError>,
    r: OpenNext,
)
    requires
        call_ensures(after_prepare, (creation, inputs, credentials, context), r),
    ensures
        r is Open <==> credentials is Ok && context is Ok,
        r matches OpenNext::Open(request) ==> request == (OpenPullRequestRequest {
            origin_url: inputs.normalized_origin,
            base_branch: inputs.base_branch,
            head_branch: inputs.run_branch,
            expected_head_sha: inputs.final_git_sha,
            goal: inputs.goal,
            diff: inputs.diff,
            model: creation.model,
            draft: true,
            auto_merge: None,
        }),
        r matches OpenNext::RecordFailure { creation_id, error } ==> {
            &&& creation_id == creation.id
            &&& credentials matches Err(e) ==> error == e.detail
            &&& credentials is Ok ==> (context matches Err(e) ==> error == e.detail)
        },
{
}

/// What is recorded of a creation is of that creation: the pull request that was opened,
/// as a draft at the commit that the run ended with, or its failure. A shutdown records
/// nothing, so that the creation is taken up again later.
pub proof fn the_end_of_a_creation_is_recorded(
    creation: &PullRequestCreation,
    inputs: &RunPrInputs,
    end: OpenEnd,
    r: ProcessEnd,
)
    requires
        call_ensures(after_open, (creation, inputs, end), r),
    ensures
        r is Nothing <==> end is ShutDown,
        r is RecordCreated <==> end is Created,
        r is RecordFailure <==> end is TimedOut || end is Failed,
        r matches ProcessEnd::RecordFailure { creation_id, error } ==> creation_id == creation.id
            && (end matches OpenEnd::Failed(message) ==> error == message),
        end matches OpenEnd::Created(pr) ==> r == (ProcessEnd::RecordCreated {
            creation_id: creation.id,
            html_url: pr.html_url,
            base_branch: pr.base_branch,
            head_branch: pr.head_branch,
            head_sha: inputs.final_git_sha,
            title: pr.title,
            draft: true,
        }),
{
}

/// The end of a creation is recorded while the run still waits for that creation: for it
/// and no other, and only while it is pending. A pull request is recorded only where the
/// run has none.
pub proof fn ends_are_recorded_while_the_run_waits(
    run: &RunProjection,
    creation_id: u128,
    failure: bool,
    created: bool,
)
    requires
        call_ensures(may_record_failure, (run, creation_id), failure),
        call_ensures(may_record_created, (run, creation_id), created),
    ensures
        failure <==> (run.pull_request_creation matches Some(creation) && creation.pending
            && creation.id == creation_id),
        created <==> failure && run.pull_request is None,
{
}

/// Some run waits for a creation that was requested at this time: it has no pull request,
/// and a pending creation.
pub open spec fn some_run_waits(runs: Seq<CachedRun>, requested_at: i128, run_id: RunId) -> bool {
    exists|m: int|
        0 <= m < runs.len() && (#[trigger] runs[m]).run_id == run_id
            && runs[m].projection.pull_request is None && (
        runs[m].projection.pull_request_creation matches Some(creation) && creation.pending
            && creation.requested_at == requested_at)
}

/// The times at which the creations of the queued runs were requested: never later than
/// the next one, and for requests of the same time the run ids never fall.
pub open spec fn oldest_first(
    runs: Seq<CachedRun>,
    ids: Seq<RunId>,
    times: Seq<i128>,
) -> bool {
    &&& times.len() == ids.len()
    &&& forall|k: int| 0 <= k < ids.len() ==> some_run_waits(runs, #[trigger] times[k], ids[k])
    &&& forall|k: int, l: int|
        0 <= k < l < ids.len() ==> #[trigger] times[k] <= #[trigger] times[l] && (times[k]
            == times[l] ==> ids[k] <= ids[l])
}

/// The queue that a scan gives holds every run that waits and no other, the oldest
/// request first, and of requests of the same time the smaller run id first.
pub proof fn the_queue_is_in_order(runs: &Vec<CachedRun>, ids: Vec<RunId>, i: int)
    requires
        call_ensures(pending_pull_request_creation_run_ids, (runs,), ids),
        0 <= i < runs@.len(),
    ensures
        runs@[i].projection.pull_request is None && (
        runs@[i].projection.pull_request_creation matches Some(creation) && creation.pending)
            ==> ids@.contains(runs@[i].run_id),
        exists|times: Seq<i128>| #[trigger] oldest_first(runs@, ids@, times),
{
    the_queue_holds_the_waiting_runs(ids@, runs@, runs@[i].run_id);
    let keys = choose|keys: Seq<QueueKey>|
        #![trigger queue_ordered(keys)]
        queue_ordered(keys) && keys.to_multiset() == waiting(runs@).to_multiset() && ids@
            == keys.map_values(|k: QueueKey| k.1);
    keys.to_multiset_ensures();
    waiting(runs@).to_multiset_ensures();
    let times = keys.map_values(|k: QueueKey| k.0);
    assert forall|k: int| 0 <= k < ids@.len() implies some_run_waits(
        runs@,
        #[trigger] times[k],
        ids@[k],
    ) by {
        assert(keys.contains(keys[k]));
        assert(keys.to_multiset().count(keys[k]) > 0);
        assert(waiting(runs@).contains(keys[k]));
        lemma_waiting(runs@, keys[k]);
        let m = choose|m: int| 0 <= m < runs@.len() && #[trigger] waits_under(runs@, m, keys[k]);
        assert(runs@[m].run_id == ids@[k]);
    }
    assert forall|k: int, l: int| 0 <= k < l < ids@.len() implies #[trigger] times[k]
        <= #[trigger] times[l] && (times[k] == times[l] ==> ids@[k] <= ids@[l]) by {
        assert(not_after(keys[k], keys[l]));
    }
    assert(oldest_first(runs@, ids@, times));
}

// ---- What a supervisor does ----

/// A supervisor begins with a scan, without workers and open to start them.
pub proof fn supervisors_begin_with_a_scan(supervisor: Supervisor, due: bool, over: bool)
    requires
        call_ensures(Supervisor::new, (), supervisor),
        call_ensures(Supervisor::scan_requested, (&supervisor,), due),
        call_ensures(Supervisor::finished, (&supervisor,), over),
    ensures
        due,
        !over,
        supervisor@.active == Set::<RunId>::empty(),
        supervisor@.tasks == Map::<u64, RunId>::empty(),
        !supervisor@.shut_down,
{
}

/// A supervisor is over exactly when it was shut down and no worker is left.
pub proof fn supervisors_end_without_workers(supervisor: Supervisor, b: bool, task: u64)
    requires
        call_ensures(Supervisor::finished, (&supervisor,), b),
    ensures
        b ==> supervisor@.shut_down && !supervisor@.tasks.dom().contains(task),
        !supervisor@.shut_down ==> !b,
        supervisor@.tasks.dom().contains(task) ==> !b,
        supervisor@.shut_down && supervisor@.tasks == Map::<u64, RunId>::empty() ==> b,
{
    if supervisor@.tasks == Map::<u64, RunId>::empty() {
        assert(supervisor@.tasks.dom() =~= Set::<u64>::empty());
    }
}

/// A scan is due once it was asked for, until one succeeds or fails; a worker that
/// succeeded asks for one, and one that did not changes nothing about it. Neither asking
/// nor failing to scan touches the workers.
pub proof fn scans_are_due_until_they_are_made(
    state: Supervision,
    pending: Seq<RunId>,
    task: u64,
    run_id: RunId,
)
    ensures
        state.requested().scan_due,
        state.requested().active == state.active,
        state.requested().tasks == state.tasks,
        state.requested().shut_down == state.shut_down,
        !state.scan_failed().scan_due,
        state.scan_failed().active == state.active,
        state.scan_failed().tasks == state.tasks,
        state.scan_failed().shut_down == state.shut_down,
        !state.scanned(pending).scan_due,
        state.scanned(pending).tasks == state.tasks,
        state.scanned(pending).shut_down == state.shut_down,
        state.joined(WorkerEnd::Finished { task, run_id, succeeded: true }).scan_due,
        state.joined(WorkerEnd::Finished { task, run_id, succeeded: false }).scan_due
            == state.scan_due,
        state.joined(WorkerEnd::Stopped { task }).scan_due == state.scan_due,
        state.stopped().shut_down,
        state.stopped().active == state.active,
        state.stopped().tasks == state.tasks,
        state.stopped().scan_due == state.scan_due,
{
}

/// A worker that ended, in success or not, frees its run and its task, and no other; one
/// that stopped without a word frees the run that its task was started for.
pub proof fn ended_workers_free_their_run(
    state: Supervision,
    task: u64,
    run_id: RunId,
    succeeded: bool,
    other_task: u64,
    other_run: RunId,
)
    requires
        state.tasks.dom().contains(task),
        state.tasks[task] == run_id,
        other_task != task,
        other_run != run_id,
    ensures
        ({
            let said = state.joined(WorkerEnd::Finished { task, run_id, succeeded });
            let silent = state.joined(WorkerEnd::Stopped { task });
            &&& !said.active.contains(run_id)
            &&& !silent.active.contains(run_id)
            &&& !said.tasks.dom().contains(task)
            &&& !silent.tasks.dom().contains(task)
            &&& said.active.contains(other_run) <==> state.active.contains(other_run)
            &&& silent.active.contains(other_run) <==> state.active.contains(other_run)
            &&& said.tasks.dom().contains(other_task) <==> state.tasks.dom().contains(other_task)
            &&& silent.tasks.dom().contains(other_task) <==> state.tasks.dom().contains(other_task)
            &&& said.shut_down == state.shut_down
            &&& silent.shut_down == state.shut_down
        }),
        state.spawned(other_task, other_run).tasks.dom().contains(other_task),
        state.spawned(other_task, other_run).tasks[other_task] == other_run,
        state.spawned(other_task, other_run).tasks[task] == run_id,
        state.spawned(other_task, other_run).active == state.active,
        state.spawned(other_task, other_run).scan_due == state.scan_due,
{
}

/// A scan starts a worker only for a run that waits and has none, never more than four at a
/// time, and none after the shutdown; where there is room for all that wait, all of them
/// get one. The runs that get one are active from then on, beside those that were.
pub proof fn scans_start_as_many_workers_as_may_run(
    state: Supervision,
    pending: Seq<RunId>,
    run_id: RunId,
)
    requires
        state.active.finite(),
        state.active.len() <= 4,
    ensures
        state.ready(pending).contains(run_id) ==> pending.contains(run_id)
            && !state.active.contains(run_id) && !state.shut_down,
        state.ready(pending).len() + state.active.len() <= 4,
        !state.shut_down && state.active.len() + pending.len() <= 4 && pending.contains(run_id)
            && !state.active.contains(run_id) ==> state.ready(pending).contains(run_id),
        !state.shut_down && state.active.len() < 4 && pending.contains(run_id)
            && !state.active.contains(run_id) ==> state.ready(pending).len() > 0,
        state.scanned(pending).active.contains(run_id) <==> state.active.contains(run_id)
            || state.ready(pending).contains(run_id),
{
    let p = |id: RunId| !state.active.contains(id);
    let all = inactive(pending, state.active);
    let ready = state.ready(pending);
    if ready.contains(run_id) {
        let k = choose|k: int| 0 <= k < ready.len() && ready[k] == run_id;
        assert(all[k] == run_id);
        assert(all.contains(run_id));
        pending.lemma_filter_contains_rev(p, run_id);
        assert(p(run_id)) by {
            broadcast use vstd::seq_lib::group_filter_ensures;

            assert(p(pending.filter(p)[k]));
        }
    }
    if pending.contains(run_id) && !state.active.contains(run_id) {
        broadcast use vstd::seq_lib::group_filter_ensures;

        let k = choose|k: int| 0 <= k < pending.len() && pending[k] == run_id;
        assert(p(pending[k]));
        assert(all.contains(run_id));
        assert(all.len() <= pending.len());
    }
    assert(ready.to_set().contains(run_id) == ready.contains(run_id));
}

} // verus!
