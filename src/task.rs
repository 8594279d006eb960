use vstd::prelude::*;
use crate::retry::{spec_classify, FetchError, FetchStep, RetryPolicy};

verus! {

/// Why one (entity, metric) task failed.
#[derive(Clone, Copy, Debug, PartialEq, Eq, Structural)]
pub enum TaskError {
    /// The remote fetch failed permanently.
    Fetch(FetchError),
    /// The payload was fetched but could not be written to the cache.
    CacheWrite,
    /// The payload could not be read as a list of observations.
    Malformed,
}

/// Where a cache-first task stands. A task starts in `ReadingCache`.
#[derive(Debug)]
pub enum TaskState {
    /// Waiting for the cache lookup.
    ReadingCache,
    /// The `attempt`-th request is in flight.
    Requesting { attempt: u32 },
    /// The `attempt`-th request was rate limited; sleeping before the next.
    Waiting { attempt: u32 },
    /// A fetched payload is being written to the cache.
    Storing { payload: String },
    /// The task has its payload.
    Finished,
    /// The task failed.
    Failed(TaskError),
}

/// What the outside world reports to a task.
#[derive(Debug)]
pub enum Event {
    /// The cache lookup ended: the stored payload, or `None` on a miss or a
    /// read error.
    CacheRead(Option<String>),
    /// The request came back with this status and body.
    Response { status: u16, body: String },
    /// The request failed before any status arrived.
    TransportFailed,
    /// The backoff sleep is over.
    WaitOver,
    /// The cache write ended, successfully or not.
    Stored(bool),
}

/// What the task asks of the outside world next.
#[derive(Debug)]
pub enum Action {
    /// Issue the remote request.
    Request,
    /// Sleep this long, then report `WaitOver`.
    Sleep { delay_ms: u64 },
    /// Write this payload to the task's cache key, then report `Stored`.
    Write(String),
    /// The task is done with this payload.
    Complete(String),
    /// The task is done and failed.
    Abort(TaskError),
    /// The event does not apply to the task's state; nothing changes.
    Nothing,
}

impl TaskState {
    /// The attempt counters stay within the policy's attempt cap.
    pub open spec fn wf(self, p: RetryPolicy) -> bool {
        match self {
            TaskState::Requesting { attempt } => 1 <= attempt <= p.max_attempts,
            TaskState::Waiting { attempt } => 1 <= attempt < p.max_attempts,
            _ => true,
        }
    }

    pub open spec fn spec_step(self, p: RetryPolicy, e: Event, jitter: u64) -> (TaskState, Action) {
        match (self, e) {
            (TaskState::ReadingCache, Event::CacheRead(Some(payload))) => (
                TaskState::Finished,
                Action::Complete(payload),
            ),
            (TaskState::ReadingCache, Event::CacheRead(None)) => (
                TaskState::Requesting { attempt: 1 },
                Action::Request,
            ),
            (TaskState::Requesting { attempt }, Event::Response { status, body }) => match p.spec_decide(
                attempt as nat,
                spec_classify(status),
                status,
                jitter,
            ) {
                FetchStep::Deliver => (TaskState::Storing { payload: body }, Action::Write(body)),
                FetchStep::Retry { delay_ms } => (
                    TaskState::Waiting { attempt },
                    Action::Sleep { delay_ms },
                ),
                FetchStep::GiveUp(err) => (
                    TaskState::Failed(TaskError::Fetch(err)),
                    Action::Abort(TaskError::Fetch(err)),
                ),
            },
            (TaskState::Requesting { attempt }, Event::TransportFailed) => (
                TaskState::Failed(TaskError::Fetch(FetchError::Transport)),
                Action::Abort(TaskError::Fetch(FetchError::Transport)),
            ),
            (TaskState::Waiting { attempt }, Event::WaitOver) => (
                TaskState::Requesting { attempt: (attempt + 1) as u32 },
                Action::Request,
            ),
            (TaskState::Storing { payload }, Event::Stored(ok)) => if ok {
                (TaskState::Finished, Action::Complete(payload))
            } else {
                (TaskState::Failed(TaskError::CacheWrite), Action::Abort(TaskError::CacheWrite))
            },
            (s, _) => (s, Action::Nothing),
        }
    }

    /// Advances the task by one event. `jitter` is a random draw, used only
    /// when a rate-limited response calls for a backoff sleep.
    pub fn step(self, p: &RetryPolicy, e: Event, jitter: u64) -> (r: (TaskState, Action))
        requires
            p.wf(),
            self.wf(*p),
        ensures
            r == self.spec_step(*p, e, jitter),
            r.0.wf(*p),
    {
        match (self, e) {
            (TaskState::ReadingCache, Event::CacheRead(Some(payload))) => (
                TaskState::Finished,
                Action::Complete(payload),
            ),
            (TaskState::ReadingCache, Event::CacheRead(None)) => (
                TaskState::Requesting { attempt: 1 },
                Action::Request,
            ),
            (TaskState::Requesting { attempt }, Event::Response { status, body }) => match p.decide(
                attempt,
                status,
                jitter,
            ) {
                FetchStep::Deliver => {
                    let written = body.clone();
                    (TaskState::Storing { payload: body }, Action::Write(written))
                },
                FetchStep::Retry { delay_ms } => (
                    TaskState::Waiting { attempt },
                    Action::Sleep { delay_ms },
                ),
                FetchStep::GiveUp(err) => (
                    TaskState::Failed(TaskError::Fetch(err)),
                    Action::Abort(TaskError::Fetch(err)),
                ),
            },
            (TaskState::Requesting { attempt }, Event::TransportFailed) => (
                TaskState::Failed(TaskError::Fetch(FetchError::Transport)),
                Action::Abort(TaskError::Fetch(FetchError::Transport)),
            ),
            (TaskState::Waiting { attempt }, Event::WaitOver) => (
                TaskState::Requesting { attempt: attempt + 1 },
                Action::Request,
            ),
            (TaskState::Storing { payload }, Event::Stored(ok)) => if ok {
                (TaskState::Finished, Action::Complete(payload))
            } else {
                (TaskState::Failed(TaskError::CacheWrite), Action::Abort(TaskError::CacheWrite))
            },
            (s, _) => (s, Action::Nothing),
        }
    }
}

/// The actions a task takes, from state `s`, on the events `events` in turn,
/// with one random draw from `jitters` per event.
pub open spec fn task_run(s: TaskState, p: RetryPolicy, events: Seq<Event>, jitters: Seq<u64>) -> Seq<Action>
    decreases events.len(),
{
    if events.len() == 0 {
        Seq::empty()
    } else {
        let (next, action) = s.spec_step(p, events[0], jitters[0]);
        seq![action] + task_run(next, p, events.drop_first(), jitters.drop_first())
    }
}

proof fn lemma_finished_is_quiet(p: RetryPolicy, events: Seq<Event>, jitters: Seq<u64>)
    ensures
        task_run(TaskState::Finished, p, events, jitters).len() == events.len(),
        forall|i: int|
            0 <= i < events.len() ==> #[trigger] task_run(TaskState::Finished, p, events, jitters)[i]
                is Nothing,
    decreases events.len(),
{
    if events.len() > 0 {
        lemma_finished_is_quiet(p, events.drop_first(), jitters.drop_first());
        let r = task_run(TaskState::Finished, p, events, jitters);
        let rest = task_run(TaskState::Finished, p, events.drop_first(), jitters.drop_first());
        assert forall|i: int| 0 <= i < events.len() implies #[trigger] r[i] is Nothing by {
            if i > 0 {
                assert(r[i] == rest[i - 1]);
            }
        }
    }
}

/// Cache first: a task whose cache lookup finds a payload completes with
/// that payload at once and never issues a request, whatever else happens.
pub proof fn cache_hit_never_requests(
    p: RetryPolicy,
    payload: String,
    later: Seq<Event>,
    jitters: Seq<u64>,
)
    ensures
        ({
            let acts = task_run(
                TaskState::ReadingCache,
                p,
                seq![Event::CacheRead(Some(payload))] + later,
                jitters,
            );
            &&& acts.len() == later.len() + 1
            &&& acts[0] == Action::Complete(payload)
            &&& forall|i: int| 1 <= i < acts.len() ==> #[trigger] acts[i] is Nothing
        }),
{
    let events = seq![Event::CacheRead(Some(payload))] + later;
    assert(events.drop_first() =~= later);
    lemma_finished_is_quiet(p, later, jitters.drop_first());
    let acts = task_run(TaskState::ReadingCache, p, events, jitters);
    let rest = task_run(TaskState::Finished, p, later, jitters.drop_first());
    assert forall|i: int| 1 <= i < acts.len() implies #[trigger] acts[i] is Nothing by {
        assert(acts[i] == rest[i - 1]);
    }
}

/// A task hands on a payload only once it is durable: it completes with a
/// payload either read from the cache, or after the write of that same
/// payload to the cache was acknowledged; and it enters the write stage
/// only by asking for that write.
pub proof fn completion_is_durable(s: TaskState, p: RetryPolicy, e: Event, jitter: u64, x: String)
    ensures
        s.spec_step(p, e, jitter).1 == Action::Complete(x) ==> (s is ReadingCache && e
            == Event::CacheRead(Some(x))) || (s == TaskState::Storing { payload: x } && e
            == Event::Stored(true)),
        (!(s is Storing) && s.spec_step(p, e, jitter).0 == TaskState::Storing { payload: x })
            ==> s.spec_step(p, e, jitter).1 == Action::Write(x),
{
}

/// Running again reuses the first run's result: whatever payload a task
/// completed with is durable (read from or written to the cache), and a
/// second run that reads it back completes with the very same payload
/// without a single request, so a failing transport cannot disturb it.
pub proof fn rerun_reuses_payload(
    s: TaskState,
    p: RetryPolicy,
    e: Event,
    jitter: u64,
    x: String,
    later: Seq<Event>,
    jitters: Seq<u64>,
)
    requires
        s.spec_step(p, e, jitter).1 == Action::Complete(x),
    ensures
        e == Event::CacheRead(Some(x)) || e == Event::Stored(true),
        ({
            let acts = task_run(
                TaskState::ReadingCache,
                p,
                seq![Event::CacheRead(Some(x))] + later,
                jitters,
            );
            &&& acts[0] == Action::Complete(x)
            &&& forall|i: int| 1 <= i < acts.len() ==> #[trigger] acts[i] is Nothing
        }),
{
    completion_is_durable(s, p, e, jitter, x);
    cache_hit_never_requests(p, x, later, jitters);
}

proof fn lemma_run_len(s: TaskState, p: RetryPolicy, events: Seq<Event>, jitters: Seq<u64>)
    ensures
        task_run(s, p, events, jitters).len() == events.len(),
    decreases events.len(),
{
    if events.len() > 0 {
        let (next, action) = s.spec_step(p, events[0], jitters[0]);
        lemma_run_len(next, p, events.drop_first(), jitters.drop_first());
    }
}

proof fn lemma_run_durable(s: TaskState, p: RetryPolicy, events: Seq<Event>, jitters: Seq<u64>, k: int, x: String)
    requires
        0 <= k < events.len(),
        task_run(s, p, events, jitters)[k] == Action::Complete(x),
    ensures
        events[k] == Event::CacheRead(Some(x)) || s == (TaskState::Storing { payload: x }) || exists|i: int|
            0 <= i < k && #[trigger] task_run(s, p, events, jitters)[i] == Action::Write(x),
    decreases events.len(),
{
    let acts = task_run(s, p, events, jitters);
    let (next, action) = s.spec_step(p, events[0], jitters[0]);
    let rest = task_run(next, p, events.drop_first(), jitters.drop_first());
    lemma_run_len(next, p, events.drop_first(), jitters.drop_first());
    assert(acts == seq![action] + rest);
    assert(acts[0] == action);
    if k == 0 {
        completion_is_durable(s, p, events[0], jitters[0], x);
    } else {
        assert(acts[k] == rest[k - 1]);
        lemma_run_durable(next, p, events.drop_first(), jitters.drop_first(), k - 1, x);
        if events.drop_first()[k - 1] == Event::CacheRead(Some(x)) {
            assert(events[k] == events.drop_first()[k - 1]);
        } else if next == (TaskState::Storing { payload: x }) {
            completion_is_durable(s, p, events[0], jitters[0], x);
            if !(s is Storing) {
                assert(acts[0] == Action::Write(x));
            }
        } else {
            let i = choose|i: int| 0 <= i < k - 1 && #[trigger] rest[i] == Action::Write(x);
            assert(acts[i + 1] == rest[i]);
        }
    }
}

/// Over a whole run from the start, a task completes with a payload only
/// when that payload was read from the cache, or after an earlier request to
/// write that same payload to the cache: a value that came from the
/// network is never handed on without being stored.
pub proof fn run_completes_durably(p: RetryPolicy, events: Seq<Event>, jitters: Seq<u64>, k: int, x: String)
    requires
        0 <= k < events.len(),
        task_run(TaskState::ReadingCache, p, events, jitters)[k] == Action::Complete(x),
    ensures
        events[k] == Event::CacheRead(Some(x)) || exists|i: int|
            0 <= i < k && #[trigger] task_run(TaskState::ReadingCache, p, events, jitters)[i]
                == Action::Write(x),
{
    lemma_run_durable(TaskState::ReadingCache, p, events, jitters, k, x);
}

} // verus!
