//! The job queue: what waits, runs and ended, and the rules that keep it sound.
use vstd::prelude::*;
use crate::config::{engine_path, Config, ConfigError};
use crate::engine::{validate, validation, ValidateError};
use crate::ids::{fresh_id, uuid_v4_text};
use crate::text::{first_where, lemma_first_where, lemma_first_where_found, owned, str_eq};

verus! {

/// At most this many jobs wait or run at once.
pub const MAX_ACTIVE_JOBS: usize = 50;

/// The history is cut back to this many jobs, oldest ended jobs first.
pub const MAX_JOBS: usize = 100;

/// Each job keeps this many log lines at most.
pub const MAX_LOG_LINES: usize = 250;

/// The IEEE 754 binary64 encoding of 100.0, the progress of a completed job.
pub const PROGRESS_COMPLETE: u64 = 0x4059_0000_0000_0000;

/// Where a job stands.
#[derive(Debug, Clone)]
pub enum JobStatus {
    Queued,
    Running,
    Completed,
    Failed,
    Cancelled,
    Interrupted,
    /// A status written by something else, kept as it was read.
    Other(String),
}

/// An encoding job. Progress and duration are carried as the bit patterns of the
/// floating-point numbers that the front end reads; the queue never computes with them.
#[derive(Debug, Clone)]
pub struct Job {
    pub id: String,
    pub output: String,
    pub binary: String,
    pub plans: Vec<Vec<String>>,
    pub status: JobStatus,
    pub progress_bits: u64,
    pub duration_bits: u64,
    pub pass: usize,
    pub logs: Vec<String>,
    pub created: u64,
    pub cancel: bool,
}

/// The jobs, oldest first.
#[derive(Debug)]
pub struct Queue {
    pub jobs: Vec<Job>,
}

/// Why a job is not queued.
#[derive(Debug)]
pub enum EnqueueError {
    Invalid(ValidateError),
    NoEngine,
    QueueFull,
    OutputBusy,
}

impl EnqueueError {
    /// The message shown for this refusal.
    pub open spec fn text(self) -> Seq<char> {
        match self {
            EnqueueError::Invalid(e) => e.text(),
            EnqueueError::NoEngine => ConfigError::NoEngine.text(),
            EnqueueError::QueueFull => "File d’attente pleine (50 tâches)."@,
            EnqueueError::OutputBusy => "Une tâche utilise déjà cette sortie."@,
        }
    }

    /// The message shown for this refusal.
    pub fn message(&self) -> (r: String)
        ensures
            r@ == self.text(),
    {
        match self {
            EnqueueError::Invalid(e) => e.message(),
            EnqueueError::NoEngine => ConfigError::NoEngine.message(),
            EnqueueError::QueueFull => owned("File d’attente pleine (50 tâches)."),
            EnqueueError::OutputBusy => owned("Une tâche utilise déjà cette sortie."),
        }
    }
}

/// The only refusal of a request about one job: no job has the id.
#[derive(Debug)]
pub enum QueueError {
    UnknownJob,
}

impl QueueError {
    /// The message shown for this refusal.
    pub open spec fn text(self) -> Seq<char> {
        "Tâche inconnue"@
    }

    /// The message shown for this refusal.
    pub fn message(&self) -> (r: String)
        ensures
            r@ == self.text(),
    {
        owned("Tâche inconnue")
    }
}

/// The line added to the log of a job that was waiting or running when the application
/// stopped.
pub open spec fn interrupted_line() -> Seq<char> {
    "Application interrompue : relancez explicitement cette tâche."@
}

/// A job waits or runs.
pub open spec fn is_active(j: Job) -> bool {
    j.status is Queued || j.status is Running
}

/// The test for an ended job, as a predicate.
pub open spec fn inactive() -> spec_fn(Job) -> bool {
    |j: Job| !is_active(j)
}

/// The test for a waiting job, as a predicate.
pub open spec fn waiting() -> spec_fn(Job) -> bool {
    |j: Job| j.status is Queued
}

/// The test for the job with id `id`, as a predicate.
pub open spec fn job_id(id: Seq<char>) -> spec_fn(Job) -> bool {
    |j: Job| j.id@ == id
}

/// The waiting and running jobs of `s`, in order.
pub open spec fn actives(s: Seq<Job>) -> Seq<Job>
    decreases s.len(),
{
    if s.len() == 0 {
        s
    } else if is_active(s.last()) {
        actives(s.drop_last()).push(s.last())
    } else {
        actives(s.drop_last())
    }
}

/// How many jobs of `s` wait or run.
pub open spec fn count_active(s: Seq<Job>) -> nat {
    actives(s).len()
}

/// No two waiting or running jobs write the same output.
pub open spec fn outputs_distinct(s: Seq<Job>) -> bool {
    forall|i: int, j: int|
        0 <= i < j < s.len() && is_active(#[trigger] s[i]) && is_active(#[trigger] s[j])
            ==> s[i].output@ != s[j].output@
}

/// A waiting or running job writes `output`.
pub open spec fn output_busy(s: Seq<Job>, output: Seq<char>) -> bool {
    exists|k: int| 0 <= k < s.len() && is_active(#[trigger] s[k]) && s[k].output@ == output
}

/// A waiting or running job runs the engine at `path`.
pub open spec fn engine_busy(s: Seq<Job>, path: Seq<char>) -> bool {
    exists|k: int| 0 <= k < s.len() && is_active(#[trigger] s[k]) && s[k].binary@ == path
}

/// Some job with id `id` was asked to stop.
pub open spec fn cancel_requested(s: Seq<Job>, id: Seq<char>) -> bool {
    exists|k: int| 0 <= k < s.len() && (#[trigger] s[k]).id@ == id && s[k].cancel
}

/// `s` cut back to `MAX_JOBS` jobs by dropping, one at a time, the oldest job that
/// has ended; it stays longer only when every job left waits or runs.
pub open spec fn trimmed(s: Seq<Job>) -> Seq<Job>
    decreases s.len(),
{
    let i = first_where(s, inactive());
    if s.len() > MAX_JOBS && i < s.len() {
        trimmed(s.remove(i as int))
    } else {
        s
    }
}

/// `after` is `before` with the given status, progress, pass, log and stop request;
/// what identifies the job (id, output, engine, plans, creation time, duration) is
/// unchanged.
pub open spec fn job_changed(
    before: Job,
    after: Job,
    status: JobStatus,
    progress_bits: u64,
    pass: usize,
    logs: Seq<String>,
    cancel: bool,
) -> bool {
    &&& after.id == before.id
    &&& after.output == before.output
    &&& after.binary == before.binary
    &&& after.plans == before.plans
    &&& after.created == before.created
    &&& after.duration_bits == before.duration_bits
    &&& after.status == status
    &&& after.progress_bits == progress_bits
    &&& after.pass == pass
    &&& after.logs@ == logs
    &&& after.cancel == cancel
}

/// `j` is the job just queued: waiting, first pass, no progress, no log.
pub open spec fn new_job(
    j: Job,
    id: Seq<char>,
    output: String,
    binary: Seq<char>,
    plans: Vec<Vec<String>>,
    duration_bits: u64,
    created: u64,
) -> bool {
    &&& j.id@ == id
    &&& j.output == output
    &&& j.binary@ == binary
    &&& j.plans == plans
    &&& j.status is Queued
    &&& j.progress_bits == 0
    &&& j.duration_bits == duration_bits
    &&& j.pass == 1
    &&& j.logs@.len() == 0
    &&& j.created == created
    &&& !j.cancel
}

/// `after` is `before` with one new job, as `new_job` describes it, added last and the
/// history cut back.
pub open spec fn admitted(
    before: Seq<Job>,
    after: Seq<Job>,
    id: Seq<char>,
    output: String,
    binary: Seq<char>,
    plans: Vec<Vec<String>>,
    duration_bits: u64,
    created: u64,
) -> bool {
    exists|j: Job|
        new_job(j, id, output, binary, plans, duration_bits, created) && after == trimmed(
            #[trigger] before.push(j),
        )
}

/// A job's log after `line` is added: the line last, the oldest line dropped beyond
/// `MAX_LOG_LINES`.
pub open spec fn log_tail(logs: Seq<String>, line: String) -> Seq<String> {
    if logs.len() + 1 > MAX_LOG_LINES {
        logs.push(line).drop_first()
    } else {
        logs.push(line)
    }
}

/// The status that ends a run: cancelled when a stop was asked (by the user or by
/// shutdown), completed when the run succeeded, failed otherwise.
pub open spec fn final_status(j: Job, shutdown: bool, result: Result<(), String>) -> JobStatus {
    if j.cancel || shutdown {
        JobStatus::Cancelled
    } else if result is Ok {
        JobStatus::Completed
    } else {
        JobStatus::Failed
    }
}

/// `after` is `before` once the oldest waiting job started: it runs and `taken` is its
/// position; when no job waits, nothing changes and `taken` is none.
pub open spec fn claimed(before: Seq<Job>, after: Seq<Job>, taken: Option<usize>) -> bool {
    let i = first_where(before, waiting());
    if i < before.len() {
        &&& taken == Some(i as usize)
        &&& after == before.update(i as int, Job { status: JobStatus::Running, ..before[i as int] })
    } else {
        taken is None && after == before
    }
}

/// `after` is `before` once the run of job `id` (the first with that id) ended with
/// `result`: its status is `final_status`, its progress full when it completed, a
/// failure's message is added to its log; when no job has that id, nothing changes.
pub open spec fn finished(
    before: Seq<Job>,
    after: Seq<Job>,
    id: Seq<char>,
    shutdown: bool,
    result: Result<(), String>,
) -> bool {
    let i = first_where(before, job_id(id));
    if i < before.len() {
        let j = before[i as int];
        let status = final_status(j, shutdown, result);
        &&& after.len() == before.len()
        &&& forall|k: int| 0 <= k < before.len() && k != i ==> #[trigger] after[k] == before[k]
        &&& job_changed(
            j,
            after[i as int],
            status,
            if status is Completed {
                PROGRESS_COMPLETE
            } else {
                j.progress_bits
            },
            j.pass,
            match result {
                Ok(_) => j.logs@,
                Err(e) => j.logs@.push(e),
            },
            j.cancel,
        )
    } else {
        after == before
    }
}

/// No job goes back: each job keeps its place and id, waits afterwards only if it
/// waited before, and runs afterwards only if it waited or ran before. So a job that
/// ended (or was interrupted) never waits or runs again.
pub open spec fn statuses_advance(before: Seq<Job>, after: Seq<Job>) -> bool {
    &&& after.len() == before.len()
    &&& forall|k: int|
        0 <= k < before.len() ==> {
            &&& (#[trigger] after[k]).id == before[k].id
            &&& (after[k].status is Queued ==> before[k].status is Queued)
            &&& (after[k].status is Running ==> is_active(before[k]))
        }
}

// ---- facts about the waiting and running jobs ----

proof fn lemma_actives_update(s: Seq<Job>, i: int, x: Job)
    requires
        0 <= i < s.len(),
    ensures
        count_active(s.update(i, x)) == count_active(s) - (if is_active(s[i]) {
            1int
        } else {
            0int
        }) + (if is_active(x) {
            1int
        } else {
            0int
        }),
    decreases s.len(),
{
    let t = s.update(i, x);
    if i == s.len() - 1 {
        assert(t.drop_last() =~= s.drop_last());
    } else {
        assert(t.drop_last() =~= s.drop_last().update(i, x));
        lemma_actives_update(s.drop_last(), i, x);
    }
}

proof fn lemma_actives_remove(s: Seq<Job>, i: int)
    requires
        0 <= i < s.len(),
        !is_active(s[i]),
    ensures
        actives(s.remove(i)) == actives(s),
    decreases s.len(),
{
    let t = s.remove(i);
    if i == s.len() - 1 {
        assert(t =~= s.drop_last());
    } else {
        assert(t.drop_last() =~= s.drop_last().remove(i));
        assert(t.last() == s.last());
        lemma_actives_remove(s.drop_last(), i);
    }
}

proof fn lemma_actives_none(s: Seq<Job>)
    requires
        forall|k: int| 0 <= k < s.len() ==> !is_active(#[trigger] s[k]),
    ensures
        count_active(s) == 0,
    decreases s.len(),
{
    if s.len() > 0 {
        assert(!is_active(s[s.len() - 1]));
        lemma_actives_none(s.drop_last());
    }
}

proof fn lemma_distinct_update(s: Seq<Job>, i: int, x: Job)
    requires
        0 <= i < s.len(),
        outputs_distinct(s),
        x.output == s[i].output,
        is_active(x) ==> is_active(s[i]),
    ensures
        outputs_distinct(s.update(i, x)),
{
    let t = s.update(i, x);
    assert forall|a: int, b: int|
        0 <= a < b < t.len() && is_active(#[trigger] t[a]) && is_active(#[trigger] t[b]) implies t[a].output@
        != t[b].output@ by {
        assert(is_active(s[a]) && is_active(s[b]));
    }
}

proof fn lemma_distinct_remove(s: Seq<Job>, i: int)
    requires
        0 <= i < s.len(),
        outputs_distinct(s),
    ensures
        outputs_distinct(s.remove(i)),
{
    let t = s.remove(i);
    assert forall|a: int, b: int|
        0 <= a < b < t.len() && is_active(#[trigger] t[a]) && is_active(#[trigger] t[b]) implies t[a].output@
        != t[b].output@ by {
        let a2 = if a < i {
            a
        } else {
            a + 1
        };
        let b2 = if b < i {
            b
        } else {
            b + 1
        };
        assert(t[a] == s[a2]);
        assert(t[b] == s[b2]);
    }
}

/// Cutting the history back never drops a waiting or running job: they stay, in
/// order, and so do their distinct outputs; the result is within `MAX_JOBS` unless
/// every job left waits or runs; and a waiting or running job added last stays last.
pub proof fn law_trim(s: Seq<Job>)
    ensures
        actives(trimmed(s)) == actives(s),
        outputs_distinct(s) ==> outputs_distinct(trimmed(s)),
        trimmed(s).len() <= MAX_JOBS || forall|k: int|
            0 <= k < trimmed(s).len() ==> is_active(#[trigger] trimmed(s)[k]),
        trimmed(s).len() <= s.len(),
        s.len() <= MAX_JOBS ==> trimmed(s) == s,
        s.len() > 0 && is_active(s.last()) ==> trimmed(s).len() > 0 && trimmed(s).last()
            == s.last(),
    decreases s.len(),
{
    let i = first_where(s, inactive());
    lemma_first_where_found(s, inactive());
    if s.len() > MAX_JOBS && i < s.len() {
        let t = s.remove(i as int);
        lemma_actives_remove(s, i as int);
        if outputs_distinct(s) {
            lemma_distinct_remove(s, i as int);
        }
        law_trim(t);
        if is_active(s.last()) {
            assert(i < s.len() - 1);
            assert(t.last() == s.last());
        }
    } else if s.len() > MAX_JOBS {
        assert forall|k: int| 0 <= k < s.len() implies is_active(#[trigger] s[k]) by {
            assert(!inactive()(s[k]));
        }
    }
}

/// A job just queued is the last job, waits, and joins the waiting and running jobs
/// after all those that were there: none of them was dropped.
pub proof fn law_queued_job_comes_last(
    before: Seq<Job>,
    after: Seq<Job>,
    id: Seq<char>,
    output: String,
    binary: Seq<char>,
    plans: Vec<Vec<String>>,
    duration_bits: u64,
    created: u64,
)
    requires
        admitted(before, after, id, output, binary, plans, duration_bits, created),
    ensures
        after.len() > 0,
        after.last().id@ == id,
        after.last().status is Queued,
        after.last().binary@ == binary,
        actives(after) == actives(before).push(after.last()),
        count_active(after) == count_active(before) + 1,
{
    let j = choose|j: Job|
        new_job(j, id, output, binary, plans, duration_bits, created) && after == trimmed(
            #[trigger] before.push(j),
        );
    let s = before.push(j);
    law_trim(s);
    assert(s.drop_last() =~= before);
}

/// Whatever the queue changes in a job, the job keeps the engine it was queued with,
/// as well as its id, output and plans.
pub proof fn law_job_keeps_its_engine(
    before: Job,
    after: Job,
    status: JobStatus,
    progress_bits: u64,
    pass: usize,
    logs: Seq<String>,
    cancel: bool,
)
    requires
        job_changed(before, after, status, progress_bits, pass, logs, cancel),
    ensures
        after.binary == before.binary,
        after.id == before.id,
        after.output == before.output,
        after.plans == before.plans,
{
}

/// A log never grows past `MAX_LOG_LINES` lines, and its last line is the one added.
pub proof fn law_log_bounded(logs: Seq<String>, line: String)
    requires
        logs.len() <= MAX_LOG_LINES,
    ensures
        log_tail(logs, line).len() <= MAX_LOG_LINES,
        log_tail(logs, line).last() == line,
{
}

/// An output counts as in use exactly when a job that waits or runs writes it; a job
/// that completed, failed, was cancelled or interrupted (or has any other status)
/// never keeps an output in use.
pub proof fn law_output_in_use_only_by_waiting_or_running_jobs(s: Seq<Job>, output: Seq<char>)
    ensures
        output_busy(s, output) <==> exists|k: int|
            0 <= k < s.len() && ((#[trigger] s[k]).status is Queued || s[k].status is Running)
                && s[k].output@ == output,
        (forall|k: int|
            0 <= k < s.len() && (#[trigger] s[k]).output@ == output ==> !(s[k].status is Queued)
                && !(s[k].status is Running)) ==> !output_busy(s, output),
{
    if output_busy(s, output) {
        let k = choose|k: int| 0 <= k < s.len() && is_active(#[trigger] s[k]) && s[k].output@ == output;
        assert(s[k].status is Queued || s[k].status is Running);
    }
    if exists|k: int|
        0 <= k < s.len() && ((#[trigger] s[k]).status is Queued || s[k].status is Running)
            && s[k].output@ == output {
        let k = choose|k: int|
            0 <= k < s.len() && ((#[trigger] s[k]).status is Queued || s[k].status is Running)
                && s[k].output@ == output;
        assert(is_active(s[k]));
    }
}

/// An engine counts as in use exactly when a job that waits or runs was queued with
/// it: a running encoding keeps its engine in use as much as a waiting one does, and a
/// job that ended never does.
pub proof fn law_engine_in_use_by_waiting_or_running_jobs(s: Seq<Job>, path: Seq<char>)
    ensures
        engine_busy(s, path) <==> exists|k: int|
            0 <= k < s.len() && ((#[trigger] s[k]).status is Queued || s[k].status is Running)
                && s[k].binary@ == path,
        forall|k: int|
            0 <= k < s.len() && (#[trigger] s[k]).status is Running && s[k].binary@ == path
                ==> engine_busy(s, path),
{
    if engine_busy(s, path) {
        let k = choose|k: int| 0 <= k < s.len() && is_active(#[trigger] s[k]) && s[k].binary@ == path;
        assert(s[k].status is Queued || s[k].status is Running);
    }
    if exists|k: int|
        0 <= k < s.len() && ((#[trigger] s[k]).status is Queued || s[k].status is Running)
            && s[k].binary@ == path {
        let k = choose|k: int|
            0 <= k < s.len() && ((#[trigger] s[k]).status is Queued || s[k].status is Running)
                && s[k].binary@ == path;
        assert(is_active(s[k]));
    }
    assert forall|k: int|
        0 <= k < s.len() && (#[trigger] s[k]).status is Running && s[k].binary@ == path implies engine_busy(
        s,
        path,
    ) by {
        assert(is_active(s[k]));
    }
}

/// The worker starts only a waiting job, and the oldest one: when one is taken it
/// waited, no job before it waits, and it now runs, every other job unchanged; when
/// none is taken no job waits and nothing changes.
pub proof fn law_worker_takes_the_oldest_waiting_job(before: Seq<Job>, after: Seq<Job>, taken: Option<usize>)
    requires
        claimed(before, after, taken),
        before.len() <= usize::MAX,
    ensures
        taken matches Some(i) ==> {
            &&& i < before.len()
            &&& before[i as int].status is Queued
            &&& forall|k: int| 0 <= k < i ==> !((#[trigger] before[k]).status is Queued)
            &&& after[i as int].status is Running
            &&& after[i as int].id == before[i as int].id
            &&& forall|k: int| 0 <= k < before.len() && k != i ==> #[trigger] after[k] == before[k]
        },
        taken is None ==> after == before && forall|k: int|
            0 <= k < before.len() ==> !((#[trigger] before[k]).status is Queued),
        statuses_advance(before, after),
{
    lemma_first_where_found(before, waiting());
    let i = first_where(before, waiting());
    if i < before.len() {
        assert(waiting()(before[i as int]));
        assert forall|k: int| 0 <= k < i implies !((#[trigger] before[k]).status is Queued) by {
            assert(!waiting()(before[k]));
        }
    } else {
        assert forall|k: int| 0 <= k < before.len() implies !((#[trigger] before[k]).status is Queued) by {
            assert(!waiting()(before[k]));
        }
    }
}

/// Any number of steps in which no job goes back is itself such a step.
pub proof fn law_statuses_advance_compose(a: Seq<Job>, b: Seq<Job>, c: Seq<Job>)
    requires
        statuses_advance(a, b),
        statuses_advance(b, c),
    ensures
        statuses_advance(a, c),
{
    assert forall|k: int| 0 <= k < a.len() implies {
        &&& (#[trigger] c[k]).id == a[k].id
        &&& (c[k].status is Queued ==> a[k].status is Queued)
        &&& (c[k].status is Running ==> is_active(a[k]))
    } by {
        assert(b[k].id == a[k].id);
        assert(c[k].id == b[k].id);
    }
}

/// A job that ended, was cancelled or was interrupted is never run again: across steps
/// in which no job goes back, it neither waits nor runs, and keeps its id.
pub proof fn law_ended_job_never_runs_again(before: Seq<Job>, after: Seq<Job>, k: int)
    requires
        statuses_advance(before, after),
        0 <= k < before.len(),
        !is_active(before[k]),
    ensures
        !is_active(after[k]),
        after[k].id == before[k].id,
{
    assert(after[k].id == before[k].id);
}

/// The life of one job under the worker: it is the oldest waiting job when taken, then
/// runs; after any steps in which no job goes back and it still runs, the end of its run
/// gives it `final_status`: cancelled when a stop was asked or the application is
/// shutting down, otherwise completed with full progress after a successful run, failed
/// otherwise with the failure's message last in its log; it then neither waits nor runs.
pub proof fn law_job_lifecycle(
    q0: Seq<Job>,
    q1: Seq<Job>,
    q2: Seq<Job>,
    q3: Seq<Job>,
    i: usize,
    shutdown: bool,
    result: Result<(), String>,
)
    requires
        q0.len() <= usize::MAX,
        claimed(q0, q1, Some(i)),
        statuses_advance(q1, q2),
        (i as int) < q2.len() && q2[i as int].status is Running,
        first_where(q2, job_id(q2[i as int].id@)) == i,
        finished(q2, q3, q2[i as int].id@, shutdown, result),
    ensures
        q0[i as int].status is Queued,
        forall|k: int| 0 <= k < i ==> !((#[trigger] q0[k]).status is Queued),
        q1[i as int].status is Running,
        q3[i as int].id == q0[i as int].id,
        q3[i as int].status == final_status(q2[i as int], shutdown, result),
        (q2[i as int].cancel || shutdown) ==> q3[i as int].status is Cancelled,
        !(q2[i as int].cancel || shutdown) && result is Ok ==> q3[i as int].status is Completed
            && q3[i as int].progress_bits == PROGRESS_COMPLETE,
        !(q2[i as int].cancel || shutdown) && result is Err ==> q3[i as int].status is Failed,
        result matches Err(e) ==> q3[i as int].logs@ == q2[i as int].logs@.push(e),
        !is_active(q3[i as int]),
{
    law_worker_takes_the_oldest_waiting_job(q0, q1, Some(i));
    assert(q2[i as int].id == q1[i as int].id);
}

/// Admitting a job adds nothing else: every job afterwards was there before, or is the
/// new job, which waits and has the new id.
pub proof fn law_admission_adds_only_the_new_job(
    before: Seq<Job>,
    after: Seq<Job>,
    id: Seq<char>,
    output: String,
    binary: Seq<char>,
    plans: Vec<Vec<String>>,
    duration_bits: u64,
    created: u64,
)
    requires
        admitted(before, after, id, output, binary, plans, duration_bits, created),
    ensures
        forall|k: int|
            0 <= k < after.len() ==> before.contains(#[trigger] after[k]) || (after[k].status is Queued
                && after[k].id@ == id),
{
    let j = choose|j: Job|
        new_job(j, id, output, binary, plans, duration_bits, created) && after == trimmed(
            #[trigger] before.push(j),
        );
    let s = before.push(j);
    lemma_trimmed_from(s);
    assert forall|k: int| 0 <= k < after.len() implies before.contains(#[trigger] after[k]) || (
    after[k].status is Queued && after[k].id@ == id) by {
        assert(s.contains(after[k]));
        let m = choose|m: int| 0 <= m < s.len() && s[m] == after[k];
        if m < before.len() {
            assert(before[m] == s[m]);
        }
    }
}

/// Some job with id `x` waits in `s`.
pub open spec fn id_waiting(s: Seq<Job>, x: Seq<char>) -> bool {
    exists|k: int| 0 <= k < s.len() && (#[trigger] s[k]).id@ == x && s[k].status is Queued
}

/// Some job with id `x` waits or runs in `s`.
pub open spec fn id_active(s: Seq<Job>, x: Seq<char>) -> bool {
    exists|k: int| 0 <= k < s.len() && (#[trigger] s[k]).id@ == x && is_active(s[k])
}

/// One change of the jobs by the queue's operations. With `new_id` none: a change in
/// place in which no job goes back (starting a job, cancelling, a pass, progress, a log
/// line, the end of a run, interruption, or a refused request, which changes nothing).
/// With `new_id` some id: the admission of a new job with that id.
pub open spec fn queue_step(before: Seq<Job>, after: Seq<Job>, new_id: Option<Seq<char>>) -> bool {
    ||| new_id is None && statuses_advance(before, after)
    ||| new_id is Some && admits(before, after, new_id->0)
}

/// `after` is `before` once some new job with id `id` was admitted.
pub open spec fn admits(before: Seq<Job>, after: Seq<Job>, id: Seq<char>) -> bool {
    exists|output: String, binary: Seq<char>, plans: Vec<Vec<String>>, d: u64, c: u64|
        #[trigger] admitted(before, after, id, output, binary, plans, d, c)
}

/// Admitting a job keeps every waiting or running job, unchanged.
pub proof fn law_admission_keeps_active_jobs(
    before: Seq<Job>,
    after: Seq<Job>,
    id: Seq<char>,
    output: String,
    binary: Seq<char>,
    plans: Vec<Vec<String>>,
    duration_bits: u64,
    created: u64,
)
    requires
        admitted(before, after, id, output, binary, plans, duration_bits, created),
    ensures
        forall|k: int| 0 <= k < before.len() && is_active(#[trigger] before[k]) ==> after.contains(before[k]),
{
    let j = choose|j: Job|
        new_job(j, id, output, binary, plans, duration_bits, created) && after == trimmed(
            #[trigger] before.push(j),
        );
    let s = before.push(j);
    lemma_trimmed_keeps_active(s);
    assert forall|k: int| 0 <= k < before.len() && is_active(#[trigger] before[k]) implies after.contains(before[k]) by {
        assert(s[k] == before[k]);
    }
}

/// Cutting the history back keeps every waiting or running job.
proof fn lemma_trimmed_keeps_active(s: Seq<Job>)
    ensures
        forall|k: int| 0 <= k < s.len() && is_active(#[trigger] s[k]) ==> trimmed(s).contains(s[k]),
    decreases s.len(),
{
    let i = first_where(s, inactive());
    lemma_first_where_found(s, inactive());
    if s.len() > MAX_JOBS && i < s.len() {
        let t = s.remove(i as int);
        lemma_trimmed_keeps_active(t);
        assert forall|k: int| 0 <= k < s.len() && is_active(#[trigger] s[k]) implies trimmed(s).contains(s[k]) by {
            assert(trimmed(s) == trimmed(t));
            assert(inactive()(s[i as int]));
            assert(k != i);
            if k < i {
                assert(t[k] == s[k]);
            } else {
                assert(t[k - 1] == s[k]);
            }
        }
    } else {
        assert forall|k: int| 0 <= k < s.len() && is_active(#[trigger] s[k]) implies trimmed(s).contains(s[k]) by {
            assert(trimmed(s)[k] == s[k]);
        }
    }
}

/// One step of the queue moves no id back: unless the step admits a job with id `x`,
/// when no job with id `x` waits (or runs) before, none waits (or runs) after; and an
/// admission ends no job.
pub proof fn law_step_moves_ids_forward(before: Seq<Job>, after: Seq<Job>, new_id: Option<Seq<char>>, x: Seq<char>)
    requires
        queue_step(before, after, new_id),
        new_id != Some(x),
    ensures
        !id_active(before, x) ==> !id_active(after, x),
        !id_waiting(before, x) ==> !id_waiting(after, x),
        new_id is Some && id_active(before, x) ==> id_active(after, x),
{
    match new_id {
        None => {
            if id_active(after, x) {
                let k = choose|k: int| 0 <= k < after.len() && (#[trigger] after[k]).id@ == x && is_active(after[k]);
                assert(before[k].id == after[k].id);
                assert(is_active(before[k]));
            }
            if id_waiting(after, x) {
                let k = choose|k: int| 0 <= k < after.len() && (#[trigger] after[k]).id@ == x && after[k].status is Queued;
                assert(before[k].id == after[k].id);
                assert(before[k].status is Queued);
            }
        },
        Some(id) => {
            let (output, binary, plans, d, c) = choose|output: String, binary: Seq<char>, plans: Vec<Vec<String>>, d: u64, c: u64|
                #[trigger] admitted(before, after, id, output, binary, plans, d, c);
            law_admission_adds_only_the_new_job(before, after, id, output, binary, plans, d, c);
            law_admission_keeps_active_jobs(before, after, id, output, binary, plans, d, c);
            if id_active(after, x) {
                let k = choose|k: int| 0 <= k < after.len() && (#[trigger] after[k]).id@ == x && is_active(after[k]);
                assert(before.contains(after[k]));
                let m = choose|m: int| 0 <= m < before.len() && before[m] == after[k];
                assert(before[m].id@ == x && is_active(before[m]));
            }
            if id_waiting(after, x) {
                let k = choose|k: int| 0 <= k < after.len() && (#[trigger] after[k]).id@ == x && after[k].status is Queued;
                assert(before.contains(after[k]));
                let m = choose|m: int| 0 <= m < before.len() && before[m] == after[k];
                assert(before[m].id@ == x && before[m].status is Queued);
            }
            if id_active(before, x) {
                let k = choose|k: int| 0 <= k < before.len() && (#[trigger] before[k]).id@ == x && is_active(before[k]);
                assert(after.contains(before[k]));
                let m = choose|m: int| 0 <= m < after.len() && after[m] == before[k];
                assert(after[m].id@ == x && is_active(after[m]));
            }
        },
    }
}

/// `trace` is a run of the queue: each state comes from the one before by a step of
/// the queue, admitting a job with id `new_ids[t]` when that is some id.
pub open spec fn queue_trace(trace: Seq<Seq<Job>>, new_ids: Seq<Option<Seq<char>>>) -> bool {
    &&& trace.len() == new_ids.len() + 1
    &&& forall|t: int| 0 <= t < new_ids.len() ==> queue_step(#[trigger] trace[t], trace[t + 1], new_ids[t])
}

/// No job with id `x` is admitted along the run.
pub open spec fn never_admits(new_ids: Seq<Option<Seq<char>>>, x: Seq<char>) -> bool {
    forall|t: int| 0 <= t < new_ids.len() ==> #[trigger] new_ids[t] != Some(x)
}

/// Over any run of the queue, admissions, cancellations and the worker's steps
/// interleaved in any way, ids only move forward: unless a job with id `x` is admitted
/// along the run, an id with no waiting job never gets one again, and an id whose jobs
/// all ended (or that no job has) never gets a waiting or running job again.
pub proof fn law_ids_move_forward(trace: Seq<Seq<Job>>, new_ids: Seq<Option<Seq<char>>>, x: Seq<char>)
    requires
        queue_trace(trace, new_ids),
        never_admits(new_ids, x),
    ensures
        !id_active(trace[0], x) ==> !id_active(trace.last(), x),
        !id_waiting(trace[0], x) ==> !id_waiting(trace.last(), x),
    decreases new_ids.len(),
{
    let n = new_ids.len();
    if n > 0 {
        let tr = trace.drop_last();
        let ids = new_ids.drop_last();
        assert forall|t: int| 0 <= t < ids.len() implies queue_step(#[trigger] tr[t], tr[t + 1], ids[t]) by {
            assert(tr[t] == trace[t] && tr[t + 1] == trace[t + 1] && ids[t] == new_ids[t]);
        }
        assert forall|t: int| 0 <= t < ids.len() implies #[trigger] ids[t] != Some(x) by {
            assert(ids[t] == new_ids[t]);
        }
        law_ids_move_forward(tr, ids, x);
        assert(tr[0] == trace[0]);
        assert(tr.last() == trace[n - 1]);
        assert(queue_step(trace[n - 1], trace[n as int], new_ids[n - 1]));
        assert(new_ids[n - 1] != Some(x));
        law_step_moves_ids_forward(trace[n - 1], trace[n as int], new_ids[n - 1], x);
    }
}

/// The life of one job under the worker, across any interleaving of admissions,
/// cancellations and other steps: it was the oldest waiting job when taken and then
/// runs; as long as no other job is admitted under its id and it still runs when its
/// run ends, it waited or ran in every state between; the end of its run gives it
/// `final_status` (cancelled on a stop or shutdown, otherwise completed with full
/// progress or failed with the message last in its log), after which it neither waits
/// nor runs.
pub proof fn law_job_lifecycle_across_admissions(
    q0: Seq<Job>,
    q1: Seq<Job>,
    trace: Seq<Seq<Job>>,
    new_ids: Seq<Option<Seq<char>>>,
    q_end: Seq<Job>,
    i: usize,
    shutdown: bool,
    result: Result<(), String>,
)
    requires
        q0.len() <= usize::MAX,
        claimed(q0, q1, Some(i)),
        queue_trace(trace, new_ids),
        trace[0] == q1,
        never_admits(new_ids, q1[i as int].id@),
        first_where(trace.last(), job_id(q1[i as int].id@)) < trace.last().len(),
        trace.last()[first_where(trace.last(), job_id(q1[i as int].id@)) as int].status is Running,
        finished(trace.last(), q_end, q1[i as int].id@, shutdown, result),
    ensures
        q0[i as int].status is Queued,
        forall|k: int| 0 <= k < i ==> !((#[trigger] q0[k]).status is Queued),
        q1[i as int].status is Running,
        forall|t: int| 0 <= t < trace.len() ==> id_active(#[trigger] trace[t], q1[i as int].id@),
        ({
            let x = q1[i as int].id@;
            let qn = trace.last();
            let k = first_where(qn, job_id(x));
            &&& q_end[k as int].id@ == x
            &&& q_end[k as int].status == final_status(qn[k as int], shutdown, result)
            &&& (qn[k as int].cancel || shutdown) ==> q_end[k as int].status is Cancelled
            &&& !(qn[k as int].cancel || shutdown) && result is Ok ==> q_end[k as int].status is Completed
                && q_end[k as int].progress_bits == PROGRESS_COMPLETE
            &&& !(qn[k as int].cancel || shutdown) && result is Err ==> q_end[k as int].status is Failed
            &&& result matches Err(e) ==> q_end[k as int].logs@ == qn[k as int].logs@.push(e)
            &&& !is_active(q_end[k as int])
        }),
{
    law_worker_takes_the_oldest_waiting_job(q0, q1, Some(i));
    let x = q1[i as int].id@;
    let qn = trace.last();
    let k = first_where(qn, job_id(x));
    lemma_first_where_found(qn, job_id(x));
    assert(job_id(x)(qn[k as int]));
    assert(id_active(qn, x));
    let n = new_ids.len();
    assert forall|t: int| 0 <= t < trace.len() implies id_active(#[trigger] trace[t], x) by {
        let tr = trace.subrange(t, trace.len() as int);
        let ids = new_ids.subrange(t, n as int);
        assert forall|u: int| 0 <= u < ids.len() implies queue_step(#[trigger] tr[u], tr[u + 1], ids[u]) by {
            assert(tr[u] == trace[t + u] && tr[u + 1] == trace[t + u + 1] && ids[u] == new_ids[t + u]);
        }
        assert forall|u: int| 0 <= u < ids.len() implies #[trigger] ids[u] != Some(x) by {
            assert(ids[u] == new_ids[t + u]);
        }
        law_ids_move_forward(tr, ids, x);
        assert(tr[0] == trace[t]);
        assert(tr.last() == qn);
    }
}

/// Every job left after the history is cut back was in it before.
proof fn lemma_trimmed_from(s: Seq<Job>)
    ensures
        forall|k: int| 0 <= k < trimmed(s).len() ==> s.contains(#[trigger] trimmed(s)[k]),
    decreases s.len(),
{
    let i = first_where(s, inactive());
    lemma_first_where_found(s, inactive());
    if s.len() > MAX_JOBS && i < s.len() {
        let t = s.remove(i as int);
        lemma_trimmed_from(t);
        assert forall|k: int| 0 <= k < trimmed(s).len() implies s.contains(#[trigger] trimmed(s)[k]) by {
            assert(trimmed(s) == trimmed(t));
            assert(t.contains(trimmed(t)[k]));
            let m = choose|m: int| 0 <= m < t.len() && t[m] == trimmed(t)[k];
            if m < i {
                assert(s[m] == t[m]);
            } else {
                assert(s[m + 1] == t[m]);
            }
        }
    } else {
        assert forall|k: int| 0 <= k < trimmed(s).len() implies s.contains(#[trigger] trimmed(s)[k]) by {
            assert(trimmed(s)[k] == s[k]);
        }
    }
}

impl Queue {
    /// The queue's invariant: at most `MAX_ACTIVE_JOBS` jobs wait or run, and no two of
    /// them write the same output.
    pub open spec fn wf(self) -> bool {
        count_active(self.jobs@) <= MAX_ACTIVE_JOBS && outputs_distinct(self.jobs@)
    }

    /// An empty queue.
    pub fn new() -> (r: Queue)
        ensures
            r.jobs@.len() == 0,
            r.wf(),
    {
        Queue { jobs: Vec::new() }
    }

    fn active_at(&self, k: usize) -> (r: bool)
        requires
            k < self.jobs@.len(),
        ensures
            r == is_active(self.jobs@[k as int]),
    {
        match self.jobs[k].status {
            JobStatus::Queued => true,
            JobStatus::Running => true,
            _ => false,
        }
    }

    /// The position of the oldest job that has ended, if any.
    fn first_ended(&self) -> (r: Option<usize>)
        ensures
            r is None <==> first_where(self.jobs@, inactive()) == self.jobs@.len(),
            r matches Some(i) ==> i == first_where(self.jobs@, inactive()) && i
                < self.jobs@.len(),
    {
        for k in 0..self.jobs.len()
            invariant
                forall|m: int| 0 <= m < k ==> !inactive()(#[trigger] self.jobs@[m]),
        {
            if !self.active_at(k) {
                proof {
                    lemma_first_where(self.jobs@, inactive(), k as int);
                }
                return Some(k);
            }
        }
        proof {
            lemma_first_where(self.jobs@, inactive(), self.jobs@.len() as int);
        }
        None
    }

    /// The position of the oldest waiting job, if any.
    fn first_waiting(&self) -> (r: Option<usize>)
        ensures
            r is None <==> first_where(self.jobs@, waiting()) == self.jobs@.len(),
            r matches Some(i) ==> i == first_where(self.jobs@, waiting()) && i
                < self.jobs@.len() && self.jobs@[i as int].status is Queued,
    {
        for k in 0..self.jobs.len()
            invariant
                forall|m: int| 0 <= m < k ==> !waiting()(#[trigger] self.jobs@[m]),
        {
            let q = match self.jobs[k].status {
                JobStatus::Queued => true,
                _ => false,
            };
            if q {
                proof {
                    lemma_first_where(self.jobs@, waiting(), k as int);
                }
                return Some(k);
            }
        }
        proof {
            lemma_first_where(self.jobs@, waiting(), self.jobs@.len() as int);
        }
        None
    }

    /// How many jobs wait or run.
    pub fn active_count(&self) -> (r: usize)
        ensures
            r == count_active(self.jobs@),
    {
        let mut n: usize = 0;
        for k in 0..self.jobs.len()
            invariant
                n == count_active(self.jobs@.take(k as int)),
                n <= k,
        {
            assert(self.jobs@.take(k + 1).drop_last() =~= self.jobs@.take(k as int));
            if self.active_at(k) {
                n = n + 1;
            }
        }
        assert(self.jobs@.take(self.jobs@.len() as int) =~= self.jobs@);
        n
    }

    /// Whether a waiting or running job writes `output`.
    pub fn output_in_use(&self, output: &str) -> (r: bool)
        ensures
            r == output_busy(self.jobs@, output@),
    {
        for k in 0..self.jobs.len()
            invariant
                forall|j: int|
                    0 <= j < k ==> !(is_active(#[trigger] self.jobs@[j]) && self.jobs@[j].output@
                        == output@),
        {
            if self.active_at(k) && str_eq(self.jobs[k].output.as_str(), output) {
                return true;
            }
        }
        false
    }

    /// Whether a waiting or running job runs the engine at `path`.
    pub fn engine_in_use(&self, path: &str) -> (r: bool)
        ensures
            r == engine_busy(self.jobs@, path@),
    {
        for k in 0..self.jobs.len()
            invariant
                forall|j: int|
                    0 <= j < k ==> !(is_active(#[trigger] self.jobs@[j]) && self.jobs@[j].binary@
                        == path@),
        {
            if self.active_at(k) && str_eq(self.jobs[k].binary.as_str(), path) {
                return true;
            }
        }
        false
    }

    /// Whether a stop was asked for the job `id`.
    pub fn stop_requested(&self, id: &str) -> (r: bool)
        ensures
            r == cancel_requested(self.jobs@, id@),
    {
        for k in 0..self.jobs.len()
            invariant
                forall|j: int|
                    0 <= j < k ==> !((#[trigger] self.jobs@[j]).id@ == id@ && self.jobs@[j].cancel),
        {
            if str_eq(self.jobs[k].id.as_str(), id) && self.jobs[k].cancel {
                return true;
            }
        }
        false
    }

    /// The position of the first job with id `id`, if any.
    pub fn find(&self, id: &str) -> (r: Option<usize>)
        ensures
            r is None <==> first_where(self.jobs@, job_id(id@)) == self.jobs@.len(),
            r matches Some(i) ==> i == first_where(self.jobs@, job_id(id@)) && i
                < self.jobs@.len(),
    {
        for k in 0..self.jobs.len()
            invariant
                forall|j: int| 0 <= j < k ==> !job_id(id@)(#[trigger] self.jobs@[j]),
        {
            if str_eq(self.jobs[k].id.as_str(), id) {
                proof {
                    lemma_first_where(self.jobs@, job_id(id@), k as int);
                }
                return Some(k);
            }
        }
        proof {
            lemma_first_where(self.jobs@, job_id(id@), self.jobs@.len() as int);
        }
        None
    }

    /// Adds a waiting job with id `id` after the others, unless `MAX_ACTIVE_JOBS` jobs
    /// already wait or run, or one of them writes the same output; then cuts the
    /// history back to `MAX_JOBS` jobs, dropping the oldest ended ones.
    pub fn accept_job(
        &mut self,
        id: String,
        plans: Vec<Vec<String>>,
        output: String,
        binary: String,
        duration_bits: u64,
        created: u64,
    ) -> (r: Result<(), EnqueueError>)
        ensures
            count_active(old(self).jobs@) >= MAX_ACTIVE_JOBS ==> (r matches Err(
                EnqueueError::QueueFull,
            ) && final(self).jobs@ == old(self).jobs@),
            count_active(old(self).jobs@) < MAX_ACTIVE_JOBS && output_busy(
                old(self).jobs@,
                output@,
            ) ==> (r matches Err(EnqueueError::OutputBusy) && final(self).jobs@ == old(self).jobs@),
            count_active(old(self).jobs@) < MAX_ACTIVE_JOBS && !output_busy(
                old(self).jobs@,
                output@,
            ) ==> r is Ok && admitted(
                old(self).jobs@,
                final(self).jobs@,
                id@,
                output,
                binary@,
                plans,
                duration_bits,
                created,
            ),
            old(self).wf() ==> final(self).wf(),
    {
        if self.active_count() >= MAX_ACTIVE_JOBS {
            return Err(EnqueueError::QueueFull);
        }
        if self.output_in_use(output.as_str()) {
            return Err(EnqueueError::OutputBusy);
        }
        let job = Job {
            id,
            output,
            binary,
            plans,
            status: JobStatus::Queued,
            progress_bits: 0,
            duration_bits,
            pass: 1,
            logs: Vec::new(),
            created,
            cancel: false,
        };
        let ghost j = job;
        self.jobs.push(job);
        let ghost pushed = self.jobs@;
        proof {
            assert(pushed.drop_last() =~= old(self).jobs@);
            if old(self).wf() {
                assert forall|a: int, b: int|
                    0 <= a < b < pushed.len() && is_active(#[trigger] pushed[a]) && is_active(
                        #[trigger] pushed[b],
                    ) implies pushed[a].output@ != pushed[b].output@ by {
                    if b == pushed.len() - 1 {
                        assert(old(self).jobs@[a] == pushed[a]);
                    } else {
                        assert(old(self).jobs@[a] == pushed[a]);
                        assert(old(self).jobs@[b] == pushed[b]);
                    }
                }
            }
        }
        let mut settled = false;
        while !settled && self.jobs.len() > MAX_JOBS
            invariant
                trimmed(self.jobs@) == trimmed(pushed),
                settled ==> first_where(self.jobs@, inactive()) == self.jobs@.len(),
            decreases self.jobs@.len() + (if settled {
                0int
            } else {
                1int
            }),
        {
            match self.first_ended() {
                Some(k) => {
                    self.jobs.remove(k);
                },
                None => {
                    settled = true;
                },
            }
        }
        proof {
            law_trim(pushed);
            law_trim(self.jobs@);
            assert(trimmed(self.jobs@) == self.jobs@);
            assert(new_job(j, id@, output, binary@, plans, duration_bits, created));
            assert(pushed == old(self).jobs@.push(j));
        }
        Ok(())
    }

    /// Asks the job `id` (the first with that id) to stop: a waiting job is cancelled at
    /// once, a running job is flagged for its runner; an ended job is left as it is.
    pub fn cancel(&mut self, id: &str) -> (r: Result<(), QueueError>)
        ensures
            ({
                let i = first_where(old(self).jobs@, job_id(id@));
                if i < old(self).jobs@.len() {
                    let j = old(self).jobs@[i as int];
                    &&& r is Ok
                    &&& final(self).jobs@.len() == old(self).jobs@.len()
                    &&& forall|k: int|
                        0 <= k < old(self).jobs@.len() && k != i ==> #[trigger] final(self).jobs@[k]
                            == old(self).jobs@[k]
                    &&& if j.status is Queued {
                        job_changed(
                            j,
                            final(self).jobs@[i as int],
                            JobStatus::Cancelled,
                            j.progress_bits,
                            j.pass,
                            j.logs@,
                            j.cancel,
                        )
                    } else if j.status is Running {
                        job_changed(
                            j,
                            final(self).jobs@[i as int],
                            j.status,
                            j.progress_bits,
                            j.pass,
                            j.logs@,
                            true,
                        )
                    } else {
                        final(self).jobs@[i as int] == j
                    }
                } else {
                    &&& r matches Err(QueueError::UnknownJob)
                    &&& final(self).jobs@ == old(self).jobs@
                }
            }),
            r is Ok ==> {
                let j = old(self).jobs@[first_where(old(self).jobs@, job_id(id@)) as int];
                &&& j.status is Running ==> cancel_requested(final(self).jobs@, id@)
                &&& j.status is Queued ==> !is_active(
                    final(self).jobs@[first_where(old(self).jobs@, job_id(id@)) as int],
                )
            },
            statuses_advance(old(self).jobs@, final(self).jobs@),
            old(self).wf() ==> final(self).wf(),
    {
        let i = match self.find(id) {
            Some(i) => i,
            None => {
                return Err(QueueError::UnknownJob);
            },
        };
        let ghost before = self.jobs@;
        let queued = match self.jobs[i].status {
            JobStatus::Queued => true,
            _ => false,
        };
        if queued {
            self.jobs[i].status = JobStatus::Cancelled;
        } else if self.active_at(i) {
            self.jobs[i].cancel = true;
        }
        proof {
            assert(self.jobs@ == before.update(i as int, self.jobs@[i as int]));
            lemma_actives_update(before, i as int, self.jobs@[i as int]);
            if outputs_distinct(before) {
                lemma_distinct_update(before, i as int, self.jobs@[i as int]);
            }
            lemma_first_where_found(before, job_id(id@));
            assert(job_id(id@)(before[i as int]));
            assert(self.jobs@[i as int].id@ == id@);
        }
        Ok(())
    }

    /// Sets the pass that the job `id` (the first with that id) is at; no change when no
    /// job has that id.
    pub fn set_pass(&mut self, id: &str, pass: usize)
        ensures
            ({
                let i = first_where(old(self).jobs@, job_id(id@));
                if i < old(self).jobs@.len() {
                    let j = old(self).jobs@[i as int];
                    &&& final(self).jobs@.len() == old(self).jobs@.len()
                    &&& forall|k: int|
                        0 <= k < old(self).jobs@.len() && k != i ==> #[trigger] final(self).jobs@[k]
                            == old(self).jobs@[k]
                    &&& job_changed(
                        j,
                        final(self).jobs@[i as int],
                        j.status,
                        j.progress_bits,
                        pass,
                        j.logs@,
                        j.cancel,
                    )
                } else {
                    final(self).jobs@ == old(self).jobs@
                }
            }),
            statuses_advance(old(self).jobs@, final(self).jobs@),
            old(self).wf() ==> final(self).wf(),
    {
        if let Some(i) = self.find(id) {
            let ghost before = self.jobs@;
            self.jobs[i].pass = pass;
            proof {
                assert(self.jobs@ == before.update(i as int, self.jobs@[i as int]));
                lemma_actives_update(before, i as int, self.jobs@[i as int]);
                if outputs_distinct(before) {
                    lemma_distinct_update(before, i as int, self.jobs@[i as int]);
                }
            }
        }
    }

    /// Sets the progress of the job `id` (the first with that id); no change when no job
    /// has that id.
    pub fn set_progress(&mut self, id: &str, progress_bits: u64)
        ensures
            ({
                let i = first_where(old(self).jobs@, job_id(id@));
                if i < old(self).jobs@.len() {
                    let j = old(self).jobs@[i as int];
                    &&& final(self).jobs@.len() == old(self).jobs@.len()
                    &&& forall|k: int|
                        0 <= k < old(self).jobs@.len() && k != i ==> #[trigger] final(self).jobs@[k]
                            == old(self).jobs@[k]
                    &&& job_changed(
                        j,
                        final(self).jobs@[i as int],
                        j.status,
                        progress_bits,
                        j.pass,
                        j.logs@,
                        j.cancel,
                    )
                } else {
                    final(self).jobs@ == old(self).jobs@
                }
            }),
            statuses_advance(old(self).jobs@, final(self).jobs@),
            old(self).wf() ==> final(self).wf(),
    {
        if let Some(i) = self.find(id) {
            let ghost before = self.jobs@;
            self.jobs[i].progress_bits = progress_bits;
            proof {
                assert(self.jobs@ == before.update(i as int, self.jobs@[i as int]));
                lemma_actives_update(before, i as int, self.jobs@[i as int]);
                if outputs_distinct(before) {
                    lemma_distinct_update(before, i as int, self.jobs@[i as int]);
                }
            }
        }
    }

    /// Adds `line` to the log of the job `id` (the first with that id), keeping the last
    /// `MAX_LOG_LINES` lines; no change when no job has that id.
    pub fn log(&mut self, id: &str, line: String)
        ensures
            ({
                let i = first_where(old(self).jobs@, job_id(id@));
                if i < old(self).jobs@.len() {
                    let j = old(self).jobs@[i as int];
                    &&& final(self).jobs@.len() == old(self).jobs@.len()
                    &&& forall|k: int|
                        0 <= k < old(self).jobs@.len() && k != i ==> #[trigger] final(self).jobs@[k]
                            == old(self).jobs@[k]
                    &&& job_changed(
                        j,
                        final(self).jobs@[i as int],
                        j.status,
                        j.progress_bits,
                        j.pass,
                        log_tail(j.logs@, line),
                        j.cancel,
                    )
                } else {
                    final(self).jobs@ == old(self).jobs@
                }
            }),
            statuses_advance(old(self).jobs@, final(self).jobs@),
            old(self).wf() ==> final(self).wf(),
    {
        if let Some(i) = self.find(id) {
            let ghost before = self.jobs@;
            let ghost line_v = line;
            self.jobs[i].logs.push(line);
            if self.jobs[i].logs.len() > MAX_LOG_LINES {
                self.jobs[i].logs.remove(0);
            }
            proof {
                let l = before[i as int].logs@.push(line_v);
                if l.len() > MAX_LOG_LINES {
                    assert(l.remove(0) =~= l.drop_first());
                }
                assert(self.jobs@ == before.update(i as int, self.jobs@[i as int]));
                lemma_actives_update(before, i as int, self.jobs@[i as int]);
                if outputs_distinct(before) {
                    lemma_distinct_update(before, i as int, self.jobs@[i as int]);
                }
            }
        }
    }

    /// Starts the oldest waiting job: it becomes running, and its position is returned;
    /// `None` when no job waits.
    pub fn claim_next(&mut self) -> (r: Option<usize>)
        ensures
            claimed(old(self).jobs@, final(self).jobs@, r),
            statuses_advance(old(self).jobs@, final(self).jobs@),
            old(self).wf() ==> final(self).wf(),
    {
        let k = match self.first_waiting() {
            Some(k) => k,
            None => {
                return None;
            },
        };
        let ghost before = self.jobs@;
        self.jobs[k].status = JobStatus::Running;
        proof {
            assert(self.jobs@ =~= before.update(
                k as int,
                Job { status: JobStatus::Running, ..before[k as int] },
            ));
            lemma_actives_update(before, k as int, self.jobs@[k as int]);
            if outputs_distinct(before) {
                lemma_distinct_update(before, k as int, self.jobs@[k as int]);
            }
        }
        Some(k)
    }

    /// Records the end of the run of job `id` (the first with that id): cancelled when a
    /// stop was asked or the application is shutting down, completed (with full progress)
    /// when the run succeeded, failed otherwise; a failure's message is added to the log.
    pub fn finish(&mut self, id: &str, shutdown: bool, result: Result<(), String>)
        ensures
            finished(old(self).jobs@, final(self).jobs@, id@, shutdown, result),
            statuses_advance(old(self).jobs@, final(self).jobs@),
            old(self).wf() ==> final(self).wf(),
    {
        if let Some(i) = self.find(id) {
            let ghost before = self.jobs@;
            if self.jobs[i].cancel || shutdown {
                self.jobs[i].status = JobStatus::Cancelled;
            } else if result.is_ok() {
                self.jobs[i].progress_bits = PROGRESS_COMPLETE;
                self.jobs[i].status = JobStatus::Completed;
            } else {
                self.jobs[i].status = JobStatus::Failed;
            }
            if let Err(e) = result {
                self.jobs[i].logs.push(e);
            }
            proof {
                assert(self.jobs@ == before.update(i as int, self.jobs@[i as int]));
                lemma_actives_update(before, i as int, self.jobs@[i as int]);
                if outputs_distinct(before) {
                    lemma_distinct_update(before, i as int, self.jobs@[i as int]);
                }
            }
        }
    }

    /// Marks every waiting or running job as interrupted, with a line in its log saying
    /// so, as when the application starts again; ended jobs are left as they are.
    /// Afterwards no job waits or runs, so none is started again without being asked.
    pub fn mark_interrupted(&mut self)
        ensures
            final(self).jobs@.len() == old(self).jobs@.len(),
            forall|k: int|
                0 <= k < old(self).jobs@.len() ==> {
                    let j = #[trigger] old(self).jobs@[k];
                    if is_active(j) {
                        &&& job_changed(
                            j,
                            final(self).jobs@[k],
                            JobStatus::Interrupted,
                            j.progress_bits,
                            j.pass,
                            j.logs@.push(final(self).jobs@[k].logs@.last()),
                            j.cancel,
                        )
                        &&& final(self).jobs@[k].logs@.last()@ == interrupted_line()
                    } else {
                        final(self).jobs@[k] == j
                    }
                },
            count_active(final(self).jobs@) == 0,
            first_where(final(self).jobs@, waiting()) == final(self).jobs@.len(),
            statuses_advance(old(self).jobs@, final(self).jobs@),
            final(self).wf(),
    {
        let n = self.jobs.len();
        for k in 0..n
            invariant
                n == old(self).jobs@.len(),
                self.jobs@.len() == n,
                forall|m: int|
                    k <= m < n ==> #[trigger] self.jobs@[m] == old(self).jobs@[m],
                forall|m: int|
                    0 <= m < k ==> {
                        let j = #[trigger] old(self).jobs@[m];
                        if is_active(j) {
                            &&& job_changed(
                                j,
                                self.jobs@[m],
                                JobStatus::Interrupted,
                                j.progress_bits,
                                j.pass,
                                j.logs@.push(self.jobs@[m].logs@.last()),
                                j.cancel,
                            )
                            &&& self.jobs@[m].logs@.last()@ == interrupted_line()
                        } else {
                            self.jobs@[m] == j
                        }
                    },
        {
            if self.active_at(k) {
                self.jobs[k].status = JobStatus::Interrupted;
                self.jobs[k].logs.push(
                    owned("Application interrompue : relancez explicitement cette tâche."),
                );
            }
        }
        proof {
            assert forall|m: int| 0 <= m < self.jobs@.len() implies !is_active(
                #[trigger] self.jobs@[m],
            ) by {
                assert(is_active(old(self).jobs@[m]) || self.jobs@[m] == old(self).jobs@[m]);
            }
            lemma_actives_none(self.jobs@);
            assert forall|m: int| 0 <= m < self.jobs@.len() implies !waiting()(
                #[trigger] self.jobs@[m],
            ) by {
                assert(!is_active(self.jobs@[m]));
            }
            lemma_first_where(self.jobs@, waiting(), self.jobs@.len() as int);
        }
    }
}

/// `after` (with the worker's job `taken_after`) follows one turn of the worker from
/// `before` (with its job `taken`): while the application shuts down, or while a job
/// it took has not ended, it takes nothing and nothing changes; otherwise it starts the
/// oldest waiting job, if any, and remembers it.
pub open spec fn worker_claimed(
    before: Seq<Job>,
    taken: Option<Seq<char>>,
    shutdown: bool,
    after: Seq<Job>,
    taken_after: Option<Seq<char>>,
    r: Option<usize>,
) -> bool {
    if shutdown || taken is Some {
        r is None && after == before && taken_after == taken
    } else {
        &&& claimed(before, after, r)
        &&& match r {
            Some(i) => taken_after == Some(after[i as int].id@),
            None => taken_after is None,
        }
    }
}

/// `after` (with no job left to the worker) follows the recording of the end of the
/// run of the worker's job `taken`, with `result`; nothing changes when it has none.
pub open spec fn worker_finished(
    before: Seq<Job>,
    taken: Option<Seq<char>>,
    shutdown: bool,
    result: Result<(), String>,
    after: Seq<Job>,
    taken_after: Option<Seq<char>>,
) -> bool {
    &&& taken_after is None
    &&& match taken {
        Some(id) => finished(before, after, id, shutdown, result),
        None => after == before,
    }
}

/// The worker, which runs jobs one at a time: it remembers the id of the job it took
/// until the end of that job's run is recorded.
#[derive(Debug)]
pub struct Worker {
    current: Option<String>,
}

impl Worker {
    /// The id of the job the worker took and whose end is not recorded yet.
    pub closed spec fn taken(self) -> Option<Seq<char>> {
        match self.current {
            Some(s) => Some(s@),
            None => None,
        }
    }

    /// A worker that has taken no job.
    pub fn new() -> (r: Worker)
        ensures
            r.taken() is None,
    {
        Worker { current: None }
    }

    /// One turn of the worker: unless the application is shutting down or its last job
    /// has not ended, it starts the oldest waiting job and remembers it. Gives the
    /// position of the job it started.
    pub fn claim(&mut self, queue: &mut Queue, shutdown: bool) -> (r: Option<usize>)
        ensures
            worker_claimed(
                old(queue).jobs@,
                old(self).taken(),
                shutdown,
                final(queue).jobs@,
                final(self).taken(),
                r,
            ),
            statuses_advance(old(queue).jobs@, final(queue).jobs@),
            old(queue).wf() ==> final(queue).wf(),
    {
        if shutdown || self.current.is_some() {
            return None;
        }
        let r = queue.claim_next();
        if let Some(i) = r {
            self.current = Some(queue.jobs[i].id.clone());
        }
        r
    }

    /// Records the end of the run of the worker's job, with `result` (see
    /// `Queue::finish`); the worker is then free to take the next job.
    pub fn finish(&mut self, queue: &mut Queue, shutdown: bool, result: Result<(), String>)
        ensures
            worker_finished(
                old(queue).jobs@,
                old(self).taken(),
                shutdown,
                result,
                final(queue).jobs@,
                final(self).taken(),
            ),
            statuses_advance(old(queue).jobs@, final(queue).jobs@),
            old(queue).wf() ==> final(queue).wf(),
    {
        match self.current.take() {
            Some(id) => queue.finish(id.as_str(), shutdown, result),
            None => {},
        }
    }
}

/// The worker runs jobs one at a time: it takes no job while one it took has not
/// ended, nor while the application shuts down; a job it takes is the oldest waiting
/// one, now running, and becomes the worker's job.
pub proof fn law_worker_one_job_at_a_time(
    before: Seq<Job>,
    taken: Option<Seq<char>>,
    shutdown: bool,
    after: Seq<Job>,
    taken_after: Option<Seq<char>>,
    r: Option<usize>,
)
    requires
        before.len() <= usize::MAX,
        worker_claimed(before, taken, shutdown, after, taken_after, r),
    ensures
        taken is Some ==> r is None && after == before && taken_after == taken,
        shutdown ==> r is None && after == before,
        r matches Some(i) ==> {
            &&& taken is None
            &&& before[i as int].status is Queued
            &&& forall|k: int| 0 <= k < i ==> !((#[trigger] before[k]).status is Queued)
            &&& after[i as int].status is Running
            &&& taken_after == Some(after[i as int].id@)
        },
{
    if !(shutdown || taken is Some) {
        law_worker_takes_the_oldest_waiting_job(before, after, r);
    }
}

/// Recording the end of the worker's job frees the worker, and that job (the first
/// with its id) gets `final_status`, after which it neither waits nor runs.
pub proof fn law_worker_finish_ends_its_job(
    before: Seq<Job>,
    taken: Option<Seq<char>>,
    shutdown: bool,
    result: Result<(), String>,
    after: Seq<Job>,
    taken_after: Option<Seq<char>>,
)
    requires
        worker_finished(before, taken, shutdown, result, after, taken_after),
    ensures
        taken_after is None,
        taken is Some && first_where(before, job_id(taken->0)) < before.len() ==> {
            let k = first_where(before, job_id(taken->0));
            &&& after[k as int].status == final_status(before[k as int], shutdown, result)
            &&& !is_active(after[k as int])
        },
{
}

/// Whether the run of job `id` must stop: the application is shutting down, or a stop
/// was asked for that job.
pub fn stopped(queue: &Queue, shutdown: bool, id: &str) -> (r: bool)
    ensures
        r == (shutdown || cancel_requested(queue.jobs@, id@)),
{
    shutdown || queue.stop_requested(id)
}

/// Queues a new job: the plans are checked first, then the active engine is looked up
/// (the job keeps that engine's path), then the job gets a new random id and is
/// admitted. Gives the new job's id.
pub fn enqueue(
    queue: &mut Queue,
    config: &Config,
    plans: Vec<Vec<String>>,
    output: String,
    same_file: &[Vec<bool>],
    duration_bits: u64,
    created: u64,
) -> (r: Result<String, EnqueueError>)
    ensures
        validation(plans@, output@, same_file@) matches Err(e) ==> r == Err::<
            String,
            EnqueueError,
        >(EnqueueError::Invalid(e)) && final(queue).jobs@ == old(queue).jobs@,
        validation(plans@, output@, same_file@) is Ok && engine_path(*config) is None ==> (r matches Err(
            EnqueueError::NoEngine,
        ) && final(queue).jobs@ == old(queue).jobs@),
        validation(plans@, output@, same_file@) is Ok && engine_path(*config) is Some ==> {
            let binary = engine_path(*config)->0;
            &&& count_active(old(queue).jobs@) >= MAX_ACTIVE_JOBS ==> (r matches Err(
                EnqueueError::QueueFull,
            ) && final(queue).jobs@ == old(queue).jobs@)
            &&& count_active(old(queue).jobs@) < MAX_ACTIVE_JOBS && output_busy(
                old(queue).jobs@,
                output@,
            ) ==> (r matches Err(EnqueueError::OutputBusy) && final(queue).jobs@ == old(queue).jobs@)
            &&& count_active(old(queue).jobs@) < MAX_ACTIVE_JOBS && !output_busy(
                old(queue).jobs@,
                output@,
            ) ==> (r matches Ok(id) && admitted(
                old(queue).jobs@,
                final(queue).jobs@,
                id@,
                output,
                binary,
                plans,
                duration_bits,
                created,
            ))
        },
        r matches Ok(id) ==> uuid_v4_text(id@) && queue_step(old(queue).jobs@, final(queue).jobs@, Some(id@)),
        r is Err ==> final(queue).jobs@ == old(queue).jobs@ && queue_step(old(queue).jobs@, final(queue).jobs@, None),
        old(queue).wf() ==> final(queue).wf(),
{
    if let Err(e) = validate(plans.as_slice(), output.as_str(), same_file) {
        return Err(EnqueueError::Invalid(e));
    }
    let binary = match config.binary() {
        Ok(b) => b,
        Err(_) => {
            return Err(EnqueueError::NoEngine);
        },
    };
    let id = fresh_id();
    let answer = id.clone();
    let ghost g_output = output;
    let ghost g_plans = plans;
    let ghost g_binary = binary@;
    let ghost before = queue.jobs@;
    match queue.accept_job(id, plans, output, binary, duration_bits, created) {
        Ok(()) => {
            proof {
                assert(admitted(before, queue.jobs@, answer@, g_output, g_binary, g_plans, duration_bits, created));
                assert(queue_step(before, queue.jobs@, Some(answer@)));
            }
            Ok(answer)
        },
        Err(e) => Err(e),
    }
}

} // verus!
