use vstd::prelude::*;
use crate::ids::{is_id_with_prefix, new_id, now_rfc3339};
use crate::json::JsonValue;

verus! {

/// The `redis` client a job queue talks through.
#[verifier::external_type_specification]
#[verifier::external_body]
pub struct ExRedisClient(redis::Client);

/// Jobs waiting to be picked up.
pub const PENDING_QUEUE: &'static str = "filebase:jobs:pending";

/// Jobs a worker has reserved.
pub const PROCESSING_QUEUE: &'static str = "filebase:jobs:processing";

/// Jobs that ran out of attempts.
pub const FAILED_QUEUE: &'static str = "filebase:jobs:failed";

/// The kinds of background job.
#[derive(Debug, Clone, PartialEq, Eq, Structural)]
pub enum JobKind {
    ProcessImage,
    UploadToStorage,
    GenerateThumbnail,
    SendWebhook,
    DeleteFile,
    CleanupTempFile,
}

/// The name a job kind is stored under.
pub open spec fn spec_kind_name(kind: JobKind) -> Seq<char> {
    match kind {
        JobKind::ProcessImage => "process-image"@,
        JobKind::UploadToStorage => "upload-to-storage"@,
        JobKind::GenerateThumbnail => "generate-thumbnail"@,
        JobKind::SendWebhook => "send-webhook"@,
        JobKind::DeleteFile => "delete-file"@,
        JobKind::CleanupTempFile => "cleanup-temp-file"@,
    }
}

/// The name a job kind is stored under (kebab case).
pub fn kind_name(kind: &JobKind) -> (r: &'static str)
    ensures
        r@ == spec_kind_name(*kind),
{
    match kind {
        JobKind::ProcessImage => "process-image",
        JobKind::UploadToStorage => "upload-to-storage",
        JobKind::GenerateThumbnail => "generate-thumbnail",
        JobKind::SendWebhook => "send-webhook",
        JobKind::DeleteFile => "delete-file",
        JobKind::CleanupTempFile => "cleanup-temp-file",
    }
}

/// A queued job.
pub struct JobEnvelope {
    pub id: String,
    pub kind: JobKind,
    pub payload: JsonValue,
    pub attempts: u32,
    pub max_attempts: u32,
    pub created_at: String,
    pub updated_at: String,
}

/// A job that ran out of attempts, with the last error.
pub struct FailedJob {
    pub job: JobEnvelope,
    pub error: String,
    pub failed_at: String,
}

/// A reserved job, with the exact text it was queued as.
pub struct ReservedJob {
    pub raw: String,
    pub job: JobEnvelope,
}

impl JobEnvelope {
    /// A fresh job: a new `job_` id, no attempts yet, at most three, stamped now.
    pub fn new(kind: JobKind, payload: JsonValue) -> (r: JobEnvelope)
        ensures
            is_id_with_prefix(r.id@, "job"@),
            r.kind == kind,
            r.payload == payload,
            r.attempts == 0,
            r.max_attempts == 3,
            r.created_at@ == r.updated_at@,
    {
        let now = now_rfc3339();
        JobEnvelope {
            id: new_id("job"),
            kind,
            payload,
            attempts: 0,
            max_attempts: 3,
            created_at: now.clone(),
            updated_at: now,
        }
    }

    /// The same job with a different attempt limit, at least one.
    pub fn with_max_attempts(self, max_attempts: u32) -> (r: JobEnvelope)
        ensures
            r.max_attempts == if max_attempts < 1 { 1 } else { max_attempts },
            r.max_attempts >= 1,
            r.id == self.id && r.kind == self.kind && r.payload == self.payload,
            r.attempts == self.attempts,
            r.created_at == self.created_at && r.updated_at == self.updated_at,
    {
        let mut job = self;
        job.max_attempts = if max_attempts < 1 { 1 } else { max_attempts };
        job
    }
}

/// Why a queue operation failed.
#[derive(Debug)]
pub enum FileBaseError {
    Configuration(String),
    Queue(String),
}

impl FileBaseError {
    /// The text that describes the error.
    pub fn message(&self) -> (r: String)
        ensures
            r@ == match self {
                FileBaseError::Configuration(m) => "configuration error: "@ + m@,
                FileBaseError::Queue(m) => "queue error: "@ + m@,
            },
    {
        match self {
            FileBaseError::Configuration(m) => crate::text::concat2("configuration error: ", m.as_str()),
            FileBaseError::Queue(m) => crate::text::concat2("queue error: ", m.as_str()),
        }
    }
}

/// A queue of background jobs kept in Redis.
pub struct JobQueue {
    client: redis::Client,
}

impl JobQueue {
    /// The client the queue talks through.
    pub closed spec fn spec_client(&self) -> redis::Client {
        self.client
    }

    /// A queue that talks through `client`.
    pub fn new(client: redis::Client) -> (r: JobQueue)
        ensures
            r.spec_client() == client,
    {
        JobQueue { client }
    }

    /// The client the queue talks through.
    pub fn client(&self) -> (r: &redis::Client)
        ensures
            *r == self.spec_client(),
    {
        &self.client
    }
}

/// What happens to a reserved job after a worker ran it.
#[derive(Debug)]
pub enum QueueAction {
    Complete,
    Retry,
    Fail,
}

/// Whether a failed job gets another attempt: only while attempts remain.
pub open spec fn retries(job: JobEnvelope) -> bool {
    job.attempts + 1 < job.max_attempts
}

/// After running a job: acknowledge it when it succeeded; otherwise requeue it while attempts
/// remain, else move it to the failed queue. A job whose attempt counter is at its end has no
/// attempt left, so it fails rather than being requeued.
pub fn after_run(job: &JobEnvelope, succeeded: bool) -> (r: QueueAction)
    ensures
        succeeded ==> r is Complete,
        !succeeded ==> (r is Retry <==> retries(*job)),
        !succeeded ==> (r is Fail <==> !retries(*job)),
        r is Retry ==> job.attempts < u32::MAX,
{
    if succeeded {
        QueueAction::Complete
    } else if job.max_attempts > 0 && job.attempts < job.max_attempts - 1 {
        QueueAction::Retry
    } else {
        QueueAction::Fail
    }
}

/// The job as it is requeued: one attempt more, stamped with the given time.
pub fn retried(reserved: ReservedJob, now: String) -> (r: JobEnvelope)
    requires
        reserved.job.attempts < u32::MAX,
    ensures
        r.attempts == reserved.job.attempts + 1,
        r.updated_at == now,
        r.id == reserved.job.id && r.kind == reserved.job.kind && r.payload == reserved.job.payload,
        r.max_attempts == reserved.job.max_attempts && r.created_at == reserved.job.created_at,
{
    let mut job = reserved.job;
    job.attempts = job.attempts + 1;
    job.updated_at = now;
    job
}

/// The record of a job that ran out of attempts.
pub fn failed(reserved: ReservedJob, error: String, now: String) -> (r: FailedJob)
    ensures
        r.job == reserved.job,
        r.error == error,
        r.failed_at == now,
{
    FailedJob { job: reserved.job, error, failed_at: now }
}

/// How many times a job is run, from its current attempt count, when every run fails: once,
/// and again for as long as `after_run` requeues it (which `retried` does with one attempt
/// more).
pub open spec fn failing_runs(attempts: int, max_attempts: int) -> int
    decreases max_attempts - attempts,
{
    if attempts + 1 < max_attempts {
        1 + failing_runs(attempts + 1, max_attempts)
    } else {
        1
    }
}

/// A job that always fails is run `max_attempts` times in all, counting the runs it already
/// had, and then moved to the failed queue: from `attempts` earlier runs it has
/// `max_attempts - attempts` runs left, and at least one. A new job (no runs yet) is run
/// `max(max_attempts, 1)` times.
pub proof fn law_failing_job_runs(job: JobEnvelope)
    ensures
        job.attempts < job.max_attempts ==> failing_runs(job.attempts as int, job.max_attempts as int)
            == job.max_attempts - job.attempts,
        job.attempts >= job.max_attempts ==> failing_runs(job.attempts as int, job.max_attempts as int) == 1,
        job.attempts == 0 ==> failing_runs(0, job.max_attempts as int) == if job.max_attempts < 1 {
            1
        } else {
            job.max_attempts as int
        },
{
    lemma_failing_runs(job.attempts as int, job.max_attempts as int);
    lemma_failing_runs(0, job.max_attempts as int);
}

proof fn lemma_failing_runs(a: int, m: int)
    ensures
        a < m ==> failing_runs(a, m) == m - a,
        a >= m ==> failing_runs(a, m) == 1,
    decreases m - a,
{
    if a + 1 < m {
        lemma_failing_runs(a + 1, m);
    }
}

/// A queued job has run fewer times than it may (a new job has run none of its
/// three, and a limit is at least one). After a failed run, `after_run`
/// requeues it only while that still holds for the requeued job, which has one
/// attempt more; otherwise it has used exactly its last attempt and goes to
/// the failed queue. So no job runs more than `max_attempts` times.
pub proof fn law_attempts_within_limit(job: JobEnvelope)
    requires
        job.attempts < job.max_attempts,
    ensures
        retries(job) ==> job.attempts + 1 < job.max_attempts,
        !retries(job) ==> job.attempts + 1 == job.max_attempts,
{
}

} // verus!
