//! Sandboxed execution engine: one untrusted snippet runs to completion in a
//! fresh, isolated, resource-bounded container, with guaranteed cleanup.
//!
//! The container engine itself is an external collaborator reached over an
//! asynchronous connection, so the engine-facing side of a job is modelled
//! here as a verified state machine. The caller's driver loop asks
//! `next_action` what to do, performs that one engine call, and feeds the
//! outcome back through `step`. The transition relation `spec_step` pins
//! every move: policy is checked before a job exists, a timeout or start
//! failure routes through `Removing` so the container is always removed
//! before the job can finish, and log chunks are concatenated in
//! engine-delivered order, with read errors appended inline rather than
//! propagated.
use vstd::prelude::*;

use crate::policy::spec_image_allowed;
use crate::policy::str_eq;
use crate::policy::SecurityPolicy;

verus! {

/// Memory ceiling of every sandbox container, in bytes.
pub const SANDBOX_MEMORY_LIMIT_BYTES: i64 = 128 * 1024 * 1024;

/// The network mode of every sandbox container: no network namespace is
/// reachable from inside.
pub fn sandbox_network_mode() -> (s: &'static str)
    ensures
        s@ == "none"@,
{
    "none"
}

/// Why a sandbox job failed.
#[derive(Clone, Copy, Debug, PartialEq, Eq, Structural)]
pub enum SandboxError {
    /// The requested language has no image/argv template.
    UnsupportedLanguage,
    /// The resolved image is not in the allowed-image set.
    PolicyViolation,
    /// The engine could not create the container; nothing was started.
    CreateError,
    /// The engine created the container but could not start it.
    StartError,
    /// The configured deadline passed before the container exited.
    Timeout,
}

/// The fixed description of each failure.
pub open spec fn spec_error_message(e: SandboxError) -> Seq<char> {
    match e {
        SandboxError::UnsupportedLanguage => "Unsupported language"@,
        SandboxError::PolicyViolation => "Security Violation: image is not allowed"@,
        SandboxError::CreateError => "Failed to create container"@,
        SandboxError::StartError => "Failed to start container"@,
        SandboxError::Timeout => "Sandbox execution timed out"@,
    }
}

impl SandboxError {
    /// A human-readable description of the failure.
    pub fn message(&self) -> (r: &'static str)
        ensures
            r@ == spec_error_message(*self),
    {
        match self {
            SandboxError::UnsupportedLanguage => "Unsupported language",
            SandboxError::PolicyViolation => "Security Violation: image is not allowed",
            SandboxError::CreateError => "Failed to create container",
            SandboxError::StartError => "Failed to start container",
            SandboxError::Timeout => "Sandbox execution timed out",
        }
    }
}

/// One request to run an untrusted snippet: the resolved image, the full
/// argument vector (the user's code is a single direct process argument —
/// no shell is involved), and a per-job container name.
pub struct SandboxJob {
    pub image: String,
    pub argv: Vec<String>,
    pub container_name: String,
}

/// The mathematical value of a job.
pub struct JobModel {
    pub image: Seq<char>,
    pub argv: Seq<Seq<char>>,
    pub container_name: Seq<char>,
}

impl JobModel {
    /// The job's image passed the security policy.
    pub open spec fn wf(self) -> bool {
        spec_image_allowed(self.image)
    }
}

impl View for SandboxJob {
    type V = JobModel;

    open spec fn view(&self) -> JobModel {
        JobModel {
            image: self.image@,
            argv: self.argv.deep_view(),
            container_name: self.container_name@,
        }
    }
}

/// Relies on `uuid::Uuid::new_v4` (rendered in its hyphenated form): a
/// random, collision-resistant identifier per job, so containers of
/// concurrent jobs never share a name. Nothing can be promised of a random
/// value.
#[verifier::external_body]
fn fresh_container_name() -> String {
    format!("sandbox_{}", uuid::Uuid::new_v4())
}

/// Gate and package one job. The image must pass the security policy
/// *before* any container exists: on denial the job is refused with
/// `PolicyViolation` and nothing else happens.
pub fn job_for_image(image: String, argv: Vec<String>) -> (r: Result<SandboxJob, SandboxError>)
    ensures
        r is Ok <==> spec_image_allowed(image@),
        !spec_image_allowed(image@) ==> r == Err::<SandboxJob, SandboxError>(
            SandboxError::PolicyViolation,
        ),
        r matches Ok(j) ==> j.image == image && j.argv == argv && j@.wf(),
{
    if !SecurityPolicy::is_image_allowed(image.as_str()) {
        return Err(SandboxError::PolicyViolation);
    }
    let container_name = fresh_container_name();
    Ok(SandboxJob { image, argv, container_name })
}

/// Resolve a language to its fixed image and argv template:
/// `python` runs `python -c <code>` on `python:3.9-alpine`, `node` runs
/// `node -e <code>` on `node:18-alpine`. Anything else is refused with
/// `UnsupportedLanguage` before any container exists. The code string is
/// passed through raw, as one argument.
pub fn job_for_language(language: &str, code: &str) -> (r: Result<SandboxJob, SandboxError>)
    ensures
        r is Ok <==> (language@ == "python"@ || language@ == "node"@),
        !(language@ == "python"@ || language@ == "node"@) ==> r == Err::<
            SandboxJob,
            SandboxError,
        >(SandboxError::UnsupportedLanguage),
        language@ == "python"@ ==> (r matches Ok(j) && j.image@ == "python:3.9-alpine"@
            && j.argv.deep_view() == seq!["python"@, "-c"@, code@]),
        language@ == "node"@ ==> (r matches Ok(j) && j.image@ == "node:18-alpine"@
            && j.argv.deep_view() == seq!["node"@, "-e"@, code@]),
        r matches Ok(j) ==> j@.wf(),
{
    proof {
        reveal_strlit("python");
        reveal_strlit("node");
        assert("python"@.len() != "node"@.len());
    }
    if str_eq(language, "python") {
        let image = String::from_str("python:3.9-alpine");
        let mut argv: Vec<String> = Vec::new();
        argv.push(String::from_str("python"));
        argv.push(String::from_str("-c"));
        argv.push(String::from_str(code));
        proof {
            assert(argv.deep_view() =~= seq!["python"@, "-c"@, code@]);
        }
        job_for_image(image, argv)
    } else if str_eq(language, "node") {
        let image = String::from_str("node:18-alpine");
        let mut argv: Vec<String> = Vec::new();
        argv.push(String::from_str("node"));
        argv.push(String::from_str("-e"));
        argv.push(String::from_str(code));
        proof {
            assert(argv.deep_view() =~= seq!["node"@, "-e"@, code@]);
        }
        job_for_image(image, argv)
    } else {
        Err(SandboxError::UnsupportedLanguage)
    }
}

/// What the driver must ask the engine to do next.
#[derive(Clone, Copy, Debug, PartialEq, Eq, Structural)]
pub enum EngineAction {
    /// Create the job's container: its image, its argv, network disabled,
    /// memory capped at `SANDBOX_MEMORY_LIMIT_BYTES`.
    Create,
    /// Start the created container.
    Start,
    /// Block until the engine reports the container has exited, or until
    /// the caller's configured deadline passes.
    Wait,
    /// Read the next chunk of combined stdout and stderr.
    FetchLogs,
    /// Forcibly remove the container, best effort.
    Remove,
    /// Nothing further: the job's outcome is available.
    Finish,
}

/// What the engine reported back for the action just performed.
pub enum EngineEvent {
    /// The container was created.
    Created,
    /// The container could not be created; nothing exists to clean up.
    CreateFailed,
    /// The container started executing the command.
    Started,
    /// The created container could not be started.
    StartFailed,
    /// The container exited on its own.
    Exited,
    /// The caller's deadline passed while waiting; only reported when a
    /// timeout was configured — without one the wait simply blocks.
    TimedOut,
    /// One chunk of combined stdout/stderr, in engine-delivered order.
    LogChunk { text: String },
    /// Reading the log stream failed mid-way; the error text is kept as
    /// part of the output rather than surfaced as a distinct error.
    LogReadFailed { message: String },
    /// The log stream is exhausted.
    LogsDone,
    /// The container was removed.
    Removed,
    /// Removal failed; the failure is swallowed, the outcome stands.
    RemoveFailed,
}

/// The mathematical value of an engine event.
pub enum EventModel {
    Created,
    CreateFailed,
    Started,
    StartFailed,
    Exited,
    TimedOut,
    LogChunk { text: Seq<char> },
    LogReadFailed { message: Seq<char> },
    LogsDone,
    Removed,
    RemoveFailed,
}

impl View for EngineEvent {
    type V = EventModel;

    open spec fn view(&self) -> EventModel {
        match *self {
            EngineEvent::Created => EventModel::Created,
            EngineEvent::CreateFailed => EventModel::CreateFailed,
            EngineEvent::Started => EventModel::Started,
            EngineEvent::StartFailed => EventModel::StartFailed,
            EngineEvent::Exited => EventModel::Exited,
            EngineEvent::TimedOut => EventModel::TimedOut,
            EngineEvent::LogChunk { text } => EventModel::LogChunk { text: text@ },
            EngineEvent::LogReadFailed { message } => EventModel::LogReadFailed {
                message: message@,
            },
            EngineEvent::LogsDone => EventModel::LogsDone,
            EngineEvent::Removed => EventModel::Removed,
            EngineEvent::RemoveFailed => EventModel::RemoveFailed,
        }
    }
}

/// Where one job stands. The phases follow the job lifecycle:
/// created, started, awaited, logs collected, removed — with failures
/// routed either straight to `Done` (nothing was created) or through
/// `Removing` (a container exists and must be cleaned up first).
pub enum JobState {
    /// Waiting for the engine to create the container.
    Creating { job: SandboxJob },
    /// The container exists; waiting for it to start.
    Starting { job: SandboxJob },
    /// The container is running; waiting for it to exit.
    Awaiting { job: SandboxJob },
    /// Collecting combined stdout/stderr, one chunk at a time.
    Collecting { job: SandboxJob, output: String },
    /// The outcome is settled; the container is being removed.
    Removing { job: SandboxJob, result: Result<String, SandboxError> },
    /// Terminal: the job's outcome.
    Done { result: Result<String, SandboxError> },
}

/// The mathematical value of a job state.
pub enum StateModel {
    Creating { job: JobModel },
    Starting { job: JobModel },
    Awaiting { job: JobModel },
    Collecting { job: JobModel, output: Seq<char> },
    Removing { job: JobModel, result: Result<Seq<char>, SandboxError> },
    Done { result: Result<Seq<char>, SandboxError> },
}

impl View for JobState {
    type V = StateModel;

    open spec fn view(&self) -> StateModel {
        match *self {
            JobState::Creating { job } => StateModel::Creating { job: job@ },
            JobState::Starting { job } => StateModel::Starting { job: job@ },
            JobState::Awaiting { job } => StateModel::Awaiting { job: job@ },
            JobState::Collecting { job, output } => StateModel::Collecting {
                job: job@,
                output: output@,
            },
            JobState::Removing { job, result } => StateModel::Removing {
                job: job@,
                result: match result {
                    Ok(s) => Ok(s@),
                    Err(e) => Err(e),
                },
            },
            JobState::Done { result } => StateModel::Done {
                result: match result {
                    Ok(s) => Ok(s@),
                    Err(e) => Err(e),
                },
            },
        }
    }
}

/// The one engine call pending in each phase.
pub open spec fn spec_pending_action(s: StateModel) -> EngineAction {
    match s {
        StateModel::Creating { .. } => EngineAction::Create,
        StateModel::Starting { .. } => EngineAction::Start,
        StateModel::Awaiting { .. } => EngineAction::Wait,
        StateModel::Collecting { .. } => EngineAction::FetchLogs,
        StateModel::Removing { .. } => EngineAction::Remove,
        StateModel::Done { .. } => EngineAction::Finish,
    }
}

/// Which engine reports can answer the pending call of each phase.
pub open spec fn spec_event_fits(s: StateModel, e: EventModel) -> bool {
    match s {
        StateModel::Creating { .. } => e is Created || e is CreateFailed,
        StateModel::Starting { .. } => e is Started || e is StartFailed,
        StateModel::Awaiting { .. } => e is Exited || e is TimedOut,
        StateModel::Collecting { .. } => e is LogChunk || e is LogReadFailed || e is LogsDone,
        StateModel::Removing { .. } => e is Removed || e is RemoveFailed,
        StateModel::Done { .. } => false,
    }
}

/// The transition relation of one job. Events that cannot answer the
/// phase's pending call leave the state unchanged.
pub open spec fn spec_step(s: StateModel, e: EventModel) -> StateModel {
    match (s, e) {
        (StateModel::Creating { job }, EventModel::Created) => StateModel::Starting { job },
        (
            StateModel::Creating { job },
            EventModel::CreateFailed,
        ) => StateModel::Done { result: Err(SandboxError::CreateError) },
        (StateModel::Starting { job }, EventModel::Started) => StateModel::Awaiting { job },
        (
            StateModel::Starting { job },
            EventModel::StartFailed,
        ) => StateModel::Removing { job, result: Err(SandboxError::StartError) },
        (
            StateModel::Awaiting { job },
            EventModel::Exited,
        ) => StateModel::Collecting { job, output: Seq::empty() },
        (
            StateModel::Awaiting { job },
            EventModel::TimedOut,
        ) => StateModel::Removing { job, result: Err(SandboxError::Timeout) },
        (
            StateModel::Collecting { job, output },
            EventModel::LogChunk { text },
        ) => StateModel::Collecting { job, output: output + text },
        (
            StateModel::Collecting { job, output },
            EventModel::LogReadFailed { message },
        ) => StateModel::Collecting { job, output: output + "Error reading logs: "@ + message },
        (
            StateModel::Collecting { job, output },
            EventModel::LogsDone,
        ) => StateModel::Removing { job, result: Ok(output) },
        (StateModel::Removing { result, .. }, EventModel::Removed) => StateModel::Done { result },
        (
            StateModel::Removing { result, .. },
            EventModel::RemoveFailed,
        ) => StateModel::Done { result },
        (other, _) => other,
    }
}

/// Every job mentioned by the state passed the security policy.
pub open spec fn spec_state_wf(s: StateModel) -> bool {
    match s {
        StateModel::Creating { job } => job.wf(),
        StateModel::Starting { job } => job.wf(),
        StateModel::Awaiting { job } => job.wf(),
        StateModel::Collecting { job, .. } => job.wf(),
        StateModel::Removing { job, .. } => job.wf(),
        StateModel::Done { .. } => true,
    }
}

impl JobState {
    /// Admits a policy-checked job to the engine: the driver's first
    /// pending call is `Create`. No job reaches the engine another way, so
    /// no container is ever created for an image the policy refused.
    pub fn begin(job: SandboxJob) -> (s: JobState)
        requires
            job@.wf(),
        ensures
            s@ == (StateModel::Creating { job: job@ }),
            spec_state_wf(s@),
    {
        JobState::Creating { job }
    }

    /// The engine call the driver must perform next.
    pub fn next_action(&self) -> (a: EngineAction)
        ensures
            a == spec_pending_action(self@),
    {
        match self {
            JobState::Creating { .. } => EngineAction::Create,
            JobState::Starting { .. } => EngineAction::Start,
            JobState::Awaiting { .. } => EngineAction::Wait,
            JobState::Collecting { .. } => EngineAction::FetchLogs,
            JobState::Removing { .. } => EngineAction::Remove,
            JobState::Done { .. } => EngineAction::Finish,
        }
    }

    /// Advances the job by one engine report.
    pub fn step(self, event: EngineEvent) -> (r: JobState)
        requires
            spec_event_fits(self@, event@),
        ensures
            r@ == spec_step(self@, event@),
    {
        match (self, event) {
            (JobState::Creating { job }, EngineEvent::Created) => JobState::Starting { job },
            (JobState::Creating { .. }, EngineEvent::CreateFailed) => JobState::Done {
                result: Err(SandboxError::CreateError),
            },
            (JobState::Starting { job }, EngineEvent::Started) => JobState::Awaiting { job },
            (JobState::Starting { job }, EngineEvent::StartFailed) => JobState::Removing {
                job,
                result: Err(SandboxError::StartError),
            },
            (JobState::Awaiting { job }, EngineEvent::Exited) => JobState::Collecting {
                job,
                output: String::new(),
            },
            (JobState::Awaiting { job }, EngineEvent::TimedOut) => JobState::Removing {
                job,
                result: Err(SandboxError::Timeout),
            },
            (JobState::Collecting { job, output }, EngineEvent::LogChunk { text }) => {
                let combined = output.concat(text.as_str());
                JobState::Collecting { job, output: combined }
            }
            (JobState::Collecting { job, output }, EngineEvent::LogReadFailed { message }) => {
                let mut combined = output;
                combined.append("Error reading logs: ");
                combined.append(message.as_str());
                JobState::Collecting { job, output: combined }
            }
            (JobState::Collecting { job, output }, EngineEvent::LogsDone) => JobState::Removing {
                job,
                result: Ok(output),
            },
            (JobState::Removing { result, .. }, EngineEvent::Removed) => JobState::Done { result },
            (JobState::Removing { result, .. }, EngineEvent::RemoveFailed) => JobState::Done {
                result,
            },
            (other, _) => other,
        }
    }

    /// Whether the job has reached its terminal phase.
    pub fn is_done(&self) -> (r: bool)
        ensures
            r == (self@ is Done),
    {
        matches!(self, JobState::Done { .. })
    }

    /// The outcome of a finished job.
    pub fn into_result(self) -> (r: Result<String, SandboxError>)
        requires
            self@ is Done,
        ensures
            match self@ {
                StateModel::Done { result } => match r {
                    Ok(s) => result == Ok::<Seq<char>, SandboxError>(s@),
                    Err(e) => result == Err::<Seq<char>, SandboxError>(e),
                },
                _ => false,
            },
    {
        match self {
            JobState::Done { result } => result,
            _ => {
                proof {
                    assert(false);
                }
                Err(SandboxError::CreateError)
            }
        }
    }
}

/// Cleanup is guaranteed: a job can only finish straight from `Creating`
/// when creation itself failed (no container exists), or out of `Removing`
/// (the removal call was already pending). A running, waiting or
/// log-collecting job can never jump to `Done` without passing through
/// `Removing`.
pub proof fn lemma_cleanup_before_done(s: StateModel, e: EventModel)
    requires
        spec_event_fits(s, e),
        spec_step(s, e) is Done,
    ensures
        s is Removing || (s is Creating && e is CreateFailed),
{
}

/// Entering `Removing` pends exactly one call: forcible removal of the
/// container. Together with `lemma_cleanup_before_done` this says every
/// created container has its removal requested before the job finishes.
pub proof fn lemma_removing_pends_removal(s: StateModel)
    requires
        s is Removing,
    ensures
        spec_pending_action(s) == EngineAction::Remove,
{
}

/// A configured deadline that fires while the job waits for the container
/// settles the outcome as `Timeout` and routes through removal: the
/// container does not outlive the job.
pub proof fn lemma_timeout_forces_removal(s: StateModel)
    requires
        s is Awaiting,
    ensures
        match s {
            StateModel::Awaiting { job } => spec_step(s, EventModel::TimedOut)
                == (StateModel::Removing { job, result: Err(SandboxError::Timeout) }),
            _ => true,
        },
        spec_pending_action(spec_step(s, EventModel::TimedOut)) == EngineAction::Remove,
{
}

/// The security policy holds along every run: no transition ever
/// introduces a job whose image the policy refused.
pub proof fn lemma_policy_preserved(s: StateModel, e: EventModel)
    requires
        spec_state_wf(s),
    ensures
        spec_state_wf(spec_step(s, e)),
{
}

/// The state after a whole trace of engine reports.
pub open spec fn spec_run(s: StateModel, events: Seq<EventModel>) -> StateModel
    decreases events.len(),
{
    if events.len() == 0 {
        s
    } else {
        spec_run(spec_step(s, events[0]), events.drop_first())
    }
}

/// A container exists for the job and its removal is not yet pending.
pub open spec fn spec_container_live(s: StateModel) -> bool {
    s is Starting || s is Awaiting || s is Collecting
}

proof fn lemma_run_take_shift(s: StateModel, events: Seq<EventModel>, j: int)
    requires
        0 <= j,
        j + 1 <= events.len(),
    ensures
        spec_run(s, events.take(j + 1)) == spec_run(
            spec_step(s, events[0]),
            events.drop_first().take(j),
        ),
{
    let t = events.take(j + 1);
    assert(t[0] == events[0]);
    assert(t.drop_first() =~= events.drop_first().take(j));
}

/// Cleanup holds along whole runs, whatever the engine reports: once a
/// container exists, the only road to `Done` passes through `Removing` —
/// some prefix of the trace leaves the job with removal pending.
pub proof fn lemma_run_cleanup(s: StateModel, events: Seq<EventModel>)
    requires
        spec_container_live(s),
        spec_run(s, events) is Done,
    ensures
        exists|i: int|
            0 <= i <= events.len() && spec_run(s, #[trigger] events.take(i)) is Removing,
    decreases events.len(),
{
    assert(events.len() > 0);
    let s1 = spec_step(s, events[0]);
    if s1 is Removing {
        lemma_run_take_shift(s, events, 0);
        assert(events.drop_first().take(0) =~= Seq::<EventModel>::empty());
        assert(spec_run(s, events.take(1)) is Removing);
    } else {
        assert(spec_container_live(s1));
        lemma_run_cleanup(s1, events.drop_first());
        let i = choose|i: int|
            0 <= i <= events.drop_first().len() && spec_run(
                s1,
                #[trigger] events.drop_first().take(i),
            ) is Removing;
        lemma_run_take_shift(s, events, i);
        assert(spec_run(s, events.take(i + 1)) is Removing);
    }
}

/// All chunks of a list, joined in order.
pub open spec fn spec_concat_chunks(chunks: Seq<Seq<char>>) -> Seq<char>
    decreases chunks.len(),
{
    if chunks.len() == 0 {
        Seq::empty()
    } else {
        chunks[0] + spec_concat_chunks(chunks.drop_first())
    }
}

/// Log collection preserves engine order: a job that receives a list of
/// log chunks holds exactly their concatenation, in the order the engine
/// delivered them.
pub proof fn lemma_logs_kept_in_order(job: JobModel, output: Seq<char>, chunks: Seq<Seq<char>>)
    ensures
        spec_run(
            StateModel::Collecting { job, output },
            chunks.map_values(|text: Seq<char>| EventModel::LogChunk { text }),
        ) == (StateModel::Collecting { job, output: output + spec_concat_chunks(chunks) }),
    decreases chunks.len(),
{
    let events = chunks.map_values(|text: Seq<char>| EventModel::LogChunk { text });
    if chunks.len() == 0 {
        assert(output + spec_concat_chunks(chunks) =~= output);
    } else {
        lemma_logs_kept_in_order(job, output + chunks[0], chunks.drop_first());
        assert(events.drop_first() =~= chunks.drop_first().map_values(
            |text: Seq<char>| EventModel::LogChunk { text },
        ));
        assert(output + chunks[0] + spec_concat_chunks(chunks.drop_first()) =~= output
            + spec_concat_chunks(chunks));
    }
}

/// The security policy holds after any trace of engine reports, however
/// the engine behaves.
pub proof fn lemma_policy_preserved_run(s: StateModel, events: Seq<EventModel>)
    requires
        spec_state_wf(s),
    ensures
        spec_state_wf(spec_run(s, events)),
    decreases events.len(),
{
    if events.len() == 0 {
    } else {
        lemma_policy_preserved(s, events[0]);
        lemma_policy_preserved_run(spec_step(s, events[0]), events.drop_first());
    }
}

} // verus!
