use codechat_core::EngineAction;
use codechat_core::EngineEvent;
use codechat_core::JobState;
use codechat_core::SandboxError;
use codechat_core::SandboxJob;

/// In-memory stand-in for the container engine: it tracks which containers
/// exist and what the "program" prints.
struct FakeEngine {
    containers: Vec<String>,
    chunks: Vec<String>,
}

impl FakeEngine {
    fn new(chunks: Vec<String>) -> FakeEngine {
        FakeEngine { containers: Vec::new(), chunks }
    }

    fn create(&mut self, name: &str) {
        self.containers.push(String::from(name));
    }

    fn remove(&mut self, name: &str) {
        self.containers.retain(|c| c != name);
    }
}

/// Drives one job to completion against the fake engine. `hangs` simulates a
/// container that never exits: the driver's configured deadline then fires
/// and the wait reports a timeout instead of an exit.
fn drive(engine: &mut FakeEngine, job: SandboxJob, hangs: bool) -> Result<String, SandboxError> {
    let name = job.container_name.clone();
    let mut state = JobState::begin(job);
    let mut log_cursor: usize = 0;
    loop {
        match state.next_action() {
            EngineAction::Create => {
                engine.create(&name);
                state = state.step(EngineEvent::Created);
            }
            EngineAction::Start => {
                state = state.step(EngineEvent::Started);
            }
            EngineAction::Wait => {
                if hangs {
                    state = state.step(EngineEvent::TimedOut);
                } else {
                    state = state.step(EngineEvent::Exited);
                }
            }
            EngineAction::FetchLogs => {
                if log_cursor < engine.chunks.len() {
                    let text = engine.chunks[log_cursor].clone();
                    log_cursor += 1;
                    state = state.step(EngineEvent::LogChunk { text });
                } else {
                    state = state.step(EngineEvent::LogsDone);
                }
            }
            EngineAction::Remove => {
                engine.remove(&name);
                state = state.step(EngineEvent::Removed);
            }
            EngineAction::Finish => {
                return state.into_result();
            }
        }
    }
}

#[test]
fn python_job_resolves_to_fixed_template() {
    let job = codechat_core::job_for_language("python", "print(1+1)").unwrap();
    assert_eq!(job.image, "python:3.9-alpine");
    assert_eq!(job.argv, vec!["python", "-c", "print(1+1)"]);
}

#[test]
fn node_job_resolves_to_fixed_template() {
    let job = codechat_core::job_for_language("node", "console.log(2)").unwrap();
    assert_eq!(job.image, "node:18-alpine");
    assert_eq!(job.argv, vec!["node", "-e", "console.log(2)"]);
}

#[test]
fn job_names_are_distinct_across_jobs() {
    let a = codechat_core::job_for_language("python", "x").unwrap();
    let b = codechat_core::job_for_language("python", "x").unwrap();
    assert_ne!(a.container_name, b.container_name);
}

#[test]
fn unsupported_language_creates_nothing() {
    let mut engine = FakeEngine::new(vec![]);
    let r = codechat_core::job_for_language("ruby", "puts 1");
    assert_eq!(r.err(), Some(SandboxError::UnsupportedLanguage));
    // No job was admitted, so the engine never saw a container.
    assert!(engine.containers.is_empty());
    engine.create("unrelated");
    assert_eq!(engine.containers.len(), 1);
}

#[test]
fn disallowed_image_is_refused_before_any_container() {
    let r = codechat_core::job_for_image(String::from("ubuntu:latest"), vec![]);
    assert_eq!(r.err(), Some(SandboxError::PolicyViolation));
}

#[test]
fn execute_collects_output_and_removes_container() {
    let mut engine = FakeEngine::new(vec![String::from("2\n")]);
    let job = codechat_core::job_for_language("python", "print(1+1)").unwrap();
    let out = drive(&mut engine, job, false).unwrap();
    assert!(out.contains('2'));
    assert!(engine.containers.is_empty());
}

#[test]
fn output_chunks_keep_engine_order() {
    let mut engine = FakeEngine::new(vec![
        String::from("a"),
        String::from("b\n"),
        String::from("c"),
    ]);
    let job = codechat_core::job_for_language("node", "..." ).unwrap();
    let out = drive(&mut engine, job, false).unwrap();
    assert_eq!(out, "ab\nc");
}

#[test]
fn hanging_container_times_out_and_is_removed() {
    let mut engine = FakeEngine::new(vec![]);
    let job = codechat_core::job_for_language("python", "while True: pass").unwrap();
    let r = drive(&mut engine, job, true);
    assert_eq!(r.err(), Some(SandboxError::Timeout));
    assert!(engine.containers.is_empty());
}

#[test]
fn start_failure_still_removes_container() {
    let mut engine = FakeEngine::new(vec![]);
    let job = codechat_core::job_for_language("python", "x").unwrap();
    let name = job.container_name.clone();
    let mut state = JobState::begin(job);
    assert_eq!(state.next_action(), EngineAction::Create);
    engine.create(&name);
    state = state.step(EngineEvent::Created);
    assert_eq!(state.next_action(), EngineAction::Start);
    state = state.step(EngineEvent::StartFailed);
    // A container exists, so removal comes before the job can finish.
    assert_eq!(state.next_action(), EngineAction::Remove);
    engine.remove(&name);
    state = state.step(EngineEvent::Removed);
    assert_eq!(state.next_action(), EngineAction::Finish);
    assert_eq!(state.into_result().err(), Some(SandboxError::StartError));
    assert!(engine.containers.is_empty());
}

#[test]
fn create_failure_finishes_without_cleanup() {
    let job = codechat_core::job_for_language("python", "x").unwrap();
    let mut state = JobState::begin(job);
    assert_eq!(state.next_action(), EngineAction::Create);
    state = state.step(EngineEvent::CreateFailed);
    // Nothing was created, so nothing pends but the outcome.
    assert_eq!(state.next_action(), EngineAction::Finish);
    assert_eq!(state.into_result().err(), Some(SandboxError::CreateError));
}

#[test]
fn log_read_error_is_kept_inline() {
    let job = codechat_core::job_for_language("python", "x").unwrap();
    let mut state = JobState::begin(job);
    state = state.step(EngineEvent::Created);
    state = state.step(EngineEvent::Started);
    state = state.step(EngineEvent::Exited);
    state = state.step(EngineEvent::LogChunk { text: String::from("partial") });
    state = state.step(EngineEvent::LogReadFailed { message: String::from("boom") });
    state = state.step(EngineEvent::LogChunk { text: String::from("!") });
    state = state.step(EngineEvent::LogsDone);
    state = state.step(EngineEvent::Removed);
    let out = state.into_result().unwrap();
    assert_eq!(out, "partialError reading logs: boom!");
}

#[test]
fn removal_failure_is_swallowed() {
    let job = codechat_core::job_for_language("python", "print(7)").unwrap();
    let mut state = JobState::begin(job);
    state = state.step(EngineEvent::Created);
    state = state.step(EngineEvent::Started);
    state = state.step(EngineEvent::Exited);
    state = state.step(EngineEvent::LogChunk { text: String::from("7\n") });
    state = state.step(EngineEvent::LogsDone);
    state = state.step(EngineEvent::RemoveFailed);
    // The outcome stands even though cleanup failed.
    assert_eq!(state.into_result().unwrap(), "7\n");
}

#[test]
fn memory_limit_is_fixed() {
    assert_eq!(codechat_core::SANDBOX_MEMORY_LIMIT_BYTES, 134217728);
    assert_eq!(codechat_core::sandbox_network_mode(), "none");
}
