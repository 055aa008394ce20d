//! Boundary layer of a desktop assistant: a security policy over navigation
//! targets and container images, a sandboxed execution engine modelled as a
//! verified state machine, and an automation orchestrator that frames
//! commands for an external worker process.
#![allow(unused_imports)]

use vstd::prelude::*;

mod auth;
mod openai;
mod orchestrator;
mod policy;
mod rag;
mod routing;
mod sandbox;
mod telemetry;
mod wire;

pub use auth::AccountInfo;
pub use auth::AuthManager;
pub use openai::build_messages;
pub use openai::Message;
pub use orchestrator::DispatchError;
pub use orchestrator::Orchestrator;
pub use policy::SecurityPolicy;
pub use rag::chunk_content;
pub use rag::split_paragraphs;
pub use rag::DocumentChunk;
pub use routing::action_for_model;
pub use routing::compose_prompt;
pub use routing::format_context;
pub use routing::greet;
pub use routing::select_model;
pub use routing::u64_to_string;
pub use sandbox::job_for_image;
pub use sandbox::job_for_language;
pub use sandbox::sandbox_network_mode;
pub use sandbox::EngineAction;
pub use sandbox::EngineEvent;
pub use sandbox::JobState;
pub use sandbox::SandboxError;
pub use sandbox::SandboxJob;
pub use sandbox::SANDBOX_MEMORY_LIMIT_BYTES;
pub use telemetry::TelemetryEvent;
pub use telemetry::TelemetryManager;
pub use wire::FieldValue;
pub use wire::Payload;
pub use wire::PayloadField;
