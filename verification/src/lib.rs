//! Verified core of a five-stage content-production workflow: the pipeline
//! state machine, the asynchronous job-handle model, the output log, the
//! marker-line extractor, and the settings store. All I/O (process spawning,
//! file dialogs, the UI) lives outside this crate and talks to it through
//! plain values.

pub mod datetime;
pub mod extract;
pub mod job;
pub mod laws;
pub mod log;
pub mod pipeline;
pub mod recent;
pub mod settings;
pub mod text;

pub use pipeline::Pipeline;
pub use pipeline::StepInfo;
pub use pipeline::StepStatus;
