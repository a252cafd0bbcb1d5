//! Orchestration core for building an extension package inside an ephemeral
//! container: the build arguments, the license-path normalisation, the
//! numbered-backup placement policy for license files, and the step-by-step
//! state machine that decides which engine call comes next.
pub mod error;
pub mod args;
pub mod license;
pub mod placement;
pub mod pipeline;
pub mod orchestrator;
