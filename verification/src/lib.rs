//! A sink that renders match results as newline-delimited JSON records.
//!
//! Results pass a visibility filter, are rendered according to an output
//! mode, and are appended to a guarded stream one complete line at a time.
//! Workflow outcomes are kept by a status manager that always holds the
//! latest report.

pub mod diagnostics;
pub mod error;
pub mod json;
pub mod level;
pub mod messager;
pub mod mode;
pub mod record;
pub mod render;
pub mod sink;
pub mod stream;
pub mod workflow;

pub use diagnostics::SimpleLogMessage;
pub use error::EmitError;
pub use level::VisibilityLevel;
pub use messager::Messager;
pub use mode::OutputMode;
pub use record::{Field, MatchResult};
pub use sink::JSONLineMessenger;
pub use stream::LineStream;
pub use workflow::{PackagedWorkflowOutcome, StatusManager};
