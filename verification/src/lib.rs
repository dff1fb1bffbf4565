//! A driver for build-time source generation.
//!
//! Given a root directory, a target extension and a transformation, the driver
//! finds the matching inputs, decides which outputs are stale, regenerates them
//! and reports failures with a source position.
//!
//! The crate performs no input or output itself. Every decision is a function
//! from plain values to plain values; the caller carries out the requested
//! file-system work and hands the answer back.
//!
//! - `span`, `file_text`: byte ranges of a source file, lines and columns,
//!   and the excerpt that marks a range.
//! - `path`: file names, extensions, and the path of the output of an input.
//! - `staleness`: whether an output has to be regenerated.
//! - `scanner`: the search for inputs below a root directory.
//! - `run`: a pass, as a conversation of actions and replies.
//! - `report`: what is printed for the outcome of a pass, and the status.
//! - `error`: the two ways in which a pass can fail.
//! - `tree`, `protocol`, `world`: what is proved of every scan and of every
//!   pass.

pub mod bytes;
pub mod error;
pub mod file_text;
pub mod path;
pub mod protocol;
pub mod report;
pub mod run;
pub mod scanner;
pub mod span;
pub mod staleness;
pub mod tree;
pub mod world;

pub use error::{Error, IoError, IoErrorKind};
pub use file_text::FileText;
pub use report::{report, Report};
pub use run::{process_dir, remove_old_file, Action, Phase, Processor, Reply, Run};
pub use scanner::{Entry, EntryKind, Scanner};
pub use span::Span;
pub use staleness::{decide, RebuildDecision};
