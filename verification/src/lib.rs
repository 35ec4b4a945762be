//! Counting the bytes, lines, words and characters of texts, with the
//! records, the formatting and the command logic of a `wc`-like tool.
//!
//! The library does no reading and no printing. `text` counts, `record`
//! holds and adds counts and formats a line, `process` makes the record of a
//! source, and `driver` is the command as a state machine whose host reads
//! and prints. `run` states what a whole run prints and returns.

pub mod args;
pub mod decimal;
pub mod driver;
pub mod errors;
pub mod process;
pub mod record;
pub mod run;
pub mod text;
pub mod utils;

pub use args::Args;
pub use driver::{Driver, OutputLine, Request, Response};
pub use errors::ProcessFileError;
pub use process::{process_content, process_file, FileOutcome};
pub use record::WcResult;
pub use utils::{error_line, is_file_path_valid, path_validity};
