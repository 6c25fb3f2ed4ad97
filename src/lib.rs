//! Error annotation for high-level programs: a `Problem` carries an error's
//! message chain, the context it was met in and an optional backtrace, and
//! renders them as one line of text.

mod cause;
mod context;
mod convert;
mod failed;
mod logged;
mod occurrences;
mod problem;
mod trace;

pub use cause::{chain_text, Cause};
pub use context::{annotated, in_context_of, in_context_of_with, ProblemWhile};
pub use convert::{
    lemma_map_problem_or_renders, lemma_message_problem_renders, problem_mapped, problem_mapped_or,
    IntoProblem, MapProblem, MapProblemOr, OkOrProblem,
};
pub use failed::{
    failed_to_outcome, failure_message, failure_text, format_panic, missing_text, panic_text, FailedTo,
    FailedToIter, ProblemIter,
};
pub use logged::{
    continuing_text, logged_outcome, LogLevel, LogRecord, OkOrLog, OkOrLogIter, ProblemErrorLoggingIter,
    ProblemWarnLoggingIter,
};
pub use occurrences::{
    ends_with, lemma_context_chain_counts, lemma_context_chain_positions, occurrences, occurs_at, while_position,
};
pub use problem::{
    annotated_with, backtrace_text, context_text, lemma_context_chain, lemma_message_round_trip,
    lemma_render_repeatable, while_list, Problem, ProblemView,
};
pub use trace::{
    backtrace_switch, decimal, format_backtrace, format_frames, frames_text, is_capture, padded, symbol_text, symbols_text, SymbolInfo,
};
