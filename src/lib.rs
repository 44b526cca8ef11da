//! Detection of known acronyms in batches of short messages, and the
//! bookkeeping that records each detection once per thread, message and
//! acronym.

pub mod cli;
pub mod detector;
pub mod models;
pub mod order;
pub mod pattern_index;
pub mod store;
pub mod text;
pub use cli::Cli;
pub use detector::{
    detect, scan_candidates, scan_known, Candidate, CandidateError, KnownScan, CANDIDATE_SHAPE,
};
pub use models::{Acronym, AcronymView, Message, MessageView, Occurance};
pub use order::{key_before, sort_by_key};
pub use pattern_index::{BuildError, PatternIndex};
pub use store::OccurrenceStore;
pub use text::{default_pattern, index_width, pattern_or_default, thread_of_link};
