use vstd::prelude::*;

verus! {

/// The operations the command line offers.
pub enum Cli {
    /// Add an acronym; without a pattern it is matched as a whole word.
    AddAcronym { key: String, regex: Option<String> },
    /// Replace the given fields of the acronym with identifier `id`.
    EditAcronym { id: i32, key: Option<String>, regex: Option<String>, value: Option<String> },
    /// Remove the acronym with identifier `id`.
    RemoveAcronym { id: i32 },
    /// List the vocabulary in order of keys.
    ListAcronyms,
    /// List tokens of acronym shape in recent messages.
    RecentCandidates,
    /// Detect and record known acronyms in recent messages.
    ParseRecent,
    /// List the acronyms recorded for a thread.
    ExpandThread { thread_id: String },
}

} // verus!
