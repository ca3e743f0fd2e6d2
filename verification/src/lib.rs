//! Converts heterogeneous bank-exported transaction tables into a normalized
//! transaction record set and renders it as a plain-text accounting ledger,
//! optionally annotating entries with categories from regex-to-label mappings.

use vstd::prelude::*;

pub mod amount;
pub mod bank_statement;
pub mod banks;
pub mod date;
pub mod digits;
pub mod grid;
pub mod render;

verus! {

/// The errors a pipeline run can end with.
///
/// Date-field malformation is deliberately not an error: a date that cannot
/// be parsed is replaced by the run's default date.
#[derive(Debug, Clone, PartialEq, Eq)]
pub enum BetlError {
    /// A required layout parameter (the sheet name) is missing for a bank
    /// that mandates it.
    Configuration,
    /// The source file is missing, unreadable, or not a recognized container.
    SourceUnreadable,
    /// The named worksheet/section is absent from the container.
    SectionNotFound(String),
    /// The amount field of the given row could not be parsed.
    Decode(usize),
    /// The given category-mapping key is not a valid regex.
    Pattern(String),
}

} // verus!
