//! The errors of the library.

use vstd::prelude::*;

verus! {

/// Why a fetch, or a step that works on what was fetched, failed.
#[derive(Debug)]
pub enum FetchError {
    /// An account or a table is absent.
    NotFound,
    /// An account or an answer of the gateway is malformed.
    DeserializeError,
    /// No oracle returned a value. The errors that the oracles reported come
    /// with it, one for each answer.
    NoQuotesError(Vec<String>),
    /// An index lies outside the active addresses of a lookup table.
    InvalidIndex,
    /// A lookup table is deactivated.
    NotActive,
    /// The transport failed; its message comes with it.
    TransportError(String),
    /// No address could be derived for an account that the instruction names.
    NoProgramAddress,
    /// A step was handed an event that its state does not wait for.
    UnexpectedEvent,
}

/// The stages of a pipeline run.
#[derive(Clone, Copy, Debug, PartialEq, Eq, Structural)]
pub enum Stage {
    Start,
    LoadFeed,
    LoadJobSpec,
    CollectQuotes,
    BuildInstruction,
    ResolveLookupTables,
}

/// The failure of a pipeline run: the stage that failed and why.
#[derive(Debug)]
pub struct PipelineError {
    pub stage: Stage,
    pub error: FetchError,
}

} // verus!
