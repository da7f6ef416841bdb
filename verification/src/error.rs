use vstd::prelude::*;

verus! {

/// Why a call failed.  No error is retried internally: every failure aborts
/// the current call cleanly and is reported to the caller.
#[derive(Clone, Copy, Debug, PartialEq, Eq, Structural)]
pub enum FetchError {
    /// The file or its index could not be opened or read.
    CannotOpen,
    /// The requested reference name is absent from the file's catalog.
    InvalidReference,
    /// The requested interval has malformed bounds.
    InvalidInterval,
    /// A record in the stream failed to decode; the whole call is aborted.
    RecordDecodeError,
    /// More than 256 distinct reference names occurred in one query.
    DictionaryOverflow,
    /// An internal invariant was violated while assembling or serializing
    /// the batch; correct builder logic never produces it.
    SchemaMismatch,
}

} // verus!
