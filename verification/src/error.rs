use vstd::prelude::*;

verus! {

/// A failure while processing one event. Every failure aborts the remaining
/// steps for that event and is returned to the caller; no step swallows one.
#[derive(Clone, Copy, Debug, PartialEq, Eq, Structural)]
pub enum Error {
    /// The content of a profile-metadata event was not valid metadata JSON.
    MetadataParse,
    /// The system clock could not be read.
    Clock,
}

} // verus!
