use vstd::prelude::*;

verus! {

/// What can go wrong when working with notes and their files.
#[derive(Debug, Clone, Copy, PartialEq, Eq, Structural)]
pub enum NoteError {
    /// The note has no loaded content to work on.
    EmptyNote,
    /// The note's content could not be encoded or decoded.
    SerializationFailure,
    /// The note's backing file could not be deleted.
    RemoveFailure,
    /// The note's backing file could not be written.
    WriteFailure,
    /// The notes folder could not be listed.
    ReadFailure,
}

} // verus!
