//! How an extraction fails, and how it ends.

use vstd::prelude::*;

verus! {

/// What is wrong with a malformed archive.
#[derive(Clone, Copy, Debug, PartialEq, Eq, Structural)]
pub enum Malformation {
    /// An entry's name is rejected: it climbs above the directory that the
    /// archive is extracted to, or names something with a NUL in it.
    UnsafeName,
    /// An entry lies outside the inner root that the archive was found to
    /// have.
    OutsideRoot,
}

/// Why the extraction of an archive fails.
#[derive(Clone, Copy, Debug, PartialEq, Eq, Structural)]
pub enum ExtractError {
    /// The archive holds an entry that cannot be extracted safely.
    MalformedArchive(Malformation),
    /// The encoding that was asked for is not known.
    UnknownEncoding,
    /// The interrupt flag was seen raised.
    Interrupted,
    /// The file system or a stream failed.
    IoFailure,
}

/// How the extraction of one archive ends.
#[derive(Clone, Copy, Debug, PartialEq, Eq, Structural)]
pub enum Outcome {
    /// The archive was extracted and stands in its place.
    Success,
    /// The extraction was interrupted; archives that follow are not begun.
    Interrupted,
    /// The extraction failed.
    Failed(ExtractError),
}

/// The outcome that a result stands for.
pub open spec fn outcome_of(result: Result<(), ExtractError>) -> Outcome {
    match result {
        Ok(()) => Outcome::Success,
        Err(ExtractError::Interrupted) => Outcome::Interrupted,
        Err(e) => Outcome::Failed(e),
    }
}

impl Outcome {
    /// The outcome that the result of an extraction stands for: an
    /// interruption is told apart from every other failure.
    pub fn of(result: Result<(), ExtractError>) -> (res: Outcome)
        ensures
            res == outcome_of(result),
            res is Success <==> result is Ok,
            res is Interrupted <==> result == Err::<(), ExtractError>(ExtractError::Interrupted),
    {
        match result {
            Ok(()) => Outcome::Success,
            Err(ExtractError::Interrupted) => Outcome::Interrupted,
            Err(e) => Outcome::Failed(e),
        }
    }
}

} // verus!
