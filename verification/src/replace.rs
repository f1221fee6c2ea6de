//! Putting an extracted archive in its place.
//!
//! An archive is extracted into a staging directory beside it. Only when
//! all of it is there does anything happen to the target: what stood there
//! is removed, and the staging directory is renamed to it. Where the
//! extraction failed or was interrupted, the staging directory is removed
//! and the target stays as it was.

use crate::error::ExtractError;
use crate::tempfile_utils::{relative_path, StagingDir, TempDirExt};
use vstd::prelude::*;
use vstd::string::StringExecFns;

verus! {

/// One change to the file system at the end of an extraction.
#[derive(Clone, Copy, Debug, PartialEq, Eq, Structural)]
pub enum Change {
    /// What stands at the target is removed, with all that it holds.
    RemoveTarget,
    /// The staging directory is renamed to the target.
    RenameStagingToTarget,
    /// The staging directory is removed, with all that it holds.
    RemoveStaging,
}

impl Change {
    /// Whether the change removes or replaces what stands at the target.
    pub open spec fn touches_target(self) -> bool {
        self is RemoveTarget || self is RenameStagingToTarget
    }

    /// Whether the change removes or moves the staging directory.
    pub open spec fn touches_staging(self) -> bool {
        self is RemoveStaging || self is RenameStagingToTarget
    }
}

/// The changes that end an extraction, in their order. After a failure the
/// staging directory is removed. After a success what stands at the target
/// is removed, where something stands there, and the staging directory is
/// renamed to the target.
pub open spec fn closing_changes(extracted: Result<(), ExtractError>, target_exists: bool) -> Seq<
    Change,
> {
    match extracted {
        Err(_) => seq![Change::RemoveStaging],
        Ok(()) => if target_exists {
            seq![Change::RemoveTarget, Change::RenameStagingToTarget]
        } else {
            seq![Change::RenameStagingToTarget]
        },
    }
}

/// The changes that end an extraction, in their order, given how the
/// extraction went and whether something stands at the target. After each
/// that was tried, `after_change` says whether the next is made.
pub fn finish(extracted: Result<(), ExtractError>, target_exists: bool) -> (res: Vec<Change>)
    ensures
        res@ == closing_changes(extracted, target_exists),
{
    let mut changes: Vec<Change> = Vec::new();
    match extracted {
        Err(_) => {
            changes.push(Change::RemoveStaging);
        },
        Ok(()) => {
            if target_exists {
                changes.push(Change::RemoveTarget);
            }
            changes.push(Change::RenameStagingToTarget);
        },
    }
    changes
}

/// An extraction that failed or was interrupted leaves the target as it
/// was: it removes the staging directory and makes no other change, so
/// none that touches the target.
pub proof fn lemma_failure_spares_target(e: ExtractError, target_exists: bool)
    ensures
        closing_changes(Err(e), target_exists) == seq![Change::RemoveStaging],
        forall|i: int|
            0 <= i < closing_changes(Err(e), target_exists).len() ==> !(#[trigger] closing_changes(
                Err(e),
                target_exists,
            )[i]).touches_target(),
{
}

/// The rename is the last step of an extraction that succeeded, and the
/// only one that touches the staging directory: until it is made, all that
/// was extracted stands in the staging directory. What comes before it is
/// at most the removal of what stood at the target, and that only where
/// something stood there.
pub proof fn lemma_success_renames_last(target_exists: bool)
    ensures
        closing_changes(Ok(()), target_exists).len() >= 1,
        closing_changes(Ok(()), target_exists).last() == Change::RenameStagingToTarget,
        forall|i: int|
            0 <= i < closing_changes(Ok(()), target_exists).len() - 1 ==> {
                &&& !(#[trigger] closing_changes(Ok(()), target_exists)[i]).touches_staging()
                &&& closing_changes(Ok(()), target_exists)[i] == Change::RemoveTarget
                &&& target_exists
            },
{
}

/// What a closing change that was tried means for the extraction. A
/// change to the target that fails is fatal: the extraction fails with
/// `IoFailure`, and no later change is made. The removal of the staging
/// directory follows an extraction that has failed already; whether it
/// succeeds or not, that failure is the one to report.
pub open spec fn change_result(change: Change, succeeded: bool) -> Result<(), ExtractError> {
    if !succeeded && change.touches_target() {
        Err(ExtractError::IoFailure)
    } else {
        Ok(())
    }
}

/// What follows a closing change that was tried: `Ok` where the closing
/// goes on, and the failure of the extraction where the change was to the
/// target and failed.
pub fn after_change(change: Change, succeeded: bool) -> (res: Result<(), ExtractError>)
    ensures
        res == change_result(change, succeeded),
{
    if succeeded {
        Ok(())
    } else {
        match change {
            Change::RemoveStaging => Ok(()),
            Change::RemoveTarget => Err(ExtractError::IoFailure),
            Change::RenameStagingToTarget => Err(ExtractError::IoFailure),
        }
    }
}

/// No failure at the end is passed over, and none hides another. After an
/// extraction that succeeded, every closing change that fails fails the
/// extraction. After one that failed, no closing change does, so the
/// failure of the extraction stays the one that is reported.
pub proof fn lemma_closing_failures_are_fatal(
    extracted: Result<(), ExtractError>,
    target_exists: bool,
    i: int,
)
    requires
        0 <= i < closing_changes(extracted, target_exists).len(),
    ensures
        extracted is Ok ==> change_result(closing_changes(extracted, target_exists)[i], false)
            == Err::<(), ExtractError>(ExtractError::IoFailure),
        extracted is Err ==> change_result(closing_changes(extracted, target_exists)[i], false)
            is Ok,
        change_result(closing_changes(extracted, target_exists)[i], true) is Ok,
{
}

/// The line that tells a user of the rename that puts an archive in its
/// place.
pub open spec fn rename_text(from: Seq<char>, to: Seq<char>) -> Seq<char> {
    "rename "@ + from + " -> "@ + to
}

/// Where an archive is staged and where it is to stand.
#[derive(Clone, Debug, PartialEq, Eq)]
pub struct ExtractionTarget {
    /// The staging directory.
    pub staging: StagingDir,
    /// The path at which the extracted archive is to stand.
    pub target: String,
}

impl ExtractionTarget {
    /// The line that tells a user of the rename, with the staging
    /// directory as seen from `working_dir`, a directory in canonical form.
    /// `None` where the staging directory cannot be shown from there.
    pub fn announcement(&self, working_dir: &str) -> (res: Option<String>)
        ensures
            match res {
                Some(line) => relative_path(self.staging@, working_dir@) matches Some(way)
                    && line@ == rename_text(way, self.target@),
                None => relative_path(self.staging@, working_dir@) is None,
            },
    {
        match self.staging.relative_path_from(working_dir) {
            Some(way) => {
                let mut line = "rename ".to_owned();
                line.append(way.as_str());
                line.append(" -> ");
                line.append(self.target.as_str());
                Some(line)
            },
            None => None,
        }
    }
}

} // verus!
