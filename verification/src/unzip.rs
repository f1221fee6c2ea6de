//! What to do with one entry of an archive.
//!
//! Extraction takes the entries in the order of the archive. For each it
//! asks here what is to be done, does it, and asks at the checkpoint
//! whether to go on. Nothing here touches the file system: a plan names the
//! place below the destination at which a directory or a file is to be
//! made, and that place is a `SanitizedPath`.

use crate::encoding::ZipEncoding;
use crate::error::{ExtractError, Malformation};
use crate::inner_root::{inner_root, scan_from, ScanState};
use crate::inner_root_laws::lemma_scan_found;
use crate::interrupt::{interrupted, InterruptFlag};
use crate::path::{
    is_ignored, is_ignored_file, is_ignored_name, is_safe, joined, left_out, names_ignored,
    sanitize_path, sanitized, SanitizedPath,
};
use crate::path_laws::lemma_sanitized_within_root;
use crate::zip_ext::{
    decoded_name, earliest_of, ArchiveEntry, EntryView, LocalReading, ZipFileExt,
};
use vstd::prelude::*;
use vstd::string::StringExecFns;

verus! {

/// What is to be done with an entry, in specifications. `shown` is the
/// entry's whole path, which progress output shows; `target` is the path
/// below the destination, the inner root left out. Of an entry that is
/// left out progress output shows `name`: its whole path written out, or
/// its name as written where it has no safe path.
pub enum PlanView {
    /// Nothing: the entry is left out.
    Skip { name: Seq<char> },
    /// The directory `target` is made, with the directories above it.
    MakeDir { shown: Seq<Seq<char>>, target: Seq<Seq<char>> },
    /// The file `target` is made anew, in the directory above it, which is
    /// made first with the directories above it, and filled from the entry.
    WriteFile { shown: Seq<Seq<char>>, target: Seq<Seq<char>> },
}

/// What is to be done with an entry.
#[derive(Debug, PartialEq, Eq)]
pub enum EntryPlan {
    /// Nothing: the entry is left out.
    Skip { name: String },
    /// The directory `target` is made, with the directories above it.
    MakeDir { shown: SanitizedPath, target: SanitizedPath },
    /// The file `target` is made anew, in the directory above it, which is
    /// made first with the directories above it, and filled from the entry.
    WriteFile { shown: SanitizedPath, target: SanitizedPath },
}

impl View for EntryPlan {
    type V = PlanView;

    open spec fn view(&self) -> PlanView {
        match self {
            EntryPlan::Skip { name } => PlanView::Skip { name: name@ },
            EntryPlan::MakeDir { shown, target } => PlanView::MakeDir {
                shown: shown@,
                target: target@,
            },
            EntryPlan::WriteFile { shown, target } => PlanView::WriteFile {
                shown: shown@,
                target: target@,
            },
        }
    }
}

/// The plan for an entry with the decoded name `name`, in an archive with
/// the inner root `root`. The ignore rule comes first: an entry that is
/// left out is skipped, wherever it lies, and also where its name is
/// rejected. A rejected name of any other entry is an error. Any other path
/// must lie under the inner root, and is made below the destination without
/// it.
pub open spec fn planned(name: Seq<char>, is_dir: bool, root: Seq<Seq<char>>) -> Result<
    PlanView,
    ExtractError,
> {
    match sanitized(name) {
        None => if names_ignored(name) {
            Ok(PlanView::Skip { name })
        } else {
            Err(ExtractError::MalformedArchive(Malformation::UnsafeName))
        },
        Some(p) => if is_ignored(p) {
            Ok(PlanView::Skip { name: joined(p) })
        } else if root.is_prefix_of(p) {
            let target = p.skip(root.len() as int);
            if is_dir {
                Ok(PlanView::MakeDir { shown: p, target })
            } else {
                Ok(PlanView::WriteFile { shown: p, target })
            }
        } else {
            Err(ExtractError::MalformedArchive(Malformation::OutsideRoot))
        },
    }
}

/// The line that tells a user of an entry: its whole path, or after the
/// word `Skip` what is shown of an entry that is left out.
pub open spec fn progress_text(plan: PlanView) -> Seq<char> {
    match plan {
        PlanView::Skip { name } => "Skip "@ + name,
        PlanView::MakeDir { shown, .. } => joined(shown),
        PlanView::WriteFile { shown, .. } => joined(shown),
    }
}

impl EntryPlan {
    /// The line that tells a user of the entry.
    pub fn progress_line(&self) -> (res: String)
        ensures
            res@ == progress_text(self@),
    {
        match self {
            EntryPlan::Skip { name } => {
                let mut line = "Skip ".to_owned();
                line.append(name.as_str());
                line
            },
            EntryPlan::MakeDir { shown, .. } => shown.display(),
            EntryPlan::WriteFile { shown, .. } => shown.display(),
        }
    }
}

/// The line that tells a user of an entry at which the archive fails: the
/// entry's whole path after the word `Skip` where the entry lies outside
/// the inner root, and none where its name is rejected.
pub open spec fn rejection_text(name: Seq<char>, error: ExtractError) -> Option<Seq<char>> {
    match (error, sanitized(name)) {
        (ExtractError::MalformedArchive(Malformation::OutsideRoot), Some(p)) => Some(
            "Skip "@ + joined(p),
        ),
        _ => None,
    }
}

/// The line that tells a user of the entry with the decoded name `name`,
/// at which the archive fails with `error`, if there is one to tell.
pub fn rejection_line(name: &str, error: ExtractError) -> (res: Option<String>)
    ensures
        match res {
            Some(line) => rejection_text(name@, error) == Some(line@),
            None => rejection_text(name@, error) is None,
        },
{
    match error {
        ExtractError::MalformedArchive(Malformation::OutsideRoot) => match sanitize_path(name) {
            Some(path) => {
                let mut line = "Skip ".to_owned();
                line.append(path.display().as_str());
                Some(line)
            },
            None => None,
        },
        _ => None,
    }
}

/// The place of a target as a path to hand to the file system: the
/// segments with `/` between them, and `.` for the destination itself.
pub open spec fn placed(target: Seq<Seq<char>>) -> Seq<char> {
    if target.len() == 0 {
        "."@
    } else {
        joined(target)
    }
}

/// The place of a target as a path to hand to the file system, relative to
/// the destination.
pub fn place(target: &SanitizedPath) -> (res: String)
    ensures
        res@ == placed(target@),
{
    if target.is_empty() {
        ".".to_owned()
    } else {
        target.display()
    }
}

/// Plans an entry given by its decoded name and its kind.
pub fn plan_entry(name: &str, is_dir: bool, root: &SanitizedPath) -> (res: Result<
    EntryPlan,
    ExtractError,
>)
    ensures
        match res {
            Ok(plan) => planned(name@, is_dir, root@) == Ok::<PlanView, ExtractError>(plan@),
            Err(e) => planned(name@, is_dir, root@) == Err::<PlanView, ExtractError>(e),
        },
{
    let shown = match sanitize_path(name) {
        Some(path) => path,
        None => {
            if is_ignored_name(name) {
                return Ok(EntryPlan::Skip { name: name.to_owned() });
            }
            return Err(ExtractError::MalformedArchive(Malformation::UnsafeName));
        },
    };
    if is_ignored_file(&shown) {
        return Ok(EntryPlan::Skip { name: shown.display() });
    }
    match shown.strip_prefix(root) {
        Some(target) => {
            if is_dir {
                Ok(EntryPlan::MakeDir { shown, target })
            } else {
                Ok(EntryPlan::WriteFile { shown, target })
            }
        },
        None => Err(ExtractError::MalformedArchive(Malformation::OutsideRoot)),
    }
}

/// Plans an entry of an archive whose names are read in `encoding` and
/// whose inner root is `root`.
pub fn unzip(entry: &ArchiveEntry, root: &SanitizedPath, encoding: ZipEncoding) -> (res: Result<
    EntryPlan,
    ExtractError,
>)
    ensures
        match res {
            Ok(plan) => planned(decoded_name(entry@, encoding@), entry@.is_dir, root@) == Ok::<
                PlanView,
                ExtractError,
            >(plan@),
            Err(e) => planned(decoded_name(entry@, encoding@), entry@.is_dir, root@) == Err::<
                PlanView,
                ExtractError,
            >(e),
        },
{
    let name = entry.decoded_name_lossy(encoding);
    plan_entry(name.as_str(), entry.is_dir(), root)
}

/// The instant to set as the time of the last change of what an entry
/// gave, in seconds since the start of 1970 in UTC, given what the local
/// clock said of the entry's stored time: of two instants the earlier, and
/// `None` where there is none, in which case no time is set.
pub fn modified_instant(reading: &LocalReading) -> (res: Option<i64>)
    ensures
        res == earliest_of(reading.instants),
{
    reading.instants.earliest()
}

/// Whether extraction goes on, given whether the interrupt flag was seen
/// raised.
pub open spec fn checked(raised: bool) -> Result<(), ExtractError> {
    if raised {
        Err(ExtractError::Interrupted)
    } else {
        Ok(())
    }
}

/// The checkpoint after an entry, given whether the interrupt flag was
/// seen raised.
pub fn after_entry(raised: bool) -> (res: Result<(), ExtractError>)
    ensures
        res == checked(raised),
{
    if raised {
        Err(ExtractError::Interrupted)
    } else {
        Ok(())
    }
}

/// The checkpoint after an entry: asks the flag, and fails with
/// `Interrupted` where the holder sees it raised. A holder that has seen
/// the flag raised before fails at every checkpoint.
pub fn checkpoint(flag: &mut InterruptFlag) -> (res: Result<(), ExtractError>)
    ensures
        res == checked(final(flag).seen_raised()),
        old(flag).seen_raised() ==> final(flag).seen_raised(),
{
    after_entry(interrupted(flag))
}

/// Nothing is made outside the destination, and nothing at all for an
/// entry that is left out. An entry is skipped exactly where it is left
/// out. Of any other entry the place that a plan names is made of plain
/// segments alone, and the inner root followed by that place is the
/// entry's path.
pub proof fn lemma_planned_within_destination(name: Seq<char>, is_dir: bool, root: Seq<Seq<char>>)
    ensures
        planned(name, is_dir, root) matches Ok(PlanView::Skip { .. }) <==> left_out(name),
        match planned(name, is_dir, root) {
            Ok(PlanView::Skip { name: told }) => told == match sanitized(name) {
                Some(p) => joined(p),
                None => name,
            },
            Ok(PlanView::MakeDir { shown, target }) => sanitized(name) == Some(shown) && is_safe(
                target,
            ) && root + target == shown,
            Ok(PlanView::WriteFile { shown, target }) => sanitized(name) == Some(shown) && is_safe(
                target,
            ) && root + target == shown,
            Err(_) => true,
        },
{
    lemma_sanitized_within_root(name);
}

/// A name that is rejected fails the archive only where the entry is not
/// left out: the ignore rule comes before the safety of the name.
pub proof fn lemma_ignored_names_are_exempt(name: Seq<char>, is_dir: bool, root: Seq<Seq<char>>)
    requires
        sanitized(name) is None,
    ensures
        names_ignored(name) ==> planned(name, is_dir, root) == Ok::<PlanView, ExtractError>(
            PlanView::Skip { name },
        ),
        !names_ignored(name) ==> planned(name, is_dir, root) == Err::<PlanView, ExtractError>(
            ExtractError::MalformedArchive(Malformation::UnsafeName),
        ),
{
}

/// The inner root that was found for an archive fits every entry of it: no
/// plan fails because an entry lies outside it. Where the inner root is not
/// empty, no plan fails at all.
pub proof fn lemma_inner_root_fits(
    entries: Seq<EntryView>,
    encoding: Option<Seq<char>>,
    root: Seq<Seq<char>>,
    i: int,
)
    requires
        inner_root(entries, encoding) == Ok::<Seq<Seq<char>>, ExtractError>(root),
        0 <= i < entries.len(),
    ensures
        planned(decoded_name(entries[i], encoding), entries[i].is_dir, root) != Err::<
            PlanView,
            ExtractError,
        >(ExtractError::MalformedArchive(Malformation::OutsideRoot)),
        root.len() > 0 ==> planned(decoded_name(entries[i], encoding), entries[i].is_dir, root) is Ok,
{
    if let ScanState::Found(found) = scan_from(ScanState::Seeking, entries, encoding) {
        lemma_scan_found(entries, encoding, found);
    }
}

} // verus!
