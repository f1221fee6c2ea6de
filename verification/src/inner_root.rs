//! The directory that wraps a whole archive.
//!
//! Many archives hold all their entries under one directory. Where that is
//! so, that directory is the archive's inner root, and extraction leaves it
//! out. One pass over the entries finds it: the first entry that counts
//! gives the candidate, and a single entry that lies elsewhere, or at the
//! top of the archive, means that the archive has no inner root. What holds
//! of the search is proved in `inner_root_laws`.

use crate::encoding::ZipEncoding;
use crate::error::{ExtractError, Malformation};
use crate::inner_root_laws::{lemma_scan_concat, lemma_scan_settled};
use crate::path::{
    is_ignored, is_ignored_file, is_ignored_name, names_ignored, sanitize_path, sanitized,
    SanitizedPath,
};
use crate::zip_ext::{decoded_name, entry_views, ArchiveEntry, EntryView, ZipFileExt};
use vstd::prelude::*;

verus! {

/// How far the search for the inner root has come, in specifications.
pub enum ScanState {
    /// No entry has counted yet.
    Seeking,
    /// All entries that counted lie under this directory.
    Found(Seq<Seq<char>>),
    /// There is no inner root: an entry lies elsewhere.
    Flat,
    /// An entry's name was rejected.
    Malformed,
}

/// How far the search for the inner root has come.
#[derive(Debug, PartialEq, Eq)]
pub enum RootScan {
    /// No entry has counted yet.
    Seeking,
    /// All entries that counted lie under this directory.
    Found(SanitizedPath),
    /// There is no inner root: an entry lies elsewhere.
    Flat,
    /// An entry's name was rejected.
    Malformed,
}

impl View for RootScan {
    type V = ScanState;

    open spec fn view(&self) -> ScanState {
        match self {
            RootScan::Seeking => ScanState::Seeking,
            RootScan::Found(root) => ScanState::Found(root@),
            RootScan::Flat => ScanState::Flat,
            RootScan::Malformed => ScanState::Malformed,
        }
    }
}

/// The directory that holds an entry: a directory holds itself, a file is
/// held by its parent.
pub open spec fn containing_dir(p: Seq<Seq<char>>, is_dir: bool) -> Seq<Seq<char>> {
    if is_dir || p.len() == 0 {
        p
    } else {
        p.drop_last()
    }
}

/// The search after one more entry, given by its decoded name and its kind.
/// A search that has ended stays as it is. An entry that is left out
/// changes nothing, also where its name is rejected. A rejected name of any
/// other entry ends the search, and so does an entry that lies at the top
/// of the archive or outside the candidate. The first entry that counts
/// gives the candidate: the first segment of the directory that holds it.
pub open spec fn scan_step(state: ScanState, name: Seq<char>, is_dir: bool) -> ScanState {
    match state {
        ScanState::Flat => ScanState::Flat,
        ScanState::Malformed => ScanState::Malformed,
        _ => match sanitized(name) {
            None => if names_ignored(name) {
                state
            } else {
                ScanState::Malformed
            },
            Some(p) => if is_ignored(p) {
                state
            } else {
                let dir = containing_dir(p, is_dir);
                match state {
                    ScanState::Found(root) => if root.is_prefix_of(dir) {
                        state
                    } else {
                        ScanState::Flat
                    },
                    _ => if dir.len() > 0 {
                        ScanState::Found(dir.take(1))
                    } else {
                        ScanState::Flat
                    },
                }
            },
        },
    }
}

/// The search over `entries` in their order, begun in `start`, with the
/// names read in `encoding` (the view of a `ZipEncoding`).
pub open spec fn scan_from(
    start: ScanState,
    entries: Seq<EntryView>,
    encoding: Option<Seq<char>>,
) -> ScanState
    decreases entries.len(),
{
    if entries.len() == 0 {
        start
    } else {
        scan_step(
            scan_from(start, entries.drop_last(), encoding),
            decoded_name(entries.last(), encoding),
            entries.last().is_dir,
        )
    }
}

/// What a search that is over says: the inner root, which is empty where
/// the archive has none, or the error.
pub open spec fn scan_result(state: ScanState) -> Result<Seq<Seq<char>>, ExtractError> {
    match state {
        ScanState::Seeking => Ok(Seq::<Seq<char>>::empty()),
        ScanState::Found(root) => Ok(root),
        ScanState::Flat => Ok(Seq::<Seq<char>>::empty()),
        ScanState::Malformed => Err(ExtractError::MalformedArchive(Malformation::UnsafeName)),
    }
}

/// The inner root of an archive with these entries, read in `encoding`.
pub open spec fn inner_root(entries: Seq<EntryView>, encoding: Option<Seq<char>>) -> Result<
    Seq<Seq<char>>,
    ExtractError,
> {
    scan_result(scan_from(ScanState::Seeking, entries, encoding))
}

/// Takes the search one entry further, the entry given by its decoded name
/// and its kind.
pub fn root_step(scan: RootScan, name: &str, is_dir: bool) -> (res: RootScan)
    ensures
        res@ == scan_step(scan@, name@, is_dir),
{
    match scan {
        RootScan::Flat => RootScan::Flat,
        RootScan::Malformed => RootScan::Malformed,
        RootScan::Seeking => match sanitize_path(name) {
            None => if is_ignored_name(name) {
                RootScan::Seeking
            } else {
                RootScan::Malformed
            },
            Some(path) => if is_ignored_file(&path) {
                RootScan::Seeking
            } else {
                let dir = if is_dir {
                    path
                } else {
                    path.parent()
                };
                if dir.is_empty() {
                    RootScan::Flat
                } else {
                    RootScan::Found(dir.top())
                }
            },
        },
        RootScan::Found(root) => match sanitize_path(name) {
            None => if is_ignored_name(name) {
                RootScan::Found(root)
            } else {
                RootScan::Malformed
            },
            Some(path) => if is_ignored_file(&path) {
                RootScan::Found(root)
            } else {
                let dir = if is_dir {
                    path
                } else {
                    path.parent()
                };
                if dir.starts_with(&root) {
                    RootScan::Found(root)
                } else {
                    RootScan::Flat
                }
            },
        },
    }
}

/// Finds the inner root of an archive, its names read in `encoding`.
///
/// The result is the empty path where the archive has no inner root: where
/// it is empty, where every entry is ignored, and where some entry that
/// counts lies at the top of the archive or under another first directory
/// than the first entry that counts. It is an error where the name of an
/// entry that is not left out is rejected before the search has ended.
pub fn get_inner_root(entries: &Vec<ArchiveEntry>, encoding: ZipEncoding) -> (res: Result<
    SanitizedPath,
    ExtractError,
>)
    ensures
        match res {
            Ok(root) => inner_root(entry_views(entries@), encoding@) == Ok::<
                Seq<Seq<char>>,
                ExtractError,
            >(root@),
            Err(e) => inner_root(entry_views(entries@), encoding@) == Err::<
                Seq<Seq<char>>,
                ExtractError,
            >(e),
        },
{
    let ghost all = entry_views(entries@);
    let mut scan = RootScan::Seeking;
    let mut i: usize = 0;
    while i < entries.len()
        invariant
            i <= entries.len(),
            all == entry_views(entries@),
            scan@ == scan_from(ScanState::Seeking, all.take(i as int), encoding@),
            !(scan is Flat) && !(scan is Malformed),
        decreases entries.len() - i,
    {
        let entry = &entries[i];
        let name = entry.decoded_name_lossy(encoding);
        let next = root_step(scan, name.as_str(), entry.is_dir());
        proof {
            assert(all.take(i + 1).drop_last() == all.take(i as int));
            if next is Flat || next is Malformed {
                lemma_scan_concat(ScanState::Seeking, all.take(i + 1), all.skip(i + 1), encoding@);
                lemma_scan_settled(next@, all.skip(i + 1), encoding@);
                assert(all.take(i + 1) + all.skip(i + 1) == all);
            }
        }
        match next {
            RootScan::Flat => {
                return Ok(SanitizedPath::new());
            },
            RootScan::Malformed => {
                return Err(ExtractError::MalformedArchive(Malformation::UnsafeName));
            },
            _ => {},
        }
        scan = next;
        i += 1;
    }
    assert(all.take(i as int) == all);
    match scan {
        RootScan::Found(root) => Ok(root),
        _ => Ok(SanitizedPath::new()),
    }
}

} // verus!
