//! What holds of the search for the inner root.

use crate::error::ExtractError;
use crate::inner_root::{containing_dir, inner_root, scan_from, scan_step, ScanState};
use crate::path::{is_ignored, left_out, names_ignored, sanitized};
use crate::zip_ext::{decoded_name, EntryView};
use vstd::prelude::*;

verus! {

/// A search over two lists, one after the other, is the search over the
/// second begun where the search over the first ended.
pub proof fn lemma_scan_concat(
    start: ScanState,
    a: Seq<EntryView>,
    b: Seq<EntryView>,
    encoding: Option<Seq<char>>,
)
    ensures
        scan_from(start, a + b, encoding) == scan_from(scan_from(start, a, encoding), b, encoding),
    decreases b.len(),
{
    if b.len() == 0 {
    } else {
        lemma_scan_concat(start, a, b.drop_last(), encoding);
        assert((a + b).drop_last() == a + b.drop_last());
    }
}

/// A search that has ended stays as it is, whatever entries follow.
pub proof fn lemma_scan_settled(state: ScanState, entries: Seq<EntryView>, encoding: Option<Seq<char>>)
    requires
        state is Flat || state is Malformed,
    ensures
        scan_from(state, entries, encoding) == state,
    decreases entries.len(),
{
    if entries.len() > 0 {
        lemma_scan_settled(state, entries.drop_last(), encoding);
    }
}

/// An entry that is left out changes nothing in the search, whatever its
/// name: also a name that is rejected.
pub proof fn lemma_left_out_changes_nothing(state: ScanState, name: Seq<char>, is_dir: bool)
    requires
        left_out(name),
    ensures
        scan_step(state, name, is_dir) == state,
{
}

/// Whether an entry, its name read in `encoding`, is accepted: its name has
/// a safe path, or the entry is left out anyway.
pub open spec fn accepted(entry: EntryView, encoding: Option<Seq<char>>) -> bool {
    sanitized(decoded_name(entry, encoding)) is Some || names_ignored(
        decoded_name(entry, encoding),
    )
}

/// Whether an entry counts in the search: its name has a safe path, and
/// that path is not ignored.
pub open spec fn counts(entry: EntryView, encoding: Option<Seq<char>>) -> bool {
    sanitized(decoded_name(entry, encoding)) is Some && !is_ignored(
        sanitized(decoded_name(entry, encoding))->0,
    )
}

/// The directory that holds an entry whose name has a safe path.
pub open spec fn dir_of(entry: EntryView, encoding: Option<Seq<char>>) -> Seq<Seq<char>> {
    containing_dir(sanitized(decoded_name(entry, encoding))->0, entry.is_dir)
}

/// Whether an entry leaves a search with the candidate `root` as it is: its
/// name is accepted and, where it counts, it lies under `root`.
pub open spec fn lies_under(entry: EntryView, encoding: Option<Seq<char>>, root: Seq<Seq<char>>) -> bool {
    accepted(entry, encoding) && (counts(entry, encoding) ==> root.is_prefix_of(
        dir_of(entry, encoding),
    ))
}

/// Whether an entry, where it counts, lies below the top of the archive in
/// the directory `segment`.
pub open spec fn shares(entry: EntryView, encoding: Option<Seq<char>>, segment: Seq<char>) -> bool {
    counts(entry, encoding) ==> dir_of(entry, encoding).len() > 0 && dir_of(entry, encoding)[0]
        == segment
}

/// A search that is still seeking has seen accepted entries only, and none
/// that counts.
pub proof fn lemma_scan_seeking(entries: Seq<EntryView>, encoding: Option<Seq<char>>)
    requires
        scan_from(ScanState::Seeking, entries, encoding) is Seeking,
    ensures
        forall|i: int|
            0 <= i < entries.len() ==> accepted(#[trigger] entries[i], encoding) && !counts(
                entries[i],
                encoding,
            ),
    decreases entries.len(),
{
    if entries.len() > 0 {
        let init = entries.drop_last();
        lemma_scan_seeking(init, encoding);
        assert forall|i: int| 0 <= i < entries.len() implies accepted(
            #[trigger] entries[i],
            encoding,
        ) && !counts(entries[i], encoding) by {
            if i < init.len() {
                assert(entries[i] == init[i]);
            }
        }
    }
}

/// A search that has found a candidate has seen accepted entries only; every
/// entry that counts lies under the candidate, at least one entry counts,
/// and the candidate is a single segment.
pub proof fn lemma_scan_found(
    entries: Seq<EntryView>,
    encoding: Option<Seq<char>>,
    root: Seq<Seq<char>>,
)
    requires
        scan_from(ScanState::Seeking, entries, encoding) == ScanState::Found(root),
    ensures
        root.len() == 1,
        forall|i: int| 0 <= i < entries.len() ==> lies_under(#[trigger] entries[i], encoding, root),
        exists|i: int| 0 <= i < entries.len() && counts(#[trigger] entries[i], encoding),
    decreases entries.len(),
{
    if entries.len() > 0 {
        let init = entries.drop_last();
        match scan_from(ScanState::Seeking, init, encoding) {
            ScanState::Seeking => {
                lemma_scan_seeking(init, encoding);
                assert forall|i: int| 0 <= i < entries.len() implies lies_under(
                    #[trigger] entries[i],
                    encoding,
                    root,
                ) by {
                    if i < init.len() {
                        assert(entries[i] == init[i]);
                    }
                }
            },
            ScanState::Found(_) => {
                lemma_scan_found(init, encoding, root);
                assert forall|i: int| 0 <= i < entries.len() implies lies_under(
                    #[trigger] entries[i],
                    encoding,
                    root,
                ) by {
                    if i < init.len() {
                        assert(entries[i] == init[i]);
                    }
                }
            },
            _ => {},
        }
    }
}

/// A search with a candidate keeps it over entries that all lie under it.
pub proof fn lemma_scan_stays_found(
    entries: Seq<EntryView>,
    encoding: Option<Seq<char>>,
    root: Seq<Seq<char>>,
)
    requires
        forall|i: int| 0 <= i < entries.len() ==> lies_under(#[trigger] entries[i], encoding, root),
    ensures
        scan_from(ScanState::Found(root), entries, encoding) == ScanState::Found(root),
    decreases entries.len(),
{
    if entries.len() > 0 {
        lemma_scan_stays_found(entries.drop_last(), encoding, root);
    }
}

/// Over accepted entries the search does not end in an error.
pub proof fn lemma_scan_accepted(entries: Seq<EntryView>, encoding: Option<Seq<char>>)
    requires
        forall|i: int| 0 <= i < entries.len() ==> accepted(#[trigger] entries[i], encoding),
    ensures
        !(scan_from(ScanState::Seeking, entries, encoding) is Malformed),
    decreases entries.len(),
{
    if entries.len() > 0 {
        lemma_scan_accepted(entries.drop_last(), encoding);
    }
}

/// Over accepted entries of which all that count share the first directory
/// `segment`, the search is still seeking or has found that directory.
pub proof fn lemma_scan_shared(
    entries: Seq<EntryView>,
    encoding: Option<Seq<char>>,
    segment: Seq<char>,
)
    requires
        forall|i: int| 0 <= i < entries.len() ==> accepted(#[trigger] entries[i], encoding),
        forall|i: int| 0 <= i < entries.len() ==> shares(#[trigger] entries[i], encoding, segment),
    ensures
        scan_from(ScanState::Seeking, entries, encoding) is Seeking || scan_from(
            ScanState::Seeking,
            entries,
            encoding,
        ) == ScanState::Found(seq![segment]),
    decreases entries.len(),
{
    if entries.len() > 0 {
        lemma_scan_shared(entries.drop_last(), encoding, segment);
        if counts(entries.last(), encoding) {
            assert(dir_of(entries.last(), encoding).take(1) == seq![segment]);
        }
    }
}

/// Searching twice is searching once: a search over the same entries, begun
/// where the first search ended, ends where it began.
pub proof fn lemma_scan_idempotent(entries: Seq<EntryView>, encoding: Option<Seq<char>>)
    ensures
        scan_from(scan_from(ScanState::Seeking, entries, encoding), entries, encoding) == scan_from(
            ScanState::Seeking,
            entries,
            encoding,
        ),
{
    let first = scan_from(ScanState::Seeking, entries, encoding);
    match first {
        ScanState::Seeking => {},
        ScanState::Found(root) => {
            lemma_scan_found(entries, encoding, root);
            lemma_scan_stays_found(entries, encoding, root);
        },
        _ => {
            lemma_scan_settled(first, entries, encoding);
        },
    }
}

/// The inner root is a matter of the entries alone: the same entries, read
/// in the same encoding, have the same inner root, however often it is
/// asked for.
pub proof fn lemma_inner_root_deterministic(
    a: Seq<EntryView>,
    b: Seq<EntryView>,
    encoding: Option<Seq<char>>,
)
    requires
        a.len() == b.len(),
        forall|i: int| 0 <= i < a.len() ==> a[i] == b[i],
    ensures
        inner_root(a, encoding) == inner_root(b, encoding),
{
    assert(a == b);
}

/// What the inner root is, said without the search, for an archive whose
/// entries are all accepted. It is never an error and has at most one
/// segment. It is the single segment `s` exactly where some entry counts and
/// every entry that counts lies below the top of the archive in the
/// directory `s`. So the order of the entries does not matter to it.
pub proof fn lemma_inner_root_shared(
    entries: Seq<EntryView>,
    encoding: Option<Seq<char>>,
    s: Seq<char>,
)
    requires
        forall|i: int| 0 <= i < entries.len() ==> accepted(#[trigger] entries[i], encoding),
    ensures
        inner_root(entries, encoding) is Ok,
        inner_root(entries, encoding)->Ok_0.len() <= 1,
        inner_root(entries, encoding) == Ok::<Seq<Seq<char>>, ExtractError>(seq![s]) <==> {
            &&& exists|i: int| 0 <= i < entries.len() && counts(#[trigger] entries[i], encoding)
            &&& forall|i: int| 0 <= i < entries.len() ==> shares(#[trigger] entries[i], encoding, s)
        },
{
    let all_share = forall|i: int|
        0 <= i < entries.len() ==> shares(#[trigger] entries[i], encoding, s);
    lemma_scan_accepted(entries, encoding);
    match scan_from(ScanState::Seeking, entries, encoding) {
        ScanState::Seeking => {
            lemma_scan_seeking(entries, encoding);
        },
        ScanState::Found(root) => {
            lemma_scan_found(entries, encoding, root);
            assert(root == seq![root[0]]);
        },
        ScanState::Flat => {
            if all_share {
                lemma_scan_shared(entries, encoding, s);
            }
        },
        ScanState::Malformed => {},
    }
}

/// The order of the entries does not matter to the inner root of an
/// archive whose entries are all accepted: two archives that hold the same
/// entries have the same inner root.
pub proof fn lemma_inner_root_any_order(
    a: Seq<EntryView>,
    b: Seq<EntryView>,
    encoding: Option<Seq<char>>,
)
    requires
        forall|i: int| 0 <= i < a.len() ==> accepted(#[trigger] a[i], encoding),
        forall|i: int| 0 <= i < a.len() ==> b.contains(#[trigger] a[i]),
        forall|j: int| 0 <= j < b.len() ==> a.contains(#[trigger] b[j]),
    ensures
        inner_root(a, encoding) == inner_root(b, encoding),
{
    let root_a = inner_root(a, encoding)->Ok_0;
    let root_b = inner_root(b, encoding)->Ok_0;
    let s = if root_a.len() == 1 {
        root_a[0]
    } else {
        root_b[0]
    };
    lemma_inner_root_shared(a, encoding, s);
    lemma_inner_root_shared(b, encoding, s);
    if root_a.len() == 1 {
        assert(root_a == seq![s]);
    } else if root_b.len() == 1 {
        assert(root_b == seq![s]);
    } else {
        assert(root_a == root_b);
    }
}

} // verus!
