//! Guessing the encoding of an archive's names.
//!
//! Where no encoding is asked for, the names themselves decide. The
//! candidates are tried in a fixed order, UTF-8 before Shift_JIS: the first
//! in which no name is malformed is taken. Codepage 437, in which every
//! byte is a character, is what is left.

use crate::encoding::{decoding, encoding_named, get_encoding, Charset, ZipEncoding};
use crate::error::ExtractError;
use crate::zip_ext::{entry_views, utf8_hint, ArchiveEntry, EntryView, ZipFileExt};
use vstd::prelude::*;

verus! {

/// Whether the name of an entry fits the encoding called `charset`: the
/// name counts as UTF-8 already, or its bytes decode with nothing
/// malformed.
pub open spec fn name_fits(entry: EntryView, charset: Seq<char>) -> bool {
    utf8_hint(entry) || !decoding(charset, entry.name_raw).1
}

/// Whether every name fits the encoding called `charset`.
pub open spec fn all_fit(entries: Seq<EntryView>, charset: Seq<char>) -> bool {
    forall|i: int| 0 <= i < entries.len() ==> name_fits(#[trigger] entries[i], charset)
}

/// The encoding to take, as the view of a `ZipEncoding`, given which
/// candidates all names fit.
pub open spec fn detected(utf_8_fits: bool, shift_jis_fits: bool) -> Option<Seq<char>> {
    if utf_8_fits {
        Some("UTF-8"@)
    } else if shift_jis_fits {
        Some("Shift_JIS"@)
    } else {
        None
    }
}

/// Whether every name in the archive fits `candidate`.
pub fn candidate_fits(entries: &Vec<ArchiveEntry>, candidate: Charset) -> (res: bool)
    ensures
        res == all_fit(entry_views(entries@), candidate@),
{
    let mut i: usize = 0;
    while i < entries.len()
        invariant
            i <= entries.len(),
            forall|j: int| 0 <= j < i ==> name_fits(#[trigger] entry_views(entries@)[j], candidate@),
        decreases entries.len() - i,
    {
        let entry = &entries[i];
        assert(entry_views(entries@)[i as int] == entry@);
        if !entry.is_utf8() {
            let (_text, malformed) = candidate.decode(entry.name_raw());
            if malformed {
                return false;
            }
        }
        i += 1;
    }
    true
}

/// Takes the first candidate that all names fit, UTF-8 before Shift_JIS,
/// and codepage 437 where they fit neither.
pub fn choose_encoding(utf_8_fits: bool, shift_jis_fits: bool) -> (res: ZipEncoding)
    ensures
        res@ == detected(utf_8_fits, shift_jis_fits),
{
    if utf_8_fits {
        ZipEncoding::EncodingRs(Charset::utf_8())
    } else if shift_jis_fits {
        ZipEncoding::EncodingRs(Charset::shift_jis())
    } else {
        ZipEncoding::Cp437
    }
}

/// Guesses the encoding of an archive's names: UTF-8 where every name that
/// does not count as UTF-8 already decodes as UTF-8 with nothing malformed;
/// else Shift_JIS where every such name decodes so as Shift_JIS; else
/// codepage 437.
pub fn detect_filename_encoding(entries: &Vec<ArchiveEntry>) -> (res: ZipEncoding)
    ensures
        res@ == detected(
            all_fit(entry_views(entries@), "UTF-8"@),
            all_fit(entry_views(entries@), "Shift_JIS"@),
        ),
{
    let utf_8_fits = candidate_fits(entries, Charset::utf_8());
    let shift_jis_fits = !utf_8_fits && candidate_fits(entries, Charset::shift_jis());
    choose_encoding(utf_8_fits, shift_jis_fits)
}

/// The encoding to read an archive in, as the view of a `ZipEncoding`: the
/// one that the user asked for by name, where one was asked for, else the
/// one that the names make likely. A name that stands for no encoding is an
/// error.
pub open spec fn selected(requested: Option<Seq<char>>, entries: Seq<EntryView>) -> Result<
    Option<Seq<char>>,
    ExtractError,
> {
    match requested {
        Some(name) => match encoding_named(name) {
            Some(choice) => Ok(choice),
            None => Err(ExtractError::UnknownEncoding),
        },
        None => Ok(detected(all_fit(entries, "UTF-8"@), all_fit(entries, "Shift_JIS"@))),
    }
}

/// Settles the encoding to read an archive in: the encoding called
/// `requested` where the user asked for one, and the guess of
/// `detect_filename_encoding` where not.
pub fn select_encoding(requested: Option<&str>, entries: &Vec<ArchiveEntry>) -> (res: Result<
    ZipEncoding,
    ExtractError,
>)
    ensures
        match res {
            Ok(encoding) => selected(
                match requested {
                    Some(name) => Some(name@),
                    None => None,
                },
                entry_views(entries@),
            ) == Ok::<Option<Seq<char>>, ExtractError>(encoding@),
            Err(e) => selected(
                match requested {
                    Some(name) => Some(name@),
                    None => None,
                },
                entry_views(entries@),
            ) == Err::<Option<Seq<char>>, ExtractError>(e),
        },
{
    match requested {
        Some(name) => match get_encoding(name) {
            Some(encoding) => Ok(encoding),
            None => Err(ExtractError::UnknownEncoding),
        },
        None => Ok(detect_filename_encoding(entries)),
    }
}

} // verus!
