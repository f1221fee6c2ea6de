//! What an archive says of one entry, and what is read from it.
//!
//! An `ArchiveEntry` holds the metadata of one entry as plain values, as an
//! archive reader hands them out. `ZipFileExt` adds what extraction needs to
//! know of an entry: whether its name is UTF-8 already, its name in a given
//! encoding, and the instants that its time stamp may stand for.

use crate::encoding::{decoding, Charset, ZipEncoding, MAX_NAME_LEN};
use chrono::{Local, LocalResult, TimeZone};
use vstd::prelude::*;

verus! {

/// A time stamp as an archive stores it: a date and a time of day on a
/// local clock, with no time zone. Nothing says that it is a date of the
/// calendar: archives hold values such as month 0.
#[derive(Clone, Copy, Debug, PartialEq, Eq)]
pub struct StoredTime {
    pub year: u16,
    pub month: u8,
    pub day: u8,
    pub hour: u8,
    pub minute: u8,
    pub second: u8,
}

/// Whether `year` is a leap year of the Gregorian calendar.
pub open spec fn is_leap_year(year: int) -> bool {
    year % 4 == 0 && (year % 100 != 0 || year % 400 == 0)
}

/// The number of days of a month, or 0 where `month` is none.
pub open spec fn days_in_month(year: int, month: int) -> int {
    if month == 4 || month == 6 || month == 9 || month == 11 {
        30
    } else if month == 2 {
        if is_leap_year(year) {
            29
        } else {
            28
        }
    } else if 1 <= month <= 12 {
        31
    } else {
        0
    }
}

/// Whether the six numbers are a day of the Gregorian calendar and a time
/// of that day, without a leap second.
pub open spec fn is_calendar_time(
    year: int,
    month: int,
    day: int,
    hour: int,
    minute: int,
    second: int,
) -> bool {
    &&& 1 <= month <= 12
    &&& 1 <= day <= days_in_month(year, month)
    &&& 0 <= hour < 24
    &&& 0 <= minute < 60
    &&& 0 <= second < 60
}

impl StoredTime {
    /// Whether the time stamp is a date of the calendar and a time of day.
    pub open spec fn is_calendar(&self) -> bool {
        is_calendar_time(
            self.year as int,
            self.month as int,
            self.day as int,
            self.hour as int,
            self.minute as int,
            self.second as int,
        )
    }
}

/// The instants that a local date and time may stand for, each in seconds
/// since the start of 1970 in UTC.
#[derive(Clone, Copy, Debug, PartialEq, Eq)]
pub enum MappedTime {
    /// No instant: there is no such date or time, or the local clock
    /// skipped it.
    Unmapped,
    /// One instant.
    Single(i64),
    /// Two instants: the local clock showed this time twice.
    Ambiguous(i64, i64),
}

/// A date and a time of day as the local clock is asked for them.
#[derive(Clone, Copy, Debug, PartialEq, Eq)]
pub struct ClockFields {
    pub year: i32,
    pub month: u32,
    pub day: u32,
    pub hour: u32,
    pub minute: u32,
    pub second: u32,
}

impl ClockFields {
    /// Whether the six numbers are a date of the calendar and a time of day.
    pub open spec fn is_calendar(&self) -> bool {
        is_calendar_time(
            self.year as int,
            self.month as int,
            self.day as int,
            self.hour as int,
            self.minute as int,
            self.second as int,
        )
    }
}

/// What is asked of the local clock for a stored time: its six numbers, each
/// as it stands.
pub open spec fn clock_fields_of(stored: StoredTime) -> ClockFields {
    ClockFields {
        year: stored.year as i32,
        month: stored.month as u32,
        day: stored.day as u32,
        hour: stored.hour as u32,
        minute: stored.minute as u32,
        second: stored.second as u32,
    }
}

impl StoredTime {
    /// What is asked of the local clock for this stored time.
    pub fn clock_fields(&self) -> (res: ClockFields)
        ensures
            res == clock_fields_of(*self),
            res.is_calendar() == self.is_calendar(),
    {
        ClockFields {
            year: self.year as i32,
            month: self.month as u32,
            day: self.day as u32,
            hour: self.hour as u32,
            minute: self.minute as u32,
            second: self.second as u32,
        }
    }
}

/// What the local clock says of a date and time: what it was asked, and
/// the instants that it gave.
#[derive(Clone, Copy, Debug, PartialEq, Eq)]
pub struct LocalReading {
    pub asked: ClockFields,
    pub instants: MappedTime,
}

/// Asks `Local.with_ymd_and_hms` of chrono which instants a local date and
/// time stand for, and takes each instant as its `timestamp()`. The answer
/// holds what was asked. It depends on the time zone of the machine.
/// Whatever the zone, chrono gives no instant where the numbers are no date
/// of the calendar or no time of day.
#[verifier::external_body]
fn local_instants(asked: ClockFields) -> (res: LocalReading)
    ensures
        res.asked == asked,
        !asked.is_calendar() ==> res.instants is Unmapped,
{
    let ClockFields { year, month, day, hour, minute, second } = asked;
    let instants = match Local.with_ymd_and_hms(year, month, day, hour, minute, second) {
        LocalResult::None => MappedTime::Unmapped,
        LocalResult::Single(t) => MappedTime::Single(t.timestamp()),
        LocalResult::Ambiguous(a, b) => MappedTime::Ambiguous(a.timestamp(), b.timestamp()),
    };
    LocalReading { asked, instants }
}

/// The instant to take of those that a local time may stand for.
pub open spec fn earliest_of(mapped: MappedTime) -> Option<i64> {
    match mapped {
        MappedTime::Unmapped => None,
        MappedTime::Single(t) => Some(t),
        MappedTime::Ambiguous(a, b) => Some(if a <= b { a } else { b }),
    }
}

impl MappedTime {
    /// The one instant to use: of two the earlier, of none none.
    pub fn earliest(self) -> (res: Option<i64>)
        ensures
            res == earliest_of(self),
    {
        match self {
            MappedTime::Unmapped => None,
            MappedTime::Single(t) => Some(t),
            MappedTime::Ambiguous(a, b) => if a <= b {
                Some(a)
            } else {
                Some(b)
            },
        }
    }
}

/// What an `ArchiveEntry` holds.
pub struct EntryView {
    /// The name as the bytes in the archive.
    pub name_raw: Seq<u8>,
    /// The name as the archive reader has decoded it.
    pub name: Seq<char>,
    /// Whether the entry is a directory; every other entry is a file.
    pub is_dir: bool,
    /// The stored time of the last change.
    pub modified: StoredTime,
}

/// The metadata of one entry of an archive.
#[derive(Debug, PartialEq, Eq)]
pub struct ArchiveEntry {
    name_raw: Vec<u8>,
    name: String,
    is_dir: bool,
    modified: StoredTime,
}

impl View for ArchiveEntry {
    type V = EntryView;

    closed spec fn view(&self) -> EntryView {
        EntryView {
            name_raw: self.name_raw@,
            name: self.name@,
            is_dir: self.is_dir,
            modified: self.modified,
        }
    }
}

impl ArchiveEntry {
    #[verifier::type_invariant]
    spec fn name_fits(&self) -> bool {
        self.name_raw@.len() <= MAX_NAME_LEN
    }

    /// An entry of these values. `None` where the raw name is longer than
    /// a name in a ZIP archive can be.
    pub fn new(name_raw: Vec<u8>, name: String, is_dir: bool, modified: StoredTime) -> (res: Option<
        ArchiveEntry,
    >)
        ensures
            match res {
                Some(entry) => entry@ == (EntryView {
                    name_raw: name_raw@,
                    name: name@,
                    is_dir,
                    modified,
                }),
                None => name_raw@.len() > MAX_NAME_LEN,
            },
    {
        if name_raw.len() > MAX_NAME_LEN {
            None
        } else {
            Some(ArchiveEntry { name_raw, name, is_dir, modified })
        }
    }

    /// The name as the bytes in the archive.
    pub fn name_raw(&self) -> (res: &[u8])
        ensures
            res@ == self@.name_raw,
            res@.len() <= MAX_NAME_LEN,
    {
        proof {
            use_type_invariant(self);
        }
        self.name_raw.as_slice()
    }

    /// The name as the archive reader has decoded it.
    pub fn name(&self) -> (res: &str)
        ensures
            res@ == self@.name,
    {
        self.name.as_str()
    }

    /// Whether the entry is a directory.
    pub fn is_dir(&self) -> (res: bool)
        ensures
            res == self@.is_dir,
    {
        self.is_dir
    }

    /// Whether the entry is a file.
    pub fn is_file(&self) -> (res: bool)
        ensures
            res == !self@.is_dir,
    {
        !self.is_dir
    }

    /// The stored time of the last change.
    pub fn last_modified(&self) -> (res: StoredTime)
        ensures
            res == self@.modified,
    {
        self.modified
    }
}

/// What a list of entries holds.
pub open spec fn entry_views(entries: Seq<ArchiveEntry>) -> Seq<EntryView> {
    Seq::new(entries.len(), |i: int| entries[i]@)
}

/// Whether an entry's name counts as UTF-8 already: its raw name decodes as
/// UTF-8 with nothing malformed, to the very name that the archive reader
/// has decoded.
pub open spec fn utf8_hint(entry: EntryView) -> bool {
    let (text, malformed) = decoding("UTF-8"@, entry.name_raw);
    !malformed && entry.name == text
}

/// The name of an entry in an encoding, the encoding given as the view of a
/// `ZipEncoding`. A name that counts as UTF-8 already stays as the archive
/// reader has decoded it, and so does every name in codepage 437.
pub open spec fn decoded_name(entry: EntryView, encoding: Option<Seq<char>>) -> Seq<char> {
    if utf8_hint(entry) {
        entry.name
    } else {
        match encoding {
            None => entry.name,
            Some(charset) => decoding(charset, entry.name_raw).0,
        }
    }
}

/// Whether a name that an archive reader has decoded counts as UTF-8, given
/// what decoding the raw name as UTF-8 gave: nothing was malformed, and the
/// text is the reader's name.
pub fn agrees_with_utf8(reader_name: &String, utf8_text: &String, malformed: bool) -> (res: bool)
    ensures
        res == (!malformed && reader_name@ == utf8_text@),
{
    !malformed && *reader_name == *utf8_text
}

/// What extraction reads from an entry.
pub trait ZipFileExt {
    /// The name of the entry in `encoding`, with what is malformed replaced.
    fn decoded_name_lossy(&self, encoding: ZipEncoding) -> String;

    /// Whether the name of the entry counts as UTF-8 already.
    fn is_utf8(&self) -> bool;

    /// What the local clock of this machine says of the entry's stored
    /// time: the instants that it stands for.
    fn last_modified_chrono(&self) -> LocalReading;
}

impl ZipFileExt for ArchiveEntry {
    fn decoded_name_lossy(&self, encoding: ZipEncoding) -> (res: String)
        ensures
            res@ == decoded_name(self@, encoding@),
    {
        if self.is_utf8() {
            return self.name.clone();
        }
        match encoding {
            ZipEncoding::Cp437 => self.name.clone(),
            ZipEncoding::EncodingRs(charset) => {
                let (text, _malformed) = charset.decode(self.name_raw());
                text
            },
        }
    }

    fn is_utf8(&self) -> (res: bool)
        ensures
            res == utf8_hint(self@),
    {
        let (text, malformed) = Charset::utf_8().decode(self.name_raw());
        agrees_with_utf8(&self.name, &text, malformed)
    }

    fn last_modified_chrono(&self) -> (res: LocalReading)
        ensures
            res.asked == clock_fields_of(self@.modified),
            !self@.modified.is_calendar() ==> res.instants is Unmapped,
    {
        local_instants(self.modified.clock_fields())
    }
}

} // verus!
