use exzip::encoding::ZipEncoding;
use exzip::engine::{extract_next, interruptable_extract, Action, Event, Extraction};
use exzip::error::{ExtractError, Malformation};
use exzip::inner_root::get_inner_root;
use exzip::interrupt::InterruptFlag;
use exzip::path::{sanitize_path, SanitizedPath};
use exzip::unzip::modified_instant;
use exzip::zip_ext::{ArchiveEntry, StoredTime, ZipFileExt};

fn stamp() -> StoredTime {
    StoredTime { year: 2018, month: 6, day: 15, hour: 8, minute: 9, second: 10 }
}

fn no_date() -> StoredTime {
    StoredTime { year: 1980, month: 0, day: 0, hour: 0, minute: 0, second: 0 }
}

fn entry_at(name: &str, modified: StoredTime) -> ArchiveEntry {
    ArchiveEntry::new(name.as_bytes().to_vec(), name.to_string(), name.ends_with('/'), modified)
        .expect("the name is short")
}

fn root_of(name: &str) -> SanitizedPath {
    sanitize_path(name).expect("the name is accepted")
}

fn read(index: usize) -> Action {
    Action::Read { index }
}

fn fail(error: ExtractError) -> Action {
    Action::Fail { told: None, error }
}

// What an extraction asked for, as lines: one for each thing done.
struct Carried {
    log: Vec<String>,
    end: Action,
}

// Carries an extraction out on entries with these names. The flag is raised
// while the entry at `raise_in` is being made, if any; making the entry at
// `break_at` fails, if any.
fn carry(names: &[&str], root: &str, raise_in: Option<usize>, break_at: Option<usize>) -> Carried {
    let mut flag = InterruptFlag::new();
    let mut handle = flag.clone();
    let mut log = Vec::new();
    let mut current = 0;
    let (mut state, mut action) = Extraction::start(names.len(), root_of(root), ZipEncoding::Cp437);
    loop {
        let event = match &action {
            Action::Read { index } => {
                current = *index;
                log.push(format!("read {}", index));
                Event::Entry(entry_at(names[*index], stamp()))
            }
            Action::Skip { line } => {
                log.push(line.clone());
                Event::Done
            }
            Action::MakeDir { line, place } | Action::WriteFile { line, place } => {
                log.push(line.clone());
                if raise_in == Some(current) {
                    handle.raise();
                }
                if break_at == Some(current) {
                    Event::Failed(ExtractError::IoFailure)
                } else {
                    let what = if matches!(action, Action::MakeDir { .. }) { "dir" } else { "file" };
                    log.push(format!("{} {}", what, place));
                    Event::Done
                }
            }
            Action::SetTime { place, .. } => {
                log.push(format!("time {}", place));
                Event::Done
            }
            Action::Finish | Action::Fail { .. } => {
                assert!(state.is_over());
                return Carried { log, end: action };
            }
        };
        (state, action) = interruptable_extract(state, event, &mut flag);
    }
}

fn lines(log: &[&str]) -> Vec<String> {
    log.iter().map(|line| line.to_string()).collect()
}

#[test]
fn empty_archive_is_done_at_once() {
    let (state, action) = Extraction::start(0, SanitizedPath::new(), ZipEncoding::Cp437);
    assert_eq!(action, Action::Finish);
    assert!(state.is_over());
}

#[test]
fn extraction_begins_with_the_first_entry() {
    let (state, action) = Extraction::start(3, SanitizedPath::new(), ZipEncoding::Cp437);
    assert_eq!(action, read(0));
    assert!(!state.is_over());
}

#[test]
fn entries_are_taken_in_the_order_of_the_archive() {
    let carried = carry(&["Proj/", "Proj/a.txt", "Proj/sub/", "Proj/sub/b.txt"], "Proj", None, None);
    assert_eq!(carried.end, Action::Finish);
    assert_eq!(
        carried.log,
        lines(&[
            "read 0", "Proj", "dir .", "time .",
            "read 1", "Proj/a.txt", "file a.txt", "time a.txt",
            "read 2", "Proj/sub", "dir sub", "time sub",
            "read 3", "Proj/sub/b.txt", "file sub/b.txt", "time sub/b.txt",
        ])
    );
}

#[test]
fn wrapped_archive_is_made_without_its_wrapping() {
    let names = ["Proj/a.txt", "Proj/sub/b.txt"];
    let entries: Vec<ArchiveEntry> = names.iter().map(|n| entry_at(n, stamp())).collect();
    let root = get_inner_root(&entries, ZipEncoding::Cp437).expect("the names are accepted");
    let carried = carry(&names, &root.display(), None, None);
    assert_eq!(carried.end, Action::Finish);
    let made: Vec<&String> = carried.log.iter().filter(|line| line.starts_with("file ")).collect();
    assert_eq!(made, vec!["file a.txt", "file sub/b.txt"]);
}

#[test]
fn left_out_entries_get_a_line_and_nothing_else() {
    let carried = carry(&["__MACOSX/._a", "a.txt", "../Thumbs.db", ".DS_Store"], "", None, None);
    assert_eq!(carried.end, Action::Finish);
    assert_eq!(
        carried.log,
        lines(&[
            "read 0", "Skip __MACOSX/._a",
            "read 1", "a.txt", "file a.txt", "time a.txt",
            "read 2", "Skip ../Thumbs.db",
            "read 3", "Skip .DS_Store",
        ])
    );
}

#[test]
fn interrupt_stops_the_archive_before_the_next_entry() {
    let carried = carry(&["a/", "a/big.bin", "a/after.txt", "a/last.txt"], "a", Some(1), None);
    assert_eq!(carried.end, fail(ExtractError::Interrupted));
    assert_eq!(
        carried.log,
        lines(&["read 0", "a", "dir .", "time .", "read 1", "a/big.bin", "file big.bin", "time big.bin"])
    );
}

#[test]
fn interrupt_is_seen_at_the_checkpoint_of_the_last_entry_too() {
    let carried = carry(&["a.txt"], "", Some(0), None);
    assert_eq!(carried.end, fail(ExtractError::Interrupted));
}

#[test]
fn left_out_entries_pass_over_the_checkpoint() {
    let mut flag = InterruptFlag::new();
    flag.raise();
    let (state, _) = Extraction::start(2, SanitizedPath::new(), ZipEncoding::Cp437);
    let (state, action) = interruptable_extract(state, Event::Entry(entry_at(".DS_Store", stamp())), &mut flag);
    assert_eq!(action, Action::Skip { line: "Skip .DS_Store".to_string() });
    let (state, action) = interruptable_extract(state, Event::Done, &mut flag);
    assert_eq!(action, read(1));
    let (state, action) = interruptable_extract(state, Event::Entry(entry_at("__MACOSX/", stamp())), &mut flag);
    assert_eq!(action, Action::Skip { line: "Skip __MACOSX".to_string() });
    let (state, action) = interruptable_extract(state, Event::Done, &mut flag);
    assert_eq!(action, Action::Finish);
    assert!(state.is_over());
}

#[test]
fn first_failure_ends_the_archive() {
    let carried = carry(&["a.txt", "b.txt", "c.txt"], "", None, Some(1));
    assert_eq!(carried.end, fail(ExtractError::IoFailure));
    assert_eq!(carried.log, lines(&["read 0", "a.txt", "file a.txt", "time a.txt", "read 1", "b.txt"]));
}

#[test]
fn failure_is_passed_on_as_it_is() {
    for error in [
        ExtractError::IoFailure,
        ExtractError::Interrupted,
        ExtractError::UnknownEncoding,
        ExtractError::MalformedArchive(Malformation::UnsafeName),
    ] {
        // the entry cannot be read
        let (state, _) = Extraction::start(2, SanitizedPath::new(), ZipEncoding::Cp437);
        let (state, action) = extract_next(state, Event::Failed(error), None, false);
        assert_eq!(action, fail(error));
        assert!(state.is_over());
        // the content cannot be copied
        let (state, _) = Extraction::start(2, SanitizedPath::new(), ZipEncoding::Cp437);
        let (state, _) = extract_next(state, Event::Entry(entry_at("a.txt", stamp())), Some(5), false);
        let (state, action) = extract_next(state, Event::Failed(error), None, false);
        assert_eq!(action, fail(error));
        // the time cannot be set
        let (state, _) = Extraction::start(2, SanitizedPath::new(), ZipEncoding::Cp437);
        let (state, _) = extract_next(state, Event::Entry(entry_at("a.txt", stamp())), Some(5), false);
        let (state, action) = extract_next(state, Event::Done, None, false);
        assert_eq!(action, Action::SetTime { place: "a.txt".to_string(), instant: 5 });
        let (state, action) = extract_next(state, Event::Failed(error), None, false);
        assert_eq!(action, fail(error));
        // and nothing is asked for afterwards
        let (state, action) = extract_next(state, Event::Done, None, false);
        assert_eq!(action, fail(ExtractError::IoFailure));
        assert!(state.is_over());
    }
}

#[test]
fn climbing_name_fails_the_archive_without_a_line() {
    let carried = carry(&["ok.txt", "../../etc/passwd", "never.txt"], "", None, None);
    assert_eq!(carried.end, fail(ExtractError::MalformedArchive(Malformation::UnsafeName)));
    assert_eq!(carried.log, lines(&["read 0", "ok.txt", "file ok.txt", "time ok.txt", "read 1"]));
}

#[test]
fn entry_outside_the_root_fails_the_archive_with_a_skip_line() {
    let carried = carry(&["Proj/a.txt", "Other/b.txt", "Proj/c.txt"], "Proj", None, None);
    assert_eq!(
        carried.end,
        Action::Fail {
            told: Some("Skip Other/b.txt".to_string()),
            error: ExtractError::MalformedArchive(Malformation::OutsideRoot),
        }
    );
    assert_eq!(carried.log, lines(&["read 0", "Proj/a.txt", "file a.txt", "time a.txt", "read 1"]));
}

#[test]
fn time_is_set_where_the_clock_gave_an_instant() {
    let (state, _) = Extraction::start(1, SanitizedPath::new(), ZipEncoding::Cp437);
    let (state, action) = extract_next(state, Event::Entry(entry_at("d/", stamp())), Some(1_529_050_150), false);
    assert_eq!(action, Action::MakeDir { line: "d".to_string(), place: "d".to_string() });
    let (state, action) = extract_next(state, Event::Done, None, false);
    assert_eq!(action, Action::SetTime { place: "d".to_string(), instant: 1_529_050_150 });
    let (_, action) = extract_next(state, Event::Done, None, false);
    assert_eq!(action, Action::Finish);
}

#[test]
fn time_is_left_alone_where_the_clock_gave_none() {
    let (state, _) = Extraction::start(2, SanitizedPath::new(), ZipEncoding::Cp437);
    let (state, action) = extract_next(state, Event::Entry(entry_at("a.txt", stamp())), None, false);
    assert_eq!(action, Action::WriteFile { line: "a.txt".to_string(), place: "a.txt".to_string() });
    let (_, action) = extract_next(state, Event::Done, None, false);
    assert_eq!(action, read(1));
    // a stored time that is no date gives none on every machine
    let mut flag = InterruptFlag::new();
    let (state, _) = Extraction::start(1, SanitizedPath::new(), ZipEncoding::Cp437);
    let (state, _) = interruptable_extract(state, Event::Entry(entry_at("a.txt", no_date())), &mut flag);
    let (_, action) = interruptable_extract(state, Event::Done, &mut flag);
    assert_eq!(action, Action::Finish);
}

#[test]
fn time_is_what_the_local_clock_says_of_the_stored_time() {
    let mut flag = InterruptFlag::new();
    let expected = modified_instant(&entry_at("a.txt", stamp()).last_modified_chrono());
    let (state, _) = Extraction::start(1, SanitizedPath::new(), ZipEncoding::Cp437);
    let (state, _) = interruptable_extract(state, Event::Entry(entry_at("a.txt", stamp())), &mut flag);
    let (_, action) = interruptable_extract(state, Event::Done, &mut flag);
    match expected {
        Some(instant) => assert_eq!(action, Action::SetTime { place: "a.txt".to_string(), instant }),
        None => assert_eq!(action, Action::Finish),
    }
}

#[test]
fn checkpoint_comes_after_the_time() {
    let (state, _) = Extraction::start(2, SanitizedPath::new(), ZipEncoding::Cp437);
    let (state, _) = extract_next(state, Event::Entry(entry_at("a.txt", stamp())), Some(9), true);
    // the flag does not matter while the entry is being made
    let (state, action) = extract_next(state, Event::Done, None, true);
    assert_eq!(action, Action::SetTime { place: "a.txt".to_string(), instant: 9 });
    let (state, action) = extract_next(state, Event::Done, None, true);
    assert_eq!(action, fail(ExtractError::Interrupted));
    assert!(state.is_over());
    // without a time the checkpoint follows the making
    let (state, _) = Extraction::start(2, SanitizedPath::new(), ZipEncoding::Cp437);
    let (state, _) = extract_next(state, Event::Entry(entry_at("a.txt", stamp())), None, true);
    let (_, action) = extract_next(state, Event::Done, None, true);
    assert_eq!(action, fail(ExtractError::Interrupted));
}

#[test]
fn event_that_was_not_asked_for_ends_the_extraction() {
    let (state, _) = Extraction::start(2, SanitizedPath::new(), ZipEncoding::Cp437);
    let (state, action) = extract_next(state, Event::Done, None, false);
    assert_eq!(action, fail(ExtractError::IoFailure));
    assert!(state.is_over());
    let (state, _) = Extraction::start(2, SanitizedPath::new(), ZipEncoding::Cp437);
    let (state, _) = extract_next(state, Event::Entry(entry_at("a.txt", stamp())), None, false);
    let (_, action) = extract_next(state, Event::Entry(entry_at("b.txt", stamp())), None, false);
    assert_eq!(action, fail(ExtractError::IoFailure));
    // an extraction that is done takes no more
    let (state, action) = Extraction::start(0, SanitizedPath::new(), ZipEncoding::Cp437);
    assert_eq!(action, Action::Finish);
    let (_, action) = extract_next(state, Event::Done, None, false);
    assert_eq!(action, fail(ExtractError::IoFailure));
}
