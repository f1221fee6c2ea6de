use exzip::encoding::{Charset, ZipEncoding};
use exzip::error::{ExtractError, Malformation};
use exzip::inner_root::{get_inner_root, root_step, RootScan};
use exzip::path::{sanitize_path, SanitizedPath};
use exzip::zip_ext::{ArchiveEntry, StoredTime};

fn stamp() -> StoredTime {
    StoredTime { year: 2021, month: 1, day: 2, hour: 3, minute: 4, second: 6 }
}

// Entries as an archive reader gives them: a name that ends in `/` is a
// directory.
fn archive(names: &[&str]) -> Vec<ArchiveEntry> {
    names
        .iter()
        .map(|name| {
            ArchiveEntry::new(name.as_bytes().to_vec(), name.to_string(), name.ends_with('/'), stamp())
                .expect("the name is short")
        })
        .collect()
}

fn root_of(names: &[&str]) -> Result<String, ExtractError> {
    get_inner_root(&archive(names), ZipEncoding::Cp437).map(|root| root.display())
}

fn found(name: &str) -> RootScan {
    RootScan::Found(sanitize_path(name).expect("the name is accepted"))
}

#[test]
fn shared_directory_is_the_inner_root() {
    assert_eq!(root_of(&["a/x.txt", "a/y/"]), Ok("a".to_string()));
}

#[test]
fn two_top_directories_give_no_inner_root() {
    assert_eq!(root_of(&["a/x.txt", "b/y.txt"]), Ok(String::new()));
}

#[test]
fn top_level_file_gives_no_inner_root() {
    assert_eq!(root_of(&["x.txt", "a/y.txt"]), Ok(String::new()));
    assert_eq!(root_of(&["a/y.txt", "x.txt"]), Ok(String::new()));
    assert_eq!(root_of(&["x.txt"]), Ok(String::new()));
}

#[test]
fn empty_archive_has_no_inner_root() {
    assert_eq!(root_of(&[]), Ok(String::new()));
}

#[test]
fn inner_root_is_one_segment() {
    assert_eq!(root_of(&["a/b/c/x.txt", "a/b/c/y.txt"]), Ok("a".to_string()));
    assert_eq!(root_of(&["a/b/"]), Ok("a".to_string()));
    assert_eq!(root_of(&["Proj/a.txt", "Proj/sub/b.txt"]), Ok("Proj".to_string()));
}

#[test]
fn directory_entry_holds_itself() {
    assert_eq!(root_of(&["a/"]), Ok("a".to_string()));
    assert_eq!(root_of(&["a/", "a/x.txt", "a/b/"]), Ok("a".to_string()));
    // a file of the same name lies at the top
    assert_eq!(root_of(&["a"]), Ok(String::new()));
}

#[test]
fn ignored_entries_do_not_count() {
    assert_eq!(root_of(&["__MACOSX/._x", "a/x.txt", "__MACOSX/a/._x.txt"]), Ok("a".to_string()));
    assert_eq!(root_of(&[".DS_Store", "a/x.txt", "Thumbs.db"]), Ok("a".to_string()));
    assert_eq!(root_of(&["__MACOSX/._x", ".DS_Store"]), Ok(String::new()));
}

#[test]
fn names_are_sanitized_before_they_count() {
    assert_eq!(root_of(&["./a/x.txt", "/a/y.txt", "b/../a/z.txt"]), Ok("a".to_string()));
}

#[test]
fn rejected_name_of_a_left_out_entry_changes_nothing() {
    assert_eq!(root_of(&["a/x.txt", "../.DS_Store", "a/y.txt"]), Ok("a".to_string()));
    assert_eq!(root_of(&["../__MACOSX/x", "a/x.txt"]), Ok("a".to_string()));
    assert_eq!(root_of(&["../Thumbs.db"]), Ok(String::new()));
    assert_eq!(root_of(&["__MACOSX/a\0b", "a/b/", "a/c"]), Ok("a".to_string()));
    assert_eq!(root_step(RootScan::Seeking, "../__MACOSX/x", false), RootScan::Seeking);
    assert_eq!(root_step(found("a"), "../Thumbs.db", false), found("a"));
    assert_eq!(root_step(found("a"), "../Thumbs.db/x", false), RootScan::Malformed);
}

#[test]
fn rejected_name_is_an_error() {
    let unsafe_name = Err(ExtractError::MalformedArchive(Malformation::UnsafeName));
    assert_eq!(root_of(&["../../etc/passwd"]), unsafe_name);
    assert_eq!(root_of(&["a/x.txt", "a/../../y"]), unsafe_name);
    assert_eq!(root_of(&["a/x.txt", "a/\0"]), unsafe_name);
}

#[test]
fn search_ends_at_the_first_entry_that_settles_it() {
    // the top-level file ends the search before the rejected name is seen
    assert_eq!(root_of(&["x.txt", "../y"]), Ok(String::new()));
    assert_eq!(
        root_of(&["../y", "x.txt"]),
        Err(ExtractError::MalformedArchive(Malformation::UnsafeName))
    );
}

#[test]
fn inner_root_is_the_same_every_time() {
    let entries = archive(&["a/x.txt", "a/y/", "a/z/w.txt"]);
    let first = get_inner_root(&entries, ZipEncoding::Cp437);
    let second = get_inner_root(&entries, ZipEncoding::Cp437);
    assert_eq!(first, second);
    assert_eq!(first.map(|root| root.display()), Ok("a".to_string()));
}

#[test]
fn order_of_accepted_entries_does_not_matter() {
    assert_eq!(root_of(&["a/x.txt", "a/y/", "a/b/c"]), Ok("a".to_string()));
    assert_eq!(root_of(&["a/b/c", "a/y/", "a/x.txt"]), Ok("a".to_string()));
    assert_eq!(root_of(&["a/x.txt", "b/y", "a/z"]), Ok(String::new()));
    assert_eq!(root_of(&["b/y", "a/z", "a/x.txt"]), Ok(String::new()));
}

#[test]
fn names_are_read_in_the_encoding() {
    let (raw, _, _) = encoding_rs::SHIFT_JIS.encode("テスト/あ.txt");
    let entry = ArchiveEntry::new(raw.into_owned(), "garbled".to_string(), false, stamp()).expect("short");
    let entries = vec![entry];
    let shift_jis = ZipEncoding::EncodingRs(Charset::shift_jis());
    assert_eq!(get_inner_root(&entries, shift_jis).map(|r| r.display()), Ok("テスト".to_string()));
    // in codepage 437 the reader's name is a file at the top
    assert_eq!(get_inner_root(&entries, ZipEncoding::Cp437).map(|r| r.display()), Ok(String::new()));
}

#[test]
fn step_finds_the_candidate() {
    assert_eq!(root_step(RootScan::Seeking, "a/b/x.txt", false), found("a"));
    assert_eq!(root_step(RootScan::Seeking, "a/", true), found("a"));
    assert_eq!(root_step(RootScan::Seeking, "x.txt", false), RootScan::Flat);
    assert_eq!(root_step(RootScan::Seeking, "", true), RootScan::Flat);
    assert_eq!(root_step(RootScan::Seeking, "__MACOSX/x", false), RootScan::Seeking);
    assert_eq!(root_step(RootScan::Seeking, "..", false), RootScan::Malformed);
}

#[test]
fn step_holds_entries_against_the_candidate() {
    assert_eq!(root_step(found("a"), "a/y.txt", false), found("a"));
    assert_eq!(root_step(found("a"), "a/", true), found("a"));
    assert_eq!(root_step(found("a"), "b/y.txt", false), RootScan::Flat);
    assert_eq!(root_step(found("a"), "a", false), RootScan::Flat);
    assert_eq!(root_step(found("a"), "y.txt", false), RootScan::Flat);
    assert_eq!(root_step(found("a"), "b/.DS_Store", false), found("a"));
    assert_eq!(root_step(found("a"), "a/../..", false), RootScan::Malformed);
}

#[test]
fn step_leaves_a_search_that_has_ended() {
    assert_eq!(root_step(RootScan::Flat, "a/x", false), RootScan::Flat);
    assert_eq!(root_step(RootScan::Flat, "..", false), RootScan::Flat);
    assert_eq!(root_step(RootScan::Malformed, "a/x", false), RootScan::Malformed);
}

#[test]
fn scanning_again_from_the_result_changes_nothing() {
    let names = ["a/x.txt", "__MACOSX/y", "a/b/", "a/c/d.txt"];
    let mut scan = RootScan::Seeking;
    for name in names {
        scan = root_step(scan, name, name.ends_with('/'));
    }
    assert_eq!(scan, found("a"));
    for name in names {
        scan = root_step(scan, name, name.ends_with('/'));
    }
    assert_eq!(scan, found("a"));
    assert_eq!(SanitizedPath::new().display(), "");
}
