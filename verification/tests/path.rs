use exzip::path::{is_ignored_file, is_ignored_name, sanitize_path, SanitizedPath};
use std::path::{Component, Path, PathBuf};

fn shown(name: &str) -> Option<String> {
    sanitize_path(name).map(|p| p.display())
}

fn path_of(name: &str) -> SanitizedPath {
    sanitize_path(name).expect("the name is accepted")
}

// The same walk written with the path type of the standard library, on the
// path syntax of Unix.
fn with_std_paths(name: &str) -> Option<String> {
    let mut result = PathBuf::new();
    for component in Path::new(name).components() {
        match component {
            Component::Normal(part) => {
                if part.to_string_lossy().contains('\0') {
                    return None;
                }
                result.push(part);
            }
            Component::ParentDir => {
                if result == Path::new("") {
                    return None;
                }
                result.pop();
            }
            _ => {}
        }
    }
    Some(result.to_string_lossy().into_owned())
}

#[test]
fn plain_names_are_kept() {
    assert_eq!(shown("a.txt"), Some("a.txt".to_string()));
    assert_eq!(shown("Proj/sub/b.txt"), Some("Proj/sub/b.txt".to_string()));
    assert_eq!(
        path_of("Proj/sub/b.txt").segments(),
        vec!["Proj".to_string(), "sub".to_string(), "b.txt".to_string()]
    );
}

#[test]
fn empty_and_current_components_are_dropped() {
    assert_eq!(shown(""), Some(String::new()));
    assert_eq!(shown("."), Some(String::new()));
    assert_eq!(shown("/"), Some(String::new()));
    assert_eq!(shown("./a/./b/"), Some("a/b".to_string()));
    assert_eq!(shown("a//b"), Some("a/b".to_string()));
    assert_eq!(shown("/etc/passwd"), Some("etc/passwd".to_string()));
    assert_eq!(shown("dir/"), Some("dir".to_string()));
}

#[test]
fn parent_inside_root_is_resolved() {
    assert_eq!(shown("a/../b"), Some("b".to_string()));
    assert_eq!(shown("a/b/../../c/d"), Some("c/d".to_string()));
    assert_eq!(shown("a/.."), Some(String::new()));
    assert_eq!(shown("a/b/.."), Some("a".to_string()));
}

#[test]
fn parent_above_root_is_rejected() {
    assert_eq!(shown("../../etc/passwd"), None);
    assert_eq!(shown(".."), None);
    assert_eq!(shown("a/../.."), None);
    assert_eq!(shown("a/../../a/b"), None);
    assert_eq!(shown("/../x"), None);
    assert_eq!(shown("./../x"), None);
}

#[test]
fn nul_in_a_component_is_rejected() {
    assert_eq!(shown("a\0b"), None);
    assert_eq!(shown("dir/a\0"), None);
    assert_eq!(shown("\0/x"), None);
    // the walk stops at the first rejection, whichever it is
    assert_eq!(shown("a\0/../.."), None);
}

#[test]
fn dots_inside_names_are_ordinary() {
    assert_eq!(shown("..."), Some("...".to_string()));
    assert_eq!(shown("a..b/..c/d.."), Some("a..b/..c/d..".to_string()));
    assert_eq!(shown(".hidden"), Some(".hidden".to_string()));
    // a backslash is no separator
    assert_eq!(shown("a\\..\\b"), Some("a\\..\\b".to_string()));
}

#[test]
fn names_outside_ascii_are_kept() {
    assert_eq!(shown("日本語/テスト.txt"), Some("日本語/テスト.txt".to_string()));
    assert_eq!(path_of("日本語/テスト.txt").len(), 2);
}

#[test]
fn sanitized_names_never_hold_a_parent_segment() {
    let names = [
        "a/../b", "x/y/../../z", "../a", "a/b/c/../../../..", "a/./../b/..", "..a/b..", "a/b/../c/../../d",
        "/a/../b/./c", "a/../../b", "....//....//etc",
    ];
    for name in names {
        match sanitize_path(name) {
            None => {}
            Some(path) => {
                for segment in path.segments() {
                    assert!(!segment.is_empty());
                    assert_ne!(segment, ".");
                    assert_ne!(segment, "..");
                    assert!(!segment.contains('/'));
                    assert!(!segment.contains('\0'));
                }
            }
        }
    }
}

#[test]
fn sanitize_agrees_with_the_paths_of_std() {
    let names = [
        "", ".", "..", "/", "//", "a", "a/", "/a", "a/b", "a//b", "a/./b", "./a", "a/.", "a/..", "../a",
        "a/../b", "a/../../b", "a/b/../..", "a/b/../../..", "/../a", "a\0b", "a/\0", "a\0/../..", "...",
        "..a", "a..", "a/b/c/d/e/../../../../../f", "日本語/../テスト", "a\\b", "C:/x", "C:\\x", " / ",
        "Proj/a.txt", "Proj/sub/b.txt", "__MACOSX/._a", "././././", "../../etc/passwd",
    ];
    for name in names {
        assert_eq!(shown(name), with_std_paths(name), "for the name {:?}", name);
    }
}

#[test]
fn sanitizing_what_was_sanitized_changes_nothing() {
    for name in ["a/../b/c", "/x//y/./z/", "日本語/a", "", "a/b/.."] {
        let once = path_of(name);
        let twice = path_of(&once.display());
        assert_eq!(once, twice);
    }
}

#[test]
fn display_joins_with_slashes() {
    assert_eq!(SanitizedPath::new().display(), "");
    assert_eq!(path_of("a").display(), "a");
    assert_eq!(path_of("a/b/c").display(), "a/b/c");
}

#[test]
fn empty_path_has_no_segments() {
    let empty = SanitizedPath::new();
    assert!(empty.is_empty());
    assert_eq!(empty.len(), 0);
    assert!(empty.segments().is_empty());
    assert!(!path_of("a").is_empty());
}

#[test]
fn parent_drops_the_last_segment() {
    assert_eq!(path_of("a/b/c").parent(), path_of("a/b"));
    assert_eq!(path_of("a").parent(), SanitizedPath::new());
    assert_eq!(SanitizedPath::new().parent(), SanitizedPath::new());
}

#[test]
fn top_is_the_first_segment() {
    assert_eq!(path_of("a/b/c").top(), path_of("a"));
    assert_eq!(path_of("a").top(), path_of("a"));
    assert_eq!(SanitizedPath::new().top(), SanitizedPath::new());
}

#[test]
fn starts_with_compares_whole_segments() {
    assert!(path_of("a/b/c").starts_with(&path_of("a")));
    assert!(path_of("a/b/c").starts_with(&path_of("a/b")));
    assert!(path_of("a/b/c").starts_with(&path_of("a/b/c")));
    assert!(path_of("a/b/c").starts_with(&SanitizedPath::new()));
    assert!(!path_of("a/b/c").starts_with(&path_of("a/b/c/d")));
    assert!(!path_of("ab/c").starts_with(&path_of("a")));
    assert!(!path_of("a/b").starts_with(&path_of("b")));
    assert!(!SanitizedPath::new().starts_with(&path_of("a")));
}

#[test]
fn strip_prefix_gives_the_rest() {
    assert_eq!(path_of("Proj/sub/b.txt").strip_prefix(&path_of("Proj")), Some(path_of("sub/b.txt")));
    assert_eq!(path_of("Proj").strip_prefix(&path_of("Proj")), Some(SanitizedPath::new()));
    assert_eq!(path_of("a/b").strip_prefix(&SanitizedPath::new()), Some(path_of("a/b")));
    assert_eq!(path_of("a/b").strip_prefix(&path_of("b")), None);
    assert_eq!(path_of("Project/a").strip_prefix(&path_of("Proj")), None);
    assert_eq!(path_of("a").strip_prefix(&path_of("a/b")), None);
}

#[test]
fn clone_is_equal() {
    let path = path_of("a/b/c");
    assert_eq!(path.clone(), path);
}

#[test]
fn macos_metadata_is_ignored_anywhere() {
    assert!(is_ignored_file(&path_of("__MACOSX")));
    assert!(is_ignored_file(&path_of("__MACOSX/._a.txt")));
    assert!(is_ignored_file(&path_of("a/__MACOSX/b/c")));
    assert!(is_ignored_file(&path_of("a/b/__MACOSX")));
    assert!(!is_ignored_file(&path_of("__macosx/a")));
    assert!(!is_ignored_file(&path_of("a/__MACOSX_/b")));
}

#[test]
fn litter_is_ignored_as_last_segment_only() {
    assert!(is_ignored_file(&path_of("Thumbs.db")));
    assert!(is_ignored_file(&path_of("a/b/Thumbs.db")));
    assert!(is_ignored_file(&path_of(".DS_Store")));
    assert!(is_ignored_file(&path_of("a/.DS_Store")));
    assert!(!is_ignored_file(&path_of("Thumbs.db/a")));
    assert!(!is_ignored_file(&path_of(".DS_Store/a")));
    assert!(!is_ignored_file(&path_of("thumbs.db")));
    assert!(!is_ignored_file(&path_of("a/b.txt")));
    assert!(!is_ignored_file(&SanitizedPath::new()));
}

#[test]
fn names_as_written_are_left_out_by_their_components() {
    for name in [
        "__MACOSX",
        "__MACOSX/x",
        "../__MACOSX/x",
        "a/__MACOSX/../..",
        "Thumbs.db",
        "../Thumbs.db",
        "a/../../.DS_Store",
        "../__MACOSX/",
        "x\0/.DS_Store",
        "__MACOSX\0/../__MACOSX",
    ] {
        assert!(is_ignored_name(name), "for {:?}", name);
    }
    for name in [
        "",
        "..",
        "../x",
        "../Thumbs.db/x",
        "Thumbs.db/..",
        "../Thumbs.db/",
        "../Thumbs.db//./",
        "../thumbs.db",
        "__MACOSX\0",
        "a__MACOSX/b",
        "../.DS_Store\0",
    ] {
        assert!(!is_ignored_name(name), "for {:?}", name);
    }
}

#[test]
fn both_forms_of_the_ignore_rule_agree_on_a_path_written_out() {
    for name in ["a/b", "__MACOSX/a", "a/Thumbs.db", "a/.DS_Store/", "/./a//b/.", "Thumbs.db/x", "", "a/../.DS_Store"] {
        let path = sanitize_path(name).expect("the name is accepted");
        assert_eq!(is_ignored_name(&path.display()), is_ignored_file(&path), "for {:?}", name);
    }
}
