use std::path::MAIN_SEPARATOR;
use yaak_plugin_runtime::paths::{
    fix_simplified_path, fix_windows_paths, strip_drive, DirListing, EntryRead,
};
use yaak_plugin_runtime::text::contains;

fn entry(path: &str, is_dir: bool) -> EntryRead {
    EntryRead::Entry { path: path.to_string(), is_dir }
}

#[test]
fn strips_a_drive() {
    assert_eq!(strip_drive("C:\\plugins\\a"), "\\plugins\\a");
    assert_eq!(strip_drive("z:"), "");
    assert_eq!(strip_drive("C:D:x"), "D:x");
    assert_eq!(strip_drive("1:x"), "1:x");
    assert_eq!(strip_drive("é:x"), "é:x");
    assert_eq!(strip_drive("/a/C:"), "/a/C:");
    assert_eq!(strip_drive("C"), "C");
    assert_eq!(strip_drive(""), "");
}

#[test]
fn fixes_windows_paths() {
    let on_windows = MAIN_SEPARATOR == '\\';
    let expected = if on_windows { "/plugins/a" } else { "\\plugins\\a" };
    assert_eq!(fix_windows_paths("C:\\plugins\\a"), expected);
    assert_eq!(fix_simplified_path("C:\\plugins\\a"), expected);
    let verbatim = fix_windows_paths("\\\\?\\C:\\plugins\\a");
    if on_windows {
        assert_eq!(verbatim, "/plugins/a");
    } else {
        assert_eq!(verbatim, "\\\\?\\C:\\plugins\\a");
    }
    // A reserved name needs the verbatim prefix
    let reserved = fix_windows_paths("\\\\?\\C:\\plugins\\aux");
    let share = fix_windows_paths("\\\\server\\share\\a");
    if on_windows {
        assert_eq!(reserved, "\\\\?\\C:/plugins/aux");
        assert_eq!(share, "\\\\server\\share/a");
    } else {
        assert_eq!(reserved, "\\\\?\\C:\\plugins\\aux");
        assert_eq!(share, "\\\\server\\share\\a");
    }
    assert_eq!(fix_windows_paths("d:/plugins/b"), "/plugins/b");
    assert_eq!(fix_windows_paths("plugins/b"), "plugins/b");
}

#[test]
fn lists_directories_in_order() {
    let mut listing = DirListing::new();
    assert!(listing.accept(entry("p/b", true)));
    assert!(listing.accept(entry("p/readme", false)));
    assert!(listing.accept(entry("p/a", true)));
    assert!(!listing.accept(EntryRead::End));
    assert_eq!(listing.into_dirs(), vec!["p/b", "p/a"]);
}

#[test]
fn a_failed_read_ends_a_listing() {
    let mut listing = DirListing::new();
    assert!(listing.accept(entry("p/a", true)));
    assert!(!listing.accept(EntryRead::Failed));
    assert_eq!(listing.into_dirs(), vec!["p/a"]);
}

#[test]
fn finds_substrings() {
    assert!(contains("application/json", "json"));
    assert!(contains("json", "json"));
    assert!(contains("jjson", "json"));
    assert!(contains("", ""));
    assert!(!contains("jso", "json"));
    assert!(!contains("application/xml", "json"));
    assert!(contains("größe/json", "json"));
}
