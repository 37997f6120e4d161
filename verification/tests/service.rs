use file_ops::copy::copy_destination;
use file_ops::copy::copy_failure_message;
use file_ops::copy::disambiguated_name;
use file_ops::copy::folder_create_failure_message;
use file_ops::copy::missing_source_message;
use file_ops::greet::greet;
use file_ops::paths::join_path;
use file_ops::paths::parent_dir;
use file_ops::rename::rename_decision;
use file_ops::rename::rename_destination;
use file_ops::rename::rename_failure_message;
use file_ops::scan::cancelled_scan;
use file_ops::scan::name_has_word_extension;
use file_ops::scan::scan_outcome;
use file_ops::scan::FolderEntry;
use file_ops::scan::ScanError;
use file_ops::scan::ScanOutcome;
use file_ops::text::str_lex_le;
use file_ops::text::u64_to_dec;

fn entry(name: &str, path: &str, is_file: bool) -> FolderEntry {
    FolderEntry { name: name.to_string(), path: path.to_string(), is_file }
}

#[test]
fn greet_embeds_the_name() {
    assert_eq!(greet("World"), "Hello, World! You've been greeted from Rust!");
    assert_eq!(greet(""), "Hello, ! You've been greeted from Rust!");
}

#[test]
fn word_extensions_match_case_insensitively() {
    assert!(name_has_word_extension("a.doc"));
    assert!(name_has_word_extension("a.DOC"));
    assert!(name_has_word_extension("a.docx"));
    assert!(name_has_word_extension("a.DOCX"));
    assert!(name_has_word_extension("a.DoCx"));
    assert!(name_has_word_extension("report.old.doc"));
    assert!(name_has_word_extension(".doc"));
}

#[test]
fn other_extensions_do_not_match() {
    assert!(!name_has_word_extension("a.txt"));
    assert!(!name_has_word_extension("a.docs"));
    assert!(!name_has_word_extension("adoc"));
    assert!(!name_has_word_extension("docx"));
    assert!(!name_has_word_extension("a.doc.txt"));
    assert!(!name_has_word_extension(""));
}

#[test]
fn scan_keeps_only_word_files_sorted_by_name() {
    let entries = vec![
        entry("b.DOC", "/f/b.DOC", true),
        entry("notes.txt", "/f/notes.txt", true),
        entry("a.docx", "/f/a.docx", true),
        entry("sub.doc", "/f/sub.doc", false),
        entry("Z.docx", "/f/Z.docx", true),
    ];
    match scan_outcome("/f".to_string(), Ok(entries)) {
        ScanOutcome::Listing { folder_path, word_files } => {
            assert_eq!(folder_path, "/f");
            let names: Vec<&str> = word_files.iter().map(|d| d.name.as_str()).collect();
            assert_eq!(names, vec!["Z.docx", "a.docx", "b.DOC"]);
            let paths: Vec<&str> = word_files.iter().map(|d| d.path.as_str()).collect();
            assert_eq!(paths, vec!["/f/Z.docx", "/f/a.docx", "/f/b.DOC"]);
        }
        ScanOutcome::Error { message } => panic!("unexpected error: {}", message),
    }
}

#[test]
fn scan_of_empty_folder_lists_nothing() {
    match scan_outcome("/f".to_string(), Ok(Vec::new())) {
        ScanOutcome::Listing { folder_path, word_files } => {
            assert_eq!(folder_path, "/f");
            assert!(word_files.is_empty());
        }
        ScanOutcome::Error { message } => panic!("unexpected error: {}", message),
    }
}

#[test]
fn unreadable_folder_yields_error_and_no_listing() {
    let outcome = scan_outcome(
        "/f".to_string(),
        Err(ScanError::Folder { detail: "permission denied".to_string() }),
    );
    match outcome {
        ScanOutcome::Error { message } => {
            assert_eq!(message, "failed to read folder: permission denied");
        }
        ScanOutcome::Listing { .. } => panic!("expected an error outcome"),
    }
}

#[test]
fn unreadable_entry_aborts_the_scan() {
    let outcome = scan_outcome(
        "/f".to_string(),
        Err(ScanError::Entry { detail: "stale handle".to_string() }),
    );
    match outcome {
        ScanOutcome::Error { message } => {
            assert_eq!(message, "failed to read directory entry: stale handle");
        }
        ScanOutcome::Listing { .. } => panic!("expected an error outcome"),
    }
}

#[test]
fn dismissed_dialog_is_a_soft_error() {
    match cancelled_scan() {
        ScanOutcome::Error { message } => assert_eq!(message, "user cancelled selection"),
        ScanOutcome::Listing { .. } => panic!("expected an error outcome"),
    }
}

#[test]
fn rename_destination_joins_parent_and_new_name() {
    assert_eq!(rename_destination("/a/b.doc", "c.doc"), Ok("/a/c.doc".to_string()));
    assert_eq!(rename_destination("/top.doc", "x.doc"), Ok("/x.doc".to_string()));
    assert_eq!(rename_destination("plain.doc", "x.doc"), Ok("x.doc".to_string()));
    assert_eq!(rename_destination("/a//b.doc", "c.doc"), Ok("/a/c.doc".to_string()));
}

#[test]
fn rename_without_parent_is_refused() {
    let expected = Err("cannot determine containing directory".to_string());
    assert_eq!(rename_destination("", "c.doc"), expected);
    assert_eq!(rename_destination("///", "c.doc"), expected);
}

#[test]
fn rename_to_occupied_name_is_refused() {
    let r = rename_decision("c.doc", "/a/c.doc".to_string(), true);
    assert_eq!(r, Err("file \"c.doc\" already exists".to_string()));
}

#[test]
fn rename_to_free_name_hands_back_the_destination() {
    let r = rename_decision("c.doc", "/a/c.doc".to_string(), false);
    assert_eq!(r, Ok("/a/c.doc".to_string()));
}

#[test]
fn rename_failure_embeds_the_underlying_error() {
    assert_eq!(rename_failure_message("device busy"), "failed to rename file: device busy");
}

#[test]
fn parent_dir_resolves_the_containing_directory() {
    assert_eq!(parent_dir("/a/b/c.doc"), Some("/a/b".to_string()));
    assert_eq!(parent_dir("a/b"), Some("a".to_string()));
    assert_eq!(parent_dir("/x.doc"), Some("/".to_string()));
    assert_eq!(parent_dir("x.doc"), Some("".to_string()));
    assert_eq!(parent_dir("/a/b/"), Some("/a".to_string()));
    assert_eq!(parent_dir("/"), None);
    assert_eq!(parent_dir(""), None);
}

#[test]
fn join_path_places_one_separator() {
    assert_eq!(join_path("/a", "b.doc"), "/a/b.doc");
    assert_eq!(join_path("/a/", "b.doc"), "/a/b.doc");
    assert_eq!(join_path("", "b.doc"), "b.doc");
}

#[test]
fn disambiguated_name_appends_the_timestamp_before_the_extension() {
    assert_eq!(disambiguated_name("report.docx", 1700000000), "report_1700000000.docx");
    assert_eq!(disambiguated_name("archive.tar.gz", 7), "archive.tar_7.gz");
}

#[test]
fn disambiguated_name_without_extension_appends_the_timestamp() {
    assert_eq!(disambiguated_name("notes", 5), "notes_5");
    assert_eq!(disambiguated_name(".gitignore", 3), ".gitignore_3");
    assert_eq!(disambiguated_name("a.", 4), "a_4");
}

#[test]
fn disambiguated_name_of_a_stemless_name_uses_the_fallback_stem() {
    assert_eq!(disambiguated_name("", 9), "file_9");
    assert_eq!(disambiguated_name(".", 2), "file_2");
    assert_eq!(disambiguated_name("..", 2), "file_2");
}

#[test]
fn copy_to_free_name_uses_the_requested_name() {
    assert_eq!(copy_destination("/t", "x.doc", false, 0), "/t/x.doc");
    assert_eq!(copy_destination("/t/", "x.doc", false, 0), "/t/x.doc");
}

#[test]
fn copy_to_occupied_name_uses_the_disambiguated_name() {
    assert_eq!(copy_destination("/t", "x.doc", true, 42), "/t/x_42.doc");
    assert_eq!(copy_destination("/t", "plain", true, 42), "/t/plain_42");
    assert_ne!(copy_destination("/t", "x.doc", true, 42), "/t/x.doc");
}

#[test]
fn copy_preconditions_have_their_own_messages() {
    assert_eq!(missing_source_message("/s/f.doc"), "file does not exist: /s/f.doc");
    assert_eq!(folder_create_failure_message("read-only"), "failed to create folder: read-only");
    assert_eq!(copy_failure_message("disk full"), "failed to copy file: disk full");
}

#[test]
fn decimal_rendering_is_exact() {
    assert_eq!(u64_to_dec(0), "0");
    assert_eq!(u64_to_dec(7), "7");
    assert_eq!(u64_to_dec(1234567890), "1234567890");
    assert_eq!(u64_to_dec(u64::MAX), "18446744073709551615");
}

#[test]
fn name_order_is_by_code_point() {
    assert!(str_lex_le("a", "b"));
    assert!(!str_lex_le("b", "a"));
    assert!(str_lex_le("a", "a"));
    assert!(str_lex_le("", "a"));
    assert!(!str_lex_le("a", ""));
    assert!(str_lex_le("ab", "b"));
    assert!(str_lex_le("Z.docx", "a.docx"));
    assert!(str_lex_le("a", "ab"));
}
