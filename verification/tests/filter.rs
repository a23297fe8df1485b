use stubgen::config_file::InitFile;
use stubgen::name_filter::{
    extension_token_of, is_eligible, is_hidden, is_valid_name, name_is_hidden, name_is_valid,
    EntryKind,
};
use stubgen::tree_path::TreePath;

fn settings(extensions: &[&str], exclusions: &[&str]) -> InitFile {
    InitFile {
        tested_project: String::from("Proj"),
        parent_path: String::new(),
        folder_tests_name: String::from("Tests"),
        folder_unresolved_tests: String::from("Lost"),
        folder_with_files_project: String::from("Src"),
        folder_file_exceptions: exclusions.iter().map(|s| s.to_string()).collect(),
        file_extension: extensions.iter().map(|s| s.to_string()).collect(),
    }
}

#[test]
fn hidden_is_a_leading_dot() {
    assert!(name_is_hidden(".git"));
    assert!(name_is_hidden("."));
    assert!(name_is_hidden(".."));
    assert!(!name_is_hidden("git"));
    assert!(!name_is_hidden("a.b"));
    assert!(!name_is_hidden(""));
}

#[test]
fn hidden_path_goes_by_its_last_name() {
    assert!(is_hidden(&TreePath::parse("Src/.hidden")));
    assert!(is_hidden(&TreePath::parse(".git")));
    assert!(!is_hidden(&TreePath::parse("Src/.hidden/Baz.swift")));
    assert!(!is_hidden(&TreePath::parse("Src/Foo.swift")));
    assert!(!is_hidden(&TreePath::parse("Src/..")));
    assert!(!is_hidden(&TreePath::parse("")));
}

#[test]
fn extension_token_has_the_dot() {
    assert_eq!(extension_token_of("Foo.swift"), ".swift");
    assert_eq!(extension_token_of("a.tar.gz"), ".gz");
    assert_eq!(extension_token_of("end."), ".");
    assert_eq!(extension_token_of("Makefile"), "Empty");
    assert_eq!(extension_token_of(".profile"), "Empty");
}

#[test]
fn directory_is_valid_unless_excluded() {
    let config = settings(&[".swift"], &["Pods"]);
    assert!(name_is_valid(&String::from("Module"), EntryKind::Directory, &config));
    assert!(name_is_valid(&String::from("Module.txt"), EntryKind::Directory, &config));
    assert!(!name_is_valid(&String::from("Pods"), EntryKind::Directory, &config));
    assert!(name_is_valid(&String::from("pods"), EntryKind::Directory, &config));
}

#[test]
fn file_is_valid_by_exclusion_and_extension() {
    let config = settings(&[".swift", ".kt"], &["Skip.swift"]);
    assert!(name_is_valid(&String::from("Foo.swift"), EntryKind::File, &config));
    assert!(name_is_valid(&String::from("Foo.kt"), EntryKind::File, &config));
    assert!(!name_is_valid(&String::from("Skip.swift"), EntryKind::File, &config));
    assert!(!name_is_valid(&String::from("Bar.txt"), EntryKind::File, &config));
    assert!(!name_is_valid(&String::from("Foo.SWIFT"), EntryKind::File, &config));
    assert!(!name_is_valid(&String::from("Foo.swift2"), EntryKind::File, &config));
    assert!(!name_is_valid(&String::from("swift"), EntryKind::File, &config));
}

#[test]
fn extension_without_dot_in_settings_matches_nothing() {
    let config = settings(&["swift"], &[]);
    assert!(!name_is_valid(&String::from("Foo.swift"), EntryKind::File, &config));
}

#[test]
fn file_without_extension_goes_by_the_word_empty() {
    assert!(!name_is_valid(&String::from("Makefile"), EntryKind::File, &settings(&[".swift"], &[])));
    assert!(name_is_valid(&String::from("Makefile"), EntryKind::File, &settings(&["Empty"], &[])));
    assert!(!name_is_valid(&String::from("Foo.Empty"), EntryKind::File, &settings(&["Empty"], &[])));
}

#[test]
fn other_kinds_are_never_valid() {
    let config = settings(&[".swift"], &[]);
    assert!(!name_is_valid(&String::from("Foo.swift"), EntryKind::Other, &config));
}

#[test]
fn valid_name_of_a_path_goes_by_its_last_name() {
    let config = settings(&[".swift"], &["Pods"]);
    assert!(is_valid_name(&TreePath::parse("Src/Foo.swift"), EntryKind::File, &config));
    assert!(is_valid_name(&TreePath::parse("Pods/Foo.swift"), EntryKind::File, &config));
    assert!(!is_valid_name(&TreePath::parse("Src/Pods"), EntryKind::Directory, &config));
    assert!(!is_valid_name(&TreePath::parse("Src/.."), EntryKind::Directory, &config));
    assert!(!is_valid_name(&TreePath::parse(""), EntryKind::Directory, &config));
    assert!(is_valid_name(&TreePath::parse("Src/.hidden"), EntryKind::Directory, &config));
}

#[test]
fn excluded_file_is_never_eligible() {
    let config = settings(&[".ext"], &["Skip.ext"]);
    assert!(!is_eligible(&TreePath::parse("Src/Skip.ext"), EntryKind::File, &config));
    assert!(is_eligible(&TreePath::parse("Src/Keep.ext"), EntryKind::File, &config));
}

#[test]
fn file_with_other_extension_is_never_eligible() {
    let config = settings(&[".swift"], &[]);
    assert!(!is_eligible(&TreePath::parse("Src/Generated/Bar.txt"), EntryKind::File, &config));
}

#[test]
fn hidden_entry_is_never_eligible() {
    let config = settings(&[".swift", "Empty", ".git"], &[]);
    assert!(!is_eligible(&TreePath::parse("Src/.git"), EntryKind::Directory, &config));
    assert!(!is_eligible(&TreePath::parse("Src/.git"), EntryKind::File, &config));
    assert!(!is_eligible(&TreePath::parse("Src/.hidden.swift"), EntryKind::File, &config));
    assert!(is_eligible(&TreePath::parse("Src/shown.swift"), EntryKind::File, &config));
    assert!(is_eligible(&TreePath::parse("Src/Module"), EntryKind::Directory, &config));
}
