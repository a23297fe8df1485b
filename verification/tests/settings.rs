use stubgen::config_file::{clone_texts, same_texts, FolderPaths, InitFile, UnitSwift};
use stubgen::failure::Failure;
use stubgen::tree_path::TreePath;

fn settings(parent: &str, sources: &str, tests: &str, unresolved: &str) -> InitFile {
    InitFile {
        tested_project: String::from("Proj"),
        parent_path: String::from(parent),
        folder_tests_name: String::from(tests),
        folder_unresolved_tests: String::from(unresolved),
        folder_with_files_project: String::from(sources),
        folder_file_exceptions: vec![],
        file_extension: vec![String::from(".swift")],
    }
}

fn path(absolute: bool, parts: &[&str]) -> TreePath {
    TreePath { absolute, parts: parts.iter().map(|p| p.to_string()).collect() }
}

#[test]
fn default_settings_are_the_placeholders() {
    let config = InitFile::default();
    assert_eq!(config.tested_project, "Project to which tests are connected");
    assert_eq!(config.parent_path, "Path to which paths for test folders are added");
    assert_eq!(config.folder_tests_name, "Folder where tests are saved");
    assert_eq!(
        config.folder_unresolved_tests,
        "Folder with tests without association with working files"
    );
    assert_eq!(config.folder_with_files_project, "Path to project files");
    assert_eq!(config.folder_file_exceptions, vec!["Names of folders/files to be skipped"]);
    assert_eq!(config.file_extension, vec![".swift"]);
}

#[test]
fn only_the_default_settings_hold_placeholders() {
    assert!(InitFile::default().holds_placeholders());
    assert!(!settings("/p", "Src", "Tests", "Lost").holds_placeholders());
    let mut edited = InitFile::default();
    edited.folder_file_exceptions.clear();
    assert!(!edited.holds_placeholders());
    let mut edited = InitFile::default();
    edited.parent_path = String::from("/home/me/proj");
    assert!(!edited.holds_placeholders());
}

#[test]
fn settings_compare_field_by_field() {
    assert_eq!(InitFile::default(), InitFile::default());
    let base = settings("/p", "Src", "Tests", "Lost");
    assert_eq!(base, base.clone());

    let mut other = base.clone();
    other.tested_project.push('!');
    assert_ne!(base, other);
    let mut other = base.clone();
    other.parent_path.push('!');
    assert_ne!(base, other);
    let mut other = base.clone();
    other.folder_tests_name.push('!');
    assert_ne!(base, other);
    let mut other = base.clone();
    other.folder_unresolved_tests.push('!');
    assert_ne!(base, other);
    let mut other = base.clone();
    other.folder_with_files_project.push('!');
    assert_ne!(base, other);
    let mut other = base.clone();
    other.folder_file_exceptions.push(String::from("Pods"));
    assert_ne!(base, other);
    let mut other = base.clone();
    other.file_extension[0] = String::from(".kt");
    assert_ne!(base, other);
}

#[test]
fn lists_compare_in_order() {
    let a = vec![String::from("x"), String::from("y")];
    let b = vec![String::from("y"), String::from("x")];
    assert!(same_texts(&a, &a.clone()));
    assert!(!same_texts(&a, &b));
    assert!(!same_texts(&a, &vec![String::from("x")]));
    assert!(same_texts(&Vec::new(), &Vec::new()));
    assert_eq!(clone_texts(&a), a);
}

#[test]
fn folders_are_taken_from_the_parent_path() {
    let folders = FolderPaths::from(&settings("/home/me/proj", "Src", "Tests", "Lost"));
    assert_eq!(folders.parent, path(true, &["home", "me", "proj"]));
    assert_eq!(folders.sources, path(true, &["home", "me", "proj", "Src"]));
    assert_eq!(folders.tests, path(true, &["home", "me", "proj", "Tests"]));
    assert_eq!(folders.unresolved, path(true, &["home", "me", "proj", "Lost"]));
}

#[test]
fn folders_of_a_relative_parent_are_relative() {
    let folders = FolderPaths::from(&settings("", "Src", "Tests", "Lost"));
    assert_eq!(folders.parent, path(false, &[]));
    assert_eq!(folders.sources, path(false, &["Src"]));
    assert_eq!(folders.tests, path(false, &["Tests"]));
    assert_eq!(folders.unresolved, path(false, &["Lost"]));
}

#[test]
fn a_rooted_folder_stands_for_itself() {
    let folders = FolderPaths::from(&settings("proj", "/abs/Src", "out/Tests", "Lost"));
    assert_eq!(folders.sources, path(true, &["abs", "Src"]));
    assert_eq!(folders.tests, path(false, &["proj", "out", "Tests"]));
}

#[test]
fn trees_are_apart_unless_one_holds_the_other() {
    assert!(FolderPaths::from(&settings("/p", "Src", "Tests", "Lost")).trees_apart());
    assert!(FolderPaths::from(&settings("", "Src", "SrcTests", "Lost")).trees_apart());
    assert!(FolderPaths::from(&settings("/p", "a/Src", "b/Src", "Lost")).trees_apart());
    assert!(!FolderPaths::from(&settings("/p", "Src", "Src", "Lost")).trees_apart());
    assert!(!FolderPaths::from(&settings("/p", "Src", "Src/Tests", "Lost")).trees_apart());
    assert!(!FolderPaths::from(&settings("/p", "Tests/Src", "Tests", "Lost")).trees_apart());
    assert!(!FolderPaths::from(&settings("/p", "", "Tests", "Lost")).trees_apart());
    assert!(FolderPaths::from(&settings("p", "Src", "/p/Src/Tests", "Lost")).trees_apart());
}

#[test]
fn folders_from_owned_settings_are_the_same() {
    let config = settings("/p", "Src", "Tests", "Lost");
    let by_ref = FolderPaths::from(&config);
    let owned = FolderPaths::from(config);
    assert_eq!(by_ref.parent, owned.parent);
    assert_eq!(by_ref.sources, owned.sources);
    assert_eq!(by_ref.tests, owned.tests);
    assert_eq!(by_ref.unresolved, owned.unresolved);
}

#[test]
fn record_becomes_an_object_of_three_strings() {
    let record = UnitSwift {
        project_name: String::from("Proj"),
        class_name: String::from("Foo"),
        created_date: String::from("01/02/2024"),
    };
    let mut members = serde_json::Map::new();
    members.insert(String::from("class_name"), serde_json::Value::String(String::from("Foo")));
    members.insert(
        String::from("created_date"),
        serde_json::Value::String(String::from("01/02/2024")),
    );
    members.insert(String::from("project_name"), serde_json::Value::String(String::from("Proj")));
    assert_eq!(record.get_json(), serde_json::Value::Object(members));
    assert_eq!(
        record.get_json().to_string(),
        "{\"class_name\":\"Foo\",\"created_date\":\"01/02/2024\",\"project_name\":\"Proj\"}"
    );
}

#[test]
fn only_two_failures_end_the_run() {
    assert!(Failure::ConfigurationRead.is_fatal());
    assert!(Failure::DirectoryList.is_fatal());
    assert!(!Failure::PathMapping.is_fatal());
    assert!(!Failure::TemplateRender.is_fatal());
    assert!(!Failure::StubWrite.is_fatal());
}

#[test]
fn failures_have_words() {
    assert_eq!(Failure::ConfigurationRead.describe(), "the settings could not be read");
    assert_eq!(Failure::DirectoryList.describe(), "a directory could not be listed");
    assert_eq!(Failure::PathMapping.describe(), "the file is not under the sources root");
    assert_eq!(Failure::TemplateRender.describe(), "the template could not be rendered");
    assert_eq!(Failure::StubWrite.describe(), "the stub could not be written");
}
