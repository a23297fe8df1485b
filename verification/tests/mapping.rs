use stubgen::config_file::InitFile;
use stubgen::failure::Failure;
use stubgen::path_mapper::{get_unit_test_path, stub_suffix_of};
use stubgen::tree_path::TreePath;

fn settings(parent: &str, sources: &str, tests: &str) -> InitFile {
    InitFile {
        tested_project: String::from("Proj"),
        parent_path: String::from(parent),
        folder_tests_name: String::from(tests),
        folder_unresolved_tests: String::from("Lost"),
        folder_with_files_project: String::from(sources),
        folder_file_exceptions: vec![],
        file_extension: vec![String::from(".swift")],
    }
}

fn swift_template() -> TreePath {
    TreePath::parse("./ExampleSwiftUnitTest.swift")
}

#[test]
fn suffix_takes_the_extension_of_the_template() {
    assert_eq!(stub_suffix_of(&swift_template()), "Tests.swift");
    assert_eq!(stub_suffix_of(&TreePath::parse("templates/unit.test.kt")), "Tests.kt");
    assert_eq!(stub_suffix_of(&TreePath::parse("templates/plain")), "Tests");
    assert_eq!(stub_suffix_of(&TreePath::parse("templates/.hidden")), "Tests");
    assert_eq!(stub_suffix_of(&TreePath::parse("")), "Tests");
    assert_eq!(stub_suffix_of(&TreePath::parse("templates/..")), "Tests");
}

#[test]
fn file_in_the_sources_root_maps_to_the_tests_root() {
    let config = settings("", "Src", "Tests");
    let (dir, name) =
        get_unit_test_path(&TreePath::parse("Src/Foo.swift"), &config, &swift_template()).unwrap();
    assert_eq!(dir, TreePath::parse("Tests"));
    assert_eq!(name, "FooTests.swift");
}

#[test]
fn nested_file_keeps_its_relative_directory() {
    let config = settings("", "Src", "Tests");
    let (dir, name) = get_unit_test_path(
        &TreePath::parse("Src/Module/Sub/Qux.swift"),
        &config,
        &swift_template(),
    )
    .unwrap();
    assert_eq!(dir, TreePath::parse("Tests/Module/Sub"));
    assert_eq!(name, "QuxTests.swift");
}

#[test]
fn mapping_works_below_a_rooted_parent() {
    let config = settings("/home/me/proj", "Sources/App", "Generated/Tests");
    let (dir, name) = get_unit_test_path(
        &TreePath::parse("/home/me/proj/Sources/App/a/b/File.ext"),
        &config,
        &TreePath::parse("/etc/templates/stub.swift"),
    )
    .unwrap();
    assert_eq!(dir, TreePath::parse("/home/me/proj/Generated/Tests/a/b"));
    assert_eq!(name, "FileTests.swift");
}

#[test]
fn only_the_last_extension_gives_way() {
    let config = settings("", "Src", "Tests");
    let (_, name) = get_unit_test_path(
        &TreePath::parse("Src/a.view.swift"),
        &config,
        &swift_template(),
    )
    .unwrap();
    assert_eq!(name, "a.viewTests.swift");
    let (_, name) =
        get_unit_test_path(&TreePath::parse("Src/Makefile"), &config, &swift_template()).unwrap();
    assert_eq!(name, "MakefileTests.swift");
    let (_, name) =
        get_unit_test_path(&TreePath::parse("Src/Foo.swift"), &config, &TreePath::parse("plain"))
            .unwrap();
    assert_eq!(name, "FooTests");
}

#[test]
fn file_outside_the_sources_root_fails() {
    let config = settings("", "Src", "Tests");
    let template = swift_template();
    for outside in ["Other/Foo.swift", "Foo.swift", "Src2/Foo.swift", "/Src/Foo.swift", "Tests/Foo.swift"] {
        assert_eq!(
            get_unit_test_path(&TreePath::parse(outside), &config, &template),
            Err(Failure::PathMapping),
            "{}",
            outside
        );
    }
}

#[test]
fn sibling_with_a_longer_name_is_outside() {
    let config = settings("/proj", "Src", "Tests");
    assert_eq!(
        get_unit_test_path(&TreePath::parse("/proj/SrcOld/Foo.swift"), &config, &swift_template()),
        Err(Failure::PathMapping)
    );
}

#[test]
fn path_without_a_file_name_fails() {
    let config = settings("", "Src", "Tests");
    let template = swift_template();
    assert_eq!(
        get_unit_test_path(&TreePath::parse(""), &config, &template),
        Err(Failure::PathMapping)
    );
    assert_eq!(
        get_unit_test_path(&TreePath::parse("Src/a/.."), &config, &template),
        Err(Failure::PathMapping)
    );
}

#[test]
fn the_sources_root_itself_is_no_source_file() {
    let config = settings("", "Src", "Tests");
    assert_eq!(
        get_unit_test_path(&TreePath::parse("Src"), &config, &swift_template()),
        Err(Failure::PathMapping)
    );
}

#[test]
fn mapping_agrees_with_std_paths() {
    let config = settings("/proj", "Src", "Tests");
    let source = std::path::Path::new("/proj/Src/a/b/File.ext");
    let below = source.parent().unwrap().strip_prefix("/proj/Src").unwrap();
    let mut expected = std::path::PathBuf::from("/proj/Tests");
    expected.push(below);
    let (dir, _) = get_unit_test_path(
        &TreePath::parse("/proj/Src/a/b/File.ext"),
        &config,
        &swift_template(),
    )
    .unwrap();
    let mut got = std::path::PathBuf::from("/");
    for part in &dir.parts {
        got.push(part);
    }
    assert_eq!(got, expected);
}
