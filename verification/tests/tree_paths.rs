use stubgen::tree_path::TreePath;

fn path(absolute: bool, parts: &[&str]) -> TreePath {
    TreePath { absolute, parts: parts.iter().map(|p| p.to_string()).collect() }
}

#[test]
fn parse_splits_at_slashes() {
    assert_eq!(TreePath::parse("Src/Module/Sub"), path(false, &["Src", "Module", "Sub"]));
    assert_eq!(TreePath::parse("/usr/local"), path(true, &["usr", "local"]));
    assert_eq!(TreePath::parse("Src"), path(false, &["Src"]));
}

#[test]
fn parse_passes_over_empty_segments_and_lone_dots() {
    assert_eq!(TreePath::parse("/a//b/./c/"), path(true, &["a", "b", "c"]));
    assert_eq!(TreePath::parse("./InitFile.json"), path(false, &["InitFile.json"]));
    assert_eq!(TreePath::parse("a/../b"), path(false, &["a", "..", "b"]));
    assert_eq!(TreePath::parse("a/.b/c."), path(false, &["a", ".b", "c."]));
}

#[test]
fn parse_of_nothing_is_the_empty_path() {
    assert_eq!(TreePath::parse(""), path(false, &[]));
    assert_eq!(TreePath::parse("."), path(false, &[]));
    assert_eq!(TreePath::parse("/"), path(true, &[]));
    assert_eq!(TreePath::parse("//"), path(true, &[]));
}

#[test]
fn parse_keeps_other_characters() {
    assert_eq!(TreePath::parse("My Project/Grüße"), path(false, &["My Project", "Grüße"]));
    assert_eq!(TreePath::parse("C:\\proj/Src"), path(false, &["C:\\proj", "Src"]));
}

#[test]
fn child_adds_one_name() {
    assert_eq!(path(true, &["a"]).child("b"), path(true, &["a", "b"]));
    assert_eq!(path(false, &[]).child("x.swift"), path(false, &["x.swift"]));
}

#[test]
fn join_continues_or_replaces() {
    let base = path(true, &["proj"]);
    assert_eq!(base.join(&path(false, &["Src", "a"])), path(true, &["proj", "Src", "a"]));
    assert_eq!(base.join(&path(true, &["elsewhere"])), path(true, &["elsewhere"]));
    assert_eq!(base.join(&path(false, &[])), path(true, &["proj"]));
    assert_eq!(path(false, &[]).join(&path(false, &["Src"])), path(false, &["Src"]));
}

#[test]
fn parent_drops_the_last_name() {
    assert_eq!(path(false, &["a", "b"]).parent(), Some(path(false, &["a"])));
    assert_eq!(path(true, &["a"]).parent(), Some(path(true, &[])));
    assert_eq!(path(true, &[]).parent(), None);
    assert_eq!(path(false, &[]).parent(), None);
}

#[test]
fn file_name_is_the_last_name_unless_dot_dot() {
    assert_eq!(path(false, &["a", "b.swift"]).file_name(), Some(String::from("b.swift")));
    assert_eq!(path(false, &["a", ".."]).file_name(), None);
    assert_eq!(path(false, &[]).file_name(), None);
    assert_eq!(path(false, &["..."]).file_name(), Some(String::from("...")));
}

#[test]
fn is_under_compares_names_not_text() {
    let base = path(false, &["Src"]);
    assert!(path(false, &["Src"]).is_under(&base));
    assert!(path(false, &["Src", "a", "b"]).is_under(&base));
    assert!(!path(false, &["Src2", "a"]).is_under(&base));
    assert!(!path(false, &["Sr"]).is_under(&base));
    assert!(!path(false, &[]).is_under(&base));
    assert!(!path(true, &["Src", "a"]).is_under(&base));
    assert!(path(false, &["anything"]).is_under(&path(false, &[])));
}

#[test]
fn strip_prefix_gives_the_names_below() {
    let base = path(true, &["proj", "Src"]);
    assert_eq!(
        path(true, &["proj", "Src", "a", "b"]).strip_prefix(&base),
        Some(path(false, &["a", "b"]))
    );
    assert_eq!(path(true, &["proj", "Src"]).strip_prefix(&base), Some(path(false, &[])));
    assert_eq!(path(true, &["proj", "Other", "a"]).strip_prefix(&base), None);
    assert_eq!(path(false, &["proj", "Src", "a"]).strip_prefix(&base), None);
    assert_eq!(path(true, &["proj"]).strip_prefix(&base), None);
}

#[test]
fn equality_is_by_flag_and_names() {
    assert_eq!(path(false, &["a", "b"]), path(false, &["a", "b"]));
    assert_ne!(path(false, &["a", "b"]), path(true, &["a", "b"]));
    assert_ne!(path(false, &["a", "b"]), path(false, &["a"]));
    assert_ne!(path(false, &["a"]), path(false, &["a", "b"]));
    assert_ne!(path(false, &["a", "b"]), path(false, &["a", "c"]));
}

#[test]
fn clone_is_equal() {
    let first = path(true, &["a", "b", "c"]);
    assert_eq!(first.clone(), first);
}
