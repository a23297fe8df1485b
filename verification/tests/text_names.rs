use stubgen::text::{contains_name, extension, file_stem, find_last_dot, find_split_point};

#[test]
fn last_dot_of_plain_name_is_missing() {
    assert_eq!(find_last_dot("Makefile"), None);
    assert_eq!(find_last_dot(""), None);
}

#[test]
fn last_dot_is_the_last_of_several() {
    assert_eq!(find_last_dot("a.tar.gz"), Some(5));
    assert_eq!(find_last_dot(".profile"), Some(0));
    assert_eq!(find_last_dot("end."), Some(3));
}

#[test]
fn last_dot_counts_characters_not_bytes() {
    assert_eq!(find_last_dot("Grüße.swift"), Some(5));
}

#[test]
fn split_point_skips_leading_dot_and_dot_dot() {
    assert_eq!(find_split_point(".profile"), None);
    assert_eq!(find_split_point(".."), None);
    assert_eq!(find_split_point("."), None);
    assert_eq!(find_split_point("Foo.swift"), Some(3));
    assert_eq!(find_split_point(".a.b"), Some(2));
    assert_eq!(find_split_point("..."), Some(2));
}

#[test]
fn stem_drops_the_last_extension_only() {
    assert_eq!(file_stem("Foo.swift"), "Foo");
    assert_eq!(file_stem("a.tar.gz"), "a.tar");
    assert_eq!(file_stem("Makefile"), "Makefile");
    assert_eq!(file_stem(".profile"), ".profile");
    assert_eq!(file_stem(".."), "..");
    assert_eq!(file_stem("end."), "end");
    assert_eq!(file_stem(""), "");
    assert_eq!(file_stem("Grüße.swift"), "Grüße");
}

#[test]
fn extension_is_what_follows_the_last_dot() {
    assert_eq!(extension("Foo.swift"), Some(String::from("swift")));
    assert_eq!(extension("a.tar.gz"), Some(String::from("gz")));
    assert_eq!(extension("end."), Some(String::new()));
    assert_eq!(extension("Makefile"), None);
    assert_eq!(extension(".profile"), None);
    assert_eq!(extension(".."), None);
    assert_eq!(extension(""), None);
}

#[test]
fn stem_and_extension_agree_with_std_paths() {
    for name in ["Foo.swift", "a.tar.gz", "Makefile", ".profile", "end.", ".a.b", "x..y", "..."] {
        let path = std::path::Path::new(name);
        assert_eq!(
            Some(file_stem(name)),
            path.file_stem().map(|s| s.to_str().unwrap().to_string()),
            "stem of {}",
            name
        );
        assert_eq!(
            extension(name),
            path.extension().map(|s| s.to_str().unwrap().to_string()),
            "extension of {}",
            name
        );
    }
}

#[test]
fn contains_name_is_exact() {
    let list = vec![String::from(".swift"), String::from("Pods")];
    assert!(contains_name(&list, &String::from("Pods")));
    assert!(contains_name(&list, &String::from(".swift")));
    assert!(!contains_name(&list, &String::from("pods")));
    assert!(!contains_name(&list, &String::from("Pod")));
    assert!(!contains_name(&list, &String::from("")));
    assert!(!contains_name(&Vec::new(), &String::from("Pods")));
}
