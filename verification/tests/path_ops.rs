use dbdm::path::{path_file_name, path_is_relative, path_join, path_parent};

#[test]
fn parent_strips_the_final_component() {
    assert_eq!(path_parent("/a/b"), Some(String::from("/a")));
    assert_eq!(path_parent("/a/b/"), Some(String::from("/a")));
    assert_eq!(path_parent("a/b"), Some(String::from("a")));
    assert_eq!(path_parent("/a"), Some(String::from("/")));
    assert_eq!(path_parent("a"), Some(String::from("")));
}

#[test]
fn root_and_empty_path_have_no_parent() {
    assert_eq!(path_parent("/"), None);
    assert_eq!(path_parent(""), None);
}

#[test]
fn join_inserts_a_separator_only_when_needed() {
    assert_eq!(path_join("/a", "b"), "/a/b");
    assert_eq!(path_join("/a/", "b"), "/a/b");
    assert_eq!(path_join("", "b"), "b");
    assert_eq!(path_join("/a", "/b"), "/b");
}

#[test]
fn file_name_is_the_final_component() {
    assert_eq!(path_file_name("/a/b.txt"), Some(String::from("b.txt")));
    assert_eq!(path_file_name("/a/b/"), Some(String::from("b")));
    assert_eq!(path_file_name("/"), None);
    assert_eq!(path_file_name("/a/.."), None);
}

#[test]
fn absolute_paths_are_not_relative() {
    assert!(path_is_relative("a/b"));
    assert!(path_is_relative(""));
    assert!(!path_is_relative("/a"));
}
