use kernel::fs::path::{normalize_path, join_path, parent, filename, split, is_absolute, components};

#[test]
fn test_normalize() {
    assert_eq!(normalize_path("/a/b/../c"), "/a/c");
    assert_eq!(normalize_path("/a/./b"), "/a/b");
    assert_eq!(normalize_path("//a///b//"), "/a/b");
    assert_eq!(normalize_path("/"), "/");
    assert_eq!(normalize_path("/.."), "/");
    assert_eq!(normalize_path("a/b/c"), "a/b/c");
    assert_eq!(normalize_path("../a"), "../a");
}

#[test]
fn test_join() {
    assert_eq!(join_path("/home", "user"), "/home/user");
    assert_eq!(join_path("/home/", "user"), "/home/user");
    assert_eq!(join_path("/home", "/etc"), "/etc");
    assert_eq!(join_path(".", "file"), "file");
}

#[test]
fn test_parent() {
    assert_eq!(parent("/home/user"), Some(String::from("/home")));
    assert_eq!(parent("/home"), Some(String::from("/")));
    assert_eq!(parent("/"), None);
}

#[test]
fn test_filename() {
    assert_eq!(filename("/home/user"), Some("user"));
    assert_eq!(filename("/"), None);
    assert_eq!(filename("file.txt"), Some("file.txt"));
}

#[test]
fn normalize_relative_edge_cases() {
    assert_eq!(normalize_path(""), ".");
    assert_eq!(normalize_path("./."), ".");
    assert_eq!(normalize_path("a/../.."), "..");
    assert_eq!(normalize_path("../../x/./y/"), "../../x/y");
}

#[test]
fn parent_of_relative_paths() {
    assert_eq!(parent("file"), Some(String::from(".")));
    assert_eq!(parent("a/b"), Some(String::from("a")));
}

#[test]
fn filename_ignores_trailing_slashes() {
    assert_eq!(filename("/home/user///"), Some("user"));
    assert_eq!(filename(""), None);
    assert_eq!(filename("////"), None);
}

#[test]
fn split_into_parent_and_name() {
    assert_eq!(split("/home/user"), (String::from("/home"), String::from("user")));
    assert_eq!(split("/etc"), (String::from("/"), String::from("etc")));
    assert_eq!(split("/"), (String::from("/"), String::new()));
    assert_eq!(split("name"), (String::from("."), String::from("name")));
}

#[test]
fn absolute_paths_and_components() {
    assert!(is_absolute("/x"));
    assert!(!is_absolute("x/"));
    assert!(!is_absolute(""));
    assert_eq!(components("/a//./b/../c"), vec!["a", "b", "..", "c"]);
    assert_eq!(components("./"), Vec::<&str>::new());
}

#[test]
fn normalizing_twice_changes_nothing() {
    for p in ["/a/./b/../c//", "../x/../../y/.", "", "/..", "a//b/", "./."] {
        let once = normalize_path(p);
        assert_eq!(normalize_path(&once), once);
    }
}

#[test]
fn joining_onto_a_trailing_slash() {
    assert_eq!(join_path("/usr/", "bin"), join_path("/usr", "bin"));
    assert_eq!(join_path("/usr/", "bin"), "/usr/bin");
    assert_eq!(join_path("docs/", "../x"), normalize_path("docs//../x"));
    assert_eq!(join_path(".", "a/b"), "a/b");
    assert_eq!(join_path("", "a/b"), "a/b");
    assert_eq!(join_path("/usr", "/etc"), "/etc");
}

#[test]
fn split_parts_join_back() {
    assert_eq!(split("/"), (String::from("/"), String::new()));
    for p in ["/a/b/c", "/a", "x/y/../z", "name", "../up", "."] {
        let (d, n) = split(p);
        assert!(!n.is_empty());
        assert!(!n.contains('/'));
        assert_eq!(Some(d.clone()), parent(p));
        assert_eq!(join_path(&d, &n), normalize_path(p));
    }
}
