use styra::path::{ancestors, join, parent, same_path, strip_prefix};

fn rest(path: &str, base: &str) -> Option<String> {
    strip_prefix(path, base)
}

#[test]
fn what_is_left_of_a_path_keeps_its_spelling() {
    assert_eq!(rest("/a/b//c", "/a").as_deref(), Some("b//c"));
    assert_eq!(rest("/a/b/./c", "/a").as_deref(), Some("b/./c"));
    assert_eq!(rest("/a//./b/c//", "/a/").as_deref(), Some("b/c"));
    assert_eq!(rest("/a/b/.", "/a").as_deref(), Some("b"));
    assert_eq!(rest("/a/../b", "/a").as_deref(), Some("../b"));
    assert_eq!(rest("//a//b", "/").as_deref(), Some("a//b"));
    assert_eq!(rest("/a", "/a//").as_deref(), Some(""));
    assert_eq!(rest("a//b/", "").as_deref(), Some("a//b"));
    assert_eq!(rest("./a", ".").as_deref(), Some("a"));
    assert_eq!(rest("//", "").as_deref(), Some("/"));
    assert_eq!(rest("/ab", "/a"), None);
    assert_eq!(rest("/a", "/a/b"), None);
    assert_eq!(rest("a/b", "/a"), None);
}

#[test]
fn what_is_left_of_a_path_leads_back_to_it() {
    for (path, base) in [
        ("/a/b//c", "/a"),
        ("/a/b//c", "/a//"),
        ("/a", "/"),
        ("/", "/"),
        ("a//b/", ""),
        ("/a//b/", ""),
        ("./a/b", "./a"),
        ("a/b", "a/./b/"),
    ] {
        let left = rest(path, base).unwrap();
        assert!(same_path(&join(base, &left), path), "{base} + {left} is not {path}");
        assert_eq!(
            std::path::Path::new(path).strip_prefix(base).unwrap().to_str(),
            Some(left.as_str())
        );
    }
}

#[test]
fn the_directory_of_a_path_keeps_its_spelling() {
    for path in ["/a//b/c", "//a/./b/", "./a", "a", ".", "/", "", "/a", "../x//y/."] {
        let held = std::path::Path::new(path)
            .parent()
            .map(|held| held.to_str().unwrap().to_owned());
        assert_eq!(parent(path), held, "{path}");
        let all: Vec<String> = std::path::Path::new(path)
            .ancestors()
            .map(|up| up.to_str().unwrap().to_owned())
            .collect();
        assert_eq!(ancestors(path), all, "{path}");
    }
}
