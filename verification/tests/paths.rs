use predator_sense::paths::{join_bytes, join_path, same_path};

#[test]
fn paths_are_the_same_by_their_components() {
    assert!(same_path("/a/b", "/a//b/"));
    assert!(same_path("/a/./b", "/a/b"));
    assert!(same_path("a/.", "a"));
    assert!(!same_path("./a", "a"));
    assert!(!same_path("/a", "a"));
    assert!(!same_path("/a/../a", "/a"));
    assert!(!same_path("", "/"));
    for (a, b) in [("/a/b", "/a//b/"), ("./a", "a"), ("/a/../a", "/a"), (".", "")] {
        assert_eq!(same_path(a, b), std::path::Path::new(a) == std::path::Path::new(b));
    }
}

#[test]
fn bytes_join_as_text_does() {
    for (base, below) in [("/a", "b"), ("/a/", "b"), ("", "b"), ("/a", "/b"), ("é", "ü"), ("a", "")] {
        assert_eq!(join_bytes(base.as_bytes(), below), join_path(base, below).into_bytes());
    }
    assert_eq!(join_bytes(b"\xff", "b"), b"\xff/b");
}
