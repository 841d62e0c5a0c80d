use mimo_herdr::path::{join_path, path_eq};
use std::path::{Path, PathBuf};

#[test]
fn join_path_matches_pathbuf_join() {
    for (b, r) in [
        ("/home/a", ".config"),
        ("/home/a/", "x"),
        ("", "mimocode"),
        ("rel", "x"),
        ("/home/a", "/abs"),
    ] {
        let expected = PathBuf::from(b).join(r).to_string_lossy().to_string();
        assert_eq!(join_path(b, r), expected);
    }
}

#[test]
fn path_eq_matches_path_equality() {
    let cases = [
        ("/a/b", "/a/b/"),
        ("/a//b", "/a/b"),
        ("/a/./b", "/a/b"),
        ("./a", "a"),
        ("a/.", "a"),
        ("/a", "a"),
        ("", ""),
        ("", "."),
        (".", "./"),
        ("/a/../b", "/b"),
        ("/home/u/.local/bin/herdr-shim", "/home/u/.local/bin/herdr-shim/"),
    ];
    for (a, b) in cases {
        assert_eq!(path_eq(a, b), Path::new(a) == Path::new(b), "{a:?} vs {b:?}");
    }
}
