use syncr::fs::{canonicalize_any, change_root, same_path, FsOp, CanonicalFsOp};
use syncr::util::add_extension_if_missing;

fn canon(p: &str) -> String {
    String::from_utf8(canonicalize_any(p.as_bytes())).unwrap()
}

fn moved(root: &str, item: &str, dest: &str) -> String {
    String::from_utf8(change_root(root.as_bytes(), item.as_bytes(), dest.as_bytes())).unwrap()
}

#[test]
fn canonicalize_drops_dots_and_steps_back() {
    assert_eq!(canon("/a/./b/../c/"), "/a/c");
    assert_eq!(canon("a//b"), "a/b");
    assert_eq!(canon("./a/b/.."), "a");
}

#[test]
fn canonicalize_never_climbs_above_start() {
    assert_eq!(canon("../a"), "a");
    assert_eq!(canon("/.."), "/");
    assert_eq!(canon("a/../../b"), "b");
}

#[test]
fn canonicalize_of_empty_and_root() {
    assert_eq!(canon(""), "");
    assert_eq!(canon("/"), "/");
    assert_eq!(canon("."), "");
    assert_eq!(canon("//"), "/");
}

#[test]
fn canonicalize_twice_is_canonicalize_once() {
    for p in ["/a/./b/../c/", "../x/./y//z/..", "", "/", "a", "./..//b/"] {
        let once = canon(p);
        assert_eq!(canon(&once), once);
    }
}

#[test]
fn canonicalize_keeps_unicode_names() {
    assert_eq!(canon("/données/./été/"), "/données/été");
}

#[test]
fn canonicalize_keeps_names_that_are_not_utf8() {
    let p: &[u8] = b"/a/\xff\xfe/./b/../c";
    assert_eq!(canonicalize_any(p), b"/a/\xff\xfe/c".to_vec());
}

#[test]
fn change_root_moves_item_under_destination() {
    assert_eq!(moved("/src", "/src/a/b.txt", "/dst"), "/dst/a/b.txt");
    assert_eq!(moved("/src/", "/src/./a/../b", "/dst/x/.."), "/dst/b");
    assert_eq!(moved("rel", "rel/f", "out"), "out/f");
}

#[test]
fn change_root_keeps_names_that_are_not_utf8() {
    let item: &[u8] = b"/src/d\x80/f\xff.txt";
    assert_eq!(change_root(b"/src", item, b"/dst"), b"/dst/d\x80/f\xff.txt".to_vec());
}

#[test]
fn change_root_of_root_is_destination() {
    assert_eq!(moved("/src", "/src", "/dst/"), "/dst");
    assert_eq!(moved("/src/a", "/src/a/", "d"), "d");
}

#[test]
fn change_root_round_trip() {
    let there = moved("/home/me/p", "/home/me/p/src/main.rs", "/backup/p");
    assert_eq!(there, "/backup/p/src/main.rs");
    let back = moved("/backup/p", &there, "/home/me/p");
    assert_eq!(back, canon("/home/me/p/src/main.rs"));
}

#[test]
fn change_root_with_empty_root_keeps_rooted_item() {
    assert_eq!(moved("", "/x/y", "/dst"), "/x/y");
    assert_eq!(moved(".", "x/y", "/dst"), "/dst/x/y");
}

#[test]
fn same_path_compares_components() {
    let same = |a: &str, b: &str| same_path(a.as_bytes(), b.as_bytes());
    assert!(same("/a/b/", "/a/b"));
    assert!(same("/a//b", "/a/./b"));
    assert!(!same("./a", "a"));
    assert!(!same("a/../b", "b"));
    assert!(!same("/a", "a"));
}

#[test]
fn fs_op_canonicalize_both_paths() {
    let op = FsOp::new("/a/../b/".to_string(), "c/./d".to_string());
    let c: CanonicalFsOp = op.canonicalize();
    assert_eq!(c.source, b"/b".to_vec());
    assert_eq!(c.target, b"c/d".to_vec());
    let (s, t) = c.destructure();
    assert_eq!((s, t), (b"/b".to_vec(), b"c/d".to_vec()));
}

#[test]
fn fs_op_destructure_returns_fields() {
    let op = FsOp::new("x".to_string(), "y".to_string());
    assert_eq!(op.destructure(), ("x".to_string(), "y".to_string()));
}

#[test]
fn extension_added_when_missing() {
    assert_eq!(add_extension_if_missing("proj".to_string(), ".aeon"), "proj.aeon");
    assert_eq!(add_extension_if_missing("proj.aeon".to_string(), ".aeon"), "proj.aeon");
    assert_eq!(add_extension_if_missing("aeon".to_string(), ".aeon"), "aeon.aeon");
    assert_eq!(add_extension_if_missing("x".to_string(), ""), "x");
}

#[test]
fn extension_added_only_once() {
    let once = add_extension_if_missing("notes".to_string(), ".aeon");
    let twice = add_extension_if_missing(once.clone(), ".aeon");
    assert_eq!(once, twice);
    assert!(twice.ends_with(".aeon"));
}
