use shove::util::{head, is_absolute, join, parent, rel_canon, tail};
use std::path::Path;

#[test]
fn absolute_paths_start_at_the_root() {
    assert!(is_absolute("/"));
    assert!(is_absolute("/home/u"));
    assert!(!is_absolute(""));
    assert!(!is_absolute("home/u"));
    assert!(!is_absolute("./x"));
    assert!(!is_absolute("~/x"));
}

#[test]
fn join_puts_one_separator_between() {
    assert_eq!(join("/home/dest", "a/b"), "/home/dest/a/b");
    assert_eq!(join("/home/dest/", "a"), "/home/dest/a");
    assert_eq!(join("", "a"), "a");
    assert_eq!(join("/", "a"), "/a");
    assert_eq!(join("rel", "a"), "rel/a");
    assert_eq!(join("a", ""), "a/");
}

#[test]
fn join_lets_an_absolute_path_stand() {
    assert_eq!(join("/home/dest", "/etc/x"), "/etc/x");
    assert_eq!(join("", "/"), "/");
}

#[test]
fn join_agrees_with_the_standard_library() {
    let bases = ["", "/", "a", "a/", "/a/b", "/a/b/", "./x", "..", "a//b"];
    let rels = ["", "x", "x/y", "/x", "..", ".", "x/", "é/ü"];
    for b in bases {
        for r in rels {
            let want = Path::new(b).join(r);
            assert_eq!(join(b, r), want.to_str().unwrap(), "join({:?}, {:?})", b, r);
        }
    }
}

#[test]
fn parent_takes_the_last_segment_off() {
    assert_eq!(parent("/home/dest/a"), Some("/home/dest".to_string()));
    assert_eq!(parent("/home/dest/a/"), Some("/home/dest".to_string()));
    assert_eq!(parent("/a"), Some("/".to_string()));
    assert_eq!(parent("a"), Some("".to_string()));
    assert_eq!(parent("a/b"), Some("a".to_string()));
    assert_eq!(parent("a//b"), Some("a".to_string()));
    assert_eq!(parent("/a//b//"), Some("/a".to_string()));
}

#[test]
fn a_dot_behind_a_separator_is_no_segment() {
    assert_eq!(parent("a/."), Some("".to_string()));
    assert_eq!(parent("/a/b/."), Some("/a".to_string()));
    assert_eq!(parent("/a/./b"), Some("/a".to_string()));
    assert_eq!(parent("/."), None);
    assert_eq!(parent("./a"), Some(".".to_string()));
    assert_eq!(parent("."), Some("".to_string()));
}

#[test]
fn the_root_and_the_empty_path_have_no_parent() {
    assert_eq!(parent("/"), None);
    assert_eq!(parent("//"), None);
    assert_eq!(parent(""), None);
}

#[test]
fn parent_agrees_with_the_standard_library() {
    let paths = [
        "", "/", "a", "/a", "a/b", "/a/b", "/a/b/", "a/b/c", "/home/u/.config/nvim", "a//b",
        "/a//b//", "../x", "x/..", "/x/../y", "é/ü", "a/.", "/a/b/.", "/.", "./.", "a/./b", "x/./",
        "./a", ".", "..", "a/b/./", "/a/./", "/./a", "a/./.", "/..", "a/b/..", ".a/.b", "a./b.",
    ];
    for p in paths {
        let want = Path::new(p).parent().map(|q| q.to_str().unwrap().to_string());
        assert_eq!(parent(p), want, "parent({:?})", p);
    }
}

#[test]
fn rel_canon_keeps_an_absolute_path() {
    assert_eq!(rel_canon("/home/u", "/etc/passwd"), "/etc/passwd");
    assert_eq!(rel_canon("", "/"), "/");
}

#[test]
fn rel_canon_follows_a_relative_path() {
    assert_eq!(rel_canon("/home/dest", "../../src/dot/file"), "/src/dot/file");
    assert_eq!(rel_canon("/home/u", "a/b"), "/home/u/a/b");
    assert_eq!(rel_canon("/home/u", "./a/./b/"), "/home/u/a/b");
    assert_eq!(rel_canon("/home/u", "a//b"), "/home/u/a/b");
    assert_eq!(rel_canon("/home/u", ".."), "/home");
    assert_eq!(rel_canon("/home/u", "../.."), "/");
    assert_eq!(rel_canon("/home/u", ""), "/home/u");
    assert_eq!(rel_canon("/", "a"), "/a");
}

#[test]
fn rel_canon_does_not_climb_above_the_root() {
    assert_eq!(rel_canon("/home", "../../../x"), "/x");
    assert_eq!(rel_canon("/", ".."), "/");
}

#[test]
fn tail_is_the_last_segments() {
    assert_eq!(tail("src/a/b", 2), Some("a/b".to_string()));
    assert_eq!(tail("src/a/b", 1), Some("b".to_string()));
    assert_eq!(tail("/a", 1), Some("a".to_string()));
    assert_eq!(tail("./a/b/c", 3), Some("a/b/c".to_string()));
}

#[test]
fn tail_needs_a_separator_in_front() {
    assert_eq!(tail("src/a/b", 3), None);
    assert_eq!(tail("a", 1), None);
    assert_eq!(tail("src/a", 0), None);
}

#[test]
fn head_is_what_stands_before() {
    assert_eq!(head("src/a/b", 0), Some("src/a/b".to_string()));
    assert_eq!(head("src/a/b", 1), Some("src/a".to_string()));
    assert_eq!(head("src/a/b", 2), Some("src".to_string()));
    assert_eq!(head("src/a/b", 3), None);
    assert_eq!(head("/a", 1), Some("".to_string()));
}

#[test]
fn head_and_tail_split_a_path_at_one_separator() {
    let path = "dots/vim/.config/nvim/init.lua";
    for n in 1..=4 {
        let h = head(path, n).unwrap();
        let t = tail(path, n).unwrap();
        assert_eq!(format!("{}/{}", h, t), path);
    }
}
