use btrfs_lsattr::paths::{
    child_path, compose_path, descend, has_nul, is_dot, prefixed, squeeze_trailing_slashes,
    starts_with_dot, trim_trailing_slashes,
};

#[test]
fn trim_trailing_slashes_cases() {
    assert_eq!(trim_trailing_slashes(b""), b"");
    assert_eq!(trim_trailing_slashes(b"/"), b"");
    assert_eq!(trim_trailing_slashes(b"////"), b"");
    assert_eq!(trim_trailing_slashes(b"a/"), b"a");
    assert_eq!(trim_trailing_slashes(b"a///b//"), b"a///b");
    assert_eq!(trim_trailing_slashes(b"/mnt/x"), b"/mnt/x");
}

#[test]
fn compose_path_cases() {
    // Empty rel returns the base unchanged (no trailing slash added).
    assert_eq!(compose_path(b"/mnt", b""), b"/mnt");
    // Separator inserted only when the base lacks one.
    assert_eq!(compose_path(b"/mnt", b"a/b"), b"/mnt/a/b");
    assert_eq!(compose_path(b"/mnt/", b"a/b"), b"/mnt/a/b");
    // `.` base mirrors the walk path's `./name` composition.
    assert_eq!(compose_path(b".", b"a"), b"./a");
}

#[test]
fn trimming_twice_changes_nothing() {
    for p in [&b"a///b//"[..], b"//", b"x", b""] {
        let once = trim_trailing_slashes(p);
        assert_eq!(trim_trailing_slashes(once), once);
    }
}

#[test]
fn squeezing_keeps_one_slash() {
    assert_eq!(squeeze_trailing_slashes(b""), b"");
    assert_eq!(squeeze_trailing_slashes(b"a"), b"a");
    assert_eq!(squeeze_trailing_slashes(b"a/"), b"a/");
    assert_eq!(squeeze_trailing_slashes(b"a//b//"), b"a//b/");
    assert_eq!(squeeze_trailing_slashes(b"//"), b"/");
}

#[test]
fn children_of_the_root_directory() {
    assert_eq!(child_path(b"/", b"etc"), b"/etc");
    assert_eq!(child_path(b"", b"etc"), b"/etc");
    assert_eq!(child_path(b"a", b"b"), b"a/b");
    assert_eq!(prefixed(b"", b"etc"), b"/etc");
    assert_eq!(prefixed(b"/mnt", b"a"), b"/mnt/a");
    assert_eq!(descend(b"", b"a"), b"a");
    assert_eq!(descend(b"a", b"b"), b"a/b");
}

#[test]
fn names_with_dots() {
    assert!(is_dot(b".") && is_dot(b".."));
    assert!(!is_dot(b"...") && !is_dot(b"") && !is_dot(b".a") && !is_dot(b"a"));
    assert!(starts_with_dot(b".") && starts_with_dot(b".git"));
    assert!(!starts_with_dot(b"") && !starts_with_dot(b"a."));
}

#[test]
fn nul_bytes_are_found() {
    assert!(has_nul(b"a\0b") && has_nul(b"\0"));
    assert!(!has_nul(b"") && !has_nul(b"abc"));
}
