use btrfs_lsattr::errors::{
    invalid_data, is_broken_pipe, is_recoverable, DataError, Error, EINVAL, ENOENT, ENOTTY, ENXIO,
    EPERM,
};
use btrfs_lsattr::list::{S_IFDIR, S_IFMT, S_IFREG};
use btrfs_lsattr::report::{render, report, report_flags, Diagnostic};
use btrfs_lsattr::scan::{DT_DIR, DT_UNKNOWN};

#[test]
fn is_recoverable_matrix() {
    let mk = |e: i32| Error::Os(e);
    assert!(is_recoverable(&mk(libc::EPERM)));
    assert!(is_recoverable(&mk(libc::ENOTTY)));
    assert!(is_recoverable(&mk(libc::EINVAL)));
    // Real arg errors must stay fatal, not silently fall back.
    assert!(!is_recoverable(&mk(libc::ENOENT)));
    assert!(!is_recoverable(&mk(libc::EACCES)));
    // Parse-layer errors carry no errno → not recoverable.
    assert!(!is_recoverable(&invalid_data(DataError::ShortContainer)));
}

#[test]
fn only_a_broken_pipe_is_one() {
    assert!(is_broken_pipe(&Error::BrokenPipe));
    assert!(!is_broken_pipe(&Error::Os(EPERM)));
    assert!(!is_broken_pipe(&Error::Other));
    assert!(!is_recoverable(&Error::BrokenPipe));
    assert!(!is_recoverable(&Error::Other));
}

#[test]
fn numbers_are_those_of_the_system() {
    assert_eq!(EPERM, libc::EPERM);
    assert_eq!(ENOENT, libc::ENOENT);
    assert_eq!(ENXIO, libc::ENXIO);
    assert_eq!(EINVAL, libc::EINVAL);
    assert_eq!(ENOTTY, libc::ENOTTY);
    assert_eq!(S_IFMT, libc::S_IFMT);
    assert_eq!(S_IFDIR, libc::S_IFDIR);
    assert_eq!(S_IFREG, libc::S_IFREG);
    assert_eq!(DT_DIR, libc::DT_DIR);
    assert_eq!(DT_UNKNOWN, libc::DT_UNKNOWN);
}

#[test]
fn malformed_replies_are_told_apart() {
    let all = [
        (DataError::ShortContainer, "short INO_PATHS data container"),
        (DataError::BufferLimit, "INO_PATHS result exceeds maximum path buffer"),
        (DataError::CountOverflow, "INO_PATHS element count overflow"),
        (DataError::TableOutsideBuffer, "INO_PATHS element offsets exceed buffer"),
        (DataError::OffsetOutsideBuffer, "INO_PATHS string offset exceeds buffer"),
        (DataError::OffsetInTable, "INO_PATHS string offset overlaps offset table"),
        (DataError::Unterminated, "INO_PATHS string is not NUL terminated"),
        (DataError::ShortItemHeader, "short TREE_SEARCH_V2 item header"),
        (DataError::ItemOutsideBuffer, "TREE_SEARCH_V2 item exceeds buffer"),
    ];
    for (e, text) in all {
        assert_eq!(e.message(), text);
    }
}

#[test]
fn diagnostics_read_as_those_of_lsattr() {
    let cases = [
        (Diagnostic::Stat, "btrfs-lsattr: C while trying to stat P"),
        (Diagnostic::Flags, "btrfs-lsattr: C While reading flags on P"),
        (Diagnostic::Project, "btrfs-lsattr: C While reading project on P"),
        (Diagnostic::Version, "btrfs-lsattr: C While reading version on P"),
        (Diagnostic::OpenDirectory, "btrfs-lsattr: C While opening directory P"),
        (Diagnostic::ReadDirectory, "btrfs-lsattr: C While reading directory P"),
        (Diagnostic::Entry, "P: C"),
        (Diagnostic::InvalidPath, "btrfs-lsattr: P: invalid path"),
        (Diagnostic::Scan, "btrfs-lsattr: P: C"),
        (
            Diagnostic::Fallback,
            "btrfs-lsattr: P: tree-search failed (C); falling back to per-file walk",
        ),
        (Diagnostic::Write, "btrfs-lsattr: write: C"),
        (Diagnostic::Flush, "btrfs-lsattr: flush: C"),
    ];
    for (d, line) in cases {
        assert_eq!(render(d, "P", "C"), line);
        assert_eq!(report(d, b"P", "C"), line);
    }
}

#[test]
fn paths_that_are_no_text_are_replaced() {
    assert_eq!(
        report_flags(b"a\xffb", "No such file or directory"),
        "btrfs-lsattr: No such file or directory While reading flags on a\u{fffd}b"
    );
    assert_eq!(
        report(Diagnostic::Entry, "caf\u{e9}".as_bytes(), "x"),
        "caf\u{e9}: x"
    );
}
