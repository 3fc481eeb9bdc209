use btrfs_lsattr::cli::{Cli, UsageError};
use btrfs_lsattr::errors::{DataError, Error, EINVAL, ENOENT, ENOTTY, EPERM};
use btrfs_lsattr::flags::FS_NOCOW_FL;
use btrfs_lsattr::list::S_IFDIR;
use btrfs_lsattr::scan::Stat;
use btrfs_lsattr::session::{exit_code, Session, SessionPhase};

fn cli(has: Option<&str>, paths: &[&str]) -> Cli {
    Cli {
        recursive: false,
        print_version: false,
        all: false,
        dirs_opt: false,
        long: false,
        generation: false,
        project: false,
        has: has.map(|s| s.to_string()),
        paths_only: false,
        paths: paths.iter().map(|p| p.as_bytes().to_vec()).collect(),
    }
}

fn root(dev: u64) -> Option<Stat> {
    Some(Stat { mode: S_IFDIR | 0o755, ino: 256, dev })
}

fn started(cli: &Cli) -> Session {
    match Session::new(cli) {
        Ok(s) => s,
        Err(_) => panic!("refused"),
    }
}

#[test]
fn current_directory_is_the_default() {
    let s = started(&cli(None, &[]));
    assert_eq!(s.arg(), b".");
    assert!(matches!(s.phase(), SessionPhase::Walk));
    assert_eq!(s.opts().has_mask, 0);
    assert!(!s.opts().recursive);
}

#[test]
fn arguments_are_walked_in_turn() {
    let mut s = started(&cli(None, &["a", "b"]));
    assert_eq!(s.arg(), b"a");
    s.on_walked(true, false);
    assert_eq!(s.arg(), b"b");
    s.on_walked(false, false);
    assert!(matches!(s.phase(), SessionPhase::Flush));
    s.on_flushed(Ok(()));
    assert!(matches!(s.phase(), SessionPhase::Exit(1)));
}

#[test]
fn session_without_failures_succeeds() {
    let mut s = started(&cli(None, &["a"]));
    s.on_walked(false, false);
    s.on_flushed(Ok(()));
    assert!(matches!(s.phase(), SessionPhase::Exit(0)));
}

#[test]
fn closed_pipe_is_success() {
    let mut s = started(&cli(None, &["a", "b"]));
    s.on_walked(true, true);
    assert!(matches!(s.phase(), SessionPhase::Exit(0)));
    let mut s = started(&cli(None, &["a"]));
    s.on_walked(true, false);
    s.on_flushed(Err(Error::BrokenPipe));
    assert!(matches!(s.phase(), SessionPhase::Exit(0)));
}

#[test]
fn failed_flush_is_a_failure() {
    let mut s = started(&cli(None, &["a"]));
    s.on_walked(false, false);
    s.on_flushed(Err(Error::Os(28)));
    assert!(matches!(s.phase(), SessionPhase::WarnFlush(Error::Os(28))));
    s.on_done();
    assert!(matches!(s.phase(), SessionPhase::Exit(1)));
}

#[test]
fn subvolume_roots_are_scanned() {
    let mut s = started(&cli(Some("C"), &["/mnt", "/mnt/d"]));
    assert!(s.opts().recursive && s.opts().all && s.opts().has_mask == FS_NOCOW_FL);
    assert!(matches!(s.phase(), SessionPhase::StatArg));
    s.on_stat(root(5));
    assert!(matches!(s.phase(), SessionPhase::Scan(5)));
    s.on_scanned(Ok(()), true, false, false);
    assert_eq!(s.arg(), b"/mnt/d");
    s.on_stat(Some(Stat { mode: S_IFDIR, ino: 300, dev: 5 }));
    assert!(matches!(s.phase(), SessionPhase::Walk));
    s.on_walked(false, false);
    s.on_flushed(Ok(()));
    assert!(matches!(s.phase(), SessionPhase::Exit(0)));
}

#[test]
fn unsupported_filters_are_walked() {
    let s = started(&cli(Some("e"), &["/mnt"]));
    assert!(matches!(s.phase(), SessionPhase::Walk));
    let mut with_column = cli(Some("C"), &["/mnt"]);
    with_column.generation = true;
    let s = started(&with_column);
    assert!(matches!(s.phase(), SessionPhase::Walk));
    assert!(s.opts().generation);
}

#[test]
fn scan_that_cannot_start_gives_way_to_the_walk() {
    for errno in [EPERM, ENOTTY, EINVAL] {
        let mut s = started(&cli(Some("C"), &["/mnt"]));
        s.on_stat(root(5));
        s.on_scanned(Err(Error::Os(errno)), false, false, false);
        assert!(matches!(s.phase(), SessionPhase::Walk));
        assert_eq!(s.arg(), b"/mnt");
        s.on_walked(false, false);
        s.on_flushed(Ok(()));
        assert!(matches!(s.phase(), SessionPhase::Exit(0)));
    }
}

#[test]
fn scan_that_fails_halfway_is_reported() {
    let mut s = started(&cli(Some("C"), &["/mnt"]));
    s.on_stat(root(5));
    s.on_scanned(Err(Error::Os(EPERM)), true, false, false);
    assert!(matches!(s.phase(), SessionPhase::ReportScan(EPERM)));
    s.on_done();
    s.on_flushed(Ok(()));
    assert!(matches!(s.phase(), SessionPhase::Exit(1)));
}

#[test]
fn other_scan_failures_are_reported() {
    let mut s = started(&cli(Some("C"), &["/mnt", "/b"]));
    s.on_stat(root(5));
    s.on_scanned(Err(Error::Os(ENOENT)), false, false, false);
    assert!(matches!(s.phase(), SessionPhase::ReportScan(ENOENT)));
    s.on_done();
    s.on_stat(root(6));
    s.on_scanned(Err(Error::Data(DataError::Unterminated)), false, false, false);
    assert!(matches!(
        s.phase(),
        SessionPhase::WarnScan(Error::Data(DataError::Unterminated))
    ));
    s.on_done();
    s.on_flushed(Ok(()));
    assert!(matches!(s.phase(), SessionPhase::Exit(1)));
}

#[test]
fn scan_may_miss_something_or_lose_its_pipe() {
    let mut s = started(&cli(Some("C"), &["/mnt"]));
    s.on_stat(root(5));
    s.on_scanned(Ok(()), true, true, false);
    s.on_flushed(Ok(()));
    assert!(matches!(s.phase(), SessionPhase::Exit(1)));
    let mut s = started(&cli(Some("C"), &["/mnt", "/b"]));
    s.on_stat(root(5));
    s.on_scanned(Ok(()), true, true, true);
    assert!(matches!(s.phase(), SessionPhase::Exit(0)));
    let mut s = started(&cli(Some("C"), &["/mnt", "/b"]));
    s.on_stat(root(5));
    s.on_scanned(Err(Error::BrokenPipe), false, false, false);
    assert!(matches!(s.phase(), SessionPhase::Exit(0)));
}

#[test]
fn refused_command_lines_start_no_session() {
    assert!(matches!(
        Session::new(&cli(Some(""), &["."])),
        Err(UsageError::EmptyFilter)
    ));
    assert!(matches!(
        Session::new(&cli(Some("C!"), &["."])),
        Err(UsageError::UnknownLetter('!'))
    ));
}

#[test]
fn exit_codes() {
    assert_eq!(exit_code(false, false), 0);
    assert_eq!(exit_code(true, false), 1);
    assert_eq!(exit_code(true, true), 0);
    assert_eq!(exit_code(false, true), 0);
}
