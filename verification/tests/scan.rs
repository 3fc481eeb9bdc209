use btrfs_lsattr::errors::{DataError, Error, EPERM};
use btrfs_lsattr::list::{Listing, S_IFDIR, S_IFREG};
use btrfs_lsattr::scan::{subvol_root_dev, ScanPhase, Scanner, Stat, DT_DIR, DT_UNKNOWN};
use btrfs_lsattr::walk::Opts;

fn filtered() -> Opts {
    Opts {
        recursive: true,
        all: true,
        dirs_opt: false,
        long: true,
        paths_only: false,
        project: false,
        generation: false,
        has_mask: 16,
    }
}

/// A directory or subvolume root: path, device, inode, entries.
struct Dir {
    path: &'static str,
    dev: u64,
    ino: u64,
    entries: Vec<&'static str>,
}

fn dir(path: &'static str, dev: u64, ino: u64, entries: Vec<&'static str>) -> Dir {
    Dir { path, dev, ino, entries }
}

struct Fs {
    dirs: Vec<Dir>,
    unsweepable: Vec<(u64, Error)>,
    locked: Vec<&'static str>,
    walk_err: bool,
    pipe_closes_at: Option<&'static str>,
}

/// A subvolume with a directory that holds a nested subvolume, which holds one
/// more.
fn tree() -> Fs {
    Fs {
        dirs: vec![
            dir("/mnt", 1, 256, vec![".", "..", "f", "d", "s"]),
            dir("/mnt/d", 1, 300, vec![".", "..", "n"]),
            dir("/mnt/d/n", 2, 256, vec!["e", "m"]),
            dir("/mnt/d/n/e", 2, 257, vec![]),
            dir("/mnt/d/n/m", 3, 256, vec![]),
            dir("/mnt/s", 1, 301, vec![]),
        ],
        unsweepable: vec![],
        locked: vec![],
        walk_err: false,
        pipe_closes_at: None,
    }
}

fn text(b: &[u8]) -> String {
    String::from_utf8(b.to_vec()).unwrap()
}

impl Fs {
    fn find(&self, path: &str) -> Option<&Dir> {
        self.dirs.iter().find(|d| d.path == path)
    }

    /// Drive a scan to its end; one line for each thing that it does.
    fn run(&self, scan: &mut Scanner) -> String {
        let mut out = String::new();
        let mut open: Vec<Vec<&'static str>> = Vec::new();
        for _ in 0..1000 {
            let path = text(scan.path());
            let stop = self.pipe_closes_at == Some(path.as_str());
            match scan.phase() {
                ScanPhase::Sweep => {
                    out.push_str(&format!(
                        "sweep {} as {} on {}\n",
                        path,
                        text(scan.prefix()),
                        scan.dev()
                    ));
                    match self.unsweepable.iter().find(|u| u.0 == scan.dev()) {
                        Some(u) => scan.scan_subvol(Err(u.1), false),
                        None => scan.scan_subvol(Ok(()), true),
                    }
                }
                ScanPhase::WarnInvalid => {
                    out.push_str("invalid\n");
                    scan.on_done();
                }
                ScanPhase::OpenDir => {
                    if self.locked.contains(&path.as_str()) {
                        scan.on_opened(Err(13));
                    } else {
                        let mut names = self.find(&path).unwrap().entries.clone();
                        names.reverse();
                        open.push(names);
                        scan.on_opened(Ok(()));
                    }
                }
                ScanPhase::ReportOpen(e) => {
                    out.push_str(&format!("locked {} {}\n", path, e));
                    scan.on_done();
                }
                ScanPhase::StatRoot => {
                    let d = self.find(&text(scan.dir().unwrap())).unwrap();
                    scan.on_ids(Some((d.dev, d.ino)));
                }
                ScanPhase::ReadDir => match open.last_mut().unwrap().pop() {
                    Some("!5") => scan.on_end(5),
                    Some(name) => scan.on_entry(name.as_bytes(), DT_UNKNOWN),
                    None => scan.on_end(0),
                },
                ScanPhase::ReportRead(e) => {
                    out.push_str(&format!("cut {} {}\n", text(scan.dir().unwrap()), e));
                    scan.on_done();
                }
                ScanPhase::StatEntry => {
                    let st = match self.find(&path) {
                        Some(d) => Stat { mode: S_IFDIR | 0o755, ino: d.ino, dev: d.dev },
                        None => Stat { mode: S_IFREG | 0o644, ino: 999, dev: 1 },
                    };
                    scan.discover_subvols(Some(st));
                }
                ScanPhase::ListEntry => {
                    out.push_str(&format!("list {}\n", path));
                    scan.on_listed(if stop { Listing::PipeClosed } else { Listing::Handled });
                }
                ScanPhase::WarnFallback(e) => {
                    out.push_str(&format!("fallback {} {:?}\n", path, e));
                    scan.on_done();
                }
                ScanPhase::Walk => {
                    out.push_str(&format!("walk {}\n", path));
                    scan.on_walked(self.walk_err, stop);
                }
                ScanPhase::CloseDir => {
                    open.pop();
                    scan.on_done();
                }
                ScanPhase::Finished | ScanPhase::Failed(_) => {
                    assert!(open.is_empty());
                    return out;
                }
            }
        }
        panic!("the scan does not end");
    }
}

#[test]
fn nested_subvolumes_are_swept() {
    let mut scan = Scanner::scan_filtered(b"/mnt", &filtered(), 1);
    assert_eq!(
        tree().run(&mut scan),
        "sweep /mnt as /mnt on 1\n\
         list /mnt/d/n\n\
         sweep /mnt/d/n as /mnt/d/n on 2\n\
         list /mnt/d/n/m\n\
         sweep /mnt/d/n/m as /mnt/d/n/m on 3\n"
    );
    assert!(matches!(scan.phase(), ScanPhase::Finished));
    assert!(scan.emitted() && !scan.had_err() && !scan.pipe_broken());
    assert_eq!(scan.opts(), filtered());
    assert_eq!(scan.sweep_opts().has_mask, 16);
    assert!(scan.sweep_opts().long && !scan.sweep_opts().paths_only);
}

#[test]
fn prefix_drops_the_trailing_slash() {
    let mut fs = tree();
    fs.dirs = vec![dir("/", 1, 256, vec!["n"]), dir("/n", 2, 256, vec![])];
    let mut scan = Scanner::scan_filtered(b"/", &filtered(), 1);
    assert_eq!(
        fs.run(&mut scan),
        "sweep / as  on 1\nlist /n\nsweep /n as /n on 2\n"
    );
}

#[test]
fn nested_roots_are_listed_without_surplus_slashes() {
    let mut fs = tree();
    fs.dirs = vec![
        dir("/mnt///", 1, 256, vec!["d"]),
        dir("/mnt/d", 1, 300, vec!["n"]),
        dir("/mnt/d/n", 2, 256, vec![]),
    ];
    let mut scan = Scanner::scan_filtered(b"/mnt///", &filtered(), 1);
    assert_eq!(
        fs.run(&mut scan),
        "sweep /mnt/// as /mnt on 1\nlist /mnt/d/n\nsweep /mnt/d/n as /mnt/d/n on 2\n"
    );
}

#[test]
fn diagnostics_name_the_argument_as_given() {
    let mut fs = tree();
    fs.locked = vec!["/mnt//"];
    let mut scan = Scanner::scan_filtered(b"/mnt//", &filtered(), 1);
    assert_eq!(
        fs.run(&mut scan),
        "sweep /mnt// as /mnt on 1\nlocked /mnt// 13\n"
    );
    let mut fs = tree();
    fs.dirs = vec![dir("/mnt//", 1, 256, vec!["!5"])];
    let mut scan = Scanner::scan_filtered(b"/mnt//", &filtered(), 1);
    assert_eq!(
        fs.run(&mut scan),
        "sweep /mnt// as /mnt on 1\ncut /mnt// 5\n"
    );
}

#[test]
fn first_sweep_that_fails_ends_the_scan() {
    let mut fs = tree();
    fs.unsweepable = vec![(1, Error::Os(EPERM))];
    let mut scan = Scanner::scan_filtered(b"/mnt", &filtered(), 1);
    assert_eq!(fs.run(&mut scan), "sweep /mnt as /mnt on 1\n");
    assert!(matches!(scan.phase(), ScanPhase::Failed(Error::Os(EPERM))));
    assert!(!scan.emitted() && !scan.had_err());
}

#[test]
fn nested_sweep_that_fails_is_walked() {
    let mut fs = tree();
    fs.unsweepable = vec![(2, Error::Data(DataError::ShortItemHeader))];
    let mut scan = Scanner::scan_filtered(b"/mnt", &filtered(), 1);
    assert_eq!(
        fs.run(&mut scan),
        "sweep /mnt as /mnt on 1\n\
         list /mnt/d/n\n\
         sweep /mnt/d/n as /mnt/d/n on 2\n\
         fallback /mnt/d/n Data(ShortItemHeader)\n\
         walk /mnt/d/n\n"
    );
    assert!(matches!(scan.phase(), ScanPhase::Finished));
    // The failure is reflected in the exit status.
    assert!(scan.had_err());
}

#[test]
fn nested_sweep_whose_pipe_closes_ends_the_scan() {
    let mut fs = tree();
    fs.unsweepable = vec![(2, Error::BrokenPipe)];
    let mut scan = Scanner::scan_filtered(b"/mnt", &filtered(), 1);
    assert_eq!(
        fs.run(&mut scan),
        "sweep /mnt as /mnt on 1\nlist /mnt/d/n\nsweep /mnt/d/n as /mnt/d/n on 2\n"
    );
    assert!(scan.pipe_broken() && !scan.had_err());
}

#[test]
fn listing_whose_pipe_closes_ends_the_scan() {
    let mut fs = tree();
    fs.pipe_closes_at = Some("/mnt/d/n");
    let mut scan = Scanner::scan_filtered(b"/mnt", &filtered(), 1);
    assert_eq!(fs.run(&mut scan), "sweep /mnt as /mnt on 1\nlist /mnt/d/n\n");
    assert!(scan.pipe_broken());
    assert!(matches!(scan.phase(), ScanPhase::Finished));
}

#[test]
fn subvolume_met_twice_is_swept_once() {
    let mut fs = tree();
    fs.dirs = vec![
        dir("/mnt", 1, 256, vec!["a", "b"]),
        dir("/mnt/a", 2, 256, vec![]),
        dir("/mnt/b", 2, 256, vec![]),
    ];
    let mut scan = Scanner::scan_filtered(b"/mnt", &filtered(), 1);
    assert_eq!(
        fs.run(&mut scan),
        "sweep /mnt as /mnt on 1\n\
         list /mnt/a\n\
         sweep /mnt/a as /mnt/a on 2\n\
         list /mnt/b\n"
    );
}

#[test]
fn directory_met_twice_is_read_once() {
    let mut fs = tree();
    fs.dirs = vec![
        dir("/mnt", 1, 256, vec!["a", "b"]),
        dir("/mnt/a", 1, 300, vec!["n"]),
        dir("/mnt/a/n", 2, 256, vec![]),
        dir("/mnt/b", 1, 300, vec!["n"]),
        dir("/mnt/b/n", 2, 256, vec![]),
    ];
    let mut scan = Scanner::scan_filtered(b"/mnt", &filtered(), 1);
    assert_eq!(
        fs.run(&mut scan),
        "sweep /mnt as /mnt on 1\nlist /mnt/a/n\nsweep /mnt/a/n as /mnt/a/n on 2\n"
    );
    assert!(!scan.had_err());
}

#[test]
fn unreadable_directories_count_as_errors() {
    let mut fs = tree();
    fs.locked = vec!["/mnt/d"];
    let mut scan = Scanner::scan_filtered(b"/mnt", &filtered(), 1);
    assert_eq!(
        fs.run(&mut scan),
        "sweep /mnt as /mnt on 1\nlocked /mnt/d 13\n"
    );
    assert!(scan.had_err());
    let mut fs = tree();
    fs.dirs = vec![dir("/mnt", 1, 256, vec!["!5"])];
    let mut scan = Scanner::scan_filtered(b"/mnt", &filtered(), 1);
    assert_eq!(fs.run(&mut scan), "sweep /mnt as /mnt on 1\ncut /mnt 5\n");
    assert!(scan.had_err());
}

#[test]
fn path_with_nul_is_not_opened_by_a_scan() {
    let mut scan = Scanner::scan_filtered(b"a\0b", &filtered(), 1);
    scan.scan_subvol(Ok(()), false);
    assert!(matches!(scan.phase(), ScanPhase::WarnInvalid));
    assert!(scan.had_err());
    scan.on_done();
    assert!(matches!(scan.phase(), ScanPhase::Finished));
}

#[test]
fn entry_types_that_cannot_lead_on_are_passed_over() {
    let mut scan = Scanner::scan_filtered(b"/mnt", &filtered(), 1);
    scan.scan_subvol(Ok(()), false);
    scan.on_opened(Ok(()));
    scan.on_ids(None);
    scan.on_entry(b"f", 8);
    assert!(matches!(scan.phase(), ScanPhase::ReadDir));
    scan.on_entry(b"..", DT_DIR);
    assert!(matches!(scan.phase(), ScanPhase::ReadDir));
    scan.on_entry(b"d", DT_DIR);
    assert!(matches!(scan.phase(), ScanPhase::StatEntry));
    scan.discover_subvols(None);
    assert!(matches!(scan.phase(), ScanPhase::ReadDir));
}

#[test]
fn numbers_of_directories_are_not_mixed_up() {
    // Device and inode numbers that would collide if one were truncated.
    let mut fs = tree();
    fs.dirs = vec![
        dir("/mnt", 1, 256, vec!["a", "b", "c"]),
        dir("/mnt/a", 1, 1 << 32, vec!["n"]),
        dir("/mnt/a/n", 2, 256, vec![]),
        dir("/mnt/b", 1, 0, vec!["n"]),
        dir("/mnt/b/n", 3, 256, vec![]),
        dir("/mnt/c", 1 << 32, 1, vec!["n"]),
        dir("/mnt/c/n", 4, 256, vec![]),
    ];
    let mut scan = Scanner::scan_filtered(b"/mnt", &filtered(), 1);
    let out = fs.run(&mut scan);
    assert_eq!(out.matches("sweep").count(), 4);
}

#[test]
fn only_subvolume_roots_have_a_device_to_scan() {
    let st = |mode: u32, ino: u64| Some(Stat { mode, ino, dev: 7 });
    assert_eq!(subvol_root_dev(st(S_IFDIR | 0o755, 256)), Some(7));
    assert_eq!(subvol_root_dev(st(S_IFDIR | 0o755, 257)), None);
    assert_eq!(subvol_root_dev(st(S_IFREG | 0o755, 256)), None);
    assert_eq!(subvol_root_dev(None), None);
}
