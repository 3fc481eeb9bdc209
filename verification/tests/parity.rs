use btrfs_lsattr::btrfs::{search_args, SEARCH_ARGS_BYTES};
use btrfs_lsattr::bytes::{read_u64, ByteOrder};
use btrfs_lsattr::cli::Cli;
use btrfs_lsattr::errors::{Error, WriteResult, EPERM};
use btrfs_lsattr::flags::{btrfs_to_fs, BTRFS_INODE_IMMUTABLE, BTRFS_INODE_NODATACOW};
use btrfs_lsattr::list::{is_dir, ListOne, ListPhase, Listing, S_IFDIR, S_IFMT, S_IFREG};
use btrfs_lsattr::paths::child_path;
use btrfs_lsattr::report::Diagnostic;
use btrfs_lsattr::scan::{ScanPhase, Scanner, Stat, DT_DIR, DT_UNKNOWN};
use btrfs_lsattr::session::{Session, SessionPhase};
use btrfs_lsattr::sweep::{Sweep, SweepPhase};
use btrfs_lsattr::walk::{Opts, WalkPhase, Walker};

const ORDER: ByteOrder = ByteOrder::Little;

struct Node {
    path: &'static str,
    dev: u64,
    ino: u64,
    dir: bool,
    flags: u64,
}

fn node(path: &'static str, dev: u64, ino: u64, dir: bool, flags: u64) -> Node {
    Node { path, dev, ino, dir, flags }
}

/// A file system with nested subvolumes, and whether the tree search may be
/// used.
struct Kernel {
    nodes: Vec<Node>,
    privileged: bool,
    typed: bool,
    sweep_fails_on: Option<u64>,
}

const C: u64 = BTRFS_INODE_NODATACOW;
const CI: u64 = BTRFS_INODE_NODATACOW | BTRFS_INODE_IMMUTABLE;

fn kernel(privileged: bool) -> Kernel {
    Kernel {
        nodes: vec![
            node("/mnt", 1, 256, true, C),
            node("/mnt/a", 1, 257, false, C),
            node("/mnt/b", 1, 258, false, 0),
            // A symbolic link, which cannot be listed.
            node("/mnt/link", 1, 262, false, 0),
            node("/mnt/.dot", 1, 259, false, CI),
            node("/mnt/d", 1, 260, true, CI),
            node("/mnt/d/e", 1, 261, false, C),
            node("/mnt/d/n", 2, 256, true, C),
            node("/mnt/d/n/x", 2, 257, false, CI),
            node("/mnt/d/n/y", 2, 258, true, 0),
            node("/mnt/d/n/y/m", 3, 256, true, 0),
            node("/mnt/d/n/y/m/z", 3, 257, false, C),
        ],
        privileged,
        typed: true,
        sweep_fails_on: None,
    }
}

/// The file that a path leads to: without surplus slashes, `.` and `..`.
fn resolve(path: &[u8]) -> String {
    let mut parts: Vec<String> = Vec::new();
    for part in text(path).split('/') {
        if part == ".." {
            parts.pop();
        } else if !part.is_empty() && part != "." {
            parts.push(part.to_string());
        }
    }
    format!("/{}", parts.join("/"))
}

fn text(b: &[u8]) -> String {
    String::from_utf8(b.to_vec()).unwrap()
}

impl Kernel {
    fn find(&self, path: &[u8]) -> Option<&Node> {
        let path = resolve(path);
        self.nodes.iter().find(|n| n.path == path)
    }

    /// The names in a directory, `.` and `..` first.
    fn names(&self, dir: &[u8]) -> Vec<String> {
        let dir = resolve(dir);
        let mut names = vec![".".to_string(), "..".to_string()];
        for n in &self.nodes {
            if let Some((parent, name)) = n.path.rsplit_once('/') {
                if parent == dir {
                    names.push(name.to_string());
                }
            }
        }
        names.reverse();
        names
    }

    fn stat(&self, path: &[u8]) -> Stat {
        match self.find(path) {
            Some(n) => Stat {
                mode: if n.dir {
                    S_IFDIR | 0o755
                } else if n.path.ends_with("/link") {
                    libc::S_IFLNK | 0o777
                } else {
                    S_IFREG | 0o644
                },
                ino: n.ino,
                dev: n.dev,
            },
            // The directory around the file system.
            None => Stat { mode: S_IFDIR | 0o755, ino: 2, dev: 99 },
        }
    }

    /// The type that a directory gives an entry.
    fn kind(&self, path: &[u8]) -> u8 {
        if !self.typed {
            DT_UNKNOWN
        } else if is_dir(self.stat(path).mode) {
            DT_DIR
        } else if self.stat(path).mode & S_IFMT == libc::S_IFLNK {
            libc::DT_LNK
        } else {
            libc::DT_REG
        }
    }

    fn list_one(&self, path: &[u8], opts: &Opts, out: &mut String) -> Listing {
        let mut one = ListOne::new(path, opts);
        let flags = self.find(path).map_or(0, |n| btrfs_to_fs(n.flags));
        loop {
            match one.phase() {
                ListPhase::Open => {
                    let link = self.stat(path).mode & S_IFMT == libc::S_IFLNK;
                    one.on_open(if link { Err(libc::ELOOP) } else { Ok(()) });
                }
                ListPhase::Report(Diagnostic::Flags, e) => {
                    assert_eq!(e, libc::EOPNOTSUPP);
                    one.on_reported();
                }
                ListPhase::Stat => one.on_stat(Some(self.stat(path).mode)),
                ListPhase::GetFlags => one.on_flags(Ok(flags as u64)),
                ListPhase::Write => {
                    out.push_str(&text(&one.row()));
                    one.on_written(WriteResult::Done);
                }
                ListPhase::Finished(listing) => return listing,
                _ => panic!("unexpected phase"),
            }
        }
    }

    fn walk(&self, path: &[u8], opts: &Opts, out: &mut String) -> (bool, bool) {
        let mut walker = Walker::new(opts);
        let mut open: Vec<Vec<String>> = Vec::new();
        walker.list_arg(path);
        loop {
            match walker.phase() {
                WalkPhase::Idle => return (walker.had_err(), walker.pipe_broken()),
                WalkPhase::StatArg | WalkPhase::StatEntry => {
                    let mode = self.stat(walker.path()).mode;
                    walker.on_stat(Ok(mode));
                }
                WalkPhase::ListArg | WalkPhase::ListEntry => {
                    let listing = self.list_one(walker.path(), opts, out);
                    walker.list_attributes(listing);
                }
                WalkPhase::OpenDir => {
                    open.push(self.names(walker.path()));
                    walker.on_opened(true);
                }
                WalkPhase::ReadDir => match open.last_mut().unwrap().pop() {
                    Some(name) => walker.on_entry(name.as_bytes()),
                    None => walker.on_end(0),
                },
                WalkPhase::CloseDir => {
                    open.pop();
                    walker.on_done();
                }
                _ => panic!("unexpected phase"),
            }
        }
    }

    /// The path of an inode below the root of its subvolume.
    fn below_root(&self, n: &Node) -> String {
        let root = self.nodes.iter().find(|r| r.dev == n.dev && r.ino == 256).unwrap();
        n.path[root.path.len() + 1..].to_string()
    }

    fn sweep(&self, scan: &Scanner, out: &mut String) -> (Result<(), Error>, bool) {
        let mut sweep = Sweep::new(scan.prefix(), scan.dev(), scan.sweep_opts(), ORDER);
        loop {
            match sweep.phase() {
                SweepPhase::Open => {
                    let st = self.stat(scan.path());
                    sweep.on_opened(st.ino, st.dev);
                }
                SweepPhase::Search => {
                    if !self.privileged || self.sweep_fails_on == Some(scan.dev()) {
                        sweep.on_failed(Error::Os(EPERM));
                        continue;
                    }
                    let cursor = read_u64(&sweep.search_request(), 8, ORDER);
                    let mut buf = search_args(cursor, ORDER);
                    let mut p = SEARCH_ARGS_BYTES;
                    let mut count = 0u32;
                    let mut left: Vec<&Node> = self
                        .nodes
                        .iter()
                        .filter(|n| n.dev == scan.dev() && n.ino >= cursor)
                        .collect();
                    left.sort_by_key(|n| n.ino);
                    for n in left.iter().take(2) {
                        buf[p + 8..p + 16].copy_from_slice(&n.ino.to_le_bytes());
                        buf[p + 24..p + 28].copy_from_slice(&1u32.to_le_bytes());
                        buf[p + 28..p + 32].copy_from_slice(&160u32.to_le_bytes());
                        buf[p + 96..p + 104].copy_from_slice(&n.flags.to_le_bytes());
                        p += 192;
                        count += 1;
                    }
                    buf[64..68].copy_from_slice(&count.to_le_bytes());
                    sweep.on_searched(&buf);
                }
                SweepPhase::Resolve => {
                    let inum = sweep.inum();
                    let n = self
                        .nodes
                        .iter()
                        .find(|n| n.dev == scan.dev() && n.ino == inum)
                        .unwrap();
                    let mut buf = vec![0u8; 16];
                    buf[8] = 1;
                    buf.extend_from_slice(&8u64.to_le_bytes());
                    buf.extend_from_slice(self.below_root(n).as_bytes());
                    buf.push(0);
                    sweep.on_resolved(&buf);
                }
                SweepPhase::Emit => {
                    out.push_str(&text(sweep.row().unwrap()));
                    sweep.on_written();
                }
                SweepPhase::Finished => return (Ok(()), sweep.emitted()),
                SweepPhase::Failed(e) => return (Err(e), sweep.emitted()),
            }
        }
    }

    fn scan(&self, path: &[u8], opts: &Opts, dev: u64, out: &mut String) -> Scanner {
        let mut scan = Scanner::scan_filtered(path, opts, dev);
        let mut open: Vec<Vec<String>> = Vec::new();
        loop {
            match scan.phase() {
                ScanPhase::Sweep => {
                    let (r, emitted) = self.sweep(&scan, out);
                    scan.scan_subvol(r, emitted);
                }
                ScanPhase::OpenDir => {
                    open.push(self.names(scan.path()));
                    scan.on_opened(Ok(()));
                }
                ScanPhase::StatRoot => {
                    let st = self.stat(scan.dir().unwrap());
                    scan.on_ids(Some((st.dev, st.ino)));
                }
                ScanPhase::ReadDir => match open.last_mut().unwrap().pop() {
                    Some(name) => {
                        let path = child_path(scan.dir().unwrap(), name.as_bytes());
                        scan.on_entry(name.as_bytes(), self.kind(&path));
                    }
                    None => scan.on_end(0),
                },
                ScanPhase::StatEntry => {
                    let st = self.stat(scan.path());
                    scan.discover_subvols(Some(st));
                }
                ScanPhase::ListEntry => {
                    let listing = self.list_one(scan.path(), opts, out);
                    scan.on_listed(listing);
                }
                ScanPhase::WarnFallback(_) => scan.on_done(),
                ScanPhase::Walk => {
                    let (had_err, pipe_broken) = self.walk(scan.path(), opts, out);
                    scan.on_walked(had_err, pipe_broken);
                }
                ScanPhase::CloseDir => {
                    open.pop();
                    scan.on_done();
                }
                ScanPhase::Finished | ScanPhase::Failed(_) => return scan,
                _ => panic!("unexpected phase"),
            }
        }
    }

    /// A whole session: its rows, sorted, and its exit status.
    fn run(&self, cli: &Cli) -> (Vec<String>, u8) {
        let mut session = match Session::new(cli) {
            Ok(s) => s,
            Err(_) => panic!("refused"),
        };
        let opts = session.opts();
        let mut out = String::new();
        let code = loop {
            match session.phase() {
                SessionPhase::StatArg => {
                    let st = self.stat(session.arg());
                    session.on_stat(Some(st));
                }
                SessionPhase::Scan(dev) => {
                    let scan = self.scan(session.arg(), &opts, dev, &mut out);
                    let r = match scan.phase() {
                        ScanPhase::Failed(e) => Err(e),
                        _ => Ok(()),
                    };
                    session.on_scanned(r, scan.emitted(), scan.had_err(), scan.pipe_broken());
                }
                SessionPhase::Walk => {
                    let (had_err, pipe_broken) = self.walk(session.arg(), &opts, &mut out);
                    session.on_walked(had_err, pipe_broken);
                }
                SessionPhase::Flush => session.on_flushed(Ok(())),
                SessionPhase::Exit(code) => break code,
                _ => panic!("unexpected phase"),
            }
        };
        let mut rows: Vec<String> = out.lines().map(|l| l.to_string()).collect();
        rows.sort();
        (rows, code)
    }
}

fn cli(has: &str, path: &str, paths_only: bool, long: bool) -> Cli {
    Cli {
        recursive: false,
        print_version: false,
        all: false,
        dirs_opt: true,
        long,
        generation: false,
        project: false,
        has: Some(has.to_string()),
        paths_only,
        paths: vec![path.as_bytes().to_vec()],
    }
}

#[test]
fn same_rows_with_and_without_privilege() {
    for has in ["C", "i", "Ci"] {
        for (paths_only, long) in [(false, false), (true, false), (false, true)] {
            let cli = cli(has, "/mnt", paths_only, long);
            let (fast, fast_code) = kernel(true).run(&cli);
            let (slow, slow_code) = kernel(false).run(&cli);
            assert_eq!(fast, slow);
            assert_eq!((fast_code, slow_code), (0, 0));
            assert!(!fast.is_empty());
        }
    }
}

#[test]
fn untyped_entries_lead_to_the_same_rows() {
    let cli = cli("C", "/mnt", false, false);
    let mut untyped = kernel(true);
    untyped.typed = false;
    let typed = kernel(true);
    assert!(typed.typed);
    assert_eq!(typed.run(&cli), untyped.run(&cli));
    assert_eq!(typed.run(&cli).0, kernel(false).run(&cli).0);
}

#[test]
fn trailing_slashes_do_not_tell_the_ways_apart() {
    let (plain, _) = kernel(true).run(&cli("C", "/mnt", true, false));
    for path in ["/mnt/", "/mnt//", "/mnt////"] {
        for privileged in [true, false] {
            let (rows, code) = kernel(privileged).run(&cli("C", path, true, false));
            assert_eq!(rows, plain);
            assert_eq!(code, 0);
        }
    }
}

#[test]
fn directories_that_match_are_listed_once() {
    for privileged in [true, false] {
        let (rows, _) = kernel(privileged).run(&cli("C", "/mnt", true, false));
        assert_eq!(rows.iter().filter(|r| r.ends_with("/d")).count(), 1);
        assert!(!rows.iter().any(|r| r.ends_with("/.") || r.ends_with("/..")));
    }
}

#[test]
fn filter_finds_every_file_of_every_subvolume() {
    let (rows, code) = kernel(true).run(&cli("C", "/mnt", true, false));
    assert_eq!(
        rows,
        vec![
            "/mnt/.dot",
            "/mnt/a",
            "/mnt/d",
            "/mnt/d/e",
            "/mnt/d/n",
            "/mnt/d/n/x",
            "/mnt/d/n/y/m/z"
        ]
    );
    assert_eq!(code, 0);
}

#[test]
fn results_stay_complete_when_a_nested_sweep_fails() {
    let mut broken = kernel(true);
    broken.sweep_fails_on = Some(2);
    let (rows, code) = broken.run(&cli("C", "/mnt", true, false));
    assert_eq!(rows, kernel(true).run(&cli("C", "/mnt", true, false)).0);
    assert_eq!(code, 1);
}

#[test]
fn plain_directory_is_walked_and_stays_bounded() {
    let (rows, code) = kernel(true).run(&cli("C", "/mnt/d/n/y", true, false));
    assert_eq!(rows, vec!["/mnt/d/n/y/m/z"]);
    assert_eq!(code, 0);
}
