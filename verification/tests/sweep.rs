use btrfs_lsattr::btrfs::{search_args, FSPATH_BUF_BYTES, SEARCH_ARGS_BYTES};
use btrfs_lsattr::bytes::{read_u64, ByteOrder};
use btrfs_lsattr::errors::{DataError, Error, EINVAL, ENOENT, EPERM};
use btrfs_lsattr::flags::{BTRFS_INODE_IMMUTABLE, BTRFS_INODE_NODATACOW, FS_NOCOW_FL};
use btrfs_lsattr::sweep::{Sweep, SweepOpts, SweepPhase};

const ORDER: ByteOrder = ByteOrder::Little;

fn sweep_opts(paths_only: bool) -> SweepOpts {
    SweepOpts { has_mask: FS_NOCOW_FL, long: false, paths_only }
}

/// A search reply with these inodes.
fn reply(items: &[(u64, u64)]) -> Vec<u8> {
    let mut buf = search_args(0, ORDER);
    buf[64..68].copy_from_slice(&(items.len() as u32).to_le_bytes());
    let mut p = SEARCH_ARGS_BYTES;
    for (objectid, flags) in items {
        buf[p + 8..p + 16].copy_from_slice(&objectid.to_le_bytes());
        buf[p + 24..p + 28].copy_from_slice(&1u32.to_le_bytes());
        buf[p + 28..p + 32].copy_from_slice(&160u32.to_le_bytes());
        buf[p + 96..p + 104].copy_from_slice(&flags.to_le_bytes());
        p += 192;
    }
    buf
}

/// A complete lookup reply with these paths.
fn paths_reply(paths: &[&str]) -> Vec<u8> {
    let mut buf = vec![0u8; 16];
    buf[8..12].copy_from_slice(&(paths.len() as u32).to_le_bytes());
    let mut off = 8 * paths.len() as u64;
    for p in paths {
        buf.extend_from_slice(&off.to_le_bytes());
        off += p.len() as u64 + 1;
    }
    for p in paths {
        buf.extend_from_slice(p.as_bytes());
        buf.push(0);
    }
    buf
}

/// A subvolume: its inodes in key order, each with its paths; none for an inode
/// that has gone.
struct Subvol {
    inodes: Vec<(u64, u64, Option<Vec<&'static str>>)>,
    per_reply: usize,
}

fn subvol(per_reply: usize) -> Subvol {
    Subvol {
        inodes: vec![
            (256, BTRFS_INODE_NODATACOW, Some(vec![])),
            (257, BTRFS_INODE_NODATACOW, Some(vec!["a", "hard/link"])),
            (258, 0, Some(vec!["plain"])),
            (
                259,
                BTRFS_INODE_NODATACOW | BTRFS_INODE_IMMUTABLE,
                Some(vec!["dir/b"]),
            ),
            (260, BTRFS_INODE_NODATACOW, None),
            (261, BTRFS_INODE_NODATACOW, Some(vec!["", "c"])),
        ],
        per_reply,
    }
}

impl Subvol {
    /// Drive a sweep to its end: the rows and the cursors of the searches.
    fn run(&self, sweep: &mut Sweep) -> (String, Vec<u64>) {
        let mut out = String::new();
        let mut cursors = Vec::new();
        for _ in 0..1000 {
            match sweep.phase() {
                SweepPhase::Open => sweep.on_opened(256, 9),
                SweepPhase::Search => {
                    let cursor = read_u64(&sweep.search_request(), 8, ORDER);
                    cursors.push(cursor);
                    let found: Vec<(u64, u64)> = self
                        .inodes
                        .iter()
                        .filter(|i| i.0 >= cursor)
                        .take(self.per_reply)
                        .map(|i| (i.0, i.1))
                        .collect();
                    sweep.on_searched(&reply(&found));
                }
                SweepPhase::Resolve => {
                    let inum = sweep.inum();
                    assert_eq!(sweep.size(), FSPATH_BUF_BYTES);
                    match &self.inodes.iter().find(|i| i.0 == inum).unwrap().2 {
                        Some(paths) => sweep.on_resolved(&paths_reply(paths)),
                        None => sweep.on_failed(Error::Os(ENOENT)),
                    }
                }
                SweepPhase::Emit => {
                    out.push_str(&String::from_utf8(sweep.row().unwrap().to_vec()).unwrap());
                    sweep.on_written();
                }
                SweepPhase::Finished | SweepPhase::Failed(_) => return (out, cursors),
            }
        }
        panic!("the sweep does not end");
    }
}

fn new_sweep(paths_only: bool) -> Sweep {
    Sweep::new(b"/mnt", 9, sweep_opts(paths_only), ORDER)
}

#[test]
fn sweep_prints_every_selected_path() {
    let mut sweep = new_sweep(false);
    let (out, _) = subvol(100).run(&mut sweep);
    assert_eq!(
        out,
        "---------------C------ /mnt/a\n\
         ---------------C------ /mnt/hard/link\n\
         ----i----------C------ /mnt/dir/b\n\
         ---------------C------ /mnt/c\n"
    );
    assert!(matches!(sweep.phase(), SweepPhase::Finished));
    assert!(sweep.emitted());
}

#[test]
fn bare_rows_show_the_first_path_only() {
    let mut sweep = new_sweep(true);
    let (out, _) = subvol(100).run(&mut sweep);
    // The first path of inode 261 is empty and is no row.
    assert_eq!(out, "/mnt/a\n/mnt/dir/b\n");
}

#[test]
fn long_rows_show_long_names() {
    let opts = SweepOpts { has_mask: FS_NOCOW_FL, long: true, paths_only: false };
    let mut sweep = Sweep::new(b"", 9, opts, ORDER);
    let (out, _) = subvol(100).run(&mut sweep);
    assert!(out.contains(&format!("{:<28} Immutable, No_COW\n", "/dir/b")));
}

#[test]
fn replies_of_any_size_stream_every_inode() {
    let (all, cursors) = subvol(100).run(&mut new_sweep(false));
    assert_eq!(cursors, vec![0, 262]);
    for n in 1..7 {
        let (out, cursors) = subvol(n).run(&mut new_sweep(false));
        assert_eq!(out, all);
        assert_eq!(*cursors.last().unwrap(), 262);
    }
    let (_, cursors) = subvol(1).run(&mut new_sweep(false));
    assert_eq!(cursors, vec![0, 257, 258, 259, 260, 261, 262]);
}

#[test]
fn substituted_root_is_not_searched() {
    let mut sweep = new_sweep(false);
    sweep.on_opened(257, 9);
    assert!(matches!(sweep.phase(), SweepPhase::Failed(Error::Os(EINVAL))));
    let mut sweep = new_sweep(false);
    sweep.on_opened(256, 10);
    assert!(matches!(sweep.phase(), SweepPhase::Failed(Error::Os(EINVAL))));
    let mut sweep = new_sweep(false);
    sweep.on_searched(&reply(&[]));
    assert!(matches!(sweep.phase(), SweepPhase::Open));
    sweep.on_opened(256, 9);
    assert!(matches!(sweep.phase(), SweepPhase::Search));
}

#[test]
fn failures_end_the_sweep() {
    let mut sweep = new_sweep(false);
    sweep.on_failed(Error::Os(EPERM));
    assert!(matches!(sweep.phase(), SweepPhase::Failed(Error::Os(EPERM))));
    let mut sweep = new_sweep(false);
    sweep.on_opened(256, 9);
    sweep.on_failed(Error::Os(ENOENT));
    assert!(matches!(sweep.phase(), SweepPhase::Failed(Error::Os(ENOENT))));
    let mut sweep = new_sweep(false);
    sweep.on_opened(256, 9);
    sweep.on_searched(&reply(&[(257, BTRFS_INODE_NODATACOW)]));
    sweep.on_failed(Error::Os(EPERM));
    assert!(matches!(sweep.phase(), SweepPhase::Failed(Error::Os(EPERM))));
    assert!(!sweep.emitted());
}

#[test]
fn closed_pipe_is_the_error_of_the_sweep() {
    let mut sweep = new_sweep(false);
    sweep.on_opened(256, 9);
    sweep.on_searched(&reply(&[(257, BTRFS_INODE_NODATACOW)]));
    sweep.on_resolved(&paths_reply(&["a", "b"]));
    sweep.on_written();
    assert!(sweep.emitted());
    sweep.on_failed(Error::BrokenPipe);
    assert!(matches!(sweep.phase(), SweepPhase::Failed(Error::BrokenPipe)));
    assert!(sweep.emitted());
}

#[test]
fn lookup_is_retried_with_a_larger_buffer() {
    let mut sweep = new_sweep(false);
    sweep.on_opened(256, 9);
    sweep.on_searched(&reply(&[(257, BTRFS_INODE_NODATACOW)]));
    let mut short = paths_reply(&["a"]);
    short[4..8].copy_from_slice(&50000u32.to_le_bytes());
    sweep.on_resolved(&short);
    assert!(matches!(sweep.phase(), SweepPhase::Resolve));
    assert_eq!(sweep.size(), FSPATH_BUF_BYTES + 50000 + 4096);
    sweep.on_resolved(&paths_reply(&["a"]));
    assert_eq!(sweep.row().unwrap(), b"---------------C------ /mnt/a\n");
}

#[test]
fn malformed_replies_end_the_sweep() {
    let mut sweep = new_sweep(false);
    sweep.on_opened(256, 9);
    let mut buf = reply(&[(257, BTRFS_INODE_NODATACOW), (258, 0)]);
    let p = SEARCH_ARGS_BYTES + 192;
    buf[p + 28..p + 32].copy_from_slice(&u32::MAX.to_le_bytes());
    sweep.on_searched(&buf);
    // What came before the malformed item is still resolved.
    assert_eq!(sweep.inum(), 257);
    sweep.on_resolved(&paths_reply(&[]));
    assert!(matches!(
        sweep.phase(),
        SweepPhase::Failed(Error::Data(DataError::ItemOutsideBuffer))
    ));
    let mut sweep = new_sweep(false);
    sweep.on_opened(256, 9);
    sweep.on_searched(&reply(&[(257, BTRFS_INODE_NODATACOW)]));
    sweep.on_resolved(&[0u8; 3]);
    assert!(matches!(
        sweep.phase(),
        SweepPhase::Failed(Error::Data(DataError::ShortContainer))
    ));
}
