//! The filtered scan of a subvolume and of the subvolumes nested in it: sweep
//! one subvolume, then walk its directories to find the roots of others.
//!
//! [`Scanner`] makes the decisions. Its phase says which sweep, listing, system
//! call or diagnostic comes next; the caller performs it and hands the outcome
//! to the method that answers the phase. An answer to any other phase is
//! ignored.

use std::collections::HashSet;

use vstd::prelude::*;
use vstd::slice::slice_to_vec;

use crate::errors::{is_broken_pipe, Error};
use crate::flags::BTRFS_FIRST_FREE_OBJECTID;
use crate::list::{is_dir, Listing};
use crate::paths::{child_path, compose_path, descend, has_nul, is_dot, prefixed};
use crate::paths::{squeeze_trailing_slashes, trim_trailing_slashes};
use crate::sweep::SweepOpts;
use crate::walk::Opts;

verus! {

broadcast use vstd::std_specs::hash::group_hash_axioms;

/// The directory entry types that may turn out to be directories.
pub const DT_UNKNOWN: u8 = 0;

pub const DT_DIR: u8 = 4;

/// What `lstat` says of a path.
#[derive(Clone, Copy, PartialEq, Eq, Debug, Structural)]
pub struct Stat {
    pub mode: u32,
    pub ino: u64,
    pub dev: u64,
}

/// What a scan waits for. "The path" is [`Scanner::path`], "the directory" is
/// [`Scanner::dir`].
#[derive(Clone, Copy, PartialEq, Eq, Debug, Structural)]
pub enum ScanPhase {
    /// Sweep the subvolume at the path, with device number [`Scanner::dev`],
    /// printing under [`Scanner::prefix`].
    Sweep,
    /// Warn that the path holds a NUL byte.
    WarnInvalid,
    /// `opendir` the path.
    OpenDir,
    /// Report that the path could not be opened, with this errno.
    ReportOpen(i32),
    /// `lstat` the directory, the root of a subvolume.
    StatRoot,
    /// `readdir` the directory.
    ReadDir,
    /// Report that the directory could not be read to its end, with this errno.
    ReportRead(i32),
    /// `lstat` the path, an entry of the directory.
    StatEntry,
    /// List the path, the root of a nested subvolume.
    ListEntry,
    /// Warn that the subvolume at the path could not be swept.
    WarnFallback(Error),
    /// Walk the path with the filter.
    Walk,
    /// `closedir` the directory.
    CloseDir,
    /// Nothing: the scan is complete.
    Finished,
    /// Nothing: the outermost subvolume could not be swept.
    Failed(Error),
}

/// The answers that a scan can get. `Swept` and `SweepFailed` tell whether the
/// sweep wrote a row, `Walked` whether the walk failed and whether its pipe
/// closed.
pub enum ScanEvent {
    Swept(bool),
    SweepFailed(Error, bool),
    Opened(Result<(), i32>),
    Ids(Option<(u64, u64)>),
    Entry(Seq<u8>, u8),
    End(i32),
    Stated(Option<Stat>),
    Listed(Listing),
    Walked(bool, bool),
    Done,
}

/// A directory of a subvolume: where the subvolume is mounted and printed, its
/// device number, and the directory's path below its root and as a whole.
pub struct Place {
    pub base: Seq<u8>,
    pub prefix: Seq<u8>,
    pub dev: u64,
    pub rel: Seq<u8>,
    pub dir: Seq<u8>,
}

/// The root directory of the subvolume at `path`.
pub open spec fn subvol_place(path: Seq<u8>, prefix: Seq<u8>, dev: u64) -> Place {
    Place { base: path, prefix, dev, rel: seq![], dir: crate::paths::composed(path, seq![]) }
}

/// The root directory of the outermost subvolume, which the argument `path`
/// names. What it holds is found and printed with one trailing slash of `path`
/// at most.
pub open spec fn arg_place(path: Seq<u8>, dev: u64) -> Place {
    Place {
        base: crate::paths::squeezed(path),
        prefix: crate::paths::trimmed(path),
        dev,
        rel: seq![],
        dir: path,
    }
}

/// No place in particular.
pub open spec fn no_place() -> Place {
    Place { base: seq![], prefix: seq![], dev: 0, rel: seq![], dir: seq![] }
}

/// The entry `name` of the directory `top`, as part of the same subvolume.
pub open spec fn entry_place(top: Place, name: Seq<u8>) -> Place {
    Place {
        rel: crate::paths::descended(top.rel, name),
        dir: crate::paths::joined(
            if top.rel.len() == 0 {
                top.base
            } else {
                top.dir
            },
            name,
        ),
        ..top
    }
}

/// The subdirectory `entry` of a subvolume.
pub open spec fn subdir_place(entry: Place) -> Place {
    Place { dir: crate::paths::composed(entry.base, entry.rel), ..entry }
}

/// The subvolume with device number `dev` whose root is at `entry`.
pub open spec fn nested_place(entry: Place, dev: u64) -> Place {
    subvol_place(entry.dir, crate::paths::under_prefix(entry.prefix, entry.rel), dev)
}

/// A scan, as the contracts see it. `frames` are the open directories, the
/// innermost last; `hand` is the subvolume, directory or entry in hand, with
/// its device and inode numbers where they are known. `subvols` and `dirs` are
/// the subvolumes and directories that the scan has met.
pub struct ScanState {
    pub opts: Opts,
    pub frames: Seq<Place>,
    pub hand: Place,
    pub ids: Option<(u64, u64)>,
    pub subvols: Set<u64>,
    pub dirs: Set<(u64, u64)>,
    pub phase: ScanPhase,
    pub emitted: bool,
    pub had_err: bool,
    pub pipe_broken: bool,
}

/// What the sweeps of a scan with the options `opts` select and print.
pub open spec fn sweep_opts(opts: Opts) -> SweepOpts {
    SweepOpts { has_mask: opts.has_mask, long: opts.long, paths_only: opts.paths_only }
}

/// The entry may be a directory that can hold subvolumes.
pub open spec fn may_lead_on(name: Seq<u8>, kind: u8) -> bool {
    !crate::paths::is_dot_entry(name) && (kind == DT_DIR || kind == DT_UNKNOWN)
}

/// `st` is the root of a subvolume other than that with device number `dev`.
pub open spec fn is_nested_root(st: Stat, dev: u64) -> bool {
    st.ino == BTRFS_FIRST_FREE_OBJECTID && st.dev != dev
}

impl ScanState {
    /// A scan of the subvolume at `path` before its first step.
    pub open spec fn start(opts: Opts, path: Seq<u8>, dev: u64) -> ScanState {
        ScanState {
            opts,
            frames: seq![],
            hand: arg_place(path, dev),
            ids: None,
            subvols: set![dev],
            dirs: set![],
            phase: ScanPhase::Sweep,
            emitted: false,
            had_err: false,
            pipe_broken: false,
        }
    }

    /// The same scan in another phase.
    pub open spec fn goto(self, phase: ScanPhase) -> ScanState {
        ScanState { phase, ..self }
    }

    /// The same scan in another phase with nothing in hand.
    pub open spec fn released(self, phase: ScanPhase) -> ScanState {
        ScanState { phase, hand: no_place(), ids: None, ..self }
    }

    /// On to the next entry of the directory; a closed pipe ends it.
    pub open spec fn next_entry(self) -> ScanState {
        self.released(
            if self.pipe_broken {
                ScanPhase::CloseDir
            } else {
                ScanPhase::ReadDir
            },
        )
    }

    /// Back to the directory around, if any.
    pub open spec fn leave(self) -> ScanState {
        if self.frames.len() == 0 {
            self.released(ScanPhase::Finished)
        } else {
            self.next_entry()
        }
    }

    /// Into the directory in hand.
    pub open spec fn enter(self) -> ScanState {
        if crate::paths::has_nul_byte(self.hand.dir) {
            ScanState { had_err: true, ..self.goto(ScanPhase::WarnInvalid) }
        } else {
            self.goto(ScanPhase::OpenDir)
        }
    }

    /// Start to read the directory with the numbers `ids`, unless it has been
    /// read.
    pub open spec fn visit(self, ids: (u64, u64)) -> ScanState {
        if self.dirs.contains(ids) {
            self.released(ScanPhase::CloseDir)
        } else {
            ScanState { dirs: self.dirs.insert(ids), ..self.next_entry() }
        }
    }

    /// The scan after the answer `event`.
    pub open spec fn step(self, event: ScanEvent) -> ScanState {
        match (self.phase, event) {
            (ScanPhase::Sweep, ScanEvent::Swept(emitted)) => ScanState {
                emitted: self.emitted || emitted,
                ..self
            }.enter(),
            (ScanPhase::Sweep, ScanEvent::SweepFailed(e, emitted)) => {
                let s = ScanState { emitted: self.emitted || emitted, ..self };
                if self.frames.len() == 0 {
                    s.goto(ScanPhase::Failed(e))
                } else if e == Error::BrokenPipe {
                    ScanState { pipe_broken: true, ..s }.next_entry()
                } else {
                    ScanState { had_err: true, ..s.goto(ScanPhase::WarnFallback(e)) }
                }
            },
            (ScanPhase::WarnFallback(_), ScanEvent::Done) => self.goto(ScanPhase::Walk),
            (ScanPhase::Walk, ScanEvent::Walked(had_err, pipe_broken)) => ScanState {
                had_err: self.had_err || had_err,
                pipe_broken: self.pipe_broken || pipe_broken,
                ..self
            }.next_entry(),
            (ScanPhase::WarnInvalid, ScanEvent::Done) => self.leave(),
            (ScanPhase::OpenDir, ScanEvent::Opened(Err(e))) => ScanState {
                had_err: true,
                ..self.goto(ScanPhase::ReportOpen(e))
            },
            (ScanPhase::ReportOpen(_), ScanEvent::Done) => self.leave(),
            (ScanPhase::OpenDir, ScanEvent::Opened(Ok(_))) => {
                let s = ScanState { frames: self.frames.push(self.hand), ..self };
                match self.ids {
                    Some(ids) => s.visit(ids),
                    None => s.goto(ScanPhase::StatRoot),
                }
            },
            (ScanPhase::StatRoot, ScanEvent::Ids(Some(ids))) => self.visit(ids),
            (ScanPhase::StatRoot, ScanEvent::Ids(None)) => self.next_entry(),
            (ScanPhase::ReadDir, ScanEvent::End(e)) => if e == 0 {
                self.goto(ScanPhase::CloseDir)
            } else {
                ScanState { had_err: true, ..self.goto(ScanPhase::ReportRead(e)) }
            },
            (ScanPhase::ReportRead(_), ScanEvent::Done) => self.goto(ScanPhase::CloseDir),
            (ScanPhase::ReadDir, ScanEvent::Entry(name, kind)) => if self.frames.len() == 0
                || !may_lead_on(name, kind) {
                self
            } else {
                let place = entry_place(self.frames.last(), name);
                if crate::paths::has_nul_byte(place.dir) {
                    self
                } else {
                    ScanState { hand: place, ..self.goto(ScanPhase::StatEntry) }
                }
            },
            (ScanPhase::StatEntry, ScanEvent::Stated(None)) => self.next_entry(),
            (ScanPhase::StatEntry, ScanEvent::Stated(Some(st))) => if !crate::list::mode_is_dir(
                st.mode,
            ) {
                self.next_entry()
            } else if is_nested_root(st, self.hand.dev) {
                ScanState {
                    hand: nested_place(self.hand, st.dev),
                    ..self.goto(ScanPhase::ListEntry)
                }
            } else {
                ScanState {
                    hand: subdir_place(self.hand),
                    ids: Some((st.dev, st.ino)),
                    ..self
                }.enter()
            },
            (ScanPhase::ListEntry, ScanEvent::Listed(listing)) => if listing is PipeClosed {
                ScanState { pipe_broken: true, ..self }.next_entry()
            } else if self.subvols.contains(self.hand.dev) {
                self.next_entry()
            } else {
                ScanState {
                    subvols: self.subvols.insert(self.hand.dev),
                    ..self.goto(ScanPhase::Sweep)
                }
            },
            (ScanPhase::CloseDir, ScanEvent::Done) => if self.frames.len() == 0 {
                self
            } else {
                ScanState { frames: self.frames.drop_last(), ..self }.leave()
            },
            _ => self,
        }
    }
}

/// The device number of a btrfs subvolume whose root `lstat` describes: a
/// directory with the inode number that only such roots have. Nothing for
/// anything else.
pub open spec fn root_dev(st: Option<Stat>) -> Option<u64> {
    match st {
        Some(s) => if crate::list::mode_is_dir(s.mode) && s.ino == BTRFS_FIRST_FREE_OBJECTID {
            Some(s.dev)
        } else {
            None
        },
        None => None,
    }
}

/// `Some` of the device number iff `st` is the root of a btrfs subvolume.
pub fn subvol_root_dev(st: Option<Stat>) -> (dev: Option<u64>)
    ensures
        dev == root_dev(st),
{
    match st {
        Some(s) => if is_dir(s.mode) && s.ino == BTRFS_FIRST_FREE_OBJECTID {
            Some(s.dev)
        } else {
            None
        },
        None => None,
    }
}

/// A device number and an inode number as one key.
pub open spec fn packed(ids: (u64, u64)) -> u128 {
    (ids.0 * 0x1_0000_0000_0000_0000 + ids.1) as u128
}

/// Two directories have the same key only if both their numbers agree.
proof fn lemma_packed_injective(a: (u64, u64), b: (u64, u64))
    ensures
        packed(a) == packed(b) <==> a == b,
        packed(a) == a.0 * 0x1_0000_0000_0000_0000 + a.1,
{
}

/// The key of the directory with the numbers `ids`.
fn pack(ids: (u64, u64)) -> (key: u128)
    ensures
        key == packed(ids),
{
    (ids.0 as u128) * 0x1_0000_0000_0000_0000 + (ids.1 as u128)
}

/// The directories whose keys are in `keys`.
pub open spec fn unpacked(keys: Set<u128>) -> Set<(u64, u64)> {
    Set::new(|ids: (u64, u64)| keys.contains(packed(ids)))
}

/// A place in a scan.
struct PlaceBuf {
    base: Vec<u8>,
    prefix: Vec<u8>,
    dev: u64,
    rel: Vec<u8>,
    dir: Vec<u8>,
}

impl View for PlaceBuf {
    type V = Place;

    closed spec fn view(&self) -> Place {
        Place {
            base: self.base@,
            prefix: self.prefix@,
            dev: self.dev,
            rel: self.rel@,
            dir: self.dir@,
        }
    }
}

impl PlaceBuf {
    /// The root directory of the subvolume at `path`.
    fn subvol(path: &[u8], prefix: &[u8], dev: u64) -> (place: PlaceBuf)
        ensures
            place@ == subvol_place(path@, prefix@, dev),
    {
        let rel: Vec<u8> = Vec::new();
        assert(rel@ =~= seq![]);
        let dir = compose_path(path, rel.as_slice());
        PlaceBuf { base: slice_to_vec(path), prefix: slice_to_vec(prefix), dev, rel, dir }
    }

    /// The root directory of the outermost subvolume.
    fn argument(path: &[u8], dev: u64) -> (place: PlaceBuf)
        ensures
            place@ == arg_place(path@, dev),
    {
        let rel: Vec<u8> = Vec::new();
        assert(rel@ =~= seq![]);
        PlaceBuf {
            base: squeeze_trailing_slashes(path),
            prefix: slice_to_vec(trim_trailing_slashes(path)),
            dev,
            rel,
            dir: slice_to_vec(path),
        }
    }

    /// No place in particular.
    fn nowhere() -> (place: PlaceBuf)
        ensures
            place@ == no_place(),
    {
        let place = PlaceBuf {
            base: Vec::new(),
            prefix: Vec::new(),
            dev: 0,
            rel: Vec::new(),
            dir: Vec::new(),
        };
        assert(place@.base =~= seq![]);
        assert(place@.prefix =~= seq![]);
        assert(place@.rel =~= seq![]);
        assert(place@.dir =~= seq![]);
        place
    }

    /// A copy.
    fn copy(&self) -> (place: PlaceBuf)
        ensures
            place@ == self@,
    {
        PlaceBuf {
            base: slice_to_vec(self.base.as_slice()),
            prefix: slice_to_vec(self.prefix.as_slice()),
            dev: self.dev,
            rel: slice_to_vec(self.rel.as_slice()),
            dir: slice_to_vec(self.dir.as_slice()),
        }
    }

    /// The entry `name` of this directory.
    fn entry(&self, name: &[u8]) -> (place: PlaceBuf)
        ensures
            place@ == entry_place(self@, name@),
    {
        PlaceBuf {
            base: slice_to_vec(self.base.as_slice()),
            prefix: slice_to_vec(self.prefix.as_slice()),
            dev: self.dev,
            rel: descend(self.rel.as_slice(), name),
            dir: if self.rel.len() == 0 {
                child_path(self.base.as_slice(), name)
            } else {
                child_path(self.dir.as_slice(), name)
            },
        }
    }

    /// The subdirectory at this entry.
    fn subdir(&self) -> (place: PlaceBuf)
        ensures
            place@ == subdir_place(self@),
    {
        PlaceBuf {
            base: slice_to_vec(self.base.as_slice()),
            prefix: slice_to_vec(self.prefix.as_slice()),
            dev: self.dev,
            rel: slice_to_vec(self.rel.as_slice()),
            dir: compose_path(self.base.as_slice(), self.rel.as_slice()),
        }
    }

    /// The subvolume whose root is at this entry.
    fn nested(&self, dev: u64) -> (place: PlaceBuf)
        ensures
            place@ == nested_place(self@, dev),
    {
        let prefix = prefixed(self.prefix.as_slice(), self.rel.as_slice());
        PlaceBuf::subvol(self.dir.as_slice(), prefix.as_slice(), dev)
    }
}

/// The places that the open directories are.
spec fn places(frames: Seq<PlaceBuf>) -> Seq<Place> {
    Seq::new(frames.len(), |i: int| frames[i]@)
}

/// The filtered scan of a subvolume and of those nested in it.
pub struct Scanner {
    opts: Opts,
    frames: Vec<PlaceBuf>,
    hand: PlaceBuf,
    ids: Option<(u64, u64)>,
    subvols: HashSet<u64>,
    dirs: HashSet<u128>,
    phase: ScanPhase,
    emitted: bool,
    had_err: bool,
    pipe_broken: bool,
}

impl View for Scanner {
    type V = ScanState;

    closed spec fn view(&self) -> ScanState {
        ScanState {
            opts: self.opts,
            frames: places(self.frames@),
            hand: self.hand@,
            ids: self.ids,
            subvols: self.subvols@,
            dirs: unpacked(self.dirs@),
            phase: self.phase,
            emitted: self.emitted,
            had_err: self.had_err,
            pipe_broken: self.pipe_broken,
        }
    }
}

impl Scanner {
    /// A scan of the subvolume at `path`, which has device number `dev`, with
    /// the options of the filtered walk.
    pub fn scan_filtered(path: &[u8], opts: &Opts, dev: u64) -> (scanner: Scanner)
        ensures
            scanner@ == ScanState::start(*opts, path@, dev),
    {
        let mut subvols: HashSet<u64> = HashSet::new();
        let _ = subvols.insert(dev);
        let scanner = Scanner {
            opts: *opts,
            frames: Vec::new(),
            hand: PlaceBuf::argument(path, dev),
            ids: None,
            subvols,
            dirs: HashSet::new(),
            phase: ScanPhase::Sweep,
            emitted: false,
            had_err: false,
            pipe_broken: false,
        };
        assert(scanner@.frames =~= seq![]);
        assert(scanner@.subvols =~= set![dev]);
        assert(scanner@.dirs =~= set![]);
        scanner
    }

    /// What the scan waits for.
    pub fn phase(&self) -> (phase: ScanPhase)
        ensures
            phase == self@.phase,
    {
        self.phase
    }

    /// What the sweeps select and print.
    pub fn sweep_opts(&self) -> (opts: SweepOpts)
        ensures
            opts == sweep_opts(self@.opts),
    {
        SweepOpts {
            has_mask: self.opts.has_mask,
            long: self.opts.long,
            paths_only: self.opts.paths_only,
        }
    }

    /// What the listings and walks list and how.
    pub fn opts(&self) -> (opts: Opts)
        ensures
            opts == self@.opts,
    {
        self.opts
    }

    /// The subvolume, directory or entry in hand.
    pub fn path(&self) -> (path: &[u8])
        ensures
            path@ == self@.hand.dir,
    {
        self.hand.dir.as_slice()
    }

    /// The path under which the subvolume in hand is printed.
    pub fn prefix(&self) -> (prefix: &[u8])
        ensures
            prefix@ == self@.hand.prefix,
    {
        self.hand.prefix.as_slice()
    }

    /// The device number of the subvolume in hand.
    pub fn dev(&self) -> (dev: u64)
        ensures
            dev == self@.hand.dev,
    {
        self.hand.dev
    }

    /// The innermost open directory.
    pub fn dir(&self) -> (dir: Option<&[u8]>)
        ensures
            dir is Some <==> self@.frames.len() > 0,
            dir matches Some(d) ==> d@ == self@.frames.last().dir,
    {
        if self.frames.len() == 0 {
            None
        } else {
            Some(self.frames[self.frames.len() - 1].dir.as_slice())
        }
    }

    /// True once a sweep wrote a row.
    pub fn emitted(&self) -> (e: bool)
        ensures
            e == self@.emitted,
    {
        self.emitted
    }

    /// True once something may have been missed.
    pub fn had_err(&self) -> (e: bool)
        ensures
            e == self@.had_err,
    {
        self.had_err
    }

    /// True once the output pipe is closed.
    pub fn pipe_broken(&self) -> (e: bool)
        ensures
            e == self@.pipe_broken,
    {
        self.pipe_broken
    }

    /// Let go of what is in hand.
    fn release(&mut self, phase: ScanPhase)
        ensures
            final(self)@ == old(self)@.released(phase),
    {
        self.hand = PlaceBuf::nowhere();
        self.ids = None;
        self.phase = phase;
    }

    /// On to the next entry.
    fn next_entry(&mut self)
        ensures
            final(self)@ == old(self)@.next_entry(),
    {
        if self.pipe_broken {
            self.release(ScanPhase::CloseDir);
        } else {
            self.release(ScanPhase::ReadDir);
        }
    }

    /// Back to the directory around.
    fn leave(&mut self)
        ensures
            final(self)@ == old(self)@.leave(),
    {
        if self.frames.len() == 0 {
            self.release(ScanPhase::Finished);
        } else {
            self.next_entry();
        }
    }

    /// Into the directory in hand.
    fn enter(&mut self)
        ensures
            final(self)@ == old(self)@.enter(),
    {
        if has_nul(self.hand.dir.as_slice()) {
            self.had_err = true;
            self.phase = ScanPhase::WarnInvalid;
        } else {
            self.phase = ScanPhase::OpenDir;
        }
    }

    /// Start to read the directory with the numbers `ids`.
    fn visit(&mut self, ids: (u64, u64))
        ensures
            final(self)@ == old(self)@.visit(ids),
    {
        let ghost before = self.dirs@;
        if self.dirs.insert(pack(ids)) {
            proof {
                assert forall|x: (u64, u64)|
                    unpacked(self.dirs@).contains(x) <==> unpacked(before).insert(ids).contains(
                        x,
                    ) by {
                    lemma_packed_injective(x, ids);
                }
                assert(unpacked(self.dirs@) =~= unpacked(before).insert(ids));
            }
            self.next_entry();
        } else {
            assert(self.dirs@ =~= before);
            self.release(ScanPhase::CloseDir);
        }
    }

    /// The sweep of the subvolume in hand ended: it is complete, or why it is
    /// not, and whether it wrote a row. A nested subvolume that cannot be swept
    /// is walked instead, which counts as an error.
    pub fn scan_subvol(&mut self, r: Result<(), Error>, emitted: bool)
        ensures
            final(self)@ == old(self)@.step(
                match r {
                    Ok(_) => ScanEvent::Swept(emitted),
                    Err(e) => ScanEvent::SweepFailed(e, emitted),
                },
            ),
    {
        if let ScanPhase::Sweep = self.phase {
            self.emitted = self.emitted || emitted;
            match r {
                Ok(_) => self.enter(),
                Err(e) => {
                    if self.frames.len() == 0 {
                        self.phase = ScanPhase::Failed(e);
                    } else if is_broken_pipe(&e) {
                        self.pipe_broken = true;
                        self.next_entry();
                    } else {
                        self.had_err = true;
                        self.phase = ScanPhase::WarnFallback(e);
                    }
                },
            }
        }
    }

    /// Whether the path could be opened as a directory, or the errno.
    pub fn on_opened(&mut self, r: Result<(), i32>)
        ensures
            final(self)@ == old(self)@.step(ScanEvent::Opened(r)),
    {
        if let ScanPhase::OpenDir = self.phase {
            match r {
                Ok(_) => {
                    let place = self.hand.copy();
                    let ghost before = self.frames@;
                    self.frames.push(place);
                    assert(places(self.frames@) =~= places(before).push(self.hand@));
                    match self.ids {
                        Some(ids) => self.visit(ids),
                        None => {
                            self.phase = ScanPhase::StatRoot;
                        },
                    }
                },
                Err(e) => {
                    self.had_err = true;
                    self.phase = ScanPhase::ReportOpen(e);
                },
            }
        }
    }

    /// The device and inode numbers of the directory, if `lstat` gave them.
    pub fn on_ids(&mut self, ids: Option<(u64, u64)>)
        ensures
            final(self)@ == old(self)@.step(ScanEvent::Ids(ids)),
    {
        if let ScanPhase::StatRoot = self.phase {
            match ids {
                Some(ids) => self.visit(ids),
                None => self.next_entry(),
            }
        }
    }

    /// The name and type of the next entry of the directory.
    pub fn on_entry(&mut self, name: &[u8], kind: u8)
        ensures
            final(self)@ == old(self)@.step(ScanEvent::Entry(name@, kind)),
    {
        if let ScanPhase::ReadDir = self.phase {
            let n: usize = self.frames.len();
            if n > 0 && !is_dot(name) && (kind == DT_DIR || kind == DT_UNKNOWN) {
                let place = self.frames[n - 1].entry(name);
                if !has_nul(place.dir.as_slice()) {
                    self.hand = place;
                    self.phase = ScanPhase::StatEntry;
                }
            }
        }
    }

    /// The end of the directory, with the errno of `readdir`, 0 for a clean end.
    pub fn on_end(&mut self, errno: i32)
        ensures
            final(self)@ == old(self)@.step(ScanEvent::End(errno)),
    {
        if let ScanPhase::ReadDir = self.phase {
            if errno == 0 {
                self.phase = ScanPhase::CloseDir;
            } else {
                self.had_err = true;
                self.phase = ScanPhase::ReportRead(errno);
            }
        }
    }

    /// What `lstat` says of the path, if anything: it is passed over, the root
    /// of a nested subvolume, or a directory in which to look on.
    pub fn discover_subvols(&mut self, st: Option<Stat>)
        ensures
            final(self)@ == old(self)@.step(ScanEvent::Stated(st)),
    {
        if let ScanPhase::StatEntry = self.phase {
            match st {
                None => self.next_entry(),
                Some(st) => {
                    if !is_dir(st.mode) {
                        self.next_entry();
                    } else if st.ino == BTRFS_FIRST_FREE_OBJECTID && st.dev != self.hand.dev {
                        self.hand = self.hand.nested(st.dev);
                        self.phase = ScanPhase::ListEntry;
                    } else {
                        self.hand = self.hand.subdir();
                        self.ids = Some((st.dev, st.ino));
                        self.enter();
                    }
                },
            }
        }
    }

    /// How the listing of a nested subvolume's root ended. The subvolume is
    /// swept next, unless it has been.
    pub fn on_listed(&mut self, listing: Listing)
        ensures
            final(self)@ == old(self)@.step(ScanEvent::Listed(listing)),
    {
        if let ScanPhase::ListEntry = self.phase {
            if let Listing::PipeClosed = listing {
                self.pipe_broken = true;
                self.next_entry();
            } else {
                let ghost before = self.subvols@;
                if self.subvols.insert(self.hand.dev) {
                    self.phase = ScanPhase::Sweep;
                } else {
                    assert(self.subvols@ =~= before);
                    self.next_entry();
                }
            }
        }
    }

    /// Whether the walk of a subvolume that could not be swept failed, and
    /// whether its pipe closed.
    pub fn on_walked(&mut self, had_err: bool, pipe_broken: bool)
        ensures
            final(self)@ == old(self)@.step(ScanEvent::Walked(had_err, pipe_broken)),
    {
        if let ScanPhase::Walk = self.phase {
            self.had_err = self.had_err || had_err;
            self.pipe_broken = self.pipe_broken || pipe_broken;
            self.next_entry();
        }
    }

    /// The pending diagnostic was reported, or the directory closed.
    pub fn on_done(&mut self)
        ensures
            final(self)@ == old(self)@.step(ScanEvent::Done),
    {
        match self.phase {
            ScanPhase::WarnFallback(_) => {
                self.phase = ScanPhase::Walk;
            },
            ScanPhase::WarnInvalid | ScanPhase::ReportOpen(_) => self.leave(),
            ScanPhase::ReportRead(_) => {
                self.phase = ScanPhase::CloseDir;
            },
            ScanPhase::CloseDir => {
                if self.frames.len() > 0 {
                    let ghost before = self.frames@;
                    let _ = self.frames.pop();
                    assert(places(self.frames@) =~= places(before).drop_last());
                    self.leave();
                }
            },
            _ => {},
        }
    }
}

} // verus!
