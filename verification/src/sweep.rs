//! One sweep over a subvolume: stream its inode items with tree searches, pick
//! those that the filter selects, resolve them to paths and emit their rows.
//!
//! [`Sweep`] makes the decisions. Its phase says which system call or write
//! comes next; the caller performs it and hands the outcome to the method that
//! answers the phase. An answer to any other phase is ignored.

use vstd::prelude::*;
use vstd::slice::slice_to_vec;

use crate::btrfs::{
    ino_paths, scan_flags, BatchEnd, InoPaths, InodeFlags, FSPATH_BUF_BYTES, SEARCH_ARGS_BYTES,
};
use crate::bytes::ByteOrder;
use crate::errors::{invalid_data, Error, EINVAL, ENOENT};
use crate::flags::{btrfs_to_fs, BTRFS_FIRST_FREE_OBJECTID};
use crate::format::write_line;
use crate::paths::prefixed;

verus! {

/// What a sweep filters on and how it prints.
#[derive(Clone, Copy, PartialEq, Eq, Debug, Structural)]
pub struct SweepOpts {
    pub has_mask: u32,
    pub long: bool,
    pub paths_only: bool,
}

/// What a sweep waits for.
#[derive(Clone, Copy, PartialEq, Eq, Debug, Structural)]
pub enum SweepPhase {
    /// Open the subvolume root as a directory and `fstat` it.
    Open,
    /// Search the tree with [`Sweep::search_request`].
    Search,
    /// Look up the paths of [`Sweep::inum`] with a buffer of [`Sweep::size`]
    /// bytes.
    Resolve,
    /// Write [`Sweep::row`].
    Emit,
    /// Nothing: the sweep is complete.
    Finished,
    /// Nothing: the sweep failed.
    Failed(Error),
}

/// The answers that a sweep can get.
pub enum SweepEvent {
    Opened(u64, u64),
    Searched(Seq<u8>),
    Resolved(Seq<u8>),
    Written,
    Failed(Error),
}

/// A sweep, as the contracts see it. `items` are the selected inodes of the
/// last search that are yet to be resolved, `rows` those of the last lookup
/// that are yet to be written.
pub struct SweepState {
    pub opts: SweepOpts,
    pub order: ByteOrder,
    pub prefix: Seq<u8>,
    pub dev: u64,
    pub cursor: u64,
    pub items: Seq<InodeFlags>,
    pub end: BatchEnd,
    pub inum: u64,
    pub flags: u32,
    pub size: int,
    pub rows: Seq<Seq<u8>>,
    pub emitted: bool,
    pub phase: SweepPhase,
}

/// The filter selects the inode `item`. The subvolume root is never selected:
/// the parent directory lists it.
pub open spec fn selected(mask: u32, item: InodeFlags) -> bool {
    crate::flags::has_all(crate::flags::fs_of_btrfs(item.flags), mask) && item.objectid
        != BTRFS_FIRST_FREE_OBJECTID
}

/// The inodes among `items` that the filter selects, in order.
pub open spec fn selection(mask: u32, items: Seq<InodeFlags>) -> Seq<InodeFlags> {
    items.filter(|item: InodeFlags| selected(mask, item))
}

/// The row of an inode with attributes `flags` under its relative path `rel`.
pub open spec fn row_of(opts: SweepOpts, prefix: Seq<u8>, flags: u32, rel: Seq<u8>) -> Seq<u8> {
    crate::format::line(
        flags,
        crate::paths::under_prefix(prefix, rel),
        opts.long,
        opts.paths_only,
        None,
        None,
    )
}

/// The paths under which an inode is listed: all of them, but only the first
/// where rows are bare paths; an empty path is none.
pub open spec fn listed_paths(opts: SweepOpts, paths: Seq<Seq<u8>>) -> Seq<Seq<u8>> {
    (if opts.paths_only && paths.len() > 1 {
        paths.take(1)
    } else {
        paths
    }).filter(|rel: Seq<u8>| rel.len() > 0)
}

/// The rows of an inode with attributes `flags` and the paths `paths`.
pub open spec fn rows_of(
    opts: SweepOpts,
    prefix: Seq<u8>,
    flags: u32,
    paths: Seq<Seq<u8>>,
) -> Seq<Seq<u8>> {
    listed_paths(opts, paths).map_values(|rel: Seq<u8>| row_of(opts, prefix, flags, rel))
}

impl SweepState {
    /// A sweep before its first step.
    pub open spec fn start(
        prefix: Seq<u8>,
        dev: u64,
        opts: SweepOpts,
        order: ByteOrder,
    ) -> SweepState {
        SweepState {
            opts,
            order,
            prefix,
            dev,
            cursor: 0,
            items: seq![],
            end: BatchEnd::Last,
            inum: 0,
            flags: 0,
            size: FSPATH_BUF_BYTES as int,
            rows: seq![],
            emitted: false,
            phase: SweepPhase::Open,
        }
    }

    /// The same sweep in another phase.
    pub open spec fn goto(self, phase: SweepPhase) -> SweepState {
        SweepState { phase, ..self }
    }

    /// On to the next selected inode, or past the end of the search reply.
    pub open spec fn next_item(self) -> SweepState {
        if self.items.len() > 0 {
            SweepState {
                items: self.items.drop_first(),
                inum: self.items[0].objectid,
                flags: crate::flags::fs_of_btrfs(self.items[0].flags),
                size: FSPATH_BUF_BYTES as int,
                ..self.goto(SweepPhase::Resolve)
            }
        } else {
            match self.end {
                BatchEnd::Next(objectid) => SweepState {
                    cursor: objectid,
                    ..self.goto(SweepPhase::Search)
                },
                BatchEnd::Last => self.goto(SweepPhase::Finished),
                BatchEnd::Malformed(cause) => self.goto(SweepPhase::Failed(Error::Data(cause))),
            }
        }
    }

    /// On to the next row of the inode in hand, or to the next inode.
    pub open spec fn next_row(self) -> SweepState {
        if self.rows.len() > 0 {
            self.goto(SweepPhase::Emit)
        } else {
            self.next_item()
        }
    }

    /// The sweep after the answer `event`.
    pub open spec fn step(self, event: SweepEvent) -> SweepState {
        match (self.phase, event) {
            (SweepPhase::Open, SweepEvent::Opened(ino, dev)) => if ino == BTRFS_FIRST_FREE_OBJECTID
                && dev == self.dev {
                self.goto(SweepPhase::Search)
            } else {
                self.goto(SweepPhase::Failed(Error::Os(EINVAL)))
            },
            (SweepPhase::Search, SweepEvent::Searched(buf)) => {
                let (items, end) = crate::btrfs::batch_of(self.order, buf, self.cursor);
                SweepState { items: selection(self.opts.has_mask, items), end, ..self }.next_item()
            },
            (SweepPhase::Resolve, SweepEvent::Resolved(buf)) => match crate::btrfs::lookup(
                self.order,
                buf,
                self.size,
            ) {
                crate::btrfs::Lookup::Paths(paths) => SweepState {
                    rows: rows_of(self.opts, self.prefix, self.flags, paths),
                    ..self
                }.next_row(),
                crate::btrfs::Lookup::Retry(size) => SweepState { size, ..self },
                crate::btrfs::Lookup::Malformed(cause) => self.goto(
                    SweepPhase::Failed(Error::Data(cause)),
                ),
            },
            (SweepPhase::Emit, SweepEvent::Written) => if self.rows.len() == 0 {
                self
            } else {
                SweepState { rows: self.rows.drop_first(), emitted: true, ..self }.next_row()
            },
            (SweepPhase::Open, SweepEvent::Failed(e)) => self.goto(SweepPhase::Failed(e)),
            (SweepPhase::Search, SweepEvent::Failed(e)) => self.goto(SweepPhase::Failed(e)),
            (SweepPhase::Resolve, SweepEvent::Failed(e)) => if e == Error::Os(ENOENT) {
                self.next_item()
            } else {
                self.goto(SweepPhase::Failed(e))
            },
            (SweepPhase::Emit, SweepEvent::Failed(e)) => self.goto(SweepPhase::Failed(e)),
            _ => self,
        }
    }
}

/// The contents of a list of byte vectors.
pub open spec fn contents(v: Seq<Vec<u8>>) -> Seq<Seq<u8>> {
    Seq::new(v.len(), |i: int| v[i]@)
}

/// Whether the filter selects the inode `item`.
fn selects(mask: u32, item: InodeFlags) -> (r: bool)
    ensures
        r == selected(mask, item),
{
    btrfs_to_fs(item.flags) & mask == mask && item.objectid != BTRFS_FIRST_FREE_OBJECTID
}

/// The inodes among `items` that the filter selects, in order.
fn select(mask: u32, items: &Vec<InodeFlags>) -> (chosen: Vec<InodeFlags>)
    ensures
        chosen@ == selection(mask, items@),
{
    let mut chosen: Vec<InodeFlags> = Vec::new();
    let mut i: usize = 0;
    proof {
        reveal(Seq::filter);
        assert(chosen@ =~= selection(mask, items@.take(0)));
    }
    while i < items.len()
        invariant
            i <= items@.len(),
            chosen@ == selection(mask, items@.take(i as int)),
        decreases items@.len() - i,
    {
        proof {
            reveal(Seq::filter);
            assert(items@.take(i + 1).drop_last() =~= items@.take(i as int));
        }
        if selects(mask, items[i]) {
            chosen.push(items[i]);
        }
        i += 1;
    }
    assert(items@.take(items@.len() as int) =~= items@);
    chosen
}

/// The rows of an inode with attributes `flags` and the paths `paths`.
fn make_rows(opts: SweepOpts, prefix: &[u8], flags: u32, paths: &Vec<&[u8]>) -> (rows: Vec<Vec<u8>>)
    ensures
        contents(rows@) == rows_of(opts, prefix@, flags, crate::btrfs::slices(paths@)),
{
    let take: usize = if opts.paths_only && paths.len() > 1 {
        1
    } else {
        paths.len()
    };
    let ghost all = crate::btrfs::slices(paths@);
    let ghost nonempty = |rel: Seq<u8>| rel.len() > 0;
    let ghost render = |rel: Seq<u8>| row_of(opts, prefix@, flags, rel);
    let mut rows: Vec<Vec<u8>> = Vec::new();
    let mut i: usize = 0;
    proof {
        reveal(Seq::filter);
        assert(contents(rows@) =~= all.take(0).filter(nonempty).map_values(render));
    }
    while i < take
        invariant
            i <= take <= paths@.len(),
            all == crate::btrfs::slices(paths@),
            nonempty == (|rel: Seq<u8>| rel.len() > 0),
            render == (|rel: Seq<u8>| row_of(opts, prefix@, flags, rel)),
            contents(rows@) == all.take(i as int).filter(nonempty).map_values(render),
        decreases take - i,
    {
        let rel = paths[i];
        let ghost before = rows@;
        proof {
            reveal(Seq::filter);
            assert(all.take(i + 1).drop_last() =~= all.take(i as int));
            assert(all.take(i + 1).last() == rel@);
        }
        if rel.len() > 0 {
            let path = prefixed(prefix, rel);
            let mut row: Vec<u8> = Vec::new();
            write_line(&mut row, flags, path.as_slice(), opts.long, opts.paths_only, None, None);
            assert(row@ =~= row_of(opts, prefix@, flags, rel@));
            rows.push(row);
            assert(contents(rows@) =~= contents(before).push(row@));
            assert(all.take(i + 1).filter(nonempty).map_values(render) =~= all.take(
                i as int,
            ).filter(nonempty).map_values(render).push(row@));
        }
        i += 1;
    }
    assert(all.take(all.len() as int) =~= all);
    rows
}

/// A sweep over one subvolume.
pub struct Sweep {
    opts: SweepOpts,
    order: ByteOrder,
    prefix: Vec<u8>,
    dev: u64,
    cursor: u64,
    items: Vec<InodeFlags>,
    next: usize,
    end: BatchEnd,
    inum: u64,
    flags: u32,
    size: usize,
    rows: Vec<Vec<u8>>,
    written: usize,
    emitted: bool,
    phase: SweepPhase,
}

impl View for Sweep {
    type V = SweepState;

    closed spec fn view(&self) -> SweepState {
        SweepState {
            opts: self.opts,
            order: self.order,
            prefix: self.prefix@,
            dev: self.dev,
            cursor: self.cursor,
            items: self.items@.skip(self.next as int),
            end: self.end,
            inum: self.inum,
            flags: self.flags,
            size: self.size as int,
            rows: contents(self.rows@).skip(self.written as int),
            emitted: self.emitted,
            phase: self.phase,
        }
    }
}

impl Sweep {
    /// The positions in the two queues are within them.
    pub closed spec fn wf(&self) -> bool {
        self.next <= self.items@.len() && self.written <= self.rows@.len()
    }

    /// A sweep of the subvolume with device number `dev`, whose rows are
    /// printed under `prefix`.
    pub fn new(prefix: &[u8], dev: u64, opts: SweepOpts, order: ByteOrder) -> (sweep: Sweep)
        ensures
            sweep.wf(),
            sweep@ == SweepState::start(prefix@, dev, opts, order),
    {
        let sweep = Sweep {
            opts,
            order,
            prefix: slice_to_vec(prefix),
            dev,
            cursor: 0,
            items: Vec::new(),
            next: 0,
            end: BatchEnd::Last,
            inum: 0,
            flags: 0,
            size: FSPATH_BUF_BYTES,
            rows: Vec::new(),
            written: 0,
            emitted: false,
            phase: SweepPhase::Open,
        };
        assert(sweep@.items =~= seq![]);
        assert(sweep@.rows =~= seq![]);
        sweep
    }

    /// What the sweep waits for.
    pub fn phase(&self) -> (phase: SweepPhase)
        ensures
            phase == self@.phase,
    {
        self.phase
    }

    /// Whether any row has been written.
    pub fn emitted(&self) -> (emitted: bool)
        ensures
            emitted == self@.emitted,
    {
        self.emitted
    }

    /// The argument buffer of the pending search.
    pub fn search_request(&self) -> (buf: Vec<u8>)
        ensures
            buf@ == crate::btrfs::search_request(self@.order, self@.cursor),
            buf@.len() == SEARCH_ARGS_BYTES + crate::btrfs::SEARCH_BUF_BYTES,
    {
        crate::btrfs::search_args(self.cursor, self.order)
    }

    /// The inode to look up.
    pub fn inum(&self) -> (inum: u64)
        ensures
            inum == self@.inum,
    {
        self.inum
    }

    /// The size of the path buffer of the pending lookup.
    pub fn size(&self) -> (size: usize)
        ensures
            size == self@.size,
    {
        self.size
    }

    /// The row to write, if there is one.
    pub fn row(&self) -> (row: Option<&[u8]>)
        requires
            self.wf(),
        ensures
            row is Some <==> self@.rows.len() > 0,
            row matches Some(r) ==> r@ == self@.rows[0],
    {
        if self.written < self.rows.len() {
            Some(self.rows[self.written].as_slice())
        } else {
            None
        }
    }

    /// On to the next selected inode, or past the end of the search reply.
    fn next_item(&mut self)
        requires
            old(self).wf(),
        ensures
            final(self).wf(),
            final(self)@ == old(self)@.next_item(),
    {
        if self.next < self.items.len() {
            let item = self.items[self.next];
            self.next += 1;
            self.inum = item.objectid;
            self.flags = btrfs_to_fs(item.flags);
            self.size = FSPATH_BUF_BYTES;
            self.phase = SweepPhase::Resolve;
            assert(self@.items =~= old(self)@.items.drop_first());
        } else {
            match self.end {
                BatchEnd::Next(objectid) => {
                    self.cursor = objectid;
                    self.phase = SweepPhase::Search;
                },
                BatchEnd::Last => {
                    self.phase = SweepPhase::Finished;
                },
                BatchEnd::Malformed(cause) => {
                    self.phase = SweepPhase::Failed(invalid_data(cause));
                },
            }
        }
    }

    /// On to the next row of the inode in hand, or to the next inode.
    fn next_row(&mut self)
        requires
            old(self).wf(),
        ensures
            final(self).wf(),
            final(self)@ == old(self)@.next_row(),
    {
        if self.written < self.rows.len() {
            self.phase = SweepPhase::Emit;
        } else {
            self.next_item();
        }
    }

    /// The opened directory has inode number `ino` and device number `dev`.
    /// Only the subvolume root that the caller picked may be searched.
    pub fn on_opened(&mut self, ino: u64, dev: u64)
        requires
            old(self).wf(),
        ensures
            final(self).wf(),
            final(self)@ == old(self)@.step(SweepEvent::Opened(ino, dev)),
    {
        if let SweepPhase::Open = self.phase {
            self.phase = if ino == BTRFS_FIRST_FREE_OBJECTID && dev == self.dev {
                SweepPhase::Search
            } else {
                SweepPhase::Failed(Error::Os(EINVAL))
            };
        }
    }

    /// The argument buffer as the search left it.
    pub fn on_searched(&mut self, buf: &[u8])
        requires
            old(self).wf(),
            buf@.len() >= SEARCH_ARGS_BYTES,
        ensures
            final(self).wf(),
            final(self)@ == old(self)@.step(SweepEvent::Searched(buf@)),
    {
        if let SweepPhase::Search = self.phase {
            let batch = scan_flags(buf, self.cursor, self.order);
            self.items = select(self.opts.has_mask, &batch.items);
            self.next = 0;
            self.end = batch.end;
            assert(self@.items =~= self.items@);
            self.next_item();
        }
    }

    /// The path buffer as the lookup left it.
    pub fn on_resolved(&mut self, buf: &[u8])
        requires
            old(self).wf(),
        ensures
            final(self).wf(),
            final(self)@ == old(self)@.step(SweepEvent::Resolved(buf@)),
    {
        if let SweepPhase::Resolve = self.phase {
            match ino_paths(buf, self.size, self.order) {
                Ok(InoPaths::Paths(paths)) => {
                    self.rows = make_rows(self.opts, self.prefix.as_slice(), self.flags, &paths);
                    self.written = 0;
                    assert(self@.rows =~= contents(self.rows@));
                    self.next_row();
                },
                Ok(InoPaths::Retry(size)) => {
                    self.size = size;
                },
                Err(cause) => {
                    self.phase = SweepPhase::Failed(invalid_data(cause));
                },
            }
        }
    }

    /// The row was written.
    pub fn on_written(&mut self)
        requires
            old(self).wf(),
        ensures
            final(self).wf(),
            final(self)@ == old(self)@.step(SweepEvent::Written),
    {
        if let SweepPhase::Emit = self.phase {
            if self.written < self.rows.len() {
                self.written += 1;
                self.emitted = true;
                assert(self@.rows =~= old(self)@.rows.drop_first());
                self.next_row();
            }
        }
    }

    /// The pending call or write failed. An inode without paths left is passed
    /// over; any other failure ends the sweep.
    pub fn on_failed(&mut self, e: Error)
        requires
            old(self).wf(),
        ensures
            final(self).wf(),
            final(self)@ == old(self)@.step(SweepEvent::Failed(e)),
    {
        match self.phase {
            SweepPhase::Open | SweepPhase::Search | SweepPhase::Emit => {
                self.phase = SweepPhase::Failed(e);
            },
            SweepPhase::Resolve => {
                let gone = match e {
                    Error::Os(n) => n == ENOENT,
                    _ => false,
                };
                if gone {
                    self.next_item();
                } else {
                    self.phase = SweepPhase::Failed(e);
                }
            },
            _ => {},
        }
    }
}

} // verus!
