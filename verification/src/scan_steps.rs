//! What a [`Scanner`](crate::scan::Scanner) does with each answer, in terms of
//! the numbers and bytes that the system hands it.

use vstd::prelude::*;

use crate::errors::Error;
use crate::list::Listing;
use crate::scan::{Place, ScanEvent, ScanPhase, ScanState, Stat};
use crate::walk::Opts;

verus! {

/// `name` below the directory `dir`: one slash between them.
pub open spec fn below(dir: Seq<u8>, name: Seq<u8>) -> Seq<u8> {
    if dir.len() > 0 && dir[dir.len() - 1] == 0x2f {
        dir + name
    } else {
        dir + seq![0x2fu8] + name
    }
}

/// The name is `.` or `..`.
pub open spec fn is_self_or_parent(name: Seq<u8>) -> bool {
    1 <= name.len() <= 2 && forall|i: int| 0 <= i < name.len() ==> #[trigger] name[i] == 0x2e
}

/// The path holds a zero byte, so that no system call takes it.
pub open spec fn unusable(path: Seq<u8>) -> bool {
    exists|i: int| 0 <= i < path.len() && #[trigger] path[i] == 0
}

/// `t` is the scan `s` with nothing in hand, about to read the next entry, or to
/// close the directory if nobody reads the output any more.
pub open spec fn goes_on(s: ScanState, t: ScanState) -> bool {
    t == (ScanState {
        phase: if s.pipe_broken {
            ScanPhase::CloseDir
        } else {
            ScanPhase::ReadDir
        },
        hand: t.hand,
        ids: None,
        ..s
    })
}

/// `t` is the scan `s` back in the directory around, or complete if there is
/// none.
pub open spec fn goes_back(s: ScanState, t: ScanState) -> bool {
    if s.frames.len() == 0 {
        t == (ScanState { phase: ScanPhase::Finished, hand: t.hand, ids: None, ..s })
    } else {
        goes_on(s, t)
    }
}

/// A scan starts with the sweep of the subvolume that the argument names. It
/// opens the path as it was typed, prints below it without its trailing
/// slashes, and finds what it holds below it with one trailing slash at most.
/// That subvolume is the only one that it has met.
pub proof fn law_scan_starts(opts: Opts, path: Seq<u8>, dev: u64, other: u64)
    ensures
        ({
            let s = ScanState::start(opts, path, dev);
            let printed = s.hand.prefix;
            &&& s.opts == opts
            &&& s.phase is Sweep
            &&& s.frames.len() == 0
            &&& s.hand.dir == path
            &&& s.hand.dev == dev
            &&& s.hand.rel.len() == 0
            &&& printed.len() <= path.len()
            &&& printed == path.take(printed.len() as int)
            &&& printed.len() == 0 || printed[printed.len() - 1] != 0x2f
            &&& forall|i: int| printed.len() <= i < path.len() ==> #[trigger] path[i] == 0x2f
            &&& printed.len() == path.len() ==> s.hand.base == path
            &&& printed.len() < path.len() ==> s.hand.base == printed + seq![0x2fu8]
            &&& s.ids is None
            &&& s.subvols.contains(other) <==> other == dev
            &&& s.dirs == Set::<(u64, u64)>::empty()
            &&& !s.emitted && !s.had_err && !s.pipe_broken
        }),
        crate::scan::sweep_opts(opts).has_mask == opts.has_mask,
        crate::scan::sweep_opts(opts).long == opts.long,
        crate::scan::sweep_opts(opts).paths_only == opts.paths_only,
{
    crate::paths::law_trimmed_bytes(path);
    assert(crate::paths::trimmed(path).push(0x2f) =~= crate::paths::trimmed(path) + seq![0x2fu8]);
}

/// Every entry but `.` and `..` that is a directory (4) or of unknown type (0)
/// is examined; every other entry is passed over, and so is one whose path no
/// system call takes. An entry is found below its directory, and its place in
/// the subvolume is below that of its directory.
pub proof fn law_entries_that_are_examined(s: ScanState, name: Seq<u8>, kind: u8)
    requires
        s.phase is ReadDir,
        s.frames.len() > 0,
    ensures
        ({
            let t = s.step(ScanEvent::Entry(name, kind));
            let top = s.frames.last();
            let path = below(
                if top.rel.len() == 0 {
                    top.base
                } else {
                    top.dir
                },
                name,
            );
            if is_self_or_parent(name) || (kind != 0 && kind != 4) || unusable(path) {
                t == s
            } else {
                t == (ScanState {
                    phase: ScanPhase::StatEntry,
                    hand: Place {
                        base: top.base,
                        prefix: top.prefix,
                        dev: top.dev,
                        rel: if top.rel.len() == 0 {
                            name
                        } else {
                            top.rel + seq![0x2fu8] + name
                        },
                        dir: path,
                    },
                    ..s
                })
            }
        }),
{
    let top = s.frames.last();
    let dir = if top.rel.len() == 0 {
        top.base
    } else {
        top.dir
    };
    let t = s.step(ScanEvent::Entry(name, kind));
    crate::paths::law_names_by_bytes(name);
    assert(crate::paths::joined(dir, name) =~= below(dir, name));
    crate::paths::law_names_by_bytes(below(dir, name));
    assert(top.rel.len() > 0 ==> crate::paths::descended(top.rel, name) =~= top.rel + seq![0x2fu8]
        + name);
    assert(top.rel.len() == 0 ==> crate::paths::descended(top.rel, name) =~= name);
}

/// What becomes of an entry depends on the type bits of its mode, its inode
/// number and its device number, and on nothing else. What is no directory is
/// passed over. A directory with the inode number 256 on another device is the
/// root of a nested subvolume, whatever its permissions: it is listed next, as
/// a subvolume of its own with that device number, printed below its place in
/// the subvolume around. Every other directory is opened next.
pub proof fn law_examined_entries(s: ScanState, st: Stat)
    requires
        s.phase is StatEntry,
    ensures
        goes_on(s, s.step(ScanEvent::Stated(None))),
        ({
            let t = s.step(ScanEvent::Stated(Some(st)));
            let is_directory = st.mode & 0o170000 == 0o040000;
            let dir = if s.hand.rel.len() == 0 {
                s.hand.base
            } else {
                below(s.hand.base, s.hand.rel)
            };
            &&& !is_directory ==> goes_on(s, t)
            &&& is_directory && st.ino == 256 && st.dev != s.hand.dev ==> t == (ScanState {
                phase: ScanPhase::ListEntry,
                hand: Place {
                    base: s.hand.dir,
                    prefix: s.hand.prefix + seq![0x2fu8] + s.hand.rel,
                    dev: st.dev,
                    rel: seq![],
                    dir: s.hand.dir,
                },
                ..s
            })
            &&& is_directory && (st.ino != 256 || st.dev == s.hand.dev) ==> t == (ScanState {
                phase: if unusable(dir) {
                    ScanPhase::WarnInvalid
                } else {
                    ScanPhase::OpenDir
                },
                hand: Place { dir, ..s.hand },
                ids: Some((st.dev, st.ino)),
                had_err: s.had_err || unusable(dir),
                ..s
            })
        }),
{
    let dir = if s.hand.rel.len() == 0 {
        s.hand.base
    } else {
        below(s.hand.base, s.hand.rel)
    };
    let prefix = s.hand.prefix + seq![0x2fu8] + s.hand.rel;
    crate::paths::law_names_by_bytes(dir);
    assert(crate::paths::composed(s.hand.dir, seq![]) =~= s.hand.dir);
    assert(crate::paths::composed(s.hand.base, s.hand.rel) =~= dir);
    assert(crate::paths::under_prefix(s.hand.prefix, s.hand.rel) =~= prefix);
}

/// The same for modes made of a type and permissions: every directory with the
/// inode number 256 on a device that the scan has not met is listed and then
/// swept with that device number, whatever the permission bits are.
pub proof fn law_every_nested_subvolume_is_swept(
    s: ScanState,
    permissions: u32,
    dev: u64,
    listing: Listing,
)
    requires
        s.phase is StatEntry,
        permissions & 0o170000 == 0,
        dev != s.hand.dev,
    ensures
        ({
            let st = Stat { mode: 0o040000 | permissions, ino: 256, dev };
            let listed = s.step(ScanEvent::Stated(Some(st)));
            let t = listed.step(ScanEvent::Listed(listing));
            &&& listed.phase is ListEntry
            &&& listed.hand.dir == s.hand.dir
            &&& listing is PipeClosed ==> goes_on(ScanState { pipe_broken: true, ..s }, t)
            &&& !(listing is PipeClosed) && s.subvols.contains(dev) ==> goes_on(s, t)
            &&& !(listing is PipeClosed) && !s.subvols.contains(dev) ==> t == (ScanState {
                phase: ScanPhase::Sweep,
                subvols: s.subvols.insert(dev),
                ..listed
            }) && t.hand.dir == s.hand.dir && t.hand.dev == dev
        }),
{
    let st = Stat { mode: 0o040000 | permissions, ino: 256, dev };
    assert((0o040000 | permissions) & 0o170000 == 0o040000) by (bit_vector)
        requires
            permissions & 0o170000 == 0,
    ;
    law_examined_entries(s, st);
}

/// After a sweep its subvolume is looked through. If the sweep of the outermost
/// subvolume fails, so does the scan. If that of a nested one fails, the scan
/// stops where nobody reads the output any more, and otherwise warns, takes it
/// as an error and walks the subvolume.
pub proof fn law_after_a_sweep(s: ScanState, emitted: bool, e: Error, had_err: bool, closed: bool)
    requires
        s.phase is Sweep,
    ensures
        s.step(ScanEvent::Swept(emitted)) == (ScanState {
            phase: if unusable(s.hand.dir) {
                ScanPhase::WarnInvalid
            } else {
                ScanPhase::OpenDir
            },
            emitted: s.emitted || emitted,
            had_err: s.had_err || unusable(s.hand.dir),
            ..s
        }),
        ({
            let t = s.step(ScanEvent::SweepFailed(e, emitted));
            let seen = ScanState { emitted: s.emitted || emitted, ..s };
            if s.frames.len() == 0 {
                t == (ScanState { phase: ScanPhase::Failed(e), ..seen })
            } else if e is BrokenPipe {
                goes_on(ScanState { pipe_broken: true, ..seen }, t)
            } else {
                let walk = t.step(ScanEvent::Done);
                &&& t == (ScanState { phase: ScanPhase::WarnFallback(e), had_err: true, ..seen })
                &&& walk == (ScanState { phase: ScanPhase::Walk, ..t })
                &&& goes_on(
                    ScanState { had_err: true, pipe_broken: s.pipe_broken || closed, ..seen },
                    walk.step(ScanEvent::Walked(had_err, closed)),
                )
            }
        }),
{
    crate::paths::law_names_by_bytes(s.hand.dir);
}

/// A directory that cannot be opened is an error and is reported with its
/// errno. One that can be is read, once: the second time that its numbers come
/// up it is closed at once. A root's numbers are asked for first; without them
/// it is read all the same.
pub proof fn law_opened_directories(s: ScanState, e: i32, ids: (u64, u64))
    requires
        s.phase is OpenDir,
    ensures
        ({
            let t = s.step(ScanEvent::Opened(Err(e)));
            &&& t == (ScanState { phase: ScanPhase::ReportOpen(e), had_err: true, ..s })
            &&& goes_back(ScanState { had_err: true, ..s }, t.step(ScanEvent::Done))
        }),
        ({
            let t = s.step(ScanEvent::Opened(Ok(())));
            let u = if s.ids is None {
                t.step(ScanEvent::Ids(Some(ids)))
            } else {
                t
            };
            let known = if s.ids is None {
                ids
            } else {
                s.ids->0
            };
            let within = ScanState { frames: s.frames.push(s.hand), ..s };
            &&& s.ids is None ==> t == (ScanState { phase: ScanPhase::StatRoot, ..within })
            &&& s.ids is None ==> goes_on(within, t.step(ScanEvent::Ids(None)))
            &&& s.dirs.contains(known) ==> u == (ScanState {
                phase: ScanPhase::CloseDir,
                hand: u.hand,
                ids: None,
                ..within
            })
            &&& !s.dirs.contains(known) ==> goes_on(
                ScanState { dirs: s.dirs.insert(known), ..within },
                u,
            )
        }),
{
}

/// A directory that was read to its end is closed; if reading failed, that is
/// an error, which is reported with its errno first. Then the scan is back in
/// the directory around, or complete.
pub proof fn law_read_directories(s: ScanState, e: i32)
    ensures
        s.phase is ReadDir && e == 0 ==> s.step(ScanEvent::End(e)) == (ScanState {
            phase: ScanPhase::CloseDir,
            ..s
        }),
        s.phase is ReadDir && e != 0 ==> s.step(ScanEvent::End(e)) == (ScanState {
            phase: ScanPhase::ReportRead(e),
            had_err: true,
            ..s
        }),
        s.phase is ReportRead ==> s.step(ScanEvent::Done) == (ScanState {
            phase: ScanPhase::CloseDir,
            ..s
        }),
        s.phase is WarnInvalid ==> goes_back(s, s.step(ScanEvent::Done)),
        s.phase is CloseDir && s.frames.len() > 0 ==> goes_back(
            ScanState { frames: s.frames.drop_last(), ..s },
            s.step(ScanEvent::Done),
        ),
{
}

/// A scan takes no answer to a question that it has not asked.
pub proof fn law_unasked_answers_change_nothing(s: ScanState, event: ScanEvent)
    requires
        match event {
            ScanEvent::Swept(_) => !(s.phase is Sweep),
            ScanEvent::SweepFailed(_, _) => !(s.phase is Sweep),
            ScanEvent::Opened(_) => !(s.phase is OpenDir),
            ScanEvent::Ids(_) => !(s.phase is StatRoot),
            ScanEvent::Entry(_, _) => !(s.phase is ReadDir),
            ScanEvent::End(_) => !(s.phase is ReadDir),
            ScanEvent::Stated(_) => !(s.phase is StatEntry),
            ScanEvent::Listed(_) => !(s.phase is ListEntry),
            ScanEvent::Walked(_, _) => !(s.phase is Walk),
            ScanEvent::Done => s.phase is Sweep || s.phase is OpenDir || s.phase is StatRoot
                || s.phase is ReadDir || s.phase is StatEntry || s.phase is ListEntry
                || s.phase is Walk || s.phase is Finished || s.phase is Failed,
        },
    ensures
        s.step(event) == s,
{
}

/// The scan of an argument is chosen by what `lstat` says of it: it must be a
/// directory, with any permissions, and have the inode number 256.
pub proof fn law_roots_by_numbers(st: Stat)
    ensures
        crate::scan::root_dev(None) is None,
        crate::scan::root_dev(Some(st)) == if st.mode & 0o170000 == 0o040000 && st.ino == 256 {
            Some(st.dev)
        } else {
            None
        },
{
}

} // verus!
