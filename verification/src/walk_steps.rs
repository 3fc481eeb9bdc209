//! What a [`Walker`](crate::walk::Walker) does with each answer, in terms of the
//! switches, numbers and bytes that it is handed.

use vstd::prelude::*;

use crate::errors::WriteResult;
use crate::list::Listing;
use crate::walk::{Opts, WalkEvent, WalkPhase, WalkState};

verus! {

/// The walk `s` in the phase `phase`, with nothing in hand.
pub open spec fn emptied(s: WalkState, phase: WalkPhase) -> WalkState {
    WalkState { phase, path: seq![], hidden: false, dots: false, descend: false, ..s }
}

/// The walk `s` about to read the next entry, or to close the directory if
/// nobody reads the output any more.
pub open spec fn at_next_entry(s: WalkState) -> WalkState {
    emptied(
        s,
        if s.pipe_broken {
            WalkPhase::CloseDir
        } else {
            WalkPhase::ReadDir
        },
    )
}

/// The walk `s` after a subdirectory: the end of its section is written unless
/// rows are bare paths or filtered.
pub open spec fn past_subdirectory(s: WalkState) -> WalkState {
    if s.opts.paths_only || s.opts.has_mask != 0 {
        at_next_entry(s)
    } else {
        emptied(s, WalkPhase::Trailer)
    }
}

/// The walk `s` at a subdirectory: it is opened, unless nobody reads the output
/// any more.
pub open spec fn at_subdirectory(s: WalkState) -> WalkState {
    if s.pipe_broken {
        past_subdirectory(s)
    } else {
        WalkState { phase: WalkPhase::OpenDir, ..s }
    }
}

/// A walk starts with nothing open, nothing failed and the options it is given.
pub proof fn law_walk_starts(opts: Opts)
    ensures
        ({
            let s = WalkState::start(opts);
            &&& s.opts == opts
            &&& s.phase is Idle
            &&& s.frames.len() == 0
            &&& !s.had_err && !s.pipe_broken
        }),
{
}

/// An argument is examined as it was typed, unless it holds a zero byte: that is
/// an error, reported as invalid (22). Once the pipe is closed no argument is
/// taken up.
pub proof fn law_taken_arguments(s: WalkState, path: Seq<u8>)
    requires
        s.phase is Idle,
    ensures
        s.step(WalkEvent::Arg(path)) == if s.pipe_broken {
            s
        } else if crate::scan_steps::unusable(path) {
            WalkState { phase: WalkPhase::ReportArg(22), path, had_err: true, ..s }
        } else {
            WalkState { phase: WalkPhase::StatArg, path, ..s }
        },
{
    crate::paths::law_names_by_bytes(path);
}

/// An argument that is a directory, with any permissions, is opened unless `-d`
/// is given; any other is listed. One that cannot be examined is an error and
/// is reported with its errno. A listing that reported something is an error,
/// one whose pipe closed is not.
pub proof fn law_examined_arguments(s: WalkState, mode: u32, e: i32, listing: Listing)
    ensures
        s.phase is StatArg ==> ({
            let t = s.step(WalkEvent::Mode(Err(e)));
            &&& s.step(WalkEvent::Mode(Ok(mode))) == (WalkState {
                phase: if mode & 0o170000 == 0o040000 && !s.opts.dirs_opt {
                    WalkPhase::OpenDir
                } else {
                    WalkPhase::ListArg
                },
                ..s
            })
            &&& t == (WalkState { phase: WalkPhase::ReportArg(e), had_err: true, ..s })
        }),
        s.phase is ReportArg ==> s.step(WalkEvent::Done) == emptied(s, WalkPhase::Idle),
        s.phase is ListArg ==> s.step(WalkEvent::Listed(listing)) == (WalkState {
            had_err: s.had_err || listing == Listing::Reported,
            pipe_broken: s.pipe_broken || listing == Listing::PipeClosed,
            ..emptied(s, WalkPhase::Idle)
        }),
{
}

/// A directory that opens is read. One that does not is an error if it is an
/// argument, and is passed over in silence if it is not.
pub proof fn law_opened_directories(s: WalkState)
    requires
        s.phase is OpenDir,
    ensures
        s.step(WalkEvent::Opened(true)) == (WalkState {
            frames: s.frames.push(s.path),
            ..at_next_entry(s)
        }),
        s.step(WalkEvent::Opened(false)) == if s.frames.len() == 0 {
            WalkState { had_err: true, ..emptied(s, WalkPhase::Idle) }
        } else {
            past_subdirectory(s)
        },
{
}

/// Every entry is examined, below the path of its directory, unless that holds
/// a zero byte. What its name says is noted: whether it starts with a dot, and
/// whether it is `.` or `..`.
pub proof fn law_read_entries(s: WalkState, name: Seq<u8>)
    requires
        s.phase is ReadDir,
        s.frames.len() > 0,
        s.frames.len() > 1 || s.opts.has_mask == 0,
    ensures
        ({
            let path = crate::scan_steps::below(s.frames.last(), name);
            s.step(WalkEvent::Entry(name)) == if crate::scan_steps::unusable(path) {
                at_next_entry(s)
            } else {
                WalkState {
                    phase: WalkPhase::StatEntry,
                    path,
                    hidden: name.len() > 0 && name[0] == 0x2e,
                    dots: crate::scan_steps::is_self_or_parent(name),
                    ..s
                }
            }
        }),
{
    let path = crate::scan_steps::below(s.frames.last(), name);
    crate::paths::law_names_by_bytes(name);
    crate::paths::law_names_by_bytes(path);
    assert(crate::paths::joined(s.frames.last(), name) =~= path);
}

/// With a filter, the entries of an argument are listed with one slash after it,
/// however many were typed.
pub proof fn law_read_entries_of_a_filtered_argument(
    s: WalkState,
    name: Seq<u8>,
    stem: Seq<u8>,
    slashes: nat,
)
    requires
        s.phase is ReadDir,
        s.frames.len() == 1,
        s.opts.has_mask != 0,
        stem.len() == 0 || stem[stem.len() - 1] != 0x2f,
        s.frames[0] == stem + Seq::new(slashes, |i: int| 0x2fu8),
    ensures
        ({
            let path = stem + seq![0x2fu8] + name;
            s.step(WalkEvent::Entry(name)) == if crate::scan_steps::unusable(path) {
                at_next_entry(s)
            } else {
                WalkState {
                    phase: WalkPhase::StatEntry,
                    path,
                    hidden: name.len() > 0 && name[0] == 0x2e,
                    dots: crate::scan_steps::is_self_or_parent(name),
                    ..s
                }
            }
        }),
{
    let path = stem + seq![0x2fu8] + name;
    let typed = s.frames[0];
    let kept = crate::paths::trimmed(typed);
    crate::paths::law_names_by_bytes(name);
    crate::paths::law_names_by_bytes(path);
    crate::paths::law_trimmed_bytes(typed);
    assert(kept.len() == stem.len()) by {
        if kept.len() < stem.len() {
            assert(typed[stem.len() - 1] == 0x2f);
        }
        if kept.len() > stem.len() {
            assert(typed[kept.len() - 1] == 0x2f);
        }
    }
    assert(kept =~= stem);
    assert(crate::paths::joined(crate::paths::squeezed(typed), name) =~= path);
}

/// An entry that cannot be examined is reported with its errno and is no error.
/// Of the others, names that start with a dot are passed over without `-a`, and
/// `.` and `..` with a filter. The rest are listed; under `-R` every directory
/// among them but `.` and `..`, with any permissions, is to be gone into.
pub proof fn law_examined_entries(s: WalkState, mode: u32, e: i32)
    ensures
        s.phase is StatEntry ==> ({
            let t = s.step(WalkEvent::Mode(Ok(mode)));
            &&& (s.hidden && !s.opts.all) || (s.dots && s.opts.has_mask != 0) ==> t
                == at_next_entry(s)
            &&& !(s.hidden && !s.opts.all) && !(s.dots && s.opts.has_mask != 0) ==> t == (
            WalkState {
                phase: WalkPhase::ListEntry,
                descend: s.opts.recursive && mode & 0o170000 == 0o040000 && !s.dots,
                ..s
            })
            &&& s.step(WalkEvent::Mode(Err(e))) == (WalkState {
                phase: WalkPhase::ReportEntry(e),
                ..s
            })
        }),
        s.phase is ReportEntry ==> s.step(WalkEvent::Done) == at_next_entry(s),
{
}

/// After its listing, however that ended, a directory to be gone into is opened,
/// after its header where headers are written. Nothing that a listing below an
/// argument reports is an error.
pub proof fn law_listed_entries(s: WalkState, listing: Listing)
    requires
        s.phase is ListEntry,
    ensures
        ({
            let u = WalkState {
                pipe_broken: s.pipe_broken || listing == Listing::PipeClosed,
                ..s
            };
            s.step(WalkEvent::Listed(listing)) == if !s.descend {
                at_next_entry(u)
            } else if s.opts.paths_only || s.opts.has_mask != 0 {
                at_subdirectory(u)
            } else {
                WalkState { phase: WalkPhase::Header, ..u }
            }
        }),
{
}

/// A section is a blank line, the path and a colon, a line break, the rows, and
/// a blank line. A header that cannot be written ends its directory; a section
/// end that cannot be written does not.
pub proof fn law_sections(s: WalkState, path: Seq<u8>, r: WriteResult)
    ensures
        crate::walk::header_bytes(path) == seq![0x0au8] + path + seq![0x3au8, 0x0au8],
        crate::walk::trailer_bytes() == seq![0x0au8],
        s.phase is Header ==> s.step(WalkEvent::Written(r)) == match r {
            WriteResult::Done => at_subdirectory(s),
            WriteResult::BrokenPipe => WalkState {
                pipe_broken: true,
                ..emptied(s, WalkPhase::CloseDir)
            },
            WriteResult::Failed => emptied(s, WalkPhase::CloseDir),
        },
        s.phase is Trailer ==> s.step(WalkEvent::Written(r)) == at_next_entry(
            WalkState { pipe_broken: s.pipe_broken || r == WriteResult::BrokenPipe, ..s },
        ),
{
    assert(crate::walk::header_bytes(path) =~= seq![0x0au8] + path + seq![0x3au8, 0x0au8]);
}

/// A directory that was read to its end is closed, after a report with the errno
/// if reading failed, which is no error. Then the walk is back in the directory
/// around, or idle.
pub proof fn law_read_directories(s: WalkState, e: i32)
    ensures
        s.phase is ReadDir ==> s.step(WalkEvent::End(e)) == (WalkState {
            phase: if e == 0 {
                WalkPhase::CloseDir
            } else {
                WalkPhase::ReportDir(e)
            },
            ..s
        }),
        s.phase is ReportDir ==> s.step(WalkEvent::Done) == (WalkState {
            phase: WalkPhase::CloseDir,
            ..s
        }),
        s.phase is CloseDir && s.frames.len() == 1 ==> s.step(WalkEvent::Done) == (WalkState {
            frames: seq![],
            ..emptied(s, WalkPhase::Idle)
        }),
        s.phase is CloseDir && s.frames.len() > 1 ==> s.step(WalkEvent::Done) == past_subdirectory(
            WalkState { frames: s.frames.take(s.frames.len() - 1), ..s },
        ),
{
    if s.frames.len() > 1 {
        assert(s.frames.drop_last() =~= s.frames.take(s.frames.len() - 1));
    }
}

/// A walk takes no answer to a question that it has not asked.
pub proof fn law_unasked_answers_change_nothing(s: WalkState, event: WalkEvent)
    requires
        match event {
            WalkEvent::Arg(_) => !(s.phase is Idle),
            WalkEvent::Mode(_) => !(s.phase is StatArg) && !(s.phase is StatEntry),
            WalkEvent::Listed(_) => !(s.phase is ListArg) && !(s.phase is ListEntry),
            WalkEvent::Opened(_) => !(s.phase is OpenDir),
            WalkEvent::Entry(_) => !(s.phase is ReadDir),
            WalkEvent::End(_) => !(s.phase is ReadDir),
            WalkEvent::Written(_) => !(s.phase is Header) && !(s.phase is Trailer),
            WalkEvent::Done => !(s.phase is ReportArg) && !(s.phase is ReportDir) && !(
            s.phase is ReportEntry) && !(s.phase is CloseDir),
        },
    ensures
        s.step(event) == s,
{
}

} // verus!
