//! What a [`Session`](crate::session::Session) does with its command line and
//! with each answer, in terms of the switches and numbers that it is handed.

use vstd::prelude::*;

use crate::cli::Cli;
use crate::errors::Error;
use crate::scan::Stat;
use crate::session::{SessionEvent, SessionPhase, SessionState};

verus! {

/// `t` is the session `s` on its way to the next argument: it exits with
/// success if nobody reads the output any more, flushes the output after the
/// last argument, and otherwise takes up the next one, which is examined if the
/// filter can be searched for and walked if not.
pub open spec fn moves_on(s: SessionState, t: SessionState) -> bool {
    if s.pipe_broken {
        t.phase == SessionPhase::Exit(0)
    } else if s.args.len() == 0 {
        t == (SessionState { phase: SessionPhase::Flush, arg: t.arg, ..s })
    } else {
        t == (SessionState {
            phase: if s.fast {
                SessionPhase::StatArg
            } else {
                SessionPhase::Walk
            },
            arg: s.args[0],
            args: s.args.skip(1),
            ..s
        })
    }
}

/// Without a filter each switch of the command line reaches the walk as it was
/// given, and every argument is walked. With one, the switches that say what a
/// row looks like reach it, and the walk goes everywhere.
pub proof fn law_switches_reach_the_session(cli: Cli, mask: u32)
    ensures
        ({
            let plain = SessionState::start(cli, 0);
            &&& plain.opts.recursive == cli.recursive
            &&& plain.opts.all == cli.all
            &&& plain.opts.dirs_opt == cli.dirs_opt
            &&& plain.opts.long == cli.long
            &&& plain.opts.paths_only == cli.paths_only
            &&& plain.opts.project == cli.project
            &&& plain.opts.generation == cli.generation
            &&& plain.opts.has_mask == 0
            &&& plain.phase is Walk && !plain.fast
        }),
        mask != 0 ==> ({
            let filtered = SessionState::start(cli, mask);
            let fast = !cli.project && !cli.generation && crate::flags::sets_every_bit(
                0x8104fc,
                mask,
            );
            &&& filtered.opts.recursive && filtered.opts.all && !filtered.opts.dirs_opt
            &&& filtered.opts.long == cli.long
            &&& filtered.opts.paths_only == cli.paths_only
            &&& filtered.opts.project == cli.project
            &&& filtered.opts.generation == cli.generation
            &&& filtered.opts.has_mask == mask
            &&& filtered.fast <==> fast
            &&& filtered.phase is StatArg <==> fast
            &&& filtered.phase is Walk <==> !fast
        }),
{
    crate::cli::law_searchable_filters(cli, mask);
}

/// A session takes up the arguments in the order in which they were typed, or
/// the current directory if there are none. Nothing has failed yet.
pub proof fn law_arguments_in_order(cli: Cli, mask: u32, i: int)
    ensures
        ({
            let s = SessionState::start(cli, mask);
            let n = cli.paths@.len();
            &&& n == 0 ==> s.arg == seq![0x2eu8] && s.args.len() == 0
            &&& n > 0 ==> s.arg == cli.paths@[0]@ && s.args.len() == n - 1
            &&& 0 < i < n ==> s.args[i - 1] == cli.paths@[i]@
            &&& !s.had_err && !s.pipe_broken
        }),
{
}

/// An argument is scanned iff it is a directory, with any permissions, and has
/// the inode number 256; any other is walked, and so is one of which nothing is
/// known.
pub proof fn law_scanned_arguments(s: SessionState, st: Stat)
    requires
        s.phase is StatArg,
    ensures
        s.step(SessionEvent::Stated(None)) == (SessionState { phase: SessionPhase::Walk, ..s }),
        s.step(SessionEvent::Stated(Some(st))) == (SessionState {
            phase: if st.mode & 0o170000 == 0o040000 && st.ino == 256 {
                SessionPhase::Scan(st.dev)
            } else {
                SessionPhase::Walk
            },
            ..s
        }),
{
}

/// What follows a scan. One that could not start, for want of privilege (1), of
/// btrfs (25) or of a subvolume root (22), and has written nothing, gives way to
/// the walk and is no error. Any other failure is an error and is reported, with
/// its errno if it has one; then the session goes on.
pub proof fn law_after_a_scan(
    s: SessionState,
    n: i32,
    e: Error,
    emitted: bool,
    had_err: bool,
    closed: bool,
)
    requires
        s.phase is Scan,
    ensures
        ({
            let u = SessionState {
                had_err: s.had_err || had_err,
                pipe_broken: s.pipe_broken || closed,
                ..s
            };
            let failed = SessionState { had_err: true, ..u };
            let ok = s.step(SessionEvent::Scanned(Ok(()), emitted, had_err, closed));
            let cut = s.step(
                SessionEvent::Scanned(Err(Error::BrokenPipe), emitted, had_err, closed),
            );
            let os = s.step(SessionEvent::Scanned(Err(Error::Os(n)), emitted, had_err, closed));
            let other = s.step(SessionEvent::Scanned(Err(e), emitted, had_err, closed));
            &&& moves_on(u, ok)
            &&& cut.phase == SessionPhase::Exit(0)
            &&& (n == 1 || n == 22 || n == 25) && !emitted ==> os == (SessionState {
                phase: SessionPhase::Walk,
                ..u
            })
            &&& !((n == 1 || n == 22 || n == 25) && !emitted) ==> os == (SessionState {
                phase: SessionPhase::ReportScan(n),
                ..failed
            }) && moves_on(failed, os.step(SessionEvent::Done))
            &&& e is Data || e is Other ==> other == (SessionState {
                phase: SessionPhase::WarnScan(e),
                ..failed
            }) && moves_on(failed, other.step(SessionEvent::Done))
        }),
{
    assert(forall|x: Seq<Seq<u8>>| x.len() > 0 ==> #[trigger] x.drop_first() =~= x.skip(1));
}

/// What follows a walk, and the flush: a failed walk is remembered, a failed
/// flush is an error of its own that is warned about, and the session exits with
/// 1 if anything failed and with 0 if not. A reader that went away is no error.
pub proof fn law_after_a_walk_and_a_flush(s: SessionState, e: Error, had_err: bool, closed: bool)
    ensures
        s.phase is Walk ==> moves_on(
            SessionState {
                had_err: s.had_err || had_err,
                pipe_broken: s.pipe_broken || closed,
                ..s
            },
            s.step(SessionEvent::Walked(had_err, closed)),
        ),
        s.phase is Flush && !s.pipe_broken ==> ({
            let ok = s.step(SessionEvent::Flushed(Ok(())));
            let failed = s.step(SessionEvent::Flushed(Err(e)));
            &&& ok.phase == SessionPhase::Exit(
                if s.had_err {
                    1
                } else {
                    0
                },
            )
            &&& e is BrokenPipe ==> failed.phase == SessionPhase::Exit(0)
            &&& !(e is BrokenPipe) ==> failed.phase == SessionPhase::WarnFlush(e) && failed.step(
                SessionEvent::Done,
            ).phase == SessionPhase::Exit(1)
        }),
{
    assert(forall|x: Seq<Seq<u8>>| x.len() > 0 ==> #[trigger] x.drop_first() =~= x.skip(1));
}

/// The exit status is 1 if something failed and the reader of the output has not
/// gone away, and 0 otherwise.
pub proof fn law_exit_statuses(had_err: bool, pipe_broken: bool)
    ensures
        crate::session::exit_status(had_err, true) == 0,
        crate::session::exit_status(false, pipe_broken) == 0,
        crate::session::exit_status(true, false) == 1,
        crate::cli::USAGE_STATUS == 2,
{
}

/// A session takes no answer to a question that it has not asked.
pub proof fn law_unasked_answers_change_nothing(s: SessionState, event: SessionEvent)
    requires
        match event {
            SessionEvent::Stated(_) => !(s.phase is StatArg),
            SessionEvent::Scanned(_, _, _, _) => !(s.phase is Scan),
            SessionEvent::Walked(_, _) => !(s.phase is Walk),
            SessionEvent::Flushed(_) => !(s.phase is Flush),
            SessionEvent::Done => !(s.phase is ReportScan) && !(s.phase is WarnScan) && !(
            s.phase is WarnFlush),
        },
    ensures
        s.step(event) == s,
{
}

} // verus!
