//! One run of the program: the arguments in turn, each by the way of scanning
//! that serves it, and the exit status.
//!
//! [`Session`] makes the decisions. Its phase says which scan, walk, system
//! call or diagnostic comes next; the caller performs it and hands the outcome
//! to the method that answers the phase. An answer to any other phase is
//! ignored.

use vstd::prelude::*;
use vstd::slice::slice_to_vec;

use crate::ascii::DOT;
use crate::cli::{
    can_use_fast_has_path, filtered_walk_opts, has_mask, plain_walk_opts, Cli, UsageError,
};
use crate::errors::{is_broken_pipe, is_recoverable, Error};
use crate::scan::{subvol_root_dev, Stat};
use crate::walk::Opts;

verus! {

/// What a session waits for. "The argument" is [`Session::arg`].
#[derive(Clone, Copy, PartialEq, Eq, Debug, Structural)]
pub enum SessionPhase {
    /// `lstat` the argument.
    StatArg,
    /// Scan the subvolume at the argument, with this device number.
    Scan(u64),
    /// Walk the argument.
    Walk,
    /// Report that the scan of the argument failed with this errno.
    ReportScan(i32),
    /// Warn that the scan of the argument failed with this error.
    WarnScan(Error),
    /// Flush the output.
    Flush,
    /// Warn that the output could not be flushed.
    WarnFlush(Error),
    /// Exit with this status.
    Exit(u8),
}

/// The answers that a session can get. `Scanned` tells how the scan ended,
/// whether it wrote a row, whether it may have missed something and whether its
/// pipe closed; `Walked` whether the walk failed and whether its pipe closed.
pub enum SessionEvent {
    Stated(Option<Stat>),
    Scanned(Result<(), Error>, bool, bool, bool),
    Walked(bool, bool),
    Flushed(Result<(), Error>),
    Done,
}

/// A session, as the contracts see it. `args` are the arguments that are yet to
/// be taken up, `arg` is the one in hand.
pub struct SessionState {
    pub opts: Opts,
    pub fast: bool,
    pub args: Seq<Seq<u8>>,
    pub arg: Seq<u8>,
    pub had_err: bool,
    pub pipe_broken: bool,
    pub phase: SessionPhase,
}

/// The exit status: failure if something failed, unless the reader of the
/// output went away.
pub open spec fn exit_status(had_err: bool, pipe_broken: bool) -> u8 {
    if had_err && !pipe_broken {
        1
    } else {
        0
    }
}

/// The contents of a list of paths.
pub open spec fn path_list(paths: Seq<Vec<u8>>) -> Seq<Seq<u8>> {
    Seq::new(paths.len(), |i: int| paths[i]@)
}

/// The arguments of a command line: the current directory if it names none.
pub open spec fn arguments(cli: Cli) -> Seq<Seq<u8>> {
    if cli.paths@.len() == 0 {
        seq![seq![DOT]]
    } else {
        path_list(cli.paths@)
    }
}

impl SessionState {
    /// A session with the filter mask `mask` before its first step.
    pub open spec fn start(cli: Cli, mask: u32) -> SessionState {
        SessionState {
            opts: if mask == 0 {
                crate::cli::plain(cli)
            } else {
                crate::cli::filtered(cli, mask)
            },
            fast: mask != 0 && crate::cli::is_fast(cli, mask),
            args: arguments(cli),
            arg: seq![],
            had_err: false,
            pipe_broken: false,
            phase: SessionPhase::Flush,
        }.next_arg()
    }

    /// The same session in another phase.
    pub open spec fn goto(self, phase: SessionPhase) -> SessionState {
        SessionState { phase, ..self }
    }

    /// The end of the session.
    pub open spec fn exit(self) -> SessionState {
        self.goto(SessionPhase::Exit(exit_status(self.had_err, self.pipe_broken)))
    }

    /// On to the next argument, or to the end; a closed pipe ends the session.
    pub open spec fn next_arg(self) -> SessionState {
        if self.pipe_broken {
            SessionState { arg: seq![], ..self }.exit()
        } else if self.args.len() == 0 {
            SessionState { arg: seq![], ..self.goto(SessionPhase::Flush) }
        } else {
            SessionState {
                args: self.args.drop_first(),
                arg: self.args[0],
                ..self.goto(
                    if self.fast {
                        SessionPhase::StatArg
                    } else {
                        SessionPhase::Walk
                    },
                )
            }
        }
    }

    /// The session after the answer `event`.
    pub open spec fn step(self, event: SessionEvent) -> SessionState {
        match (self.phase, event) {
            (SessionPhase::StatArg, SessionEvent::Stated(st)) => self.goto(
                match crate::scan::root_dev(st) {
                    Some(dev) => SessionPhase::Scan(dev),
                    None => SessionPhase::Walk,
                },
            ),
            (SessionPhase::Scan(_), SessionEvent::Scanned(r, emitted, had_err, pipe_broken)) => {
                let s = SessionState {
                    had_err: self.had_err || had_err,
                    pipe_broken: self.pipe_broken || pipe_broken,
                    ..self
                };
                match r {
                    Ok(_) => s.next_arg(),
                    Err(e) => if e == Error::BrokenPipe {
                        SessionState { pipe_broken: true, ..s }.next_arg()
                    } else if crate::errors::recoverable(e) && !emitted {
                        s.goto(SessionPhase::Walk)
                    } else {
                        SessionState {
                            had_err: true,
                            ..s.goto(
                                match e {
                                    Error::Os(n) => SessionPhase::ReportScan(n),
                                    _ => SessionPhase::WarnScan(e),
                                },
                            )
                        }
                    },
                }
            },
            (SessionPhase::Walk, SessionEvent::Walked(had_err, pipe_broken)) => SessionState {
                had_err: self.had_err || had_err,
                pipe_broken: self.pipe_broken || pipe_broken,
                ..self
            }.next_arg(),
            (SessionPhase::ReportScan(_), SessionEvent::Done) => self.next_arg(),
            (SessionPhase::WarnScan(_), SessionEvent::Done) => self.next_arg(),
            (SessionPhase::Flush, SessionEvent::Flushed(r)) => match r {
                Ok(_) => self.exit(),
                Err(e) => if e == Error::BrokenPipe {
                    SessionState { pipe_broken: true, ..self }.exit()
                } else {
                    SessionState { had_err: true, ..self.goto(SessionPhase::WarnFlush(e)) }
                },
            },
            (SessionPhase::WarnFlush(_), SessionEvent::Done) => self.exit(),
            _ => self,
        }
    }
}

/// The exit status of a session.
pub fn exit_code(had_err: bool, pipe_broken: bool) -> (code: u8)
    ensures
        code == exit_status(had_err, pipe_broken),
{
    if had_err && !pipe_broken {
        1
    } else {
        0
    }
}

/// One run over the arguments of a command line.
pub struct Session {
    opts: Opts,
    fast: bool,
    args: Vec<Vec<u8>>,
    next: usize,
    arg: Vec<u8>,
    had_err: bool,
    pipe_broken: bool,
    phase: SessionPhase,
}

impl View for Session {
    type V = SessionState;

    closed spec fn view(&self) -> SessionState {
        SessionState {
            opts: self.opts,
            fast: self.fast,
            args: path_list(self.args@).skip(self.next as int),
            arg: self.arg@,
            had_err: self.had_err,
            pipe_broken: self.pipe_broken,
            phase: self.phase,
        }
    }
}

impl Session {
    /// The position in the arguments is within them.
    pub closed spec fn wf(&self) -> bool {
        self.next <= self.args@.len()
    }

    /// A session over the arguments of `cli`, or why `cli` is refused.
    pub fn new(cli: &Cli) -> (r: Result<Session, UsageError>)
        ensures
            match r {
                Ok(s) => {
                    &&& s.wf()
                    &&& crate::cli::filter_mask(*cli) is Ok
                    &&& s@ == SessionState::start(*cli, crate::cli::filter_mask(*cli)->Ok_0)
                },
                Err(e) => crate::cli::filter_mask(*cli) == Err::<u32, UsageError>(e),
            },
    {
        let mask = match has_mask(cli) {
            Ok(m) => m,
            Err(e) => {
                return Err(e);
            },
        };
        let mut args: Vec<Vec<u8>> = Vec::new();
        if cli.paths.len() == 0 {
            let mut here: Vec<u8> = Vec::new();
            here.push(DOT);
            assert(here@ =~= seq![DOT]);
            args.push(here);
        } else {
            let mut i: usize = 0;
            while i < cli.paths.len()
                invariant
                    i <= cli.paths@.len(),
                    args@.len() == i,
                    forall|k: int| 0 <= k < i ==> (#[trigger] args@[k])@ == cli.paths@[k]@,
                decreases cli.paths@.len() - i,
            {
                args.push(slice_to_vec(cli.paths[i].as_slice()));
                i += 1;
            }
        }
        assert(path_list(args@) =~= arguments(*cli));
        let opts = if mask == 0 {
            plain_walk_opts(cli)
        } else {
            filtered_walk_opts(cli, mask)
        };
        let fast = mask != 0 && can_use_fast_has_path(cli, mask);
        let mut session = Session {
            opts,
            fast,
            args,
            next: 0,
            arg: Vec::new(),
            had_err: false,
            pipe_broken: false,
            phase: SessionPhase::Flush,
        };
        assert(session@.args =~= arguments(*cli));
        assert(session@.arg =~= seq![]);
        session.next_arg();
        Ok(session)
    }

    /// What the session waits for.
    pub fn phase(&self) -> (phase: SessionPhase)
        ensures
            phase == self@.phase,
    {
        self.phase
    }

    /// The argument in hand.
    pub fn arg(&self) -> (arg: &[u8])
        ensures
            arg@ == self@.arg,
    {
        self.arg.as_slice()
    }

    /// What walks and scans list and how.
    pub fn opts(&self) -> (opts: Opts)
        ensures
            opts == self@.opts,
    {
        self.opts
    }

    /// The end of the session.
    fn exit(&mut self)
        requires
            old(self).wf(),
        ensures
            final(self).wf(),
            final(self)@ == old(self)@.exit(),
    {
        self.phase = SessionPhase::Exit(exit_code(self.had_err, self.pipe_broken));
    }

    /// On to the next argument, or to the end.
    fn next_arg(&mut self)
        requires
            old(self).wf(),
        ensures
            final(self).wf(),
            final(self)@ == old(self)@.next_arg(),
    {
        if self.pipe_broken {
            self.arg = Vec::new();
            assert(self@.arg =~= seq![]);
            self.exit();
        } else if self.next >= self.args.len() {
            self.arg = Vec::new();
            assert(self@.arg =~= seq![]);
            self.phase = SessionPhase::Flush;
        } else {
            self.arg = slice_to_vec(self.args[self.next].as_slice());
            self.next += 1;
            self.phase = if self.fast {
                SessionPhase::StatArg
            } else {
                SessionPhase::Walk
            };
            assert(self@.args =~= old(self)@.args.drop_first());
        }
    }

    /// What `lstat` says of the argument, if anything. Only the root of a
    /// subvolume is scanned; anything else is walked.
    pub fn on_stat(&mut self, st: Option<Stat>)
        requires
            old(self).wf(),
        ensures
            final(self).wf(),
            final(self)@ == old(self)@.step(SessionEvent::Stated(st)),
    {
        if let SessionPhase::StatArg = self.phase {
            self.phase = match subvol_root_dev(st) {
                Some(dev) => SessionPhase::Scan(dev),
                None => SessionPhase::Walk,
            };
        }
    }

    /// How the scan of the argument ended, whether it wrote a row, whether it
    /// may have missed something and whether its pipe closed. A scan that could
    /// not start gives way to the walk; any other failure is reported.
    pub fn on_scanned(
        &mut self,
        r: Result<(), Error>,
        emitted: bool,
        had_err: bool,
        pipe_broken: bool,
    )
        requires
            old(self).wf(),
        ensures
            final(self).wf(),
            final(self)@ == old(self)@.step(
                SessionEvent::Scanned(r, emitted, had_err, pipe_broken),
            ),
    {
        if let SessionPhase::Scan(_) = self.phase {
            self.had_err = self.had_err || had_err;
            self.pipe_broken = self.pipe_broken || pipe_broken;
            match r {
                Ok(_) => self.next_arg(),
                Err(e) => {
                    if is_broken_pipe(&e) {
                        self.pipe_broken = true;
                        self.next_arg();
                    } else if is_recoverable(&e) && !emitted {
                        self.phase = SessionPhase::Walk;
                    } else {
                        self.had_err = true;
                        self.phase = match e {
                            Error::Os(n) => SessionPhase::ReportScan(n),
                            _ => SessionPhase::WarnScan(e),
                        };
                    }
                },
            }
        }
    }

    /// Whether the walk of the argument failed, and whether its pipe closed.
    pub fn on_walked(&mut self, had_err: bool, pipe_broken: bool)
        requires
            old(self).wf(),
        ensures
            final(self).wf(),
            final(self)@ == old(self)@.step(SessionEvent::Walked(had_err, pipe_broken)),
    {
        if let SessionPhase::Walk = self.phase {
            self.had_err = self.had_err || had_err;
            self.pipe_broken = self.pipe_broken || pipe_broken;
            self.next_arg();
        }
    }

    /// Whether the output could be flushed.
    pub fn on_flushed(&mut self, r: Result<(), Error>)
        requires
            old(self).wf(),
        ensures
            final(self).wf(),
            final(self)@ == old(self)@.step(SessionEvent::Flushed(r)),
    {
        if let SessionPhase::Flush = self.phase {
            match r {
                Ok(_) => self.exit(),
                Err(e) => {
                    if is_broken_pipe(&e) {
                        self.pipe_broken = true;
                        self.exit();
                    } else {
                        self.had_err = true;
                        self.phase = SessionPhase::WarnFlush(e);
                    }
                },
            }
        }
    }

    /// The pending diagnostic was reported.
    pub fn on_done(&mut self)
        requires
            old(self).wf(),
        ensures
            final(self).wf(),
            final(self)@ == old(self)@.step(SessionEvent::Done),
    {
        match self.phase {
            SessionPhase::ReportScan(_) | SessionPhase::WarnScan(_) => self.next_arg(),
            SessionPhase::WarnFlush(_) => self.exit(),
            _ => {},
        }
    }
}

/// What a session does that can be seen from outside.
pub enum SessionEffect {
    Scan(Seq<u8>, u64),
    Walk(Seq<u8>),
    ReportScan(Seq<u8>, i32),
    WarnScan(Seq<u8>, Error),
}

/// What can be seen of the phase that `s` is in.
pub open spec fn session_effect(s: SessionState) -> Seq<SessionEffect> {
    match s.phase {
        SessionPhase::Scan(dev) => seq![SessionEffect::Scan(s.arg, dev)],
        SessionPhase::Walk => seq![SessionEffect::Walk(s.arg)],
        SessionPhase::ReportScan(e) => seq![SessionEffect::ReportScan(s.arg, e)],
        SessionPhase::WarnScan(e) => seq![SessionEffect::WarnScan(s.arg, e)],
        _ => seq![],
    }
}

/// The session after the answers `events`, and what could be seen meanwhile.
pub open spec fn session_run(s: SessionState, events: Seq<SessionEvent>) -> (
    SessionState,
    Seq<SessionEffect>,
)
    decreases events.len(),
{
    if events.len() == 0 {
        (s, seq![])
    } else {
        let (t, rest) = session_run(s.step(events[0]), events.drop_first());
        (t, session_effect(s) + rest)
    }
}

/// What the world holds for one argument: what `lstat` says of it, how its scan
/// ends, whether that writes a row or misses something, and whether its walk
/// fails.
pub struct ArgFacts {
    pub path: Seq<u8>,
    pub stat: Option<Stat>,
    pub scan: Result<(), Error>,
    pub emitted: bool,
    pub scan_err: bool,
    pub walk_err: bool,
}

/// The argument is scanned: the filter allows it and it is a subvolume's root.
pub open spec fn is_scanned(fast: bool, a: ArgFacts) -> bool {
    fast && crate::scan::root_dev(a.stat) is Some
}

/// The scan of the argument gives way to the walk: it could not start.
pub open spec fn gives_way(a: ArgFacts) -> bool {
    !a.emitted && match a.scan {
        Err(e) => crate::errors::recoverable(e),
        Ok(_) => false,
    }
}

/// The argument counts as failed.
pub open spec fn arg_failed(fast: bool, a: ArgFacts) -> bool {
    if !is_scanned(fast, a) {
        a.walk_err
    } else {
        a.scan_err || if gives_way(a) {
            a.walk_err
        } else {
            a.scan is Err
        }
    }
}

/// What a session shows of the argument: the walk; or the scan, then the walk
/// where the scan gives way, or else the report of its failure.
pub open spec fn arg_shown(fast: bool, a: ArgFacts) -> Seq<SessionEffect> {
    if !is_scanned(fast, a) {
        seq![SessionEffect::Walk(a.path)]
    } else {
        seq![SessionEffect::Scan(a.path, crate::scan::root_dev(a.stat)->Some_0)] + (if gives_way(a) {
            seq![SessionEffect::Walk(a.path)]
        } else {
            match a.scan {
                Ok(_) => seq![],
                Err(Error::Os(n)) => seq![SessionEffect::ReportScan(a.path, n)],
                Err(e) => seq![SessionEffect::WarnScan(a.path, e)],
            }
        })
    }
}

/// The answers that a session gets about the argument.
pub open spec fn arg_answers(fast: bool, a: ArgFacts) -> Seq<SessionEvent> {
    (if fast {
        seq![SessionEvent::Stated(a.stat)]
    } else {
        seq![]
    }) + (if is_scanned(fast, a) {
        seq![SessionEvent::Scanned(a.scan, a.emitted, a.scan_err, false)] + (if gives_way(a) {
            seq![SessionEvent::Walked(a.walk_err, false)]
        } else if a.scan is Err {
            seq![SessionEvent::Done]
        } else {
            seq![]
        })
    } else {
        seq![SessionEvent::Walked(a.walk_err, false)]
    })
}

/// The answers about the arguments in turn.
pub open spec fn args_answers(fast: bool, args: Seq<ArgFacts>) -> Seq<SessionEvent>
    decreases args.len(),
{
    if args.len() == 0 {
        seq![]
    } else {
        arg_answers(fast, args[0]) + args_answers(fast, args.drop_first())
    }
}

/// What a session shows of the arguments in turn.
pub open spec fn args_shown(fast: bool, args: Seq<ArgFacts>) -> Seq<SessionEffect>
    decreases args.len(),
{
    if args.len() == 0 {
        seq![]
    } else {
        arg_shown(fast, args[0]) + args_shown(fast, args.drop_first())
    }
}

/// One of the arguments counts as failed.
pub open spec fn any_failed(fast: bool, args: Seq<ArgFacts>) -> bool {
    exists|i: int| 0 <= i < args.len() && arg_failed(fast, #[trigger] args[i])
}

proof fn lemma_run_one(s: SessionState, event: SessionEvent, rest: Seq<SessionEvent>)
    ensures
        session_run(s, seq![event] + rest).0 == session_run(s.step(event), rest).0,
        session_run(s, seq![event] + rest).1 == session_effect(s) + session_run(
            s.step(event),
            rest,
        ).1,
{
    assert((seq![event] + rest).drop_first() =~= rest);
}

proof fn lemma_run_concat(s: SessionState, a: Seq<SessionEvent>, b: Seq<SessionEvent>)
    ensures
        session_run(s, a + b).0 == session_run(session_run(s, a).0, b).0,
        session_run(s, a + b).1 == session_run(s, a).1 + session_run(session_run(s, a).0, b).1,
    decreases a.len(),
{
    if a.len() == 0 {
        assert(a + b =~= b);
        assert(session_run(s, a).1 + session_run(s, b).1 =~= session_run(s, b).1);
    } else {
        assert((a + b).drop_first() =~= a.drop_first() + b);
        lemma_run_concat(s.step(a[0]), a.drop_first(), b);
        assert(session_run(s, a + b).1 =~= session_run(s, a).1 + session_run(
            session_run(s, a).0,
            b,
        ).1);
    }
}

/// The session, having just taken up the argument of `a`, deals with it.
proof fn lemma_arg(s: SessionState, a: ArgFacts)
    requires
        s.arg == a.path,
        !s.pipe_broken,
        s.phase == if s.fast {
            SessionPhase::StatArg
        } else {
            SessionPhase::Walk
        },
        a.scan != Err::<(), Error>(Error::BrokenPipe),
    ensures
        session_run(s, arg_answers(s.fast, a)).0 == (SessionState {
            had_err: s.had_err || arg_failed(s.fast, a),
            ..s
        }).next_arg(),
        session_run(s, arg_answers(s.fast, a)).1 == arg_shown(s.fast, a),
{
    let events = arg_answers(s.fast, a);
    let w = SessionEvent::Walked(a.walk_err, false);
    let none = Seq::<SessionEvent>::empty();
    if !s.fast {
        assert(events =~= seq![w] + none);
        lemma_run_one(s, w, none);
    } else {
        let st = SessionEvent::Stated(a.stat);
        let s1 = s.step(st);
        if !is_scanned(s.fast, a) {
            assert(events =~= seq![st] + (seq![w] + none));
            lemma_run_one(s, st, seq![w] + none);
            lemma_run_one(s1, w, none);
        } else {
            let sc = SessionEvent::Scanned(a.scan, a.emitted, a.scan_err, false);
            let s2 = s1.step(sc);
            let last = if gives_way(a) {
                seq![w] + none
            } else if a.scan is Err {
                seq![SessionEvent::Done] + none
            } else {
                none
            };
            assert(events =~= seq![st] + (seq![sc] + last));
            lemma_run_one(s, st, seq![sc] + last);
            lemma_run_one(s1, sc, last);
            if gives_way(a) {
                lemma_run_one(s2, w, none);
            } else if a.scan is Err {
                lemma_run_one(s2, SessionEvent::Done, none);
            }
        }
    }
    assert(session_run(s, events).1 =~= arg_shown(s.fast, a));
}

proof fn lemma_args(s: SessionState, args: Seq<ArgFacts>)
    requires
        !s.pipe_broken,
        s.args.len() == args.len(),
        forall|i: int| 0 <= i < args.len() ==> s.args[i] == (#[trigger] args[i]).path,
        forall|i: int|
            0 <= i < args.len() ==> (#[trigger] args[i]).scan != Err::<(), Error>(
                Error::BrokenPipe,
            ),
    ensures
        session_run(s.next_arg(), args_answers(s.fast, args)).0 == (SessionState {
            args: seq![],
            arg: seq![],
            had_err: s.had_err || any_failed(s.fast, args),
            ..s.goto(SessionPhase::Flush)
        }),
        session_run(s.next_arg(), args_answers(s.fast, args)).1 == args_shown(s.fast, args),
    decreases args.len(),
{
    if args.len() == 0 {
        assert(s.args =~= seq![]);
    } else {
        let a = args[0];
        let rest = args.drop_first();
        let t = s.next_arg();
        let u = SessionState { had_err: s.had_err || arg_failed(s.fast, a), ..t };
        assert(s.args[0] == args[0].path);
        lemma_arg(t, a);
        lemma_run_concat(t, arg_answers(s.fast, a), args_answers(s.fast, rest));
        assert forall|i: int| 0 <= i < rest.len() implies u.args[i] == (#[trigger] rest[i]).path by {
            assert(s.args[i + 1] == args[i + 1].path);
        }
        assert forall|i: int| 0 <= i < rest.len() implies (#[trigger] rest[i]).scan != Err::<
            (),
            Error,
        >(Error::BrokenPipe) by {
            assert(args[i + 1].scan != Err::<(), Error>(Error::BrokenPipe));
        }
        lemma_args(u, rest);
        assert(any_failed(s.fast, args) <==> arg_failed(s.fast, a) || any_failed(s.fast, rest)) by {
            if any_failed(s.fast, args) {
                let i = choose|i: int|
                    0 <= i < args.len() && arg_failed(s.fast, #[trigger] args[i]);
                if i > 0 {
                    assert(rest[i - 1] == args[i]);
                }
            }
            if any_failed(s.fast, rest) {
                let i = choose|i: int|
                    0 <= i < rest.len() && arg_failed(s.fast, #[trigger] rest[i]);
                assert(args[i + 1] == rest[i]);
            }
        }
    }
}

/// A session deals with its arguments in turn, each as `arg_shown` says, and
/// exits with failure iff one of them failed or the output could not be
/// flushed.
pub proof fn law_session_of_arguments(
    cli: Cli,
    mask: u32,
    args: Seq<ArgFacts>,
    flushed: Result<(), Error>,
)
    requires
        args.len() == arguments(cli).len(),
        forall|i: int| 0 <= i < args.len() ==> arguments(cli)[i] == (#[trigger] args[i]).path,
        forall|i: int|
            0 <= i < args.len() ==> (#[trigger] args[i]).scan != Err::<(), Error>(
                Error::BrokenPipe,
            ),
        flushed != Err::<(), Error>(Error::BrokenPipe),
    ensures
        ({
            let s = SessionState::start(cli, mask);
            let (t, shown) = session_run(
                s,
                args_answers(s.fast, args) + (seq![SessionEvent::Flushed(flushed)] + (
                if flushed is Err {
                    seq![SessionEvent::Done]
                } else {
                    seq![]
                })),
            );
            &&& shown == args_shown(s.fast, args)
            &&& t.phase == SessionPhase::Exit(
                if any_failed(s.fast, args) || flushed is Err {
                    1
                } else {
                    0
                },
            )
        }),
{
    let begin = SessionState {
        opts: if mask == 0 {
            crate::cli::plain(cli)
        } else {
            crate::cli::filtered(cli, mask)
        },
        fast: mask != 0 && crate::cli::is_fast(cli, mask),
        args: arguments(cli),
        arg: seq![],
        had_err: false,
        pipe_broken: false,
        phase: SessionPhase::Flush,
    };
    let s = SessionState::start(cli, mask);
    assert(s == begin.next_arg());
    lemma_args(begin, args);
    let f = SessionEvent::Flushed(flushed);
    let none = Seq::<SessionEvent>::empty();
    let last = if flushed is Err {
        seq![SessionEvent::Done]
    } else {
        none
    };
    let u = session_run(s, args_answers(s.fast, args)).0;
    lemma_run_concat(s, args_answers(s.fast, args), seq![f] + last);
    lemma_run_one(u, f, last);
    if flushed is Err {
        lemma_run_one(u.step(f), SessionEvent::Done, none);
        assert(seq![SessionEvent::Done] + none =~= last);
    }
    assert(session_run(s, args_answers(s.fast, args) + (seq![f] + last)).1 =~= args_shown(
        s.fast,
        args,
    ));
}

/// Every session that exits does so with failure iff something failed and the
/// reader of the output had not gone away; and it then stays as it is.
pub proof fn law_exit_status(s: SessionState, cli: Cli, mask: u32, event: SessionEvent)
    ensures
        exits_rightly(SessionState::start(cli, mask)),
        exits_rightly(s) ==> exits_rightly(s.step(event)),
        s.phase is Exit ==> s.step(event) == s,
{
}

/// If the session exits, then with the status that it should have.
pub open spec fn exits_rightly(s: SessionState) -> bool {
    match s.phase {
        SessionPhase::Exit(code) => code == if s.had_err && !s.pipe_broken {
            1u8
        } else {
            0u8
        },
        _ => true,
    }
}

/// A pipe that closes in a walk, a sweep or the flush ends the session at once,
/// with success.
pub proof fn law_closed_pipe_is_success(s: SessionState, had_err: bool, emitted: bool)
    ensures
        s.phase is Walk ==> s.step(SessionEvent::Walked(had_err, true)).phase
            == SessionPhase::Exit(0),
        s.phase is Scan ==> s.step(SessionEvent::Scanned(Ok(()), emitted, had_err, true)).phase
            == SessionPhase::Exit(0),
        s.phase is Scan ==> s.step(
            SessionEvent::Scanned(Err(Error::BrokenPipe), emitted, had_err, false),
        ).phase == SessionPhase::Exit(0),
        s.phase is Flush ==> s.step(SessionEvent::Flushed(Err(Error::BrokenPipe))).phase
            == SessionPhase::Exit(0),
{
}

} // verus!
