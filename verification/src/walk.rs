//! The per-file walk: what `lsattr` lists for one argument, and in what order.
//!
//! [`Walker`] makes the decisions. Its phase says which system call, listing,
//! write or diagnostic comes next; the caller performs it and hands the
//! outcome to the method that answers the phase. An answer to any other phase
//! is ignored.

use vstd::prelude::*;
use vstd::slice::slice_to_vec;

use crate::ascii::{COLON, NEWLINE};
use crate::errors::{WriteResult, EINVAL};
use crate::format::append;
use crate::list::{is_dir, Listing};
use crate::paths::{
    child_path, has_nul, is_dot, squeeze_trailing_slashes, starts_with_dot,
};

verus! {

/// What a walk lists and how.
#[derive(Clone, Copy, PartialEq, Eq, Debug, Structural)]
pub struct Opts {
    pub recursive: bool,
    pub all: bool,
    pub dirs_opt: bool,
    pub long: bool,
    pub paths_only: bool,
    pub project: bool,
    pub generation: bool,
    /// 0 for no filter; otherwise only files with all these bits are listed.
    pub has_mask: u32,
}

/// What a walk waits for. "The path" is [`Walker::path`], "the directory" is
/// [`Walker::dir`].
#[derive(Clone, Copy, PartialEq, Eq, Debug, Structural)]
pub enum WalkPhase {
    /// An argument.
    Idle,
    /// `lstat` the path, an argument.
    StatArg,
    /// List the path, an argument.
    ListArg,
    /// Report that the argument could not be examined, with this errno.
    ReportArg(i32),
    /// `opendir` the path.
    OpenDir,
    /// `readdir` the directory.
    ReadDir,
    /// Report that the directory could not be read to its end, with this errno.
    ReportDir(i32),
    /// `lstat` the path, an entry of the directory.
    StatEntry,
    /// Report that the path could not be examined, with this errno.
    ReportEntry(i32),
    /// List the path, an entry of the directory.
    ListEntry,
    /// Write the section header of the path.
    Header,
    /// Write the end of a section.
    Trailer,
    /// `closedir` the directory.
    CloseDir,
}

/// The answers that a walk can get.
pub enum WalkEvent {
    Arg(Seq<u8>),
    Mode(Result<u32, i32>),
    Listed(Listing),
    Opened(bool),
    Entry(Seq<u8>),
    End(i32),
    Written(WriteResult),
    Done,
}

/// A walk, as the contracts see it. `frames` are the open directories, the
/// innermost last; `path` is the argument or entry in hand, with what its name
/// and mode say of it.
pub struct WalkState {
    pub opts: Opts,
    pub frames: Seq<Seq<u8>>,
    pub path: Seq<u8>,
    pub hidden: bool,
    pub dots: bool,
    pub descend: bool,
    pub phase: WalkPhase,
    pub had_err: bool,
    pub pipe_broken: bool,
}

/// The section header of a directory.
pub open spec fn header_bytes(dir: Seq<u8>) -> Seq<u8> {
    seq![NEWLINE] + dir + seq![COLON, NEWLINE]
}

/// The end of a section.
pub open spec fn trailer_bytes() -> Seq<u8> {
    seq![NEWLINE]
}

/// Whether a walk writes section headers: not where rows are bare paths or
/// filtered.
pub open spec fn writes_headers(opts: Opts) -> bool {
    !opts.paths_only && opts.has_mask == 0
}

/// The path that the entries of the directory `path`, an argument, are listed
/// under. A filtered walk keeps one trailing slash at most, as a tree search
/// does.
pub open spec fn arg_dir(opts: Opts, path: Seq<u8>) -> Seq<u8> {
    if opts.has_mask != 0 {
        crate::paths::squeezed(path)
    } else {
        path
    }
}

impl WalkState {
    /// A walk before its first argument.
    pub open spec fn start(opts: Opts) -> WalkState {
        WalkState {
            opts,
            frames: seq![],
            path: seq![],
            hidden: false,
            dots: false,
            descend: false,
            phase: WalkPhase::Idle,
            had_err: false,
            pipe_broken: false,
        }
    }

    /// The same walk in another phase.
    pub open spec fn goto(self, phase: WalkPhase) -> WalkState {
        WalkState { phase, ..self }
    }

    /// The same walk in another phase with nothing in hand.
    pub open spec fn released(self, phase: WalkPhase) -> WalkState {
        WalkState { phase, path: seq![], hidden: false, dots: false, descend: false, ..self }
    }

    /// The path that the entries of the innermost directory are listed under.
    pub open spec fn entries_dir(self) -> Seq<u8> {
        if self.frames.len() == 1 {
            arg_dir(self.opts, self.frames.last())
        } else {
            self.frames.last()
        }
    }

    /// The entry in hand is not listed: its name starts with a dot and `-a` is
    /// not given; or it is `.` or `..` and there is a filter, which no tree
    /// search would list.
    pub open spec fn is_left_out(self) -> bool {
        (self.hidden && !self.opts.all) || (self.dots && self.opts.has_mask != 0)
    }

    /// On to the next entry of the directory; a closed pipe ends it.
    pub open spec fn next_entry(self) -> WalkState {
        self.released(
            if self.pipe_broken {
                WalkPhase::CloseDir
            } else {
                WalkPhase::ReadDir
            },
        )
    }

    /// What follows the section of a subdirectory.
    pub open spec fn after_subdir(self) -> WalkState {
        if writes_headers(self.opts) {
            self.released(WalkPhase::Trailer)
        } else {
            self.next_entry()
        }
    }

    /// Into the subdirectory in hand, unless the pipe is closed.
    pub open spec fn enter_subdir(self) -> WalkState {
        if self.pipe_broken {
            self.after_subdir()
        } else {
            self.goto(WalkPhase::OpenDir)
        }
    }

    /// What follows the listing of the entry in hand.
    pub open spec fn after_listing(self) -> WalkState {
        if !self.descend {
            self.next_entry()
        } else if writes_headers(self.opts) {
            self.goto(WalkPhase::Header)
        } else {
            self.enter_subdir()
        }
    }

    /// The walk after the answer `event`.
    pub open spec fn step(self, event: WalkEvent) -> WalkState {
        match (self.phase, event) {
            (WalkPhase::Idle, WalkEvent::Arg(path)) => if self.pipe_broken {
                self
            } else if crate::paths::has_nul_byte(path) {
                WalkState { path, had_err: true, ..self.goto(WalkPhase::ReportArg(EINVAL)) }
            } else {
                WalkState { path, ..self.goto(WalkPhase::StatArg) }
            },
            (WalkPhase::StatArg, WalkEvent::Mode(Err(e))) => WalkState {
                had_err: true,
                ..self.goto(WalkPhase::ReportArg(e))
            },
            (WalkPhase::StatArg, WalkEvent::Mode(Ok(mode))) => if crate::list::mode_is_dir(mode)
                && !self.opts.dirs_opt {
                self.goto(WalkPhase::OpenDir)
            } else {
                self.goto(WalkPhase::ListArg)
            },
            (WalkPhase::ReportArg(_), WalkEvent::Done) => self.released(WalkPhase::Idle),
            (WalkPhase::ListArg, WalkEvent::Listed(listing)) => WalkState {
                had_err: self.had_err || listing is Reported,
                pipe_broken: self.pipe_broken || listing is PipeClosed,
                ..self.released(WalkPhase::Idle)
            },
            (WalkPhase::OpenDir, WalkEvent::Opened(true)) => WalkState {
                frames: self.frames.push(self.path),
                ..self.next_entry()
            },
            (WalkPhase::OpenDir, WalkEvent::Opened(false)) => if self.frames.len() == 0 {
                WalkState { had_err: true, ..self.released(WalkPhase::Idle) }
            } else {
                self.after_subdir()
            },
            (WalkPhase::ReadDir, WalkEvent::End(e)) => if e == 0 {
                self.goto(WalkPhase::CloseDir)
            } else {
                self.goto(WalkPhase::ReportDir(e))
            },
            (WalkPhase::ReportDir(_), WalkEvent::Done) => self.goto(WalkPhase::CloseDir),
            (WalkPhase::ReadDir, WalkEvent::Entry(name)) => if self.frames.len() == 0 {
                self
            } else {
                let path = crate::paths::joined(self.entries_dir(), name);
                if crate::paths::has_nul_byte(path) {
                    self.next_entry()
                } else {
                    WalkState {
                        path,
                        hidden: crate::paths::is_hidden(name),
                        dots: crate::paths::is_dot_entry(name),
                        ..self.goto(WalkPhase::StatEntry)
                    }
                }
            },
            (WalkPhase::StatEntry, WalkEvent::Mode(Err(e))) => self.goto(
                WalkPhase::ReportEntry(e),
            ),
            (WalkPhase::ReportEntry(_), WalkEvent::Done) => self.next_entry(),
            (WalkPhase::StatEntry, WalkEvent::Mode(Ok(mode))) => if self.is_left_out() {
                self.next_entry()
            } else {
                WalkState {
                    descend: self.opts.recursive && crate::list::mode_is_dir(mode) && !self.dots,
                    ..self.goto(WalkPhase::ListEntry)
                }
            },
            (WalkPhase::ListEntry, WalkEvent::Listed(listing)) => WalkState {
                pipe_broken: self.pipe_broken || listing is PipeClosed,
                ..self
            }.after_listing(),
            (WalkPhase::Header, WalkEvent::Written(r)) => match r {
                WriteResult::Done => self.enter_subdir(),
                WriteResult::BrokenPipe => WalkState {
                    pipe_broken: true,
                    ..self.released(WalkPhase::CloseDir)
                },
                WriteResult::Failed => self.released(WalkPhase::CloseDir),
            },
            (WalkPhase::Trailer, WalkEvent::Written(r)) => WalkState {
                pipe_broken: self.pipe_broken || r is BrokenPipe,
                ..self
            }.next_entry(),
            (WalkPhase::CloseDir, WalkEvent::Done) => if self.frames.len() <= 1 {
                WalkState { frames: seq![], ..self.released(WalkPhase::Idle) }
            } else {
                WalkState { frames: self.frames.drop_last(), ..self }.after_subdir()
            },
            _ => self,
        }
    }
}

/// Append the section header of `dir`: a blank line and the path with a colon.
pub fn write_dir_header(w: &mut Vec<u8>, dir: &[u8])
    ensures
        final(w)@ == old(w)@ + header_bytes(dir@),
{
    w.push(NEWLINE);
    append(w, dir);
    w.push(COLON);
    w.push(NEWLINE);
    assert(w@ =~= old(w)@ + header_bytes(dir@));
}

/// The paths of the open directories.
pub open spec fn frame_paths(frames: Seq<Vec<u8>>) -> Seq<Seq<u8>> {
    Seq::new(frames.len(), |i: int| frames[i]@)
}

/// The walk over one or more arguments.
pub struct Walker {
    opts: Opts,
    frames: Vec<Vec<u8>>,
    path: Vec<u8>,
    hidden: bool,
    dots: bool,
    descend: bool,
    phase: WalkPhase,
    had_err: bool,
    pipe_broken: bool,
}

impl View for Walker {
    type V = WalkState;

    closed spec fn view(&self) -> WalkState {
        WalkState {
            opts: self.opts,
            frames: frame_paths(self.frames@),
            path: self.path@,
            hidden: self.hidden,
            dots: self.dots,
            descend: self.descend,
            phase: self.phase,
            had_err: self.had_err,
            pipe_broken: self.pipe_broken,
        }
    }
}

impl Walker {
    /// A walk before its first argument.
    pub fn new(opts: &Opts) -> (walker: Walker)
        ensures
            walker@ == WalkState::start(*opts),
    {
        let walker = Walker {
            opts: *opts,
            frames: Vec::new(),
            path: Vec::new(),
            hidden: false,
            dots: false,
            descend: false,
            phase: WalkPhase::Idle,
            had_err: false,
            pipe_broken: false,
        };
        assert(walker@.frames =~= seq![]);
        assert(walker@.path =~= seq![]);
        walker
    }

    /// What the walk waits for.
    pub fn phase(&self) -> (phase: WalkPhase)
        ensures
            phase == self@.phase,
    {
        self.phase
    }

    /// The argument or entry in hand.
    pub fn path(&self) -> (path: &[u8])
        ensures
            path@ == self@.path,
    {
        self.path.as_slice()
    }

    /// The innermost open directory.
    pub fn dir(&self) -> (dir: Option<&[u8]>)
        ensures
            dir is Some <==> self@.frames.len() > 0,
            dir matches Some(d) ==> d@ == self@.frames.last(),
    {
        if self.frames.len() == 0 {
            None
        } else {
            Some(self.frames[self.frames.len() - 1].as_slice())
        }
    }

    /// True iff an argument failed. What fails below an argument is reported
    /// and does not count.
    pub fn had_err(&self) -> (e: bool)
        ensures
            e == self@.had_err,
    {
        self.had_err
    }

    /// True once the output pipe is closed.
    pub fn pipe_broken(&self) -> (e: bool)
        ensures
            e == self@.pipe_broken,
    {
        self.pipe_broken
    }

    /// The bytes of the pending section header or section end.
    pub fn output(&self) -> (bytes: Vec<u8>)
        ensures
            self@.phase is Header ==> bytes@ == header_bytes(self@.path),
            !(self@.phase is Header) ==> bytes@ == trailer_bytes(),
    {
        let mut bytes: Vec<u8> = Vec::new();
        match self.phase {
            WalkPhase::Header => {
                write_dir_header(&mut bytes, self.path.as_slice());
                assert(bytes@ =~= header_bytes(self@.path));
            },
            _ => {
                bytes.push(NEWLINE);
                assert(bytes@ =~= trailer_bytes());
            },
        }
        bytes
    }

    /// Let go of what is in hand.
    fn release(&mut self, phase: WalkPhase)
        ensures
            final(self)@ == old(self)@.released(phase),
    {
        self.path = Vec::new();
        self.hidden = false;
        self.dots = false;
        self.descend = false;
        self.phase = phase;
        assert(self@.path =~= seq![]);
    }

    /// On to the next entry.
    fn next_entry(&mut self)
        ensures
            final(self)@ == old(self)@.next_entry(),
    {
        if self.pipe_broken {
            self.release(WalkPhase::CloseDir);
        } else {
            self.release(WalkPhase::ReadDir);
        }
    }

    /// Whether section headers are written.
    fn headers(&self) -> (h: bool)
        ensures
            h == writes_headers(self@.opts),
    {
        !self.opts.paths_only && self.opts.has_mask == 0
    }

    /// On after the section of a subdirectory.
    fn after_subdir(&mut self)
        ensures
            final(self)@ == old(self)@.after_subdir(),
    {
        if self.headers() {
            self.release(WalkPhase::Trailer);
        } else {
            self.next_entry();
        }
    }

    /// Into the subdirectory in hand.
    fn enter_subdir(&mut self)
        ensures
            final(self)@ == old(self)@.enter_subdir(),
    {
        if self.pipe_broken {
            self.after_subdir();
        } else {
            self.phase = WalkPhase::OpenDir;
        }
    }

    /// Take up the argument `path`. Only an idle walk does, and none whose pipe
    /// is closed.
    pub fn list_arg(&mut self, path: &[u8])
        ensures
            final(self)@ == old(self)@.step(WalkEvent::Arg(path@)),
    {
        if let WalkPhase::Idle = self.phase {
            if !self.pipe_broken {
                self.path = slice_to_vec(path);
                if has_nul(path) {
                    self.had_err = true;
                    self.phase = WalkPhase::ReportArg(EINVAL);
                } else {
                    self.phase = WalkPhase::StatArg;
                }
            }
        }
    }

    /// The mode of the path, or the errno of `lstat`.
    pub fn on_stat(&mut self, r: Result<u32, i32>)
        ensures
            final(self)@ == old(self)@.step(WalkEvent::Mode(r)),
    {
        match self.phase {
            WalkPhase::StatArg => match r {
                Ok(mode) => {
                    self.phase = if is_dir(mode) && !self.opts.dirs_opt {
                        WalkPhase::OpenDir
                    } else {
                        WalkPhase::ListArg
                    };
                },
                Err(e) => {
                    self.had_err = true;
                    self.phase = WalkPhase::ReportArg(e);
                },
            },
            WalkPhase::StatEntry => match r {
                Ok(mode) => {
                    if (self.hidden && !self.opts.all) || (self.dots && self.opts.has_mask != 0) {
                        self.next_entry();
                    } else {
                        self.descend = self.opts.recursive && is_dir(mode) && !self.dots;
                        self.phase = WalkPhase::ListEntry;
                    }
                },
                Err(e) => {
                    self.phase = WalkPhase::ReportEntry(e);
                },
            },
            _ => {},
        }
    }

    /// How the listing of the path ended. An error counts against an argument
    /// only; a closed pipe is no error, but ends the walk.
    pub fn list_attributes(&mut self, listing: Listing)
        ensures
            final(self)@ == old(self)@.step(WalkEvent::Listed(listing)),
    {
        match self.phase {
            WalkPhase::ListArg => {
                match listing {
                    Listing::Handled => {},
                    Listing::Reported => {
                        self.had_err = true;
                    },
                    Listing::PipeClosed => {
                        self.pipe_broken = true;
                    },
                }
                self.release(WalkPhase::Idle);
            },
            WalkPhase::ListEntry => {
                if let Listing::PipeClosed = listing {
                    self.pipe_broken = true;
                }
                if !self.descend {
                    self.next_entry();
                } else if self.headers() {
                    self.phase = WalkPhase::Header;
                } else {
                    self.enter_subdir();
                }
            },
            _ => {},
        }
    }

    /// Whether the path could be opened as a directory. A failure counts
    /// against an argument only.
    pub fn on_opened(&mut self, opened: bool)
        ensures
            final(self)@ == old(self)@.step(WalkEvent::Opened(opened)),
    {
        if let WalkPhase::OpenDir = self.phase {
            if opened {
                let path = slice_to_vec(self.path.as_slice());
                let ghost before = self.frames@;
                self.frames.push(path);
                assert(frame_paths(self.frames@) =~= frame_paths(before).push(self.path@));
                self.next_entry();
            } else if self.frames.len() == 0 {
                self.had_err = true;
                self.release(WalkPhase::Idle);
            } else {
                self.after_subdir();
            }
        }
    }

    /// The name of the next entry of the directory.
    pub fn on_entry(&mut self, name: &[u8])
        ensures
            final(self)@ == old(self)@.step(WalkEvent::Entry(name@)),
    {
        if let WalkPhase::ReadDir = self.phase {
            let n: usize = self.frames.len();
            if n > 0 {
                let dir = self.frames[n - 1].as_slice();
                let path = if n == 1 && self.opts.has_mask != 0 {
                    child_path(squeeze_trailing_slashes(dir).as_slice(), name)
                } else {
                    child_path(dir, name)
                };
                assert(path@ == crate::paths::joined(self@.entries_dir(), name@));
                if has_nul(path.as_slice()) {
                    self.next_entry();
                } else {
                    self.path = path;
                    self.hidden = starts_with_dot(name);
                    self.dots = is_dot(name);
                    self.phase = WalkPhase::StatEntry;
                }
            }
        }
    }

    /// The end of the directory, with the errno of `readdir`, 0 for a clean end.
    pub fn on_end(&mut self, errno: i32)
        ensures
            final(self)@ == old(self)@.step(WalkEvent::End(errno)),
    {
        if let WalkPhase::ReadDir = self.phase {
            self.phase = if errno == 0 {
                WalkPhase::CloseDir
            } else {
                WalkPhase::ReportDir(errno)
            };
        }
    }

    /// How the write of a section header or section end went. A header that
    /// cannot be written ends its directory.
    pub fn write_header_part(&mut self, r: WriteResult)
        ensures
            final(self)@ == old(self)@.step(WalkEvent::Written(r)),
    {
        match self.phase {
            WalkPhase::Header => match r {
                WriteResult::Done => self.enter_subdir(),
                WriteResult::BrokenPipe => {
                    self.pipe_broken = true;
                    self.release(WalkPhase::CloseDir);
                },
                WriteResult::Failed => self.release(WalkPhase::CloseDir),
            },
            WalkPhase::Trailer => {
                if let WriteResult::BrokenPipe = r {
                    self.pipe_broken = true;
                }
                self.next_entry();
            },
            _ => {},
        }
    }

    /// The pending diagnostic was reported, or the directory closed.
    pub fn on_done(&mut self)
        ensures
            final(self)@ == old(self)@.step(WalkEvent::Done),
    {
        match self.phase {
            WalkPhase::ReportArg(_) => self.release(WalkPhase::Idle),
            WalkPhase::ReportDir(_) => {
                self.phase = WalkPhase::CloseDir;
            },
            WalkPhase::ReportEntry(_) => self.next_entry(),
            WalkPhase::CloseDir => {
                if self.frames.len() <= 1 {
                    self.frames = Vec::new();
                    assert(self@.frames =~= seq![]);
                    self.release(WalkPhase::Idle);
                } else {
                    let ghost before = self.frames@;
                    let _ = self.frames.pop();
                    assert(frame_paths(self.frames@) =~= frame_paths(before).drop_last());
                    self.after_subdir();
                }
            },
            _ => {},
        }
    }
}

} // verus!
