//! Listing one file: open it, read its attributes and, where asked for, its
//! project and generation, apply the filter, and emit one row.
//!
//! [`ListOne`] makes the decisions. Its phase says which system call or write
//! comes next; the caller performs it and hands the outcome to the method that
//! answers the phase. An answer to any other phase is ignored.

use vstd::prelude::*;
use vstd::slice::slice_to_vec;

use crate::errors::{WriteResult, EINVAL, ENOTTY, ENXIO};
use crate::format::write_line;
use crate::paths::has_nul;
use crate::report::Diagnostic;
use crate::walk::Opts;

verus! {

/// File type bits of `st_mode`.
pub const S_IFMT: u32 = 0o170000;

/// File type of a directory.
pub const S_IFDIR: u32 = 0o040000;

/// File type of a regular file.
pub const S_IFREG: u32 = 0o100000;

/// `mode` is that of a directory.
pub open spec fn mode_is_dir(mode: u32) -> bool {
    mode & S_IFMT == S_IFDIR
}

/// `mode` is that of a regular file.
pub open spec fn mode_is_regular(mode: u32) -> bool {
    mode & S_IFMT == S_IFREG
}

/// Whether `mode` is that of a directory.
pub fn is_dir(mode: u32) -> (r: bool)
    ensures
        r == mode_is_dir(mode),
{
    mode & S_IFMT == S_IFDIR
}

/// The errno numbers of this listing that differ between architectures.
#[derive(Clone, Copy, PartialEq, Eq, Debug, Structural)]
pub struct ErrnoCodes {
    pub eloop: i32,
    pub eopnotsupp: i32,
}

/// The values of ELOOP on Linux: that of SPARC, that of MIPS, and the one that
/// all other architectures share.
pub open spec fn is_eloop(code: i32) -> bool {
    code == 40 || code == 62 || code == 90
}

/// The values of EOPNOTSUPP on Linux: that of SPARC, that of MIPS, and the one
/// that all other architectures share.
pub open spec fn is_eopnotsupp(code: i32) -> bool {
    code == 95 || code == 45 || code == 122
}

/// Reads the constant `libc::ELOOP`. Claimed is that it has one of its values
/// on Linux; which one depends on the architecture that is compiled for.
#[verifier::external_body]
fn libc_eloop() -> (code: i32)
    ensures
        is_eloop(code),
{
    libc::ELOOP
}

/// Reads the constant `libc::EOPNOTSUPP`. Claimed is that it has one of its
/// values on Linux; which one depends on the architecture that is compiled for.
#[verifier::external_body]
fn libc_eopnotsupp() -> (code: i32)
    ensures
        is_eopnotsupp(code),
{
    libc::EOPNOTSUPP
}

/// How the listing of one file ended.
#[derive(Clone, Copy, PartialEq, Eq, Debug, Structural)]
pub enum Listing {
    /// A row was written, or the filter left the file out.
    Handled,
    /// An error was reported.
    Reported,
    /// The output pipe is closed.
    PipeClosed,
}

/// What a listing waits for.
#[derive(Clone, Copy, PartialEq, Eq, Debug, Structural)]
pub enum ListPhase {
    /// Open the file, neither following links nor blocking.
    Open,
    /// `fstat` the open file.
    Stat,
    /// `FS_IOC_GETFLAGS`.
    GetFlags,
    /// `FS_IOC_FSGETXATTR`.
    GetProject,
    /// `FS_IOC_GETVERSION`.
    GetVersion,
    /// Write the row.
    Write,
    /// Report a diagnostic with an errno as its cause.
    Report(Diagnostic, i32),
    /// Report that the row could not be written.
    WarnWrite,
    /// Nothing: this is how the listing ended.
    Finished(Listing),
}

/// The answers that a listing can get.
pub enum ListEvent {
    Opened(Result<(), i32>),
    Mode(Option<u32>),
    Flags(Result<u64, i32>),
    Project(Result<u32, i32>),
    Version(Result<u64, i32>),
    Written(WriteResult),
    Reported,
}

/// A listing, as the contracts see it.
pub struct ListState {
    pub opts: Opts,
    pub codes: ErrnoCodes,
    pub path: Seq<u8>,
    pub phase: ListPhase,
    pub flags: u32,
    pub project: Option<u32>,
    pub generation: Option<u64>,
}

impl ListState {
    /// The listing of `path` before its first step. A path with a NUL byte
    /// cannot be opened.
    pub open spec fn start(path: Seq<u8>, opts: Opts, codes: ErrnoCodes) -> ListState {
        ListState {
            opts,
            codes,
            path,
            phase: if crate::paths::has_nul_byte(path) {
                ListPhase::Report(Diagnostic::Flags, EINVAL)
            } else {
                ListPhase::Open
            },
            flags: 0,
            project: None,
            generation: None,
        }
    }

    /// The same listing in another phase.
    pub open spec fn goto(self, phase: ListPhase) -> ListState {
        ListState { phase, ..self }
    }

    /// The filter, if there is one, lets `flags` pass.
    pub open spec fn passes(self, flags: u32) -> bool {
        self.opts.has_mask == 0 || crate::flags::has_all(flags, self.opts.has_mask)
    }

    /// What comes once the project is known or not asked for.
    pub open spec fn after_project(self) -> ListPhase {
        if self.opts.generation {
            ListPhase::GetVersion
        } else {
            ListPhase::Write
        }
    }

    /// What comes once the flags are known.
    pub open spec fn after_flags(self, flags: u32) -> ListPhase {
        if !self.passes(flags) {
            ListPhase::Finished(Listing::Handled)
        } else if self.opts.project {
            ListPhase::GetProject
        } else {
            self.after_project()
        }
    }

    /// The errno under which a failed open is reported.
    pub open spec fn open_errno(self, e: i32) -> i32 {
        if e == self.codes.eloop || e == ENXIO {
            self.codes.eopnotsupp
        } else {
            e
        }
    }

    /// The errno under which a failed flags read is reported.
    pub open spec fn flags_errno(self, e: i32) -> i32 {
        if e == ENOTTY {
            self.codes.eopnotsupp
        } else {
            e
        }
    }

    /// The row of the file.
    pub open spec fn row(self) -> Seq<u8> {
        crate::format::line(
            self.flags,
            self.path,
            self.opts.long,
            self.opts.paths_only,
            self.project,
            self.generation,
        )
    }

    /// The listing after the answer `event`.
    pub open spec fn step(self, event: ListEvent) -> ListState {
        match (self.phase, event) {
            (ListPhase::Open, ListEvent::Opened(Ok(()))) => self.goto(ListPhase::Stat),
            (ListPhase::Open, ListEvent::Opened(Err(e))) => self.goto(
                ListPhase::Report(Diagnostic::Flags, self.open_errno(e)),
            ),
            (ListPhase::Stat, ListEvent::Mode(mode)) => match mode {
                Some(m) if !mode_is_regular(m) && !mode_is_dir(m) => self.goto(
                    ListPhase::Report(Diagnostic::Flags, self.codes.eopnotsupp),
                ),
                _ => self.goto(ListPhase::GetFlags),
            },
            (ListPhase::GetFlags, ListEvent::Flags(Ok(raw))) => {
                let flags = (raw % 0x1_0000_0000) as u32;
                ListState { flags, phase: self.after_flags(flags), ..self }
            },
            (ListPhase::GetFlags, ListEvent::Flags(Err(e))) => self.goto(
                ListPhase::Report(Diagnostic::Flags, self.flags_errno(e)),
            ),
            (ListPhase::GetProject, ListEvent::Project(Ok(p))) => ListState {
                project: Some(p),
                phase: self.after_project(),
                ..self
            },
            (ListPhase::GetProject, ListEvent::Project(Err(e))) => self.goto(
                ListPhase::Report(Diagnostic::Project, e),
            ),
            (ListPhase::GetVersion, ListEvent::Version(Ok(raw))) => ListState {
                generation: Some((raw % 0x1_0000_0000) as u64),
                phase: ListPhase::Write,
                ..self
            },
            (ListPhase::GetVersion, ListEvent::Version(Err(e))) => self.goto(
                ListPhase::Report(Diagnostic::Version, e),
            ),
            (ListPhase::Write, ListEvent::Written(r)) => self.goto(
                match r {
                    WriteResult::Done => ListPhase::Finished(Listing::Handled),
                    WriteResult::BrokenPipe => ListPhase::Finished(Listing::PipeClosed),
                    WriteResult::Failed => ListPhase::WarnWrite,
                },
            ),
            (ListPhase::Report(_, _), ListEvent::Reported) => self.goto(
                ListPhase::Finished(Listing::Reported),
            ),
            (ListPhase::WarnWrite, ListEvent::Reported) => self.goto(
                ListPhase::Finished(Listing::Reported),
            ),
            _ => self,
        }
    }
}

/// The listing of one file.
pub struct ListOne {
    opts: Opts,
    codes: ErrnoCodes,
    path: Vec<u8>,
    phase: ListPhase,
    flags: u32,
    project: Option<u32>,
    generation: Option<u64>,
}

impl View for ListOne {
    type V = ListState;

    closed spec fn view(&self) -> ListState {
        ListState {
            opts: self.opts,
            codes: self.codes,
            path: self.path@,
            phase: self.phase,
            flags: self.flags,
            project: self.project,
            generation: self.generation,
        }
    }
}

impl ListOne {
    /// Begin to list `path`, with the errno numbers of this architecture.
    pub fn new(path: &[u8], opts: &Opts) -> (list: ListOne)
        ensures
            list@ == ListState::start(path@, *opts, list@.codes),
            is_eloop(list@.codes.eloop),
            is_eopnotsupp(list@.codes.eopnotsupp),
    {
        ListOne::with_codes(
            path,
            opts,
            ErrnoCodes { eloop: libc_eloop(), eopnotsupp: libc_eopnotsupp() },
        )
    }

    /// Begin to list `path`, with the given errno numbers.
    pub fn with_codes(path: &[u8], opts: &Opts, codes: ErrnoCodes) -> (list: ListOne)
        ensures
            list@ == ListState::start(path@, *opts, codes),
    {
        let phase = if has_nul(path) {
            ListPhase::Report(Diagnostic::Flags, EINVAL)
        } else {
            ListPhase::Open
        };
        ListOne {
            opts: *opts,
            codes,
            path: slice_to_vec(path),
            phase,
            flags: 0,
            project: None,
            generation: None,
        }
    }

    /// What the listing waits for.
    pub fn phase(&self) -> (phase: ListPhase)
        ensures
            phase == self@.phase,
    {
        self.phase
    }

    /// The row to write.
    pub fn row(&self) -> (row: Vec<u8>)
        ensures
            row@ == self@.row(),
    {
        let mut row: Vec<u8> = Vec::new();
        write_line(
            &mut row,
            self.flags,
            self.path.as_slice(),
            self.opts.long,
            self.opts.paths_only,
            self.project,
            self.generation,
        );
        assert(row@ =~= self@.row());
        row
    }

    /// The phase once the project is known or not asked for.
    fn phase_after_project(&self) -> (phase: ListPhase)
        ensures
            phase == self@.after_project(),
    {
        if self.opts.generation {
            ListPhase::GetVersion
        } else {
            ListPhase::Write
        }
    }

    /// The file was opened, or open failed with an errno.
    pub fn on_open(&mut self, r: Result<(), i32>)
        ensures
            final(self)@ == old(self)@.step(ListEvent::Opened(r)),
    {
        if let ListPhase::Open = self.phase {
            match r {
                Ok(()) => {
                    self.phase = ListPhase::Stat;
                },
                Err(e) => {
                    let mapped: i32 = if e == self.codes.eloop || e == ENXIO {
                        self.codes.eopnotsupp
                    } else {
                        e
                    };
                    self.phase = ListPhase::Report(Diagnostic::Flags, mapped);
                },
            }
        }
    }

    /// The mode of the open file, if `fstat` gave one.
    pub fn on_stat(&mut self, mode: Option<u32>)
        ensures
            final(self)@ == old(self)@.step(ListEvent::Mode(mode)),
    {
        if let ListPhase::Stat = self.phase {
            let accepted = match mode {
                Some(m) => m & S_IFMT == S_IFREG || m & S_IFMT == S_IFDIR,
                None => true,
            };
            self.phase = if accepted {
                ListPhase::GetFlags
            } else {
                ListPhase::Report(Diagnostic::Flags, self.codes.eopnotsupp)
            };
        }
    }

    /// The attribute word, or the errno of the ioctl. The kernel fills in the
    /// low 32 bits only.
    pub fn on_flags(&mut self, r: Result<u64, i32>)
        ensures
            final(self)@ == old(self)@.step(ListEvent::Flags(r)),
    {
        if let ListPhase::GetFlags = self.phase {
            match r {
                Ok(raw) => {
                    let flags = (raw % 0x1_0000_0000) as u32;
                    self.flags = flags;
                    let mask = self.opts.has_mask;
                    self.phase = if mask != 0 && flags & mask != mask {
                        ListPhase::Finished(Listing::Handled)
                    } else if self.opts.project {
                        ListPhase::GetProject
                    } else {
                        self.phase_after_project()
                    };
                },
                Err(e) => {
                    let mapped: i32 = if e == ENOTTY {
                        self.codes.eopnotsupp
                    } else {
                        e
                    };
                    self.phase = ListPhase::Report(Diagnostic::Flags, mapped);
                },
            }
        }
    }

    /// The project of the file, or the errno of the ioctl.
    pub fn on_project(&mut self, r: Result<u32, i32>)
        ensures
            final(self)@ == old(self)@.step(ListEvent::Project(r)),
    {
        if let ListPhase::GetProject = self.phase {
            match r {
                Ok(p) => {
                    self.project = Some(p);
                    self.phase = self.phase_after_project();
                },
                Err(e) => {
                    self.phase = ListPhase::Report(Diagnostic::Project, e);
                },
            }
        }
    }

    /// The generation of the file, or the errno of the ioctl. The kernel fills
    /// in the low 32 bits only.
    pub fn on_version(&mut self, r: Result<u64, i32>)
        ensures
            final(self)@ == old(self)@.step(ListEvent::Version(r)),
    {
        if let ListPhase::GetVersion = self.phase {
            match r {
                Ok(raw) => {
                    self.generation = Some(raw % 0x1_0000_0000);
                    self.phase = ListPhase::Write;
                },
                Err(e) => {
                    self.phase = ListPhase::Report(Diagnostic::Version, e);
                },
            }
        }
    }

    /// How the write of the row went.
    pub fn on_written(&mut self, r: WriteResult)
        ensures
            final(self)@ == old(self)@.step(ListEvent::Written(r)),
    {
        if let ListPhase::Write = self.phase {
            self.phase = match r {
                WriteResult::Done => ListPhase::Finished(Listing::Handled),
                WriteResult::BrokenPipe => ListPhase::Finished(Listing::PipeClosed),
                WriteResult::Failed => ListPhase::WarnWrite,
            };
        }
    }

    /// The pending diagnostic was reported.
    pub fn on_reported(&mut self)
        ensures
            final(self)@ == old(self)@.step(ListEvent::Reported),
    {
        match self.phase {
            ListPhase::Report(_, _) | ListPhase::WarnWrite => {
                self.phase = ListPhase::Finished(Listing::Reported);
            },
            _ => {},
        }
    }
}

/// What the system would answer about one file, whatever it is asked.
pub struct Probe {
    pub open: Result<(), i32>,
    pub mode: Option<u32>,
    pub flags: Result<u64, i32>,
    pub project: Result<u32, i32>,
    pub version: Result<u64, i32>,
    pub write: WriteResult,
}

/// What a listing does that can be seen from outside.
pub enum ListEffect {
    Row(Seq<u8>),
    Report(Diagnostic, i32),
    WarnWrite,
}

/// The answer of a system that behaves as `probe` says.
pub open spec fn answer(phase: ListPhase, probe: Probe) -> ListEvent {
    match phase {
        ListPhase::Open => ListEvent::Opened(probe.open),
        ListPhase::Stat => ListEvent::Mode(probe.mode),
        ListPhase::GetFlags => ListEvent::Flags(probe.flags),
        ListPhase::GetProject => ListEvent::Project(probe.project),
        ListPhase::GetVersion => ListEvent::Version(probe.version),
        ListPhase::Write => ListEvent::Written(probe.write),
        _ => ListEvent::Reported,
    }
}

/// What can be seen of the phase that `s` is in.
pub open spec fn list_effect(s: ListState) -> Seq<ListEffect> {
    match s.phase {
        ListPhase::Write => seq![ListEffect::Row(s.row())],
        ListPhase::Report(d, e) => seq![ListEffect::Report(d, e)],
        ListPhase::WarnWrite => seq![ListEffect::WarnWrite],
        _ => seq![],
    }
}

/// `n` steps against a system that behaves as `probe` says: the listing after
/// them, and what could be seen.
pub open spec fn list_run(s: ListState, probe: Probe, n: nat) -> (ListState, Seq<ListEffect>)
    decreases n,
{
    if n == 0 {
        (s, seq![])
    } else {
        let (t, rest) = list_run(s.step(answer(s.phase, probe)), probe, (n - 1) as nat);
        (t, list_effect(s) + rest)
    }
}

/// The outcome of a listing that ends in a report.
pub open spec fn reported(d: Diagnostic, e: i32) -> (Listing, Seq<ListEffect>) {
    (Listing::Reported, seq![ListEffect::Report(d, e)])
}

/// How the listing of `path` ends, and what can be seen of it: the first thing
/// that fails is reported, a file that the filter leaves out shows nothing, and
/// any other file shows one row.
pub open spec fn list_outcome(path: Seq<u8>, opts: Opts, codes: ErrnoCodes, probe: Probe) -> (
    Listing,
    Seq<ListEffect>,
) {
    let refused = |e: i32, special: bool| if special { codes.eopnotsupp } else { e };
    if crate::paths::has_nul_byte(path) {
        reported(Diagnostic::Flags, EINVAL)
    } else if let Err(e) = probe.open {
        reported(Diagnostic::Flags, refused(e, e == codes.eloop || e == ENXIO))
    } else if probe.mode is Some && !mode_is_regular(probe.mode->0) && !mode_is_dir(
        probe.mode->0,
    ) {
        reported(Diagnostic::Flags, codes.eopnotsupp)
    } else if let Err(e) = probe.flags {
        reported(Diagnostic::Flags, refused(e, e == ENOTTY))
    } else {
        let flags = (probe.flags->Ok_0 % 0x1_0000_0000) as u32;
        if opts.has_mask != 0 && !crate::flags::has_all(flags, opts.has_mask) {
            (Listing::Handled, seq![])
        } else if opts.project && probe.project is Err {
            reported(Diagnostic::Project, probe.project->Err_0)
        } else if opts.generation && probe.version is Err {
            reported(Diagnostic::Version, probe.version->Err_0)
        } else {
            let row = ListEffect::Row(
                crate::format::line(
                    flags,
                    path,
                    opts.long,
                    opts.paths_only,
                    if opts.project {
                        Some(probe.project->Ok_0)
                    } else {
                        None
                    },
                    if opts.generation {
                        Some((probe.version->Ok_0 % 0x1_0000_0000) as u64)
                    } else {
                        None
                    },
                ),
            );
            match probe.write {
                WriteResult::Done => (Listing::Handled, seq![row]),
                WriteResult::BrokenPipe => (Listing::PipeClosed, seq![row]),
                WriteResult::Failed => (Listing::Reported, seq![row, ListEffect::WarnWrite]),
            }
        }
    }
}

/// The outcome of a listing that is about to write its row.
spec fn from_write(s: ListState, probe: Probe) -> (Listing, Seq<ListEffect>) {
    let row = ListEffect::Row(s.row());
    match probe.write {
        WriteResult::Done => (Listing::Handled, seq![row]),
        WriteResult::BrokenPipe => (Listing::PipeClosed, seq![row]),
        WriteResult::Failed => (Listing::Reported, seq![row, ListEffect::WarnWrite]),
    }
}

/// The outcome of a listing whose project is settled.
spec fn from_version(s: ListState, probe: Probe) -> (Listing, Seq<ListEffect>) {
    if !s.opts.generation {
        from_write(s, probe)
    } else {
        match probe.version {
            Err(e) => reported(Diagnostic::Version, e),
            Ok(raw) => from_write(
                ListState { generation: Some((raw % 0x1_0000_0000) as u64), ..s },
                probe,
            ),
        }
    }
}

/// The outcome of a listing whose flags have passed the filter.
spec fn from_project(s: ListState, probe: Probe) -> (Listing, Seq<ListEffect>) {
    if !s.opts.project {
        from_version(s, probe)
    } else {
        match probe.project {
            Err(e) => reported(Diagnostic::Project, e),
            Ok(p) => from_version(ListState { project: Some(p), ..s }, probe),
        }
    }
}

/// The listing `s` comes to the end `outcome` within `n` steps.
spec fn comes_to(
    s: ListState,
    probe: Probe,
    n: nat,
    outcome: (Listing, Seq<ListEffect>),
) -> bool {
    let (t, seen) = list_run(s, probe, n);
    t.phase == ListPhase::Finished(outcome.0) && seen =~= outcome.1
}

proof fn lemma_finished(s: ListState, probe: Probe, n: nat, listing: Listing)
    requires
        s.phase == ListPhase::Finished(listing),
    ensures
        comes_to(s, probe, n, (listing, seq![])),
    decreases n,
{
    if n > 0 {
        lemma_finished(s, probe, (n - 1) as nat, listing);
    }
}

proof fn lemma_reported(s: ListState, probe: Probe, n: nat)
    requires
        s.phase is Report || s.phase is WarnWrite,
        n >= 1,
    ensures
        comes_to(s, probe, n, (Listing::Reported, list_effect(s))),
{
    let t = s.step(answer(s.phase, probe));
    lemma_finished(t, probe, (n - 1) as nat, Listing::Reported);
}

proof fn lemma_write(s: ListState, probe: Probe, n: nat)
    requires
        s.phase is Write,
        n >= 2,
    ensures
        comes_to(s, probe, n, from_write(s, probe)),
{
    let t = s.step(answer(s.phase, probe));
    match probe.write {
        WriteResult::Done => lemma_finished(t, probe, (n - 1) as nat, Listing::Handled),
        WriteResult::BrokenPipe => lemma_finished(t, probe, (n - 1) as nat, Listing::PipeClosed),
        WriteResult::Failed => lemma_reported(t, probe, (n - 1) as nat),
    }
}

proof fn lemma_after_project(s: ListState, probe: Probe, n: nat)
    requires
        s.phase == s.after_project(),
        n >= 3,
    ensures
        comes_to(s, probe, n, from_version(s, probe)),
{
    if !s.opts.generation {
        lemma_write(s, probe, n);
    } else {
        let t = s.step(answer(s.phase, probe));
        match probe.version {
            Err(e) => lemma_reported(t, probe, (n - 1) as nat),
            Ok(raw) => {
                lemma_write(t, probe, (n - 1) as nat);
                assert(t.row() == ListState {
                    generation: Some((raw % 0x1_0000_0000) as u64),
                    ..s
                }.row());
            },
        }
    }
}

proof fn lemma_after_filter(s: ListState, probe: Probe, n: nat)
    requires
        s.passes(s.flags),
        s.phase == s.after_flags(s.flags),
        n >= 4,
    ensures
        comes_to(s, probe, n, from_project(s, probe)),
{
    if !s.opts.project {
        lemma_after_project(s, probe, n);
    } else {
        let t = s.step(answer(s.phase, probe));
        match probe.project {
            Err(e) => lemma_reported(t, probe, (n - 1) as nat),
            Ok(p) => lemma_after_project(t, probe, (n - 1) as nat),
        }
    }
}

/// Every listing ends within eight steps, and ends and shows what
/// `list_outcome` says.
pub proof fn law_listing_outcome(path: Seq<u8>, opts: Opts, codes: ErrnoCodes, probe: Probe)
    ensures
        ({
            let (t, seen) = list_run(ListState::start(path, opts, codes), probe, 8);
            let (listing, expected) = list_outcome(path, opts, codes, probe);
            t.phase == ListPhase::Finished(listing) && seen == expected
        }),
{
    let s0 = ListState::start(path, opts, codes);
    let s1 = s0.step(answer(s0.phase, probe));
    let s2 = s1.step(answer(s1.phase, probe));
    let s3 = s2.step(answer(s2.phase, probe));
    let expected = list_outcome(path, opts, codes, probe);
    if crate::paths::has_nul_byte(path) {
        lemma_reported(s0, probe, 8);
    } else if probe.open is Err {
        lemma_reported(s1, probe, 7);
    } else if s2.phase is Report {
        lemma_reported(s2, probe, 6);
        assert(list_run(s1, probe, 7).1 =~= list_run(s2, probe, 6).1);
    } else {
        match probe.flags {
            Err(e) => lemma_reported(s3, probe, 5),
            Ok(raw) => if s3.passes(s3.flags) {
                lemma_after_filter(s3, probe, 5);
            } else {
                lemma_finished(s3, probe, 5, Listing::Handled);
            },
        }
        assert(list_run(s2, probe, 6).1 =~= list_run(s3, probe, 5).1);
        assert(list_run(s1, probe, 7).1 =~= list_run(s2, probe, 6).1);
    }
    assert(list_run(s0, probe, 8).1 =~= list_effect(s0) + list_run(s1, probe, 7).1);
    assert(comes_to(s0, probe, 8, expected));
}

/// A listing with a filter prints a row only for a file that has all the bits
/// of the filter, and then only one.
pub proof fn law_only_matching_files_are_listed(
    path: Seq<u8>,
    opts: Opts,
    codes: ErrnoCodes,
    probe: Probe,
    row: Seq<u8>,
)
    requires
        opts.has_mask != 0,
        list_outcome(path, opts, codes, probe).1.contains(ListEffect::Row(row)),
    ensures
        probe.flags is Ok,
        crate::flags::has_all((probe.flags->Ok_0 % 0x1_0000_0000) as u32, opts.has_mask),
        list_outcome(path, opts, codes, probe).1[0] == ListEffect::Row(row),
{
    let effects = list_outcome(path, opts, codes, probe).1;
    let i = choose|i: int| 0 <= i < effects.len() && effects[i] == ListEffect::Row(row);
    assert(effects[i] == ListEffect::Row(row));
}

/// The type bits of a mode alone say what it is the mode of, whatever the
/// permissions beside them: of the types, `0o100000` is a regular file and
/// `0o040000` a directory.
pub proof fn law_mode_types(kind: u32, permissions: u32)
    requires
        kind & !0o170000u32 == 0,
        permissions & 0o170000 == 0,
    ensures
        mode_is_regular(kind | permissions) <==> kind == 0o100000,
        mode_is_dir(kind | permissions) <==> kind == 0o040000,
{
    assert((kind | permissions) & 0o170000 == kind) by (bit_vector)
        requires
            kind & !0o170000u32 == 0,
            permissions & 0o170000 == 0,
    ;
}

/// A file that could be opened is asked for its flags if it is a regular file
/// or a directory, with any permissions, or if nothing is known of its mode. A
/// file of any other type is refused.
pub proof fn law_file_type_decides(s: ListState, kind: u32, permissions: u32)
    requires
        s.phase is Stat,
        kind & !0o170000u32 == 0,
        permissions & 0o170000 == 0,
    ensures
        s.step(ListEvent::Mode(None)) == (ListState { phase: ListPhase::GetFlags, ..s }),
        kind == 0o100000 || kind == 0o040000 ==> s.step(ListEvent::Mode(Some(kind | permissions)))
            == (ListState { phase: ListPhase::GetFlags, ..s }),
        kind != 0o100000 && kind != 0o040000 ==> s.step(ListEvent::Mode(Some(kind | permissions)))
            == (ListState {
            phase: ListPhase::Report(Diagnostic::Flags, s.codes.eopnotsupp),
            ..s
        }),
{
    law_mode_types(kind, permissions);
}

/// The listing of `path` against `probe` from its start to its end: how it
/// ends, and what can be seen of it.
pub open spec fn listed(path: Seq<u8>, opts: Opts, codes: ErrnoCodes, probe: Probe) -> (
    ListPhase,
    Seq<ListEffect>,
) {
    let (t, seen) = list_run(ListState::start(path, opts, codes), probe, 8);
    (t.phase, seen)
}

/// A mode that lists: of a regular file, of a directory, or not known.
pub open spec fn lists(mode: Option<u32>) -> bool {
    match mode {
        None => true,
        Some(m) => m & 0o170000 == 0o100000 || m & 0o170000 == 0o040000,
    }
}

/// The number whose low half is `word`, whatever the upper half holds.
pub open spec fn wide(upper: u32, word: u32) -> u64 {
    (upper * 0x1_0000_0000 + word) as u64
}

/// A file that can be opened and read is shown as one row with the low 32 bits
/// of its flags, with its project and its generation where they are asked for,
/// unless a filter asks for a bit that its flags do not have: then nothing is
/// shown, and nothing more is asked.
pub proof fn law_readable_file_is_shown(
    path: Seq<u8>,
    opts: Opts,
    codes: ErrnoCodes,
    probe: Probe,
    upper: u32,
    flags: u32,
    upper_generation: u32,
    generation: u32,
)
    requires
        forall|i: int| 0 <= i < path.len() ==> #[trigger] path[i] != 0,
        probe.open is Ok,
        lists(probe.mode),
        probe.flags == Ok::<u64, i32>(wide(upper, flags)),
    ensures
        ({
            let (end, seen) = listed(path, opts, codes, probe);
            let row = ListEffect::Row(
                crate::format::line(
                    flags,
                    path,
                    opts.long,
                    opts.paths_only,
                    if opts.project {
                        Some(probe.project->Ok_0)
                    } else {
                        None
                    },
                    if opts.generation {
                        Some(generation as u64)
                    } else {
                        None
                    },
                ),
            );
            if opts.has_mask != 0 && !crate::flags::sets_every_bit(flags, opts.has_mask) {
                end == ListPhase::Finished(Listing::Handled) && seen.len() == 0
            } else {
                let has_project = opts.project ==> probe.project is Ok;
                let has_generation = opts.generation ==> probe.version == Ok::<u64, i32>(
                    wide(upper_generation, generation),
                );
                has_project && has_generation ==> {
                    &&& probe.write is Done ==> end == ListPhase::Finished(Listing::Handled) && seen
                        == seq![row]
                    &&& probe.write is BrokenPipe ==> end == ListPhase::Finished(
                        Listing::PipeClosed,
                    ) && seen == seq![row]
                    &&& probe.write is Failed ==> end == ListPhase::Finished(Listing::Reported)
                        && seen == seq![row, ListEffect::WarnWrite]
                }
            }
        }),
{
    law_listing_outcome(path, opts, codes, probe);
    crate::flags::law_filter_is_bitwise(flags, opts.has_mask);
    assert(wide(upper, flags) % 0x1_0000_0000 == flags);
    assert(wide(upper_generation, generation) % 0x1_0000_0000 == generation);
    assert(list_outcome(path, opts, codes, probe).1 =~= listed(path, opts, codes, probe).1);
}

/// A file that cannot be listed is reported once, with what failed first and
/// its errno, and shows no row. A path with a zero byte is invalid (22). A link
/// or an unopenable device (6) and a file without attributes (25) are reported
/// as not supported, and so is a file of another type.
pub proof fn law_unreadable_file_is_reported(
    path: Seq<u8>,
    opts: Opts,
    codes: ErrnoCodes,
    probe: Probe,
    upper: u32,
    flags: u32,
    e: i32,
)
    ensures
        ({
            let seen = listed(path, opts, codes, probe);
            let clean = forall|i: int| 0 <= i < path.len() ==> #[trigger] path[i] != 0;
            let opened = clean && probe.open is Ok;
            let plain = opened && lists(probe.mode);
            let passed = plain && probe.flags == Ok::<u64, i32>(wide(upper, flags)) && (
            opts.has_mask == 0 || crate::flags::sets_every_bit(flags, opts.has_mask));
            let failed = |d: Diagnostic, e: i32|
                (ListPhase::Finished(Listing::Reported), seq![ListEffect::Report(d, e)]);
            &&& !clean ==> seen == failed(Diagnostic::Flags, 22)
            &&& clean && probe.open == Err::<(), i32>(e) && e != codes.eloop && e != 6 ==> seen
                == failed(Diagnostic::Flags, e)
            &&& clean && probe.open == Err::<(), i32>(e) && (e == codes.eloop || e == 6) ==> seen
                == failed(Diagnostic::Flags, codes.eopnotsupp)
            &&& opened && !lists(probe.mode) ==> seen == failed(Diagnostic::Flags, codes.eopnotsupp)
            &&& plain && probe.flags == Err::<u64, i32>(e) && e != 25 ==> seen == failed(
                Diagnostic::Flags,
                e,
            )
            &&& plain && probe.flags == Err::<u64, i32>(25) ==> seen == failed(
                Diagnostic::Flags,
                codes.eopnotsupp,
            )
            &&& passed && opts.project && probe.project == Err::<u32, i32>(e) ==> seen == failed(
                Diagnostic::Project,
                e,
            )
            &&& passed && (opts.project ==> probe.project is Ok) && opts.generation && probe.version
                == Err::<u64, i32>(e) ==> seen == failed(Diagnostic::Version, e)
        }),
{
    law_listing_outcome(path, opts, codes, probe);
    crate::flags::law_filter_is_bitwise(flags, opts.has_mask);
    crate::paths::law_names_by_bytes(path);
    assert(wide(upper, flags) % 0x1_0000_0000 == flags);
}

/// Project and generation are asked for only where they are shown, and no
/// question is asked of a file that the filter leaves out or that was reported.
pub proof fn law_questions_of_a_listing(s: ListState, upper: u32, flags: u32, project: u32)
    ensures
        s.phase is GetFlags ==> ({
            let t = s.step(ListEvent::Flags(Ok(wide(upper, flags))));
            let passes = s.opts.has_mask == 0 || crate::flags::sets_every_bit(
                flags,
                s.opts.has_mask,
            );
            &&& t.flags == flags
            &&& t.phase is GetProject <==> passes && s.opts.project
            &&& t.phase is GetVersion <==> passes && !s.opts.project && s.opts.generation
            &&& t.phase is Write <==> passes && !s.opts.project && !s.opts.generation
            &&& t.phase == ListPhase::Finished(Listing::Handled) <==> !passes
        }),
        s.phase is GetProject ==> ({
            let t = s.step(ListEvent::Project(Ok(project)));
            &&& t.project == Some(project)
            &&& t.phase is GetVersion <==> s.opts.generation
            &&& t.phase is Write <==> !s.opts.generation
        }),
{
    crate::flags::law_filter_is_bitwise(flags, s.opts.has_mask);
    assert(wide(upper, flags) % 0x1_0000_0000 == flags);
}

/// A listing takes no answer to a question that it has not asked.
pub proof fn law_unasked_answers_change_nothing(s: ListState, event: ListEvent)
    requires
        match event {
            ListEvent::Opened(_) => !(s.phase is Open),
            ListEvent::Mode(_) => !(s.phase is Stat),
            ListEvent::Flags(_) => !(s.phase is GetFlags),
            ListEvent::Project(_) => !(s.phase is GetProject),
            ListEvent::Version(_) => !(s.phase is GetVersion),
            ListEvent::Written(_) => !(s.phase is Write),
            ListEvent::Reported => !(s.phase is Report) && !(s.phase is WarnWrite),
        },
    ensures
        s.step(event) == s,
{
}

} // verus!
