//! What a whole scan does: the laws that tie the steps of a
//! [`Scanner`](crate::scan::Scanner) to the tree of directories and nested
//! subvolumes it looks through.

use vstd::prelude::*;

use crate::errors::Error;
use crate::list::Listing;
use crate::scan::{Place, ScanEvent, ScanPhase, ScanState, Stat};
use crate::walk::Opts;

verus! {

/// A directory entry as a scan finds it: its name and type, what `lstat` says,
/// and whether listing it succeeds; for the root of a nested subvolume, how its
/// sweep ends, whether that wrote a row, whether the walk in its place fails,
/// and the root's numbers; for a directory, whether it opens, its entries and
/// the errno at its end.
pub struct ScanEntry {
    pub name: Seq<u8>,
    pub kind: u8,
    pub stat: Option<Stat>,
    pub listed: bool,
    pub swept: Result<(), Error>,
    pub emitted: bool,
    pub walk_err: bool,
    pub root: Option<(u64, u64)>,
    pub opened: Result<(), i32>,
    pub children: Seq<ScanEntry>,
    pub end: i32,
}

/// What a scan does that can be seen from outside.
pub enum ScanEffect {
    Sweep(Place),
    List(Seq<u8>),
    Walk(Seq<u8>),
    WarnFallback(Seq<u8>, Error),
    WarnInvalid(Seq<u8>),
    ReportOpen(Seq<u8>, i32),
    ReportRead(Seq<u8>, i32),
}

/// What a scan remembers: the subvolumes and directories that it has met,
/// whether a sweep wrote a row, and whether something may have been missed.
pub struct Marks {
    pub subvols: Set<u64>,
    pub dirs: Set<(u64, u64)>,
    pub emitted: bool,
    pub had_err: bool,
}

/// What can be seen of the phase that `s` is in.
pub open spec fn scan_effect(s: ScanState) -> Seq<ScanEffect> {
    match s.phase {
        ScanPhase::Sweep => seq![ScanEffect::Sweep(s.hand)],
        ScanPhase::ListEntry => seq![ScanEffect::List(s.hand.dir)],
        ScanPhase::Walk => seq![ScanEffect::Walk(s.hand.dir)],
        ScanPhase::WarnFallback(e) => seq![ScanEffect::WarnFallback(s.hand.dir, e)],
        ScanPhase::WarnInvalid => seq![ScanEffect::WarnInvalid(s.hand.dir)],
        ScanPhase::ReportOpen(e) => seq![ScanEffect::ReportOpen(s.hand.dir, e)],
        ScanPhase::ReportRead(e) => seq![ScanEffect::ReportRead(s.frames.last().dir, e)],
        _ => seq![],
    }
}

/// The scan after the answers `events`, and what could be seen meanwhile.
pub open spec fn scan_run(s: ScanState, events: Seq<ScanEvent>) -> (ScanState, Seq<ScanEffect>)
    decreases events.len(),
{
    if events.len() == 0 {
        (s, seq![])
    } else {
        let (t, rest) = scan_run(s.step(events[0]), events.drop_first());
        (t, scan_effect(s) + rest)
    }
}

impl ScanState {
    /// What the scan remembers.
    pub open spec fn marks(self) -> Marks {
        Marks {
            subvols: self.subvols,
            dirs: self.dirs,
            emitted: self.emitted,
            had_err: self.had_err,
        }
    }

    /// The same scan with other memories.
    pub open spec fn remembering(self, m: Marks) -> ScanState {
        ScanState {
            subvols: m.subvols,
            dirs: m.dirs,
            emitted: m.emitted,
            had_err: m.had_err,
            ..self
        }
    }
}

/// The numbers of the directory at `e`: those that led there, or its own.
pub open spec fn numbers(ids: Option<(u64, u64)>, e: ScanEntry) -> Option<(u64, u64)> {
    match ids {
        Some(_) => ids,
        None => e.root,
    }
}

/// The directory with these numbers has been read.
pub open spec fn met(m: Marks, ids: Option<(u64, u64)>) -> bool {
    match ids {
        Some(i) => m.dirs.contains(i),
        None => false,
    }
}

/// What a scan remembers once it starts to read the directory.
pub open spec fn noted(m: Marks, ids: Option<(u64, u64)>) -> Marks {
    match ids {
        Some(i) => Marks { dirs: m.dirs.insert(i), ..m },
        None => m,
    }
}

/// What a scan remembers once something may have been missed.
pub open spec fn faulted(m: Marks) -> Marks {
    Marks { had_err: true, ..m }
}

/// What a scan does in the directory `place`, whose contents are those of `e`:
/// it looks at each entry, unless it has read the directory before. One that
/// cannot be read to its end is reported and counts as an error.
pub open spec fn scan_dir(m: Marks, place: Place, ids: Option<(u64, u64)>, e: ScanEntry) -> (
    Marks,
    Seq<ScanEffect>,
)
    decreases e, 1int,
{
    if crate::paths::has_nul_byte(place.dir) {
        (faulted(m), seq![ScanEffect::WarnInvalid(place.dir)])
    } else {
        match e.opened {
            Err(x) => (faulted(m), seq![ScanEffect::ReportOpen(place.dir, x)]),
            Ok(_) => if met(m, numbers(ids, e)) {
                (m, seq![])
            } else {
                let (n, effects) = scan_children(noted(m, numbers(ids, e)), place, e.children);
                if e.end == 0 {
                    (n, effects)
                } else {
                    (faulted(n), effects + seq![ScanEffect::ReportRead(place.dir, e.end)])
                }
            },
        }
    }
}

/// What a scan does about the nested subvolume `place`: sweep it and look
/// through its directories, or walk it where it cannot be swept, which counts
/// as an error.
pub open spec fn scan_nested(m: Marks, place: Place, e: ScanEntry) -> (Marks, Seq<ScanEffect>)
    decreases e, 2int,
{
    let n = Marks { emitted: m.emitted || e.emitted, ..m };
    match e.swept {
        Ok(_) => {
            let (k, effects) = scan_dir(n, place, None, e);
            (k, seq![ScanEffect::Sweep(place)] + effects)
        },
        Err(x) => (
            faulted(n),
            seq![
                ScanEffect::Sweep(place),
                ScanEffect::WarnFallback(place.dir, x),
                ScanEffect::Walk(place.dir),
            ],
        ),
    }
}

/// What a scan does about the entry `e` of the directory `top`: it lists the
/// root of a nested subvolume and goes on to the subvolume if that is new, goes
/// into any other directory, and passes over the rest.
pub open spec fn scan_entry(m: Marks, top: Place, e: ScanEntry) -> (Marks, Seq<ScanEffect>)
    decreases e, 3int,
{
    let place = crate::scan::entry_place(top, e.name);
    if !crate::scan::may_lead_on(e.name, e.kind) || crate::paths::has_nul_byte(place.dir) {
        (m, seq![])
    } else {
        match e.stat {
            None => (m, seq![]),
            Some(st) => if !crate::list::mode_is_dir(st.mode) {
                (m, seq![])
            } else if crate::scan::is_nested_root(st, top.dev) {
                let nested = crate::scan::nested_place(place, st.dev);
                if m.subvols.contains(st.dev) {
                    (m, seq![ScanEffect::List(nested.dir)])
                } else {
                    let (n, effects) = scan_nested(
                        Marks { subvols: m.subvols.insert(st.dev), ..m },
                        nested,
                        e,
                    );
                    (n, seq![ScanEffect::List(nested.dir)] + effects)
                }
            } else {
                scan_dir(m, crate::scan::subdir_place(place), Some((st.dev, st.ino)), e)
            },
        }
    }
}

/// What a scan does about the entries `children` of the directory `top`: each
/// in turn.
pub open spec fn scan_children(m: Marks, top: Place, children: Seq<ScanEntry>) -> (
    Marks,
    Seq<ScanEffect>,
)
    decreases children, 0int,
{
    if children.len() == 0 {
        (m, seq![])
    } else {
        let (n, first) = scan_entry(m, top, children[0]);
        let (k, rest) = scan_children(n, top, children.drop_first());
        (k, first + rest)
    }
}

/// How the listing of a subvolume root ended, with the pipe open.
pub open spec fn listing_of(listed: bool) -> Listing {
    if listed {
        Listing::Handled
    } else {
        Listing::Reported
    }
}

/// The answers that a scan gets in the directory `place`.
pub open spec fn dir_events(m: Marks, place: Place, ids: Option<(u64, u64)>, e: ScanEntry) -> Seq<
    ScanEvent,
>
    decreases e, 1int,
{
    if crate::paths::has_nul_byte(place.dir) {
        seq![ScanEvent::Done]
    } else {
        match e.opened {
            Err(_) => seq![ScanEvent::Opened(e.opened), ScanEvent::Done],
            Ok(_) => {
                let opened = seq![ScanEvent::Opened(e.opened)] + (if ids is None {
                    seq![ScanEvent::Ids(e.root)]
                } else {
                    seq![]
                });
                if met(m, numbers(ids, e)) {
                    opened + seq![ScanEvent::Done]
                } else {
                    opened + children_events(noted(m, numbers(ids, e)), place, e.children)
                        + end_events(e.end)
                }
            },
        }
    }
}

/// The answers that a scan gets at the end of a directory.
pub open spec fn end_events(end: i32) -> Seq<ScanEvent> {
    if end == 0 {
        seq![ScanEvent::End(end), ScanEvent::Done]
    } else {
        seq![ScanEvent::End(end), ScanEvent::Done, ScanEvent::Done]
    }
}

/// The answers that a scan gets about the nested subvolume `place`.
pub open spec fn nested_events(m: Marks, place: Place, e: ScanEntry) -> Seq<ScanEvent>
    decreases e, 2int,
{
    match e.swept {
        Ok(_) => seq![ScanEvent::Swept(e.emitted)] + dir_events(
            Marks { emitted: m.emitted || e.emitted, ..m },
            place,
            None,
            e,
        ),
        Err(x) => seq![
            ScanEvent::SweepFailed(x, e.emitted),
            ScanEvent::Done,
            ScanEvent::Walked(e.walk_err, false),
        ],
    }
}

/// The answers that a scan gets about the entry `e` of the directory `top`.
pub open spec fn entry_events(m: Marks, top: Place, e: ScanEntry) -> Seq<ScanEvent>
    decreases e, 3int,
{
    let place = crate::scan::entry_place(top, e.name);
    if !crate::scan::may_lead_on(e.name, e.kind) || crate::paths::has_nul_byte(place.dir) {
        seq![ScanEvent::Entry(e.name, e.kind)]
    } else {
        seq![ScanEvent::Entry(e.name, e.kind), ScanEvent::Stated(e.stat)] + (match e.stat {
            None => seq![],
            Some(st) => if !crate::list::mode_is_dir(st.mode) {
                seq![]
            } else if crate::scan::is_nested_root(st, top.dev) {
                seq![ScanEvent::Listed(listing_of(e.listed))] + (if m.subvols.contains(st.dev) {
                    seq![]
                } else {
                    nested_events(
                        Marks { subvols: m.subvols.insert(st.dev), ..m },
                        crate::scan::nested_place(place, st.dev),
                        e,
                    )
                })
            } else {
                dir_events(m, crate::scan::subdir_place(place), Some((st.dev, st.ino)), e)
            },
        })
    }
}

/// The answers that a scan gets about the entries `children` of `top`.
pub open spec fn children_events(m: Marks, top: Place, children: Seq<ScanEntry>) -> Seq<ScanEvent>
    decreases children, 0int,
{
    if children.len() == 0 {
        seq![]
    } else {
        entry_events(m, top, children[0]) + children_events(
            scan_entry(m, top, children[0]).0,
            top,
            children.drop_first(),
        )
    }
}

/// No sweep at `e` or below ends because the pipe closed.
pub open spec fn pipe_holds(e: ScanEntry) -> bool
    decreases e, 1int,
{
    e.swept != Err::<(), Error>(Error::BrokenPipe) && pipe_holds_in(e.children)
}

/// No sweep at one of the entries or below ends because the pipe closed.
pub open spec fn pipe_holds_in(children: Seq<ScanEntry>) -> bool
    decreases children, 0int,
{
    children.len() == 0 || (pipe_holds(children[0]) && pipe_holds_in(children.drop_first()))
}

proof fn lemma_run_one(s: ScanState, event: ScanEvent, rest: Seq<ScanEvent>)
    ensures
        scan_run(s, seq![event] + rest).0 == scan_run(s.step(event), rest).0,
        scan_run(s, seq![event] + rest).1 == scan_effect(s) + scan_run(s.step(event), rest).1,
{
    assert((seq![event] + rest).drop_first() =~= rest);
}

proof fn lemma_run_concat(s: ScanState, a: Seq<ScanEvent>, b: Seq<ScanEvent>)
    ensures
        scan_run(s, a + b).0 == scan_run(scan_run(s, a).0, b).0,
        scan_run(s, a + b).1 == scan_run(s, a).1 + scan_run(scan_run(s, a).0, b).1,
    decreases a.len(),
{
    if a.len() == 0 {
        assert(a + b =~= b);
        assert(scan_run(s, a).1 + scan_run(s, b).1 =~= scan_run(s, b).1);
    } else {
        assert((a + b).drop_first() =~= a.drop_first() + b);
        lemma_run_concat(s.step(a[0]), a.drop_first(), b);
        assert(scan_run(s, a + b).1 =~= scan_run(s, a).1 + scan_run(scan_run(s, a).0, b).1);
    }
}

proof fn lemma_run_last(s: ScanState, event: ScanEvent)
    ensures
        scan_run(s, seq![event]).0 == s.step(event),
        scan_run(s, seq![event]).1 == scan_effect(s),
{
    lemma_run_one(s, event, seq![]);
    assert(seq![event] + seq![] =~= seq![event]);
    assert(scan_effect(s) + seq![] =~= scan_effect(s));
}

/// The scan asks for the next entry of the directory `top`.
pub open spec fn reads(s: ScanState, top: Place) -> bool {
    &&& s == s.released(ScanPhase::ReadDir)
    &&& s.frames.len() > 0
    &&& s.frames.last() == top
    &&& !s.pipe_broken
}

proof fn lemma_end(s: ScanState, top: Place, end: i32)
    requires
        reads(s, top),
    ensures
        ({
            let left = ScanState { frames: s.frames.drop_last(), ..s };
            scan_run(s, end_events(end)) == if end == 0 {
                (left.leave(), seq![])
            } else {
                (
                    left.remembering(faulted(s.marks())).leave(),
                    seq![ScanEffect::ReportRead(top.dir, end)],
                )
            }
        }),
{
    let e = ScanEvent::End(end);
    let d = ScanEvent::Done;
    let s1 = s.step(e);
    if end == 0 {
        assert(end_events(end) =~= seq![e] + seq![d]);
        lemma_run_one(s, e, seq![d]);
        lemma_run_last(s1, d);
        assert(scan_run(s, end_events(end)).1 =~= seq![]);
    } else {
        let s2 = s1.step(d);
        assert(end_events(end) =~= seq![e] + (seq![d] + seq![d]));
        lemma_run_one(s, e, seq![d] + seq![d]);
        lemma_run_one(s1, d, seq![d]);
        lemma_run_last(s2, d);
        assert(scan_run(s, end_events(end)).1 =~= seq![ScanEffect::ReportRead(top.dir, end)]);
    }
}

/// A directory that opens: from the answer that it does, up to where its
/// entries are read or it is closed unread.
proof fn lemma_opened(s: ScanState, e: ScanEntry)
    requires
        s.phase is OpenDir,
        e.opened is Ok,
        !s.pipe_broken,
    ensures
        ({
            let opened = seq![ScanEvent::Opened(e.opened)] + (if s.ids is None {
                seq![ScanEvent::Ids(e.root)]
            } else {
                seq![]
            });
            let inside = ScanState { frames: s.frames.push(s.hand), ..s };
            scan_run(s, opened) == (
                if met(s.marks(), numbers(s.ids, e)) {
                    inside.released(ScanPhase::CloseDir)
                } else {
                    inside.remembering(noted(s.marks(), numbers(s.ids, e))).released(
                        ScanPhase::ReadDir,
                    )
                },
                Seq::<ScanEffect>::empty(),
            )
        }),
{
    let o = ScanEvent::Opened(e.opened);
    let s1 = s.step(o);
    if s.ids is None {
        let i = ScanEvent::Ids(e.root);
        lemma_run_one(s, o, seq![i]);
        lemma_run_last(s1, i);
        assert(scan_run(s, seq![o] + seq![i]).1 =~= seq![]);
    } else {
        assert(seq![o] + seq![] =~= seq![o]);
        lemma_run_last(s, o);
    }
}

/// The scan, about to enter the directory in hand, does there what `scan_dir`
/// says, and leaves it.
proof fn lemma_dir(s: ScanState, e: ScanEntry)
    requires
        !s.pipe_broken,
        pipe_holds(e),
    ensures
        ({
            let (m, effects) = scan_dir(s.marks(), s.hand, s.ids, e);
            scan_run(s.enter(), dir_events(s.marks(), s.hand, s.ids, e)) == (
                s.remembering(m).leave(),
                effects,
            )
        }),
    decreases e, 1int,
{
    let t = s.enter();
    let events = dir_events(s.marks(), s.hand, s.ids, e);
    let d = ScanEvent::Done;
    if crate::paths::has_nul_byte(s.hand.dir) {
        lemma_run_last(t, d);
    } else {
        let o = ScanEvent::Opened(e.opened);
        match e.opened {
            Err(x) => {
                assert(events =~= seq![o] + seq![d]);
                lemma_run_one(t, o, seq![d]);
                lemma_run_last(t.step(o), d);
                assert(scan_run(t, events).1 =~= seq![ScanEffect::ReportOpen(s.hand.dir, x)]);
            },
            Ok(_) => {
                let ids = numbers(s.ids, e);
                let opened = seq![o] + (if s.ids is None {
                    seq![ScanEvent::Ids(e.root)]
                } else {
                    seq![]
                });
                lemma_opened(t, e);
                let inside = ScanState { frames: s.frames.push(s.hand), ..s };
                assert(inside.frames.drop_last() =~= s.frames);
                if met(s.marks(), ids) {
                    lemma_run_concat(t, opened, seq![d]);
                    lemma_run_last(scan_run(t, opened).0, d);
                    assert(scan_run(t, events).1 =~= seq![]);
                } else {
                    let n = noted(s.marks(), ids);
                    let u = inside.remembering(n).released(ScanPhase::ReadDir);
                    let inner = children_events(n, s.hand, e.children);
                    let (k, effects) = scan_children(n, s.hand, e.children);
                    lemma_run_concat(t, opened + inner, end_events(e.end));
                    lemma_run_concat(t, opened, inner);
                    assert(u.marks() == n);
                    lemma_children(u, s.hand, e.children);
                    lemma_end(u.remembering(k), s.hand, e.end);
                    let shown = if e.end == 0 {
                        effects
                    } else {
                        effects + seq![ScanEffect::ReportRead(s.hand.dir, e.end)]
                    };
                    assert(scan_run(t, events).1 =~= shown);
                    let m = if e.end == 0 {
                        k
                    } else {
                        faulted(k)
                    };
                    assert(scan_run(t, events).0 == s.remembering(m).leave());
                }
            },
        }
    }
}

/// The scan, about to sweep the nested subvolume in hand, does about it what
/// `scan_nested` says.
proof fn lemma_nested(s: ScanState, e: ScanEntry)
    requires
        s.phase is Sweep,
        s.frames.len() > 0,
        s.ids is None,
        !s.pipe_broken,
        pipe_holds(e),
    ensures
        ({
            let (m, effects) = scan_nested(s.marks(), s.hand, e);
            scan_run(s, nested_events(s.marks(), s.hand, e)) == (
                s.remembering(m).next_entry(),
                effects,
            )
        }),
    decreases e, 2int,
{
    let events = nested_events(s.marks(), s.hand, e);
    match e.swept {
        Ok(_) => {
            let n = Marks { emitted: s.emitted || e.emitted, ..s.marks() };
            let a = ScanEvent::Swept(e.emitted);
            let t = s.remembering(n);
            lemma_run_one(s, a, dir_events(n, s.hand, None, e));
            assert(t.marks() == n);
            lemma_dir(t, e);
        },
        Err(x) => {
            let a = ScanEvent::SweepFailed(x, e.emitted);
            let d = ScanEvent::Done;
            let w = ScanEvent::Walked(e.walk_err, false);
            let s1 = s.step(a);
            let s2 = s1.step(d);
            assert(events =~= seq![a] + (seq![d] + seq![w]));
            lemma_run_one(s, a, seq![d] + seq![w]);
            lemma_run_one(s1, d, seq![w]);
            lemma_run_last(s2, w);
            assert(scan_run(s, events).1 =~= seq![
                ScanEffect::Sweep(s.hand),
                ScanEffect::WarnFallback(s.hand.dir, x),
                ScanEffect::Walk(s.hand.dir),
            ]);
        },
    }
}

/// The scan, asking for the next entry, does about it what `scan_entry` says,
/// and then asks for the next.
proof fn lemma_entry(s: ScanState, top: Place, e: ScanEntry)
    requires
        reads(s, top),
        pipe_holds(e),
    ensures
        ({
            let (m, effects) = scan_entry(s.marks(), top, e);
            scan_run(s, entry_events(s.marks(), top, e)) == (s.remembering(m), effects)
        }),
    decreases e, 4int,
{
    let m = s.marks();
    let events = entry_events(m, top, e);
    let a = ScanEvent::Entry(e.name, e.kind);
    let place = crate::scan::entry_place(top, e.name);
    let s1 = s.step(a);
    assert(s.remembering(m) == s);
    if !crate::scan::may_lead_on(e.name, e.kind) || crate::paths::has_nul_byte(place.dir) {
        lemma_run_last(s, a);
    } else {
        let b = ScanEvent::Stated(e.stat);
        let s2 = s1.step(b);
        let after = match e.stat {
            None => seq![],
            Some(st) => if !crate::list::mode_is_dir(st.mode) {
                seq![]
            } else if crate::scan::is_nested_root(st, top.dev) {
                seq![ScanEvent::Listed(listing_of(e.listed))] + (if m.subvols.contains(st.dev) {
                    seq![]
                } else {
                    nested_events(
                        Marks { subvols: m.subvols.insert(st.dev), ..m },
                        crate::scan::nested_place(place, st.dev),
                        e,
                    )
                })
            } else {
                dir_events(m, crate::scan::subdir_place(place), Some((st.dev, st.ino)), e)
            },
        };
        assert(events =~= seq![a] + (seq![b] + after));
        lemma_run_one(s, a, seq![b] + after);
        lemma_run_one(s1, b, after);
        assert(scan_run(s, events).0 == scan_run(s2, after).0);
        assert(scan_run(s, events).1 =~= scan_run(s2, after).1);
        if let Some(st) = e.stat {
            if crate::list::mode_is_dir(st.mode) {
                if crate::scan::is_nested_root(st, top.dev) {
                    lemma_nested_root(s, s2, top, e, st);
                } else {
                    let t = ScanState {
                        hand: crate::scan::subdir_place(place),
                        ids: Some((st.dev, st.ino)),
                        ..s1
                    };
                    assert(s2 == t.enter());
                    assert(t.marks() == m);
                    lemma_dir(t, e);
                }
            }
        }
    }
}

/// The scan, about to list the root of a nested subvolume, lists it and goes on
/// to the subvolume unless it has met that before.
proof fn lemma_nested_root(s: ScanState, s2: ScanState, top: Place, e: ScanEntry, st: Stat)
    requires
        reads(s, top),
        pipe_holds(e),
        s2 == (ScanState {
            hand: crate::scan::nested_place(crate::scan::entry_place(top, e.name), st.dev),
            ..s.goto(ScanPhase::ListEntry)
        }),
    ensures
        ({
            let m = s.marks();
            let listed = seq![ScanEvent::Listed(listing_of(e.listed))];
            let list = seq![ScanEffect::List(s2.hand.dir)];
            if m.subvols.contains(st.dev) {
                scan_run(s2, listed + seq![]) == (s, list)
            } else {
                let n = Marks { subvols: m.subvols.insert(st.dev), ..m };
                let (k, effects) = scan_nested(n, s2.hand, e);
                scan_run(s2, listed + nested_events(n, s2.hand, e)) == (
                    s.remembering(k),
                    list + effects,
                )
            }
        }),
    decreases e, 3int,
{
    let m = s.marks();
    let l = ScanEvent::Listed(listing_of(e.listed));
    if m.subvols.contains(st.dev) {
        assert(seq![l] + seq![] =~= seq![l]);
        lemma_run_last(s2, l);
    } else {
        let n = Marks { subvols: m.subvols.insert(st.dev), ..m };
        let t = s2.step(l);
        lemma_run_one(s2, l, nested_events(n, s2.hand, e));
        assert(t.marks() == n);
        lemma_nested(t, e);
    }
}

/// The scan does about the entries what `scan_children` says.
proof fn lemma_children(s: ScanState, top: Place, children: Seq<ScanEntry>)
    requires
        reads(s, top),
        pipe_holds_in(children),
    ensures
        ({
            let (m, effects) = scan_children(s.marks(), top, children);
            scan_run(s, children_events(s.marks(), top, children)) == (
                s.remembering(m),
                effects,
            )
        }),
    decreases children, 0int,
{
    let m = s.marks();
    assert(s.remembering(m) == s);
    if children.len() > 0 {
        let first = entry_events(m, top, children[0]);
        let (n, shown) = scan_entry(m, top, children[0]);
        let rest = children.drop_first();
        let more = children_events(n, top, rest);
        lemma_entry(s, top, children[0]);
        lemma_run_concat(s, first, more);
        let t = s.remembering(n);
        assert(t.marks() == n);
        lemma_children(t, top, rest);
    }
}

/// A scan sweeps the subvolume that it was given, then does in its directories
/// what `scan_dir` says, and is complete. If that first sweep fails, the scan
/// ends there with the sweep's error, and reports whether a row was written.
pub proof fn law_scan_of_a_subvolume(opts: Opts, path: Seq<u8>, dev: u64, e: ScanEntry)
    requires
        pipe_holds(e),
    ensures
        ({
            let s = ScanState::start(opts, path, dev);
            let sweep = seq![ScanEffect::Sweep(s.hand)];
            match e.swept {
                Ok(_) => {
                    let n = Marks { emitted: e.emitted, ..s.marks() };
                    let (m, effects) = scan_dir(n, s.hand, None, e);
                    scan_run(s, seq![ScanEvent::Swept(e.emitted)] + dir_events(n, s.hand, None, e))
                        == (s.remembering(m).released(ScanPhase::Finished), sweep + effects)
                },
                Err(x) => scan_run(s, seq![ScanEvent::SweepFailed(x, e.emitted)]) == (
                    ScanState { emitted: e.emitted, ..s.goto(ScanPhase::Failed(x)) },
                    sweep,
                ),
            }
        }),
{
    let s = ScanState::start(opts, path, dev);
    match e.swept {
        Ok(_) => {
            let n = Marks { emitted: e.emitted, ..s.marks() };
            let a = ScanEvent::Swept(e.emitted);
            let t = s.remembering(n);
            lemma_run_one(s, a, dir_events(n, s.hand, None, e));
            assert(t.marks() == n);
            lemma_dir(t, e);
        },
        Err(x) => lemma_run_last(s, ScanEvent::SweepFailed(x, e.emitted)),
    }
}

/// A nested subvolume that cannot be swept is walked instead, after a warning,
/// and counts as an error.
pub proof fn law_failed_sweep_is_walked(m: Marks, place: Place, e: ScanEntry)
    requires
        e.swept is Err,
    ensures
        scan_nested(m, place, e).0.had_err,
        scan_nested(m, place, e).1 == seq![
            ScanEffect::Sweep(place),
            ScanEffect::WarnFallback(place.dir, e.swept->Err_0),
            ScanEffect::Walk(place.dir),
        ],
{
}

/// The device number of the subvolume whose sweep the answer `event` leads to.
pub open spec fn sweep_begun(s: ScanState, event: ScanEvent) -> Seq<u64> {
    let t = s.step(event);
    if t.phase is Sweep && !(s.phase is Sweep) {
        seq![t.hand.dev]
    } else {
        seq![]
    }
}

/// The device numbers of the subvolumes whose sweeps begin in a run.
pub open spec fn sweeps_begun(s: ScanState, events: Seq<ScanEvent>) -> Seq<u64>
    decreases events.len(),
{
    if events.len() == 0 {
        seq![]
    } else {
        sweep_begun(s, events[0]) + sweeps_begun(s.step(events[0]), events.drop_first())
    }
}

/// What a run begins to sweep is new, and nothing twice.
proof fn lemma_sweeps_are_new(s: ScanState, events: Seq<ScanEvent>)
    ensures
        sweeps_begun(s, events).no_duplicates(),
        forall|i: int|
            0 <= i < sweeps_begun(s, events).len() ==> !s.subvols.contains(
                #[trigger] sweeps_begun(s, events)[i],
            ),
    decreases events.len(),
{
    if events.len() > 0 {
        let t = s.step(events[0]);
        let first = sweep_begun(s, events[0]);
        let rest = sweeps_begun(t, events.drop_first());
        lemma_sweeps_are_new(t, events.drop_first());
        assert(s.subvols.subset_of(t.subvols));
        if first.len() > 0 {
            assert(!s.subvols.contains(first[0]) && t.subvols.contains(first[0]));
        }
        let all = first + rest;
        assert forall|i: int| 0 <= i < all.len() implies !s.subvols.contains(#[trigger] all[i]) by {
            if i >= first.len() {
                assert(all[i] == rest[i - first.len()]);
            }
        }
        assert forall|i: int, j: int| 0 <= i < j < all.len() implies all[i] != all[j] by {
            if i >= first.len() {
                assert(all[i] == rest[i - first.len()]);
                assert(all[j] == rest[j - first.len()]);
            } else {
                assert(all[j] == rest[j - first.len()]);
                assert(!t.subvols.contains(all[j]));
            }
        }
    }
}

/// No subvolume is swept twice, however often and wherever the scan comes upon
/// it, and whatever it is answered.
pub proof fn law_no_subvolume_is_swept_twice(
    opts: Opts,
    path: Seq<u8>,
    dev: u64,
    events: Seq<ScanEvent>,
)
    ensures
        (seq![dev] + sweeps_begun(ScanState::start(opts, path, dev), events)).no_duplicates(),
{
    let s = ScanState::start(opts, path, dev);
    let rest = sweeps_begun(s, events);
    let all = seq![dev] + rest;
    lemma_sweeps_are_new(s, events);
    assert forall|i: int, j: int| 0 <= i < j < all.len() implies all[i] != all[j] by {
        assert(all[j] == rest[j - 1]);
        assert(!s.subvols.contains(all[j]));
        if i > 0 {
            assert(all[i] == rest[i - 1]);
        } else {
            assert(s.subvols.contains(dev));
        }
    }
}

/// The numbers of the directory that the scan begins to read on the answer
/// `event`, where they are known.
pub open spec fn read_begun(s: ScanState, event: ScanEvent) -> Seq<(u64, u64)> {
    match (s.phase, event) {
        (ScanPhase::OpenDir, ScanEvent::Opened(Ok(_))) => match s.ids {
            Some(ids) if s.step(event).phase is ReadDir => seq![ids],
            _ => seq![],
        },
        (ScanPhase::StatRoot, ScanEvent::Ids(Some(ids))) => if s.step(event).phase is ReadDir {
            seq![ids]
        } else {
            seq![]
        },
        _ => seq![],
    }
}

/// The numbers of the directories that a run begins to read.
pub open spec fn reads_begun(s: ScanState, events: Seq<ScanEvent>) -> Seq<(u64, u64)>
    decreases events.len(),
{
    if events.len() == 0 {
        seq![]
    } else {
        read_begun(s, events[0]) + reads_begun(s.step(events[0]), events.drop_first())
    }
}

/// No directory is read twice, as far as its numbers are known: a cycle of
/// mounts does not trap the scan.
pub proof fn law_no_directory_is_read_twice(s: ScanState, events: Seq<ScanEvent>)
    ensures
        reads_begun(s, events).no_duplicates(),
        forall|i: int|
            0 <= i < reads_begun(s, events).len() ==> !s.dirs.contains(
                #[trigger] reads_begun(s, events)[i],
            ),
    decreases events.len(),
{
    if events.len() > 0 {
        let t = s.step(events[0]);
        let first = read_begun(s, events[0]);
        let rest = reads_begun(t, events.drop_first());
        law_no_directory_is_read_twice(t, events.drop_first());
        assert(s.dirs.subset_of(t.dirs));
        if first.len() > 0 {
            assert(!s.dirs.contains(first[0]) && t.dirs.contains(first[0]));
        }
        let all = first + rest;
        assert forall|i: int| 0 <= i < all.len() implies !s.dirs.contains(#[trigger] all[i]) by {
            if i >= first.len() {
                assert(all[i] == rest[i - first.len()]);
            }
        }
        assert forall|i: int, j: int| 0 <= i < j < all.len() implies all[i] != all[j] by {
            if i >= first.len() {
                assert(all[i] == rest[i - first.len()]);
                assert(all[j] == rest[j - first.len()]);
            } else {
                assert(all[j] == rest[j - first.len()]);
                assert(!t.dirs.contains(all[j]));
            }
        }
    }
}

/// The shape that every reachable scan has: directories are open exactly while
/// one is being read, no path with a NUL byte is opened or examined below the
/// first, and once the pipe is closed only open directories are wound up.
pub open spec fn scan_ok(s: ScanState) -> bool {
    &&& match s.phase {
        ScanPhase::Sweep | ScanPhase::WarnInvalid | ScanPhase::OpenDir | ScanPhase::ReportOpen(_) =>
            true,
        ScanPhase::Finished | ScanPhase::Failed(_) => s.frames.len() == 0,
        _ => s.frames.len() > 0,
    }
    &&& s.pipe_broken ==> s.phase is CloseDir || s.phase is Finished
    &&& forall|i: int|
        0 <= i < s.frames.len() ==> !crate::paths::has_nul_byte((#[trigger] s.frames[i]).dir)
    &&& match s.phase {
        ScanPhase::OpenDir | ScanPhase::StatEntry | ScanPhase::ListEntry => {
            !crate::paths::has_nul_byte(s.hand.dir)
        },
        _ => true,
    }
}

/// Every scan starts in that shape and keeps it, whatever it is answered.
pub proof fn law_scan_invariant(
    s: ScanState,
    opts: Opts,
    path: Seq<u8>,
    dev: u64,
    event: ScanEvent,
)
    ensures
        scan_ok(ScanState::start(opts, path, dev)),
        scan_ok(s) ==> scan_ok(s.step(event)),
{
}

/// Once the pipe is closed it stays so and the error count stands; nothing more
/// is swept, listed, walked or reported, and each closed directory brings the
/// scan nearer to its end.
pub proof fn law_closed_pipe_ends_the_scan(s: ScanState, event: ScanEvent)
    requires
        scan_ok(s),
        s.pipe_broken,
    ensures
        s.step(event).pipe_broken,
        s.step(event).had_err == s.had_err,
        scan_effect(s) == Seq::<ScanEffect>::empty(),
        s.phase is CloseDir && event is Done ==> s.step(event).frames.len() == s.frames.len() - 1,
        s.frames.len() == 0 <==> s.phase is Finished,
{
}

/// A complaint that something may have been missed stands until the end.
pub proof fn law_errors_stand(s: ScanState, event: ScanEvent)
    ensures
        s.had_err ==> s.step(event).had_err,
        s.emitted ==> s.step(event).emitted,
{
}

} // verus!
